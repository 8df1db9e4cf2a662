[package]
name = "pathtracer"
version = "0.1.0"
edition = "2021"
publish = false

[dependencies]
rand = "=0.8.8"
rayon = "=1.12.0"
image = { version = "=0.24.9", default-features = false, features = ["png", "jpeg"] }
indicatif = "=0.16.2"
# The program names nothing of console. indicatif 0.16 takes console without
# its default features and does not build so; this line switches them on.
console = "=0.16.6"
tobj = "=3.2.5"
oidn = "=1.4.3"
