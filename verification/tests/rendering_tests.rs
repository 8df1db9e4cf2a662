use pathtracer::mesh::{check_indices, material_of_mesh, material_of_model, mesh_faces, Corners};
use pathtracer::color::Color;
use pathtracer::materials::{Dielectric, Lambertian, Metal};
use pathtracer::rendering::{
    flip_vertical, flipped_row, pixel_of_index, render_bands, render_image, render_pixel,
    render_slab, row_bands, Band, DenoiseSettings,
};
use pathtracer::rng::{axis_of_draw, random_axis, random_int};
use pathtracer::scalar::Scalar;
use pathtracer::texture::{clamp, CheckerBoard, Image, Paint, Raster, SolidColor, Texture, Uv};
use pathtracer::vec3::Vec3;

fn s(x: f32) -> Scalar {
    Scalar::from_bits(x.to_bits())
}

fn v(x: f32, y: f32, z: f32) -> Vec3 {
    Vec3::new(s(x), s(y), s(z))
}

fn rgb(r: f32, g: f32, b: f32) -> Color {
    Color::new(s(r), s(g), s(b))
}

#[test]
fn bands_of_an_image_that_divides_evenly() {
    assert_eq!(
        row_bands(450, 50),
        (0..9).map(|i| Band { first_row: i * 50, rows: 50 }).collect::<Vec<Band>>()
    );
}

#[test]
fn last_band_takes_what_is_left() {
    assert_eq!(
        row_bands(10, 4),
        vec![
            Band { first_row: 0, rows: 4 },
            Band { first_row: 4, rows: 4 },
            Band { first_row: 8, rows: 2 },
        ]
    );
    assert_eq!(row_bands(3, 50), vec![Band { first_row: 0, rows: 3 }]);
    assert_eq!(row_bands(1, 1), vec![Band { first_row: 0, rows: 1 }]);
    assert_eq!(row_bands(0, 7), Vec::<Band>::new());
    assert_eq!(row_bands(u32::MAX, u32::MAX), vec![Band { first_row: 0, rows: u32::MAX }]);
    assert_eq!(
        row_bands(u32::MAX, u32::MAX - 1),
        vec![Band { first_row: 0, rows: u32::MAX - 1 }, Band { first_row: u32::MAX - 1, rows: 1 }]
    );
}

#[test]
fn bands_cover_every_pixel_exactly_once() {
    for height in 0..40u32 {
        for row_h in 1..45u32 {
            let width = 7u32;
            let bands = row_bands(height, row_h);
            let mut covered = vec![0u32; (width * height) as usize];
            for band in bands.iter() {
                assert!(band.rows >= 1);
                assert!(band.rows <= row_h);
                for y in band.first_row..band.first_row + band.rows {
                    for x in 0..width {
                        covered[(y * width + x) as usize] += 1;
                    }
                }
            }
            assert!(covered.iter().all(|&c| c == 1), "{} rows in bands of {}", height, row_h);
            for (i, band) in bands.iter().enumerate() {
                assert_eq!(band.first_row, i as u32 * row_h);
            }
        }
    }
}

#[test]
fn slabs_of_all_bands_make_the_image() {
    let (width, height, row_h) = (5u32, 11u32, 3u32);
    let pixel = |x: u32, y: u32| [x as u8, y as u8, (x + 10 * y) as u8];
    let mut image: Vec<u8> = Vec::new();
    for band in row_bands(height, row_h) {
        image.extend(render_slab(band.first_row, band.rows, width, &pixel));
    }
    assert_eq!(image.len(), (3 * width * height) as usize);
    for y in 0..height {
        for x in 0..width {
            let at = (3 * (y * width + x)) as usize;
            assert_eq!(&image[at..at + 3], &pixel(x, y));
        }
    }
}

#[test]
fn slab_is_written_row_by_row() {
    let pixel = |x: u32, y: u32| [x as u8, y as u8, 9];
    assert_eq!(
        render_slab(4, 2, 3, &pixel),
        vec![0, 4, 9, 1, 4, 9, 2, 4, 9, 0, 5, 9, 1, 5, 9, 2, 5, 9]
    );
    assert_eq!(render_slab(4, 0, 3, &pixel), Vec::<u8>::new());
    assert_eq!(render_slab(4, 2, 0, &pixel), Vec::<u8>::new());
}

#[test]
fn image_is_written_from_the_last_row_down() {
    let pixel = |x: u32, y: u32| [x as u8, y as u8, 9];
    assert_eq!(
        render_image(2, 3, &pixel),
        vec![0, 2, 9, 1, 2, 9, 0, 1, 9, 1, 1, 9, 0, 0, 9, 1, 0, 9]
    );
    assert_eq!(render_image(2, 0, &pixel), Vec::<u8>::new());
    assert_eq!(render_image(0, 3, &pixel), Vec::<u8>::new());
    assert_eq!(render_image(1, 1, &pixel), vec![0, 0, 9]);
}

#[test]
fn pixels_by_their_place() {
    assert_eq!(pixel_of_index(0, 800), (0, 0));
    assert_eq!(pixel_of_index(799, 800), (799, 0));
    assert_eq!(pixel_of_index(800, 800), (0, 1));
    assert_eq!(pixel_of_index(1234567, 800), (1234567 % 800, 1234567 / 800));
    assert_eq!(pixel_of_index(u32::MAX, 1), (0, u32::MAX));
    assert_eq!(flipped_row(0, 450), 449);
    assert_eq!(flipped_row(449, 450), 0);
    assert_eq!(flipped_row(100, 450), 349);
}

#[test]
fn random_integers_lie_in_their_range() {
    for _ in 0..200 {
        assert_eq!(random_int(5, 6), 5);
        let r = random_int(10, 13);
        assert!(10 <= r && r < 13);
        assert!(random_axis() < 3);
        assert_eq!(random_int(u32::MAX - 1, u32::MAX), u32::MAX - 1);
    }
}

#[test]
fn random_axis_takes_every_axis() {
    let mut seen = [false; 3];
    for _ in 0..2000 {
        seen[random_axis()] = true;
    }
    assert_eq!(seen, [true, true, true]);
}

#[test]
fn denoise_settings_are_kept() {
    let d = DenoiseSettings { srgb: false, hdr: true, clean_aux: false };
    assert!(!d.srgb && d.hdr && !d.clean_aux);
    assert_eq!(d, d.clone());
}

#[test]
fn raster_wants_three_bytes_for_each_texel() {
    assert!(Raster::new(vec![0; 24], 4, 2).is_some());
    assert!(Raster::new(vec![0; 23], 4, 2).is_none());
    assert!(Raster::new(vec![0; 25], 4, 2).is_none());
    assert!(Raster::new(vec![], 0, 9).is_some());
    assert!(Raster::new(vec![], u32::MAX, u32::MAX).is_none());
    assert!(Raster::new(vec![1, 2, 3], u32::MAX, u32::MAX).is_none());
}

#[test]
fn raster_texels_are_read_by_column_and_row() {
    let bytes: Vec<u8> = (0..36).collect();
    let raster = Raster::new(bytes, 4, 3).unwrap();
    assert_eq!(raster.get_pixel(0, 0), (0, 1, 2));
    assert_eq!(raster.get_pixel(3, 0), (9, 10, 11));
    assert_eq!(raster.get_pixel(0, 1), (12, 13, 14));
    assert_eq!(raster.get_pixel(3, 2), (33, 34, 35));
}

#[test]
fn image_coordinates_are_held_within_the_image() {
    let image = match Image::new(0, 3, 3) {
        Texture::Image(i) => i,
        _ => panic!("Image::new makes an image"),
    };
    assert_eq!(image.texel(0, 0), (0, 0));
    assert_eq!(image.texel(2, 1), (2, 1));
    assert_eq!(image.texel(3, 3), (2, 2));
    assert_eq!(image.texel(900, 1), (2, 1));
    let bytes: Vec<u8> = (0..27).collect();
    let raster = Raster::new(bytes, 3, 3).unwrap();
    // The first coordinate picks the column, the second the row.
    assert_eq!(image.get_pixel(&raster, 1, 2), (21, 22, 23));
    assert_eq!(image.get_pixel(&raster, 2, 0), (6, 7, 8));
    assert_eq!(image.get_pixel(&raster, 7, 7), (24, 25, 26));
}

#[test]
fn materials_of_a_mesh_file() {
    let diffuse = rgb(0.6, 0.5, 0.4);
    let solid = SolidColor::new(diffuse);
    assert_eq!(material_of_model(Some(7), diffuse, s(1.45), s(0.1)), Dielectric::new(s(1.45)));
    assert_eq!(material_of_model(Some(5), diffuse, s(1.45), s(0.1)), Metal::new(solid, s(0.1)));
    assert_eq!(material_of_model(Some(2), diffuse, s(1.45), s(0.1)), Lambertian::new(solid));
    assert_eq!(material_of_model(Some(0), diffuse, s(1.45), s(0.1)), Lambertian::new(solid));
    assert_eq!(material_of_model(None, diffuse, s(1.45), s(0.1)), Lambertian::new(solid));
    let list = vec![Dielectric::new(s(1.5)), Lambertian::new(solid)];
    let default_mat = Metal::new(solid, s(0.0));
    assert_eq!(material_of_mesh(Some(1), &list, default_mat), Lambertian::new(solid));
    assert_eq!(material_of_mesh(Some(0), &list, default_mat), Dielectric::new(s(1.5)));
    assert_eq!(material_of_mesh(None, &list, default_mat), default_mat);
}

#[test]
fn faces_of_a_mesh() {
    let positions: Vec<Scalar> = (0..12).map(|k| s(k as f32)).collect();
    let indices: Vec<u32> = vec![0, 1, 2, 2, 1, 3, 0];
    assert!(check_indices(&positions, &indices));
    let faces = mesh_faces(&positions, &indices);
    assert_eq!(
        faces,
        vec![
            Corners { v0: v(0.0, 1.0, 2.0), v1: v(3.0, 4.0, 5.0), v2: v(6.0, 7.0, 8.0) },
            Corners { v0: v(6.0, 7.0, 8.0), v1: v(3.0, 4.0, 5.0), v2: v(9.0, 10.0, 11.0) },
        ]
    );
    assert_eq!(mesh_faces(&positions, &vec![0, 1]), vec![]);
    assert!(!check_indices(&positions, &vec![0, 1, 4]));
    assert!(!check_indices(&positions[..11].to_vec(), &vec![0, 1, 3]));
    // An index that belongs to no face is not looked at.
    assert!(check_indices(&positions, &vec![0, 1, 2, 9]));
    assert!(check_indices(&positions, &vec![]));
}

#[test]
fn flip_turns_the_rows_round() {
    let bytes: Vec<u8> = (0..18).collect();
    assert_eq!(
        flip_vertical(bytes.clone(), 2, 3),
        Some(vec![12, 13, 14, 15, 16, 17, 6, 7, 8, 9, 10, 11, 0, 1, 2, 3, 4, 5])
    );
    assert_eq!(
        flip_vertical(bytes.clone(), 3, 2),
        Some(vec![9, 10, 11, 12, 13, 14, 15, 16, 17, 0, 1, 2, 3, 4, 5, 6, 7, 8])
    );
    assert_eq!(flip_vertical(bytes.clone(), 6, 1), Some(bytes.clone()));
    assert_eq!(flip_vertical(vec![], 0, 5), Some(vec![]));
    assert_eq!(flip_vertical(vec![], 5, 0), Some(vec![]));
}

#[test]
fn flip_wants_three_bytes_for_each_pixel() {
    let bytes: Vec<u8> = (0..18).collect();
    assert_eq!(flip_vertical(bytes.clone(), 2, 2), None);
    assert_eq!(flip_vertical(bytes.clone(), 2, 4), None);
    assert_eq!(flip_vertical(bytes.clone(), u32::MAX, u32::MAX), None);
    assert_eq!(flip_vertical(vec![], 1, 1), None);
}

#[test]
fn flip_twice_gives_the_picture_back() {
    let bytes: Vec<u8> = (0..180).map(|k| (k * 7 % 251) as u8).collect();
    for (w, h) in [(1, 60), (60, 1), (4, 15), (12, 5), (3, 20)] {
        let once = flip_vertical(bytes.clone(), w, h).unwrap();
        assert_eq!(flip_vertical(once, w, h), Some(bytes.clone()));
    }
}

#[test]
fn slabs_flipped_are_the_image_from_the_last_row_down() {
    let (width, height, row_h) = (5u32, 11u32, 4u32);
    let pixel = |x: u32, y: u32| [x as u8, y as u8, (x + 10 * y) as u8];
    let mut image: Vec<u8> = Vec::new();
    for band in row_bands(height, row_h) {
        image.extend(render_slab(band.first_row, band.rows, width, &pixel));
    }
    assert_eq!(flip_vertical(image, width, height), Some(render_image(width, height, &pixel)));
}

fn f(x: Scalar) -> f32 {
    f32::from_bits(x.to_bits())
}

fn paint() -> Paint<
    impl Fn(&CheckerBoard, Vec3) -> Scalar,
    impl Fn(Scalar, u32) -> Scalar,
    impl Fn(Scalar) -> Scalar,
    impl Fn(u8, u8, u8) -> Color,
> {
    Paint {
        sines: |tex: &CheckerBoard, point: Vec3| -> Scalar {
            let k = f(tex.scale);
            s((k * f(point.x)).sin() * (k * f(point.y)).sin() * (k * f(point.z)).sin())
        },
        scale: |x: Scalar, n: u32| -> Scalar { s(f(x) * n as f32) },
        complement: |x: Scalar| -> Scalar { s(1.0 - f(x)) },
        tint: |r: u8, g: u8, b: u8| -> Color { rgb(r as f32 / 255.0, g as f32 / 255.0, b as f32 / 255.0) },
    }
}

fn uv(u: f32, w: f32) -> Uv {
    Uv { u: s(u), v: s(w) }
}

#[test]
fn clamp_holds_a_number_between_two() {
    assert_eq!(clamp(s(0.5), s(0.0), s(1.0)), s(0.5));
    assert_eq!(clamp(s(-0.5), s(0.0), s(1.0)), s(0.0));
    assert_eq!(clamp(s(1.5), s(0.0), s(1.0)), s(1.0));
    assert_eq!(clamp(s(f32::NAN), s(0.0), s(1.0)), s(1.0));
    let mut k = 0;
    while k < 100 {
        let x = k as f32 * 0.05 - 2.0;
        assert_eq!(f(clamp(s(x), s(-1.0), s(1.5))), x.min(1.5).max(-1.0));
        k += 1;
    }
}

#[test]
fn solid_and_checkered_textures_are_looked_up() {
    let none: Vec<Raster> = Vec::new();
    let solid = SolidColor::new(rgb(0.2, 0.4, 0.6));
    assert!(solid.is_fit(&none));
    assert_eq!(solid.get_color_uv(uv(0.3, 0.9), v(1.0, 2.0, 3.0), &none, &paint()), rgb(0.2, 0.4, 0.6));
    let board = CheckerBoard::new(rgb(1.0, 0.1, 0.1), rgb(0.5, 0.1, 0.1), s(1.0));
    assert!(board.is_fit(&none));
    // All three sines are positive.
    assert_eq!(board.get_color_uv(uv(0.0, 0.0), v(1.0, 1.0, 1.0), &none, &paint()), rgb(0.5, 0.1, 0.1));
    // One sine is negative.
    assert_eq!(board.get_color_uv(uv(0.0, 0.0), v(1.0, -1.0, 1.0), &none, &paint()), rgb(1.0, 0.1, 0.1));
    // Two sines are negative.
    assert_eq!(board.get_color_uv(uv(0.0, 0.0), v(4.0, -1.0, 1.0), &none, &paint()), rgb(0.5, 0.1, 0.1));
}

#[test]
fn image_texture_is_looked_up_by_surface_coordinate() {
    let bytes: Vec<u8> = (0..48).map(|k| (k * 5) as u8).collect();
    let rasters = vec![Raster::new(vec![0; 3], 1, 1).unwrap(), Raster::new(bytes, 4, 4).unwrap()];
    let image = Image::new(1, 4, 4);
    assert!(image.is_fit(&rasters));
    let texel = |column: u32, row: u32| {
        let at = (3 * (row * 4 + column)) as f32 * 5.0;
        rgb(at / 255.0, (at + 5.0) / 255.0, (at + 10.0) / 255.0)
    };
    let none = v(0.0, 0.0, 0.0);
    // u = 0.3 gives the column 1; v = 0.9 turns to 0.1 and gives the row 0.
    assert_eq!(image.get_color_uv(uv(0.3, 0.9), none, &rasters, &paint()), texel(1, 0));
    assert_eq!(image.get_color_uv(uv(0.0, 1.0), none, &rasters, &paint()), texel(0, 0));
    assert_eq!(image.get_color_uv(uv(0.6, 0.2), none, &rasters, &paint()), texel(2, 3));
    // Coordinates beyond the texture are held to it.
    assert_eq!(image.get_color_uv(uv(1.0, 0.0), none, &rasters, &paint()), texel(3, 3));
    assert_eq!(image.get_color_uv(uv(7.0, -3.0), none, &rasters, &paint()), texel(3, 3));
    assert_eq!(image.get_color_uv(uv(-7.0, 3.0), none, &rasters, &paint()), texel(0, 0));
}

#[test]
fn image_texture_must_fit_its_raster() {
    let rasters = vec![Raster::new(vec![0; 24], 4, 2).unwrap()];
    assert!(Image::new(0, 4, 2).is_fit(&rasters));
    assert!(Image::new(0, 3, 2).is_fit(&rasters));
    assert!(!Image::new(0, 2, 4).is_fit(&rasters));
    assert!(!Image::new(0, 0, 2).is_fit(&rasters));
    assert!(!Image::new(0, 4, 0).is_fit(&rasters));
    assert!(!Image::new(1, 4, 2).is_fit(&rasters));
    let broken = vec![Raster { pixels: vec![0; 23], width: 4, height: 2 }];
    assert!(!Image::new(0, 4, 2).is_fit(&broken));
}

#[test]
fn image_texture_that_is_wider_than_high_is_looked_up() {
    let bytes: Vec<u8> = (0..24).collect();
    let rasters = vec![Raster::new(bytes, 4, 2).unwrap()];
    let image = Image::new(0, 4, 2);
    let none = v(0.0, 0.0, 0.0);
    let texel = |column: u32, row: u32| {
        let at = (3 * (row * 4 + column)) as f32;
        rgb(at / 255.0, (at + 1.0) / 255.0, (at + 2.0) / 255.0)
    };
    // The top of the picture is where v is one.
    assert_eq!(image.get_color_uv(uv(0.0, 1.0), none, &rasters, &paint()), texel(0, 0));
    assert_eq!(image.get_color_uv(uv(0.8, 0.9), none, &rasters, &paint()), texel(3, 0));
    assert_eq!(image.get_color_uv(uv(0.3, 0.2), none, &rasters, &paint()), texel(1, 1));
    assert_eq!(image.get_color_uv(uv(1.0, 0.0), none, &rasters, &paint()), texel(3, 1));
}

fn plus(a: Color, b: Color) -> Color {
    rgb(f(a.r) + f(b.r), f(a.g) + f(b.g), f(a.b) + f(b.b))
}

fn mean_root(total: Color, n: u32) -> Color {
    let n = n as f32;
    rgb((f(total.r) / n).sqrt() * 255.0, (f(total.g) / n).sqrt() * 255.0, (f(total.b) / n).sqrt() * 255.0)
}

#[test]
fn pixel_is_the_toned_sum_of_its_samples() {
    let cast = |x: u32, y: u32| rgb(x as f32 * 0.25, y as f32 * 0.0625, 4.0);
    // Four samples of (0.25, 0.25, 4): the mean is the sample, its root is
    // (0.5, 0.5, 2), which is (127.5, 127.5, 510) in the range of a byte.
    assert_eq!(render_pixel(1, 4, 4, &cast, &plus, &mean_root), [127, 127, 255]);
    assert_eq!(render_pixel(4, 16, 1, &cast, &plus, &mean_root), [255, 255, 255]);
    assert_eq!(render_pixel(0, 0, 3, &cast, &plus, &mean_root), [0, 0, 255]);
}

#[test]
fn pixel_casts_as_many_samples_as_it_is_told() {
    let count = std::cell::Cell::new(0u32);
    let cast = |_x: u32, _y: u32| {
        count.set(count.get() + 1);
        rgb(1.0, 1.0, 1.0)
    };
    let total_of = |total: Color, _n: u32| total;
    assert_eq!(render_pixel(3, 5, 100, &cast, &plus, &total_of), [100, 100, 100]);
    assert_eq!(count.get(), 100);
    // Without a sample the sum is black; the mean of nothing is no number,
    // and is cut to zero.
    assert_eq!(render_pixel(3, 5, 0, &cast, &plus, &total_of), [0, 0, 0]);
    assert_eq!(render_pixel(3, 5, 0, &cast, &plus, &mean_root), [0, 0, 0]);
    assert_eq!(count.get(), 100);
}

#[test]
fn bands_one_after_the_other_are_the_picture() {
    let pixel = |x: u32, y: u32| [x as u8, y as u8, (x + 10 * y) as u8];
    for height in 0..13u32 {
        for row_h in 1..15u32 {
            for width in [0u32, 1, 5] {
                let bytes = render_bands(height, row_h, width, &pixel);
                assert_eq!(bytes.len(), (3 * width * height) as usize);
                assert_eq!(bytes, render_slab(0, height, width, &pixel));
                assert_eq!(flip_vertical(bytes, width, height), Some(render_image(width, height, &pixel)));
            }
        }
    }
}

#[test]
fn every_pixel_is_painted_once_by_the_bands() {
    let count = std::cell::RefCell::new(vec![0u32; 7 * 9]);
    let pixel = |x: u32, y: u32| {
        count.borrow_mut()[(y * 7 + x) as usize] += 1;
        [0, 0, 0]
    };
    render_bands(9, 4, 7, &pixel);
    assert!(count.borrow().iter().all(|&c| c == 1));
}

#[test]
fn a_drawn_number_stands_for_its_axis() {
    assert_eq!(axis_of_draw(0), 0);
    assert_eq!(axis_of_draw(1), 1);
    assert_eq!(axis_of_draw(2), 2);
}
