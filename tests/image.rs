use raytracer::{gamma_code, Image, Pixel};

fn rgb(r: u8, g: u8, b: u8) -> Pixel {
    Pixel { r, g, b }
}

#[test]
fn pixel_new_is_magenta() {
    assert_eq!(Pixel::new(), rgb(255, 0, 255));
}

#[test]
fn image_new_has_dimensions_and_unset_pixels() {
    let img = Image::new(3, 4);
    assert_eq!(img.height(), 3);
    assert_eq!(img.width(), 4);
    for row in 0..3 {
        for col in 0..4 {
            assert_eq!(img.pixel(row, col), Pixel::new());
        }
    }
}

#[test]
fn gamma_code_exact_values() {
    assert_eq!(gamma_code(0, 0), 0);
    assert_eq!(gamma_code(0, 5), 0);
    assert_eq!(gamma_code(1, 1), 255);
    assert_eq!(gamma_code(7, 7), 255);
    assert_eq!(gamma_code(1, 4), 127);
    assert_eq!(gamma_code(1, 2), 181);
    assert_eq!(gamma_code(3, 4), 221);
    assert_eq!(gamma_code(1, 100), 25);
    assert_eq!(gamma_code(1, 3), 147);
    assert_eq!(gamma_code(2, 3), 209);
}

#[test]
fn gamma_code_large_denominator() {
    assert_eq!(gamma_code(usize::MAX, usize::MAX), 255);
    assert_eq!(gamma_code(usize::MAX / 4, usize::MAX), 127);
}

#[test]
fn sample_image_ramps() {
    let img = Image::sample_image(3, 5);
    assert_eq!(img.height(), 3);
    assert_eq!(img.width(), 5);
    let reds = [0u8, 127, 181, 221, 255];
    let greens = [0u8, 181, 255];
    for row in 0..3 {
        for col in 0..5 {
            assert_eq!(img.pixel(row, col), rgb(reds[col], greens[row], 0));
        }
    }
}

#[test]
fn sample_image_single_pixel_is_black() {
    let img = Image::sample_image(1, 1);
    assert_eq!(img.pixel(0, 0), rgb(0, 0, 0));
}

#[test]
fn set_pixel_changes_one_pixel() {
    let mut img = Image::new(2, 2);
    img.set_pixel(1, 0, rgb(1, 2, 3));
    assert_eq!(img.pixel(1, 0), rgb(1, 2, 3));
    assert_eq!(img.pixel(0, 0), Pixel::new());
    assert_eq!(img.pixel(0, 1), Pixel::new());
    assert_eq!(img.pixel(1, 1), Pixel::new());
}

#[test]
fn set_pixels_is_row_major() {
    let mut img = Image::new(2, 3);
    let colors: Vec<Pixel> = (0..6u8).map(|i| rgb(i, 10 + i, 20 + i)).collect();
    img.set_pixels(colors);
    assert_eq!(img.width(), 3);
    assert_eq!(img.height(), 2);
    for row in 0..2 {
        for col in 0..3 {
            let i = (row * 3 + col) as u8;
            assert_eq!(img.pixel(row, col), rgb(i, 10 + i, 20 + i));
        }
    }
}
