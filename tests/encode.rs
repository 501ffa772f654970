use raytracer::{push_decimal, Image, Pixel};

fn rgb(r: u8, g: u8, b: u8) -> Pixel {
    Pixel { r, g, b }
}

fn decimal(n: usize) -> Vec<u8> {
    let mut out = Vec::new();
    push_decimal(&mut out, n);
    out
}

#[test]
fn decimal_digits() {
    assert_eq!(decimal(0), b"0".to_vec());
    assert_eq!(decimal(7), b"7".to_vec());
    assert_eq!(decimal(10), b"10".to_vec());
    assert_eq!(decimal(255), b"255".to_vec());
    assert_eq!(decimal(1234567), b"1234567".to_vec());
    assert_eq!(decimal(usize::MAX), usize::MAX.to_string().into_bytes());
}

#[test]
fn ppm_of_two_pixels() {
    let mut img = Image::new(1, 2);
    img.set_pixel(0, 1, rgb(1, 20, 3));
    let text = String::from_utf8(img.ppm_bytes()).unwrap();
    assert_eq!(text, "P3\n2 1\n255\n255 0 255\n1 20 3\n");
}

#[test]
fn ppm_rows_top_first() {
    let mut img = Image::new(2, 1);
    img.set_pixels(vec![rgb(10, 11, 12), rgb(0, 0, 0)]);
    let text = String::from_utf8(img.ppm_bytes()).unwrap();
    assert_eq!(text, "P3\n1 2\n255\n10 11 12\n0 0 0\n");
}

#[test]
fn bmp_header_and_padded_rows() {
    // One column, two rows: each row is 3 bytes plus 1 byte of padding.
    let mut img = Image::new(2, 1);
    img.set_pixels(vec![rgb(1, 2, 3), rgb(4, 5, 6)]);
    let bytes = img.bmp_bytes().unwrap();
    let mut expected: Vec<u8> = vec![b'B', b'M', 62, 0, 0, 0, 0, 0, 0, 0, 54, 0, 0, 0];
    expected.extend_from_slice(&[40, 0, 0, 0, 1, 0, 0, 0, 2, 0, 0, 0, 1, 0, 24, 0]);
    expected.extend_from_slice(&[0, 0, 0, 0, 8, 0, 0, 0]);
    expected.extend_from_slice(&[0; 16]);
    // Bottom row first, blue green red.
    expected.extend_from_slice(&[6, 5, 4, 0, 3, 2, 1, 0]);
    assert_eq!(bytes.len(), 62);
    assert_eq!(bytes, expected);
}

#[test]
fn bmp_width_four_has_no_padding() {
    let img = Image::new(1, 4);
    let bytes = img.bmp_bytes().unwrap();
    assert_eq!(bytes.len(), 54 + 12);
    assert_eq!(&bytes[2..6], &[66, 0, 0, 0]);
    assert_eq!(&bytes[34..38], &[12, 0, 0, 0]);
    assert_eq!(&bytes[54..], &[255, 0, 255, 255, 0, 255, 255, 0, 255, 255, 0, 255]);
}

#[test]
fn bmp_sizes_above_one_byte() {
    // 100 columns: 300 bytes per row, already a multiple of four.
    let img = Image::new(3, 100);
    let bytes = img.bmp_bytes().unwrap();
    assert_eq!(bytes.len(), 54 + 900);
    assert_eq!(&bytes[2..6], &[0xba, 0x03, 0, 0]);
    assert_eq!(&bytes[18..22], &[100, 0, 0, 0]);
    assert_eq!(&bytes[22..26], &[3, 0, 0, 0]);
    assert_eq!(&bytes[34..38], &[0x84, 0x03, 0, 0]);
}
