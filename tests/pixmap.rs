use raytracer::image::{Image, Rgb8};
use raytracer::pixmap::{encode, push_decimal, write_header, write_pixel};

fn text(bytes: &[u8]) -> String {
    String::from_utf8(bytes.to_vec()).unwrap()
}

#[test]
fn decimal_of_zero() {
    let mut out = Vec::new();
    push_decimal(&mut out, 0);
    assert_eq!(text(&out), "0");
}

#[test]
fn decimal_appends_digits() {
    let mut out = b"x".to_vec();
    push_decimal(&mut out, 255);
    push_decimal(&mut out, 1000);
    assert_eq!(text(&out), "x2551000");
}

#[test]
fn decimal_of_largest_value() {
    let mut out = Vec::new();
    push_decimal(&mut out, u64::MAX);
    assert_eq!(text(&out), "18446744073709551615");
}

#[test]
fn header_names_format_size_and_depth() {
    let mut out = Vec::new();
    write_header(&mut out, 400, 225);
    assert_eq!(text(&out), "P3\n400 225\n255\n");
}

#[test]
fn pixel_line_is_three_numbers() {
    let mut out = Vec::new();
    write_pixel(&mut out, Rgb8 { r: 255, g: 0, b: 7 });
    assert_eq!(text(&out), "255 0 7\n");
}

#[test]
fn encode_writes_top_row_first() {
    let mut img = Image::new(2, 2);
    img.set(0, 1, Rgb8 { r: 1, g: 2, b: 3 });
    img.set(1, 1, Rgb8 { r: 4, g: 5, b: 6 });
    img.set(0, 0, Rgb8 { r: 7, g: 8, b: 9 });
    img.set(1, 0, Rgb8 { r: 10, g: 11, b: 12 });
    assert_eq!(
        text(&encode(&img)),
        "P3\n2 2\n255\n1 2 3\n4 5 6\n7 8 9\n10 11 12\n"
    );
}

#[test]
fn encode_empty_image_is_header_only() {
    let img = Image::new(0, 0);
    assert_eq!(text(&encode(&img)), "P3\n0 0\n255\n");
}

#[test]
fn encode_is_deterministic() {
    let mut img = Image::new(3, 1);
    img.set(2, 0, Rgb8 { r: 200, g: 100, b: 50 });
    assert_eq!(encode(&img), encode(&img));
    assert_eq!(text(&encode(&img)), "P3\n3 1\n255\n0 0 0\n0 0 0\n200 100 50\n");
}
