use raytracer::image::{emission_index, scan_position, Image, Rgb8};

#[test]
fn first_emitted_pixel_is_top_left() {
    assert_eq!(scan_position(4, 3, 0), (0, 2));
}

#[test]
fn last_emitted_pixel_is_bottom_right() {
    assert_eq!(scan_position(4, 3, 11), (3, 0));
}

#[test]
fn scan_walks_rows_top_to_bottom_left_to_right() {
    let mut seen = Vec::new();
    for k in 0..6 {
        seen.push(scan_position(3, 2, k));
    }
    assert_eq!(seen, vec![(0, 1), (1, 1), (2, 1), (0, 0), (1, 0), (2, 0)]);
}

#[test]
fn emission_index_inverts_scan_position() {
    for k in 0..20 {
        let (i, j) = scan_position(5, 4, k);
        assert_eq!(emission_index(5, 4, i, j), k);
    }
    assert_eq!(emission_index(5, 4, 2, 3), 2);
    assert_eq!(emission_index(5, 4, 0, 0), 15);
}

#[test]
fn single_pixel_image() {
    assert_eq!(scan_position(1, 1, 0), (0, 0));
    assert_eq!(emission_index(1, 1, 0, 0), 0);
}

#[test]
fn new_image_is_black() {
    let img = Image::new(3, 2);
    assert_eq!(img.width(), 3);
    assert_eq!(img.height(), 2);
    assert_eq!(img.pixels().len(), 6);
    for p in img.pixels() {
        assert_eq!(*p, Rgb8 { r: 0, g: 0, b: 0 });
    }
}

#[test]
fn empty_image_has_no_pixels() {
    let img = Image::new(0, 5);
    assert_eq!(img.pixels().len(), 0);
}

#[test]
fn set_then_get_and_output_order() {
    let mut img = Image::new(2, 2);
    let red = Rgb8 { r: 255, g: 0, b: 0 };
    let blue = Rgb8 { r: 0, g: 0, b: 255 };
    img.set(1, 1, red);
    img.set(0, 0, blue);
    assert_eq!(img.get(1, 1), red);
    assert_eq!(img.get(0, 0), blue);
    assert_eq!(img.get(0, 1), Rgb8 { r: 0, g: 0, b: 0 });
    // top-right is second in the stream, bottom-left third
    assert_eq!(img.pixels()[1], red);
    assert_eq!(img.pixels()[2], blue);
}
