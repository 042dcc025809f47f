use pathtracer::ppm::header;
use pathtracer::ppm::pixel;

#[test]
fn the_header_names_format_size_and_depth() {
    assert_eq!(header(250, 125), b"P3\n250 125\n255\n".to_vec());
}

#[test]
fn the_header_of_a_one_by_one_image() {
    assert_eq!(header(1, 1), b"P3\n1 1\n255\n".to_vec());
}

#[test]
fn the_header_writes_any_size_in_decimal() {
    assert_eq!(header(0, 0), b"P3\n0 0\n255\n".to_vec());
    assert_eq!(header(-5, 10), b"P3\n-5 10\n255\n".to_vec());
    assert_eq!(
        header(i32::MAX, i32::MIN),
        format!("P3\n{} {}\n255\n", i32::MAX, i32::MIN).into_bytes()
    );
}

#[test]
fn a_pixel_is_one_line_of_three_numbers() {
    assert_eq!(pixel(255, 0, 127), b"255 0 127\n".to_vec());
    assert_eq!(pixel(0, 0, 0), b"0 0 0\n".to_vec());
}

#[test]
fn a_pixel_writes_any_channel_value_in_decimal() {
    assert_eq!(pixel(1000, 10, 9), b"1000 10 9\n".to_vec());
    assert_eq!(
        pixel(u32::MAX, 4_000_000_000, 100),
        format!("{} {} {}\n", u32::MAX, 4_000_000_000u32, 100).into_bytes()
    );
}

#[test]
fn pixels_agree_with_the_standard_notation() {
    for n in [0u32, 1, 9, 10, 11, 99, 100, 101, 255, 256, 65_535, 1_000_000, 123_456_789] {
        assert_eq!(pixel(n, n, n), format!("{} {} {}\n", n, n, n).into_bytes());
    }
}
