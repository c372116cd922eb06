use rdp::utils::graphics::pixel_format;

#[test]
fn pixel_format_rgba32() {
    let pf = pixel_format(32, 3, 8, 8, 8, 8);
    assert_eq!(pf, 0x20038888);
}

#[test]
fn pixel_format_bgra32() {
    let pf = pixel_format(32, 4, 8, 8, 8, 8);
    assert_eq!(pf, 0x20048888);
}

#[test]
fn pixel_format_all_zero() {
    assert_eq!(pixel_format(0, 0, 0, 0, 0, 0), 0);
}

#[test]
fn pixel_format_fields_read_back() {
    let pf = pixel_format(24, 2, 0, 8, 8, 8);
    assert_eq!(pf >> 24, 24);
    assert_eq!((pf >> 16) & 0xFF, 2);
    assert_eq!((pf >> 12) & 0xF, 0);
    assert_eq!(pf & 0xF, 8);
    assert_eq!(pixel_format(16, 1, 0, 5, 6, 5), 0x10010565);
}
