use rdp::connection::update::{collect_invalid_rects, GdiRegion};
use rdp::geom::Rect;

fn region(null: bool, x: i32, y: i32, w: i32, h: i32) -> GdiRegion {
    GdiRegion { null, x, y, w, h }
}

#[test]
fn nothing_to_report() {
    let empty = region(true, 0, 0, 0, 0);
    assert_eq!(collect_invalid_rects(&empty, None, 0), None);
    assert_eq!(collect_invalid_rects(&empty, Some(&[][..]), -3), None);
}

#[test]
fn invalid_region_first_then_listed() {
    let inv = region(false, 1, 2, 30, 40);
    let listed = [
        region(false, 5, 6, 7, 8),
        region(true, 0, 0, 10, 10),
        region(false, 0, 0, 0, 10),
        region(false, 0, 0, 16384, 10),
        region(false, -4, 9, 16383, 1),
    ];
    let rects = collect_invalid_rects(&inv, Some(&listed[..]), 5).unwrap();
    assert_eq!(
        rects,
        vec![
            Rect::new(1, 2, 30, 40),
            Rect::new(5, 6, 7, 8),
            Rect::new(-4, 9, 16383, 1),
        ]
    );
    // Only the first `ninvalid` listed regions are read.
    let rects = collect_invalid_rects(&inv, Some(&listed[..]), 1).unwrap();
    assert_eq!(rects, vec![Rect::new(1, 2, 30, 40), Rect::new(5, 6, 7, 8)]);
}

#[test]
fn empty_invalid_region_with_listed_regions() {
    let inv = region(true, 0, 0, 0, 0);
    let listed = [region(false, 3, 3, 3, 3)];
    assert_eq!(collect_invalid_rects(&inv, Some(&listed[..]), 1), Some(vec![Rect::new(3, 3, 3, 3)]));
    // No list allocated: only a reset is reported.
    assert_eq!(collect_invalid_rects(&inv, None, 1), Some(Vec::new()));
}

#[test]
fn listed_count_is_capped() {
    let inv = region(true, 0, 0, 0, 0);
    let listed: Vec<GdiRegion> = (0..300).map(|i| region(false, i, 0, 1, 1)).collect();
    let rects = collect_invalid_rects(&inv, Some(&listed[..]), 300).unwrap();
    assert_eq!(rects.len(), 256);
    assert_eq!(rects[255], Rect::new(255, 0, 1, 1));
}
