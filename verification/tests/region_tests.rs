//! Tests of the bounding-region forms: the corner form and the
//! center-plus-half-extent form describe the same rectangle.

use voronoiville::BoundingRegion;

#[test]
fn bbox_conversion() {
    let centered = BoundingRegion::centered(0, 0, 25, 25).unwrap();
    let corners = BoundingRegion { x1: -25, y1: -25, x2: 25, y2: 25 };
    assert_eq!(centered, corners);
}

#[test]
fn centered_off_origin() {
    let centered = BoundingRegion::centered(10, -20, 5, 15).unwrap();
    assert_eq!(centered, BoundingRegion { x1: 5, y1: -35, x2: 15, y2: -5 });
    assert!(centered.is_valid());
}

#[test]
fn degenerate_region_is_invalid() {
    let r = BoundingRegion { x1: 0, y1: 0, x2: 0, y2: 10 };
    assert!(!r.is_valid());
    let flat = BoundingRegion::centered(0, 0, 10, 0).unwrap();
    assert!(!flat.is_valid());
}
