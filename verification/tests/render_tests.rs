use rust_cv_core::BoundingBox;
use rust_cv_core::Detection;

fn d(class_id: i32, conf: i64, bbox: (i64, i64, i64, i64)) -> Detection {
    Detection::new(class_id, conf, BoundingBox::new(bbox.0, bbox.1, bbox.2, bbox.3))
}

#[test]
fn render_format() {
    // Confidence 0.876 rounds half away from zero to two decimals.
    let out = d(3, 876, (0, 0, 10, 10)).render();
    assert_eq!(out, "Detection(id=3, conf=0.88, bbox=(0, 0, 10, 10))");
}

#[test]
fn render_whole_confidence() {
    let out = d(0, 900, (1, 1, 2, 2)).render();
    assert_eq!(out, "Detection(id=0, conf=0.90, bbox=(1, 1, 2, 2))");
}

#[test]
fn render_confidence_of_one() {
    let out = d(5, 1000, (12, 34, 56, 78)).render();
    assert_eq!(out, "Detection(id=5, conf=1.00, bbox=(12, 34, 56, 78))");
}

#[test]
fn render_rounds_half_away_from_zero() {
    // 0.125 -> 0.13, not 0.12.
    let out = d(1, 125, (0, 0, 1, 1)).render();
    assert_eq!(out, "Detection(id=1, conf=0.13, bbox=(0, 0, 1, 1))");
}

#[test]
fn render_negative_values() {
    let out = d(-2, -996, (-1, -2, 3, 4)).render();
    assert_eq!(out, "Detection(id=-2, conf=-1.00, bbox=(-1, -2, 3, 4))");
}

#[test]
fn render_tiny_negative_confidence_has_no_sign() {
    // -0.004 rounds to zero hundredths, which is rendered unsigned.
    let out = d(0, -4, (0, 0, 1, 1)).render();
    assert_eq!(out, "Detection(id=0, conf=0.00, bbox=(0, 0, 1, 1))");
}

#[test]
fn render_out_of_range_confidence() {
    let out = d(0, 12345, (0, 0, 1, 1)).render();
    assert_eq!(out, "Detection(id=0, conf=12.35, bbox=(0, 0, 1, 1))");
}

#[test]
fn detection_is_a_plain_value() {
    let a = d(4, 250, (9, 8, 7, 6));
    let b = Detection::new(4, 250, BoundingBox::new(9, 8, 7, 6));
    assert_eq!(a, b);
    assert_eq!(a.class_id, 4);
    assert_eq!(a.conf, 250);
    assert_eq!(a.bbox.x, 9);
    assert_eq!(a.bbox.y, 8);
    assert_eq!(a.bbox.width, 7);
    assert_eq!(a.bbox.height, 6);
}

#[test]
fn render_extreme_values() {
    // i64::MIN thousandths is -9223372036854775.808 units, which rounds to
    // -9223372036854775.81.
    let out = d(i32::MIN, i64::MIN, (i64::MIN, i64::MAX, 0, -1)).render();
    assert_eq!(
        out,
        format!(
            "Detection(id={}, conf=-9223372036854775.81, bbox=({}, {}, 0, -1))",
            i32::MIN,
            i64::MIN,
            i64::MAX
        )
    );
}
