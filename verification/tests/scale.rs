use pic_url::scale::{thumbnail_dimensions, THUMB_SIZE};

#[test]
fn default_edge_is_two_hundred() {
    assert_eq!(THUMB_SIZE, 200);
}

#[test]
fn portrait_is_scaled_by_its_height() {
    assert_eq!(thumbnail_dimensions(300, 600, 200), (100, 200));
}

#[test]
fn landscape_is_scaled_by_its_width() {
    assert_eq!(thumbnail_dimensions(600, 300, 200), (200, 100));
    assert_eq!(thumbnail_dimensions(1920, 1080, 200), (200, 112));
}

#[test]
fn square_reaches_the_edge_on_both_sides() {
    assert_eq!(thumbnail_dimensions(3, 3, 200), (200, 200));
    assert_eq!(thumbnail_dimensions(500, 500, 200), (200, 200));
}

#[test]
fn small_pictures_are_scaled_up() {
    assert_eq!(thumbnail_dimensions(10, 20, 200), (100, 200));
}

#[test]
fn shorter_side_is_rounded_down() {
    assert_eq!(thumbnail_dimensions(1000, 333, 200), (200, 66));
    assert_eq!(thumbnail_dimensions(61, 600, 200), (20, 200));
    assert_eq!(thumbnail_dimensions(999, 1000, 200), (199, 200));
}

#[test]
fn shorter_side_keeps_one_pixel() {
    assert_eq!(thumbnail_dimensions(1, 1000, 200), (1, 200));
    assert_eq!(thumbnail_dimensions(1000, 1, 200), (200, 1));
    assert_eq!(thumbnail_dimensions(4, 1000, 200), (1, 200));
    assert_eq!(thumbnail_dimensions(5, 1000, 200), (1, 200));
    assert_eq!(thumbnail_dimensions(10, 1000, 200), (2, 200));
}

#[test]
fn nothing_scales_to_nothing() {
    assert_eq!(thumbnail_dimensions(0, 0, 200), (0, 0));
    assert_eq!(thumbnail_dimensions(0, 5, 200), (0, 200));
    assert_eq!(thumbnail_dimensions(5, 5, 0), (0, 0));
}

#[test]
fn largest_sides_do_not_overflow() {
    assert_eq!(thumbnail_dimensions(u32::MAX, u32::MAX, u32::MAX), (u32::MAX, u32::MAX));
    assert_eq!(thumbnail_dimensions(u32::MAX, 1, 200), (200, 1));
    assert_eq!(thumbnail_dimensions(1, 1, u32::MAX), (u32::MAX, u32::MAX));
}

#[test]
fn aspect_ratio_is_kept_within_rounding() {
    let sizes =
        [(300u32, 600u32), (1920, 1080), (7, 5), (1, 1000), (999, 1000), (4000, 3000), (61, 600)];
    for (width, height) in sizes {
        for max in [1u32, 50, 200, 333] {
            let (w, h) = thumbnail_dimensions(width, height, max);
            let longer = width.max(height) as i64;
            let cross = w as i64 * height as i64 - h as i64 * width as i64;
            assert!(cross.abs() < longer, "{}x{} at {}", width, height, max);
            assert_eq!(w.max(h), max);
        }
    }
}
