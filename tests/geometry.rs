use tape::geometry::{normalize_cursor, ratio, screen_rect_for, PixelPos, Ratio, Resolution};

#[test]
fn normalize_divides_both_axes_by_height() {
    let c = normalize_cursor(Resolution { xres: 1600, yres: 900 }, PixelPos { x: 800, y: 450 });
    assert_eq!(c.x, Ratio { num: 8, den: 9 });
    assert_eq!(c.y, Ratio { num: 1, den: 2 });
}

#[test]
fn screen_rect_has_unit_height_and_aspect_width() {
    let r = screen_rect_for(Resolution { xres: 1920, yres: 1080 });
    assert_eq!(r.x, Ratio { num: 0, den: 1 });
    assert_eq!(r.y, Ratio { num: 0, den: 1 });
    assert_eq!(r.w, Ratio { num: 16, den: 9 });
    assert_eq!(r.h, Ratio { num: 1, den: 1 });
}

#[test]
fn zero_height_gives_zero_denominators() {
    let r = screen_rect_for(Resolution { xres: 640, yres: 0 });
    assert_eq!(r.w, Ratio { num: 1, den: 0 });
    let c = normalize_cursor(Resolution { xres: 640, yres: 0 }, PixelPos { x: -5, y: 0 });
    assert_eq!(c.x, Ratio { num: -1, den: 0 });
    assert_eq!(c.y, Ratio { num: 0, den: 0 });
}

#[test]
fn ratio_reduces_to_lowest_terms() {
    assert_eq!(ratio(-12, 18), Ratio { num: -2, den: 3 });
    assert_eq!(ratio(0, 7), Ratio { num: 0, den: 1 });
    assert_eq!(ratio(7, 1), Ratio { num: 7, den: 1 });
    assert_eq!(ratio(1600, 900), ratio(3200, 1800));
}
