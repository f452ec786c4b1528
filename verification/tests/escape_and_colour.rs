//! The escape-time evaluator and the colour conversion on concrete values.
use fractal::colour::{hdr_to_display_colour, HdrColour};
use fractal::escape::{compute_escape_time, EscapeResult};
use fractal::viewport::Point;

/// A point already outside the escape radius escapes at iteration zero.
#[test]
fn three_escapes_immediately() {
    let r = compute_escape_time(Point { re: 3_000_000, im: 0 });
    assert_eq!(r, EscapeResult::Escaped(0));
}

/// The origin never escapes: its orbit stays at zero forever.
#[test]
fn origin_stays_bounded() {
    let r = compute_escape_time(Point { re: 0, im: 0 });
    assert_eq!(r, EscapeResult::Bounded);
}

/// Any point with magnitude above two escapes within the budget, wherever
/// it lies.
#[test]
fn escape_radius_guarantee() {
    let outside = [
        Point { re: 0, im: 2_100_000 },
        Point { re: -2_500_000, im: 0 },
        Point { re: 1_500_000, im: -1_500_000 },
        Point { re: -700_000_000, im: 700_000_000 },
    ];
    for c in outside {
        assert!(matches!(compute_escape_time(c), EscapeResult::Escaped(_)));
    }
}

/// A point exactly on the escape radius does not escape at iteration zero,
/// but one squaring later it does.
#[test]
fn boundary_point_escapes_one_step_later() {
    let r = compute_escape_time(Point { re: 2_000_000, im: 0 });
    assert_eq!(r, EscapeResult::Escaped(1));
}

/// A point inside the set stays bounded for the whole budget.
#[test]
fn interior_point_stays_bounded() {
    let r = compute_escape_time(Point { re: -1_000_000, im: 0 });
    assert_eq!(r, EscapeResult::Bounded);
}

/// Pure red at full intensity packs into the red byte alone.
#[test]
fn pure_red_packs_high_byte() {
    let c = HdrColour { red: 1_000_000, green: 0, blue: 0 };
    assert_eq!(hdr_to_display_colour(&c), 0x00FF0000);
}

/// Black packs to zero.
#[test]
fn black_packs_to_zero() {
    let c = HdrColour { red: 0, green: 0, blue: 0 };
    assert_eq!(hdr_to_display_colour(&c), 0x00000000);
}

/// White packs all three bytes.
#[test]
fn white_packs_all_bytes() {
    let c = HdrColour { red: 1_000_000, green: 1_000_000, blue: 1_000_000 };
    assert_eq!(hdr_to_display_colour(&c), 0x00FFFFFF);
}

/// Channels are truncated toward zero, never rounded up.
#[test]
fn channels_truncate_not_round() {
    // 0.999999 * 255 = 254.99..., which must truncate to 254.
    let c = HdrColour { red: 999_999, green: 0, blue: 999_999 };
    assert_eq!(hdr_to_display_colour(&c), 0x00FE00FE);
}

/// A point and its complex conjugate classify identically, down to the
/// escape iteration.
#[test]
fn conjugate_points_classify_identically() {
    let sample = [
        Point { re: -1_823_144, im: 630_360 },
        Point { re: 350_000, im: 600_000 },
        Point { re: -750_000, im: 123_456 },
        Point { re: 1, im: 2_000_001 },
    ];
    for c in sample {
        let conj = Point { re: c.re, im: -c.im };
        assert_eq!(compute_escape_time(conj), compute_escape_time(c));
    }
}
