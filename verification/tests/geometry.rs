use lib::geometry::{indefinite_size, BfcOffset, BfcRect, BoxStrut, LayoutUnit, MarginStrut};

fn lu(v: i32) -> LayoutUnit {
    LayoutUnit::from_i32(v)
}

#[test]
fn whole_pixels_are_sixty_fourths() {
    assert_eq!(lu(3).raw, 192);
    assert_eq!(lu(-2).raw, -128);
    assert_eq!(lu(7).to_i32(), 7);
    assert_eq!(LayoutUnit::from_raw(-100).to_i32(), -1);
}

#[test]
fn from_i32_saturates() {
    assert_eq!(lu(40_000_000), LayoutUnit::max_value());
    assert_eq!(lu(-40_000_000), LayoutUnit::min_value());
    assert_eq!(lu(33_554_431).raw, 33_554_431 * 64);
}

#[test]
fn arithmetic_saturates() {
    assert_eq!(LayoutUnit::max_value().plus(lu(1)), LayoutUnit::max_value());
    assert_eq!(LayoutUnit::min_value().minus(lu(1)), LayoutUnit::min_value());
    assert_eq!(LayoutUnit::min_value().negate(), LayoutUnit::max_value());
    assert_eq!(lu(5).plus(lu(7)), lu(12));
    assert_eq!(lu(5).minus(lu(7)), lu(-2));
}

#[test]
fn halving_rounds_toward_zero() {
    assert_eq!(LayoutUnit::from_raw(7).halve().raw, 3);
    assert_eq!(LayoutUnit::from_raw(-7).halve().raw, -3);
}

#[test]
fn clamping() {
    assert_eq!(lu(30).clamp(lu(50), lu(200)), lu(50));
    assert_eq!(lu(300).clamp(lu(50), lu(200)), lu(200));
    // With the bounds crossed the lower bound wins.
    assert_eq!(lu(100).clamp(lu(150), lu(120)), lu(150));
    assert_eq!(lu(-5).clamp_negative_to_zero(), lu(0));
    assert_eq!(lu(5).max_of(lu(9)), lu(9));
    assert_eq!(lu(5).min_of(lu(9)), lu(5));
}

#[test]
fn indefinite_sentinel() {
    assert!(indefinite_size().is_indefinite());
    assert!(lu(-1).is_indefinite());
    assert!(!lu(0).is_indefinite());
}

#[test]
fn rect_sizes() {
    let r = BfcRect::new(BfcOffset::new(lu(10), lu(20)), BfcOffset::new(lu(110), lu(70)));
    assert_eq!(r.inline_size(), lu(100));
    assert_eq!(r.block_size(), lu(50));
    let s = BoxStrut::new(lu(1), lu(2), lu(3), lu(4));
    assert_eq!(s.inline_sum(), lu(6));
    assert_eq!(s.block_sum(), lu(4));
}

#[test]
fn margin_strut_collapses() {
    let mut strut = MarginStrut::new();
    assert!(strut.is_empty());
    strut.append_normal(lu(10));
    strut.append_normal(lu(30));
    strut.append_normal(lu(-5));
    strut.append_normal(lu(-20));
    assert_eq!(strut.positive_margin, lu(30));
    assert_eq!(strut.negative_margin, lu(-20));
    assert_eq!(strut.sum(), lu(10));
    assert!(!strut.is_empty());
}
