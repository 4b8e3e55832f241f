use lib::constraint_space::ConstraintSpace;
use lib::css_sizing::{
    compute_automatic_size, compute_definite_size, resolve_preferred_size, resolve_sizing_keyword, LengthType,
    LengthValue, SizingKeyword,
};
use lib::geometry::{indefinite_size, LayoutUnit, MinMaxSizes};

fn lu(v: i32) -> LayoutUnit {
    LayoutUnit::from_i32(v)
}

fn len(length_type: LengthType, px: i32) -> LengthValue {
    LengthValue { length_type, value: lu(px) }
}

#[test]
fn sizing_keyword_from_length_auto() {
    assert_eq!(SizingKeyword::from_length(&len(LengthType::Auto, 0)), Some(SizingKeyword::Auto));
}

#[test]
fn sizing_keyword_from_length_fixed_returns_none() {
    assert_eq!(SizingKeyword::from_length(&len(LengthType::Fixed, 42)), None);
}

#[test]
fn sizing_keyword_from_length_min_content() {
    assert_eq!(SizingKeyword::from_length(&len(LengthType::MinContent, 0)), Some(SizingKeyword::MinContent));
}

#[test]
fn sizing_keyword_from_length_max_content() {
    assert_eq!(SizingKeyword::from_length(&len(LengthType::MaxContent, 0)), Some(SizingKeyword::MaxContent));
}

#[test]
fn sizing_keyword_from_length_stretch() {
    assert_eq!(SizingKeyword::from_length(&len(LengthType::Stretch, 0)), Some(SizingKeyword::Stretch));
}

#[test]
fn resolve_min_content_keyword() {
    let intrinsic = MinMaxSizes::new(lu(80), lu(200));
    let result = resolve_sizing_keyword(SizingKeyword::MinContent, &intrinsic, lu(500), lu(0));
    assert_eq!(result, lu(80));
}

#[test]
fn resolve_max_content_keyword() {
    let intrinsic = MinMaxSizes::new(lu(80), lu(200));
    let result = resolve_sizing_keyword(SizingKeyword::MaxContent, &intrinsic, lu(500), lu(0));
    assert_eq!(result, lu(200));
}

#[test]
fn resolve_stretch_keyword() {
    let intrinsic = MinMaxSizes::new(lu(50), lu(150));
    let result = resolve_sizing_keyword(SizingKeyword::Stretch, &intrinsic, lu(400), lu(30));
    assert_eq!(result, lu(370));
}

#[test]
fn resolve_stretch_clamps_negative_to_zero() {
    let intrinsic = MinMaxSizes::zero();
    let result = resolve_sizing_keyword(SizingKeyword::Stretch, &intrinsic, lu(20), lu(50));
    assert_eq!(result, lu(0));
}

#[test]
fn resolve_fit_content_below_min() {
    let intrinsic = MinMaxSizes::new(lu(50), lu(200));
    let result = resolve_sizing_keyword(SizingKeyword::FitContent(lu(30)), &intrinsic, lu(500), lu(0));
    assert_eq!(result, lu(50));
}

#[test]
fn resolve_fit_content_above_max() {
    let intrinsic = MinMaxSizes::new(lu(50), lu(200));
    let result = resolve_sizing_keyword(SizingKeyword::FitContent(lu(300)), &intrinsic, lu(500), lu(0));
    assert_eq!(result, lu(200));
}

#[test]
fn resolve_fit_content_between_min_and_max() {
    let intrinsic = MinMaxSizes::new(lu(50), lu(200));
    let result = resolve_sizing_keyword(SizingKeyword::FitContent(lu(120)), &intrinsic, lu(500), lu(0));
    assert_eq!(result, lu(120));
}

// ── Further cases ───────────────────────────────────────────────────

#[test]
fn fit_content_keyword_carries_limit() {
    assert_eq!(
        SizingKeyword::from_length(&len(LengthType::FitContent, 64)),
        Some(SizingKeyword::FitContent(lu(64)))
    );
    assert_eq!(SizingKeyword::from_length(&len(LengthType::Percent, 50)), None);
    assert_eq!(SizingKeyword::from_length(&len(LengthType::NoneKeyword, 0)), None);
}

#[test]
fn auto_keyword_resolves_like_stretch() {
    let intrinsic = MinMaxSizes::new(lu(10), lu(20));
    assert_eq!(resolve_sizing_keyword(SizingKeyword::Auto, &intrinsic, lu(300), lu(40)), lu(260));
}

#[test]
fn automatic_size_per_axis() {
    let intrinsic = MinMaxSizes::new(lu(50), lu(200));
    assert_eq!(compute_automatic_size(true, &intrinsic, lu(500), lu(20)), lu(480));
    assert_eq!(compute_automatic_size(false, &intrinsic, lu(500), lu(20)), lu(200));
    assert_eq!(compute_automatic_size(false, &intrinsic, lu(120), lu(20)), lu(100));
    assert_eq!(compute_automatic_size(false, &intrinsic, lu(30), lu(20)), lu(50));
}

#[test]
fn definite_sizes() {
    let mut space = ConstraintSpace::for_block_child(lu(300), lu(200), lu(300), lu(200), false);
    assert_eq!(compute_definite_size(&len(LengthType::Fixed, 40), lu(300), &space, true), Some(lu(40)));
    assert_eq!(compute_definite_size(&len(LengthType::Percent, 150), lu(300), &space, true), Some(lu(150)));
    assert_eq!(compute_definite_size(&len(LengthType::Percent, 150), indefinite_size(), &space, true), None);
    assert_eq!(compute_definite_size(&len(LengthType::Stretch, 0), lu(300), &space, true), None);
    assert_eq!(compute_definite_size(&len(LengthType::Auto, 0), lu(300), &space, false), None);
    assert_eq!(compute_definite_size(&len(LengthType::MinContent, 0), lu(300), &space, true), None);
    space.stretch_inline_size = true;
    space.is_fixed_block_size = true;
    assert_eq!(compute_definite_size(&len(LengthType::Stretch, 0), lu(300), &space, true), Some(lu(300)));
    assert_eq!(compute_definite_size(&len(LengthType::Auto, 0), lu(300), &space, false), Some(lu(200)));
    space.available_block_size = indefinite_size();
    assert_eq!(compute_definite_size(&len(LengthType::Auto, 0), lu(300), &space, false), None);
}

#[test]
fn preferred_size_clamped_by_min_and_max() {
    let intrinsic = MinMaxSizes::new(lu(50), lu(200));
    let auto = len(LengthType::Auto, 0);
    let none = len(LengthType::NoneKeyword, 0);
    // Fixed preferred, clamped by max.
    let r = resolve_preferred_size(
        &len(LengthType::Fixed, 500), &auto, &len(LengthType::Fixed, 300), lu(800), &intrinsic, lu(800), lu(0),
        indefinite_size(), None, true,
    );
    assert_eq!(r, lu(300));
    // Auto width falls back to stretch; a min above the max wins.
    let r = resolve_preferred_size(
        &auto, &len(LengthType::Fixed, 400), &len(LengthType::Fixed, 100), lu(800), &intrinsic, lu(800), lu(0),
        indefinite_size(), None, true,
    );
    assert_eq!(r, lu(400));
    // Auto height with a transferred size from a definite width.
    let r = resolve_preferred_size(
        &auto, &auto, &none, lu(800), &intrinsic, lu(800), lu(0), lu(160), Some(lu(90)), false,
    );
    assert_eq!(r, lu(90));
    // Percentage of an indefinite containing block behaves as auto (block axis: fit-content).
    let r = resolve_preferred_size(
        &len(LengthType::Percent, 25), &auto, &none, indefinite_size(), &intrinsic, lu(800), lu(0),
        indefinite_size(), Some(lu(90)), false,
    );
    assert_eq!(r, lu(200));
    // Min-content preferred and max-content max.
    let r = resolve_preferred_size(
        &len(LengthType::MinContent, 0), &auto, &len(LengthType::MaxContent, 0), lu(800), &intrinsic, lu(800),
        lu(0), indefinite_size(), None, true,
    );
    assert_eq!(r, lu(50));
}
