use lib::exclusions::exclusion_space::{ClearType, ExclusionArea, ExclusionSpace, ExclusionType};
use lib::geometry::{BfcOffset, BfcRect, LayoutUnit};

fn lu(v: i32) -> LayoutUnit {
    LayoutUnit::from_i32(v)
}

fn make_float(
    exclusion_type: ExclusionType,
    line_start: i32,
    block_start: i32,
    line_end: i32,
    block_end: i32,
) -> ExclusionArea {
    ExclusionArea {
        rect: BfcRect::new(
            BfcOffset::new(lu(line_start), lu(block_start)),
            BfcOffset::new(lu(line_end), lu(block_end)),
        ),
        exclusion_type,
    }
}

#[test]
fn empty_space_full_opportunity() {
    let space = ExclusionSpace::new();
    let opp = space.find_layout_opportunity(&BfcOffset::new(lu(0), lu(0)), lu(800), lu(100));
    assert_eq!(opp.rect.line_start_offset(), lu(0));
    assert_eq!(opp.rect.line_end_offset(), lu(800));
    assert_eq!(opp.rect.block_start_offset(), lu(0));
}

#[test]
fn left_float_reduces_inline_space() {
    let mut space = ExclusionSpace::new();
    space.add(make_float(ExclusionType::Left, 0, 0, 200, 100));
    let opp = space.find_layout_opportunity(&BfcOffset::new(lu(0), lu(0)), lu(800), lu(100));
    assert_eq!(opp.rect.line_start_offset(), lu(200));
    assert_eq!(opp.rect.line_end_offset(), lu(800));
}

#[test]
fn right_float_reduces_inline_space() {
    let mut space = ExclusionSpace::new();
    space.add(make_float(ExclusionType::Right, 600, 0, 800, 100));
    let opp = space.find_layout_opportunity(&BfcOffset::new(lu(0), lu(0)), lu(800), lu(100));
    assert_eq!(opp.rect.line_start_offset(), lu(0));
    assert_eq!(opp.rect.line_end_offset(), lu(600));
}

#[test]
fn both_floats_narrow_space() {
    let mut space = ExclusionSpace::new();
    space.add(make_float(ExclusionType::Left, 0, 0, 200, 100));
    space.add(make_float(ExclusionType::Right, 600, 0, 800, 100));
    let opp = space.find_layout_opportunity(&BfcOffset::new(lu(0), lu(0)), lu(800), lu(100));
    assert_eq!(opp.rect.line_start_offset(), lu(200));
    assert_eq!(opp.rect.line_end_offset(), lu(600));
}

#[test]
fn content_drops_below_float_if_no_space() {
    let mut space = ExclusionSpace::new();
    space.add(make_float(ExclusionType::Left, 0, 0, 700, 100));
    let opp = space.find_layout_opportunity(&BfcOffset::new(lu(0), lu(0)), lu(800), lu(200));
    assert!(opp.rect.block_start_offset() >= lu(100));
    assert_eq!(opp.inline_size(), lu(800));
}

#[test]
fn clearance_offset_left() {
    let mut space = ExclusionSpace::new();
    space.add(make_float(ExclusionType::Left, 0, 0, 200, 150));
    assert_eq!(space.clearance_offset(ClearType::Left), lu(150));
    assert_eq!(space.clearance_offset(ClearType::Right), lu(0));
    assert_eq!(space.clearance_offset(ClearType::Both), lu(150));
}

#[test]
fn clearance_offset_both() {
    let mut space = ExclusionSpace::new();
    space.add(make_float(ExclusionType::Left, 0, 0, 200, 100));
    space.add(make_float(ExclusionType::Right, 600, 0, 800, 200));
    assert_eq!(space.clearance_offset(ClearType::Left), lu(100));
    assert_eq!(space.clearance_offset(ClearType::Right), lu(200));
    assert_eq!(space.clearance_offset(ClearType::Both), lu(200));
}

#[test]
fn has_floats() {
    let mut space = ExclusionSpace::new();
    assert!(!space.has_floats());
    space.add(make_float(ExclusionType::Left, 0, 0, 100, 50));
    assert!(space.has_floats());
}

#[test]
fn opportunity_below_expired_float() {
    let mut space = ExclusionSpace::new();
    space.add(make_float(ExclusionType::Left, 0, 0, 200, 50));
    let opp = space.find_layout_opportunity(&BfcOffset::new(lu(0), lu(50)), lu(800), lu(100));
    assert_eq!(opp.rect.line_start_offset(), lu(0));
    assert_eq!(opp.rect.line_end_offset(), lu(800));
}

#[test]
fn multiple_stacked_left_floats() {
    let mut space = ExclusionSpace::new();
    space.add(make_float(ExclusionType::Left, 0, 0, 200, 100));
    space.add(make_float(ExclusionType::Left, 0, 50, 300, 150));
    let opp = space.find_layout_opportunity(&BfcOffset::new(lu(0), lu(50)), lu(800), lu(100));
    assert_eq!(opp.rect.line_start_offset(), lu(300));
}

// ── Further cases ───────────────────────────────────────────────────

#[test]
fn opportunity_ends_at_next_float_edge() {
    let mut space = ExclusionSpace::new();
    space.add(make_float(ExclusionType::Left, 0, 0, 200, 100));
    space.add(make_float(ExclusionType::Right, 600, 40, 800, 90));
    let opp = space.find_layout_opportunity(&BfcOffset::new(lu(0), lu(0)), lu(800), lu(100));
    // The shelf at 0 spans to the right float's start at 40.
    assert_eq!(opp.rect.block_start_offset(), lu(0));
    assert_eq!(opp.rect.block_end_offset(), lu(40));
    assert_eq!(opp.rect.line_start_offset(), lu(200));
    assert_eq!(opp.rect.line_end_offset(), lu(800));
    assert_eq!(opp.block_size(), lu(40));
}

#[test]
fn opportunity_found_at_intermediate_shelf() {
    let mut space = ExclusionSpace::new();
    // Two left floats: wide until 50, narrower until 100.
    space.add(make_float(ExclusionType::Left, 0, 0, 700, 50));
    space.add(make_float(ExclusionType::Left, 0, 0, 300, 100));
    let opp = space.find_layout_opportunity(&BfcOffset::new(lu(0), lu(0)), lu(800), lu(400));
    assert_eq!(opp.rect.block_start_offset(), lu(50));
    assert_eq!(opp.rect.line_start_offset(), lu(300));
    assert_eq!(opp.rect.block_end_offset(), lu(100));
}

#[test]
fn opportunity_below_everything_is_unbounded() {
    let mut space = ExclusionSpace::new();
    space.add(make_float(ExclusionType::Left, 0, 0, 800, 120));
    space.add(make_float(ExclusionType::Right, 0, 30, 800, 160));
    let opp = space.find_layout_opportunity(&BfcOffset::new(lu(10), lu(0)), lu(790), lu(100));
    assert_eq!(opp.rect.block_start_offset(), lu(160));
    assert_eq!(opp.rect.line_start_offset(), lu(10));
    assert_eq!(opp.rect.line_end_offset(), lu(800));
    assert_eq!(opp.rect.block_end_offset(), LayoutUnit::max_value());
}

#[test]
fn too_wide_request_in_empty_space_starts_at_offset() {
    let space = ExclusionSpace::new();
    let opp = space.find_layout_opportunity(&BfcOffset::new(lu(0), lu(25)), lu(100), lu(500));
    assert_eq!(opp.rect.block_start_offset(), lu(25));
    assert_eq!(opp.rect.line_end_offset(), lu(100));
}

#[test]
fn clearance_none_is_zero_and_counts() {
    let mut space = ExclusionSpace::new();
    space.add(make_float(ExclusionType::Right, 600, 0, 800, 75));
    space.add(make_float(ExclusionType::Left, 0, 0, 100, 25));
    assert_eq!(space.clearance_offset(ClearType::NoClear), lu(0));
    assert_eq!(space.num_exclusions(), 2);
    let all = space.all_exclusions();
    assert_eq!(all.len(), 2);
    assert_eq!(all[0].exclusion_type, ExclusionType::Left);
    assert_eq!(all[1].exclusion_type, ExclusionType::Right);
}

#[test]
fn clearance_ignores_lower_floats_added_later() {
    let mut space = ExclusionSpace::new();
    space.add(make_float(ExclusionType::Left, 0, 0, 100, 300));
    space.add(make_float(ExclusionType::Left, 0, 0, 100, 50));
    assert_eq!(space.clearance_offset(ClearType::Left), lu(300));
}

#[test]
fn cloned_space_answers_the_same() {
    let mut space = ExclusionSpace::new();
    space.add(make_float(ExclusionType::Left, 0, 0, 200, 100));
    let copy = space.clone();
    let a = space.find_layout_opportunity(&BfcOffset::new(lu(0), lu(0)), lu(800), lu(100));
    let b = copy.find_layout_opportunity(&BfcOffset::new(lu(0), lu(0)), lu(800), lu(100));
    assert_eq!(a, b);
    assert_eq!(copy.num_exclusions(), 1);
}

#[test]
fn display_string_counts_sides() {
    let mut space = ExclusionSpace::new();
    assert_eq!(space.to_display_string(), "ExclusionSpace(left: 0, right: 0)");
    for _ in 0..12 {
        space.add(make_float(ExclusionType::Left, 0, 0, 10, 10));
    }
    space.add(make_float(ExclusionType::Right, 0, 0, 10, 10));
    assert_eq!(space.to_display_string(), "ExclusionSpace(left: 12, right: 1)");
}

#[test]
fn exclusions_kept_in_block_start_order() {
    let mut space = ExclusionSpace::new();
    let low = make_float(ExclusionType::Left, 0, 200, 50, 300);
    let high = make_float(ExclusionType::Left, 0, 0, 50, 100);
    let same = make_float(ExclusionType::Left, 60, 200, 90, 250);
    let right = make_float(ExclusionType::Right, 700, 10, 800, 20);
    space.add(low);
    space.add(right);
    space.add(high);
    space.add(same);
    assert_eq!(space.all_exclusions(), vec![high, low, same, right]);
}
