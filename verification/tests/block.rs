use std::sync::Arc;

use lib::block::{
    available_inline_without_margins, clearance_border_offset, collapse_adjacent_block_margins,
    collapsed_spanner_content_margin_height, estimate_child_content_origin, float_origin_and_available,
    float_start_block_offset, include_float_bottom, initial_exclusion_space, new_fc_min_inline_size,
    new_fc_placement_for_opportunity, place_inflow_child, resolve_inline_margins, resolves_end_margin,
    snap_wrapped_multicol_fragment_consumption, translate_exclusion_space, uses_margin_reduced_inherited_exclusions,
    InflowChildMargins, MarginCollapseState, resolve_intrinsic_block, resolve_intrinsic_inline,
};
use lib::css_sizing::LengthType;
use lib::constraint_space::ConstraintSpace;
use lib::exclusions::exclusion_space::{ClearType, ExclusionArea, ExclusionSpace, ExclusionType, LayoutOpportunity};
use lib::geometry::{BfcOffset, BfcRect, BoxStrut, LayoutUnit, MarginStrut};

fn lu(v: i32) -> LayoutUnit {
    LayoutUnit::from_i32(v)
}

fn strut(values: &[i32]) -> MarginStrut {
    let mut s = MarginStrut::new();
    for v in values {
        s.append_normal(lu(*v));
    }
    s
}

fn area(t: ExclusionType, l0: i32, b0: i32, l1: i32, b1: i32) -> ExclusionArea {
    ExclusionArea {
        rect: BfcRect::new(BfcOffset::new(lu(l0), lu(b0)), BfcOffset::new(lu(l1), lu(b1))),
        exclusion_type: t,
    }
}

#[test]
fn adjacent_margins_collapse() {
    assert_eq!(collapse_adjacent_block_margins(lu(20), lu(30)), lu(30));
    assert_eq!(collapse_adjacent_block_margins(lu(-20), lu(-30)), lu(-30));
    assert_eq!(collapse_adjacent_block_margins(lu(20), lu(-30)), lu(-10));
    assert_eq!(collapse_adjacent_block_margins(lu(0), lu(-30)), lu(-30));
}

#[test]
fn spanner_margin_height() {
    assert_eq!(collapsed_spanner_content_margin_height(&strut(&[20]), &strut(&[30, -5])), lu(25));
    assert_eq!(collapsed_spanner_content_margin_height(&strut(&[-40]), &MarginStrut::new()), lu(0));
}

#[test]
fn clearance_moves_child_below_floats() {
    // Hypothetical position 10 + max(5, 15) = 25; clearance at 40 + content edge 2.
    assert_eq!(clearance_border_offset(lu(10), &strut(&[5]), lu(15), lu(40), lu(2)), Some(lu(42)));
    assert_eq!(clearance_border_offset(lu(10), &strut(&[5]), lu(15), lu(20), lu(2)), None);
}

#[test]
fn non_auto_margins_reduce_available_inline() {
    let m = BoxStrut::new(lu(0), lu(20), lu(0), lu(30));
    assert_eq!(available_inline_without_margins(&m, false, false, lu(400)), lu(350));
    assert_eq!(available_inline_without_margins(&m, true, false, lu(400)), lu(380));
    assert_eq!(available_inline_without_margins(&m, false, false, lu(40)), lu(0));
}

#[test]
fn auto_margins_center_and_overflow() {
    let m = BoxStrut::zero();
    // 800 available, 200 wide: centered at 300.
    assert_eq!(resolve_inline_margins(true, true, &m, lu(800), lu(200), false), (lu(300), lu(300)));
    // Overconstrained auto margins become zero; the overflow goes to the end side.
    assert_eq!(resolve_inline_margins(true, true, &m, lu(800), lu(1000), false), (lu(0), lu(-200)));
    assert_eq!(resolve_inline_margins(true, true, &m, lu(800), lu(1000), true), (lu(-200), lu(0)));
    let fixed = BoxStrut::new(lu(0), lu(20), lu(0), lu(50));
    assert_eq!(resolve_inline_margins(true, false, &fixed, lu(800), lu(200), false), (lu(580), lu(20)));
    assert_eq!(resolve_inline_margins(false, true, &fixed, lu(800), lu(200), false), (lu(50), lu(550)));
    assert_eq!(resolve_inline_margins(false, false, &fixed, lu(800), lu(200), false), (lu(50), lu(550)));
    assert_eq!(resolve_inline_margins(false, false, &fixed, lu(800), lu(200), true), (lu(580), lu(20)));
    // An odd raw remainder goes to the right margin.
    let (l, r) = resolve_inline_margins(true, true, &m, LayoutUnit::from_raw(101), LayoutUnit::from_raw(0), false);
    assert_eq!((l.raw, r.raw), (50, 51));
}

#[test]
fn inherited_exclusions_and_float_origin() {
    let mut space = ConstraintSpace::for_block_child(lu(300), lu(200), lu(500), lu(200), false);
    assert!(!uses_margin_reduced_inherited_exclusions(&space));
    assert_eq!(float_origin_and_available(&space, true, lu(300)), (lu(0), lu(300)));
    space.exclusion_space = Some(Arc::new(ExclusionSpace::new()));
    space.bfc_offset = BfcOffset::new(lu(40), lu(0));
    assert!(uses_margin_reduced_inherited_exclusions(&space));
    assert_eq!(float_origin_and_available(&space, true, lu(300)), (lu(0), lu(460)));
    assert_eq!(float_origin_and_available(&space, false, lu(300)), (lu(-40), lu(340)));
    space.is_new_formatting_context = true;
    assert!(!uses_margin_reduced_inherited_exclusions(&space));
}

#[test]
fn initial_exclusions_come_from_parent_unless_new_context() {
    let mut parent_space = ExclusionSpace::new();
    parent_space.add(area(ExclusionType::Left, 0, 0, 100, 100));
    let mut space = ConstraintSpace::for_block_child(lu(300), lu(200), lu(300), lu(200), false);
    assert!(!initial_exclusion_space(&space).has_floats());
    space.exclusion_space = Some(Arc::new(parent_space));
    assert_eq!(initial_exclusion_space(&space).num_exclusions(), 1);
    space.is_new_formatting_context = true;
    assert!(!initial_exclusion_space(&space).has_floats());
}

#[test]
fn exclusions_translate_into_child_coordinates() {
    let mut parent = ExclusionSpace::new();
    parent.add(area(ExclusionType::Right, 600, 10, 800, 110));
    parent.add(area(ExclusionType::Left, 0, 0, 200, 100));
    let child = translate_exclusion_space(&parent, BfcOffset::new(lu(50), lu(30)));
    let all = child.all_exclusions();
    assert_eq!(all.len(), 2);
    assert_eq!(all[0], area(ExclusionType::Left, -50, -30, 150, 70));
    assert_eq!(all[1], area(ExclusionType::Right, 550, -20, 750, 80));
    assert_eq!(child.clearance_offset(ClearType::Right), lu(80));
}

#[test]
fn child_content_origin_estimate() {
    let border = BoxStrut::all(lu(1));
    let padding = BoxStrut::all(lu(2));
    let margin = BoxStrut::new(lu(10), lu(0), lu(0), lu(5));
    let bfc_root = ConstraintSpace::for_root(lu(800), lu(600));
    let origin = estimate_child_content_origin(&border, &padding, margin, lu(0), lu(20), strut(&[4]), false, &bfc_root);
    // Margins resolve in a new formatting context: 20 + max(4, 10) + 1 + 2.
    assert_eq!(origin, BfcOffset::new(lu(8), lu(33)));
    let plain = ConstraintSpace::for_block_child(lu(800), lu(600), lu(800), lu(600), false);
    let origin = estimate_child_content_origin(&border, &padding, margin, lu(0), lu(20), strut(&[4]), false, &plain);
    // Start margin still collapsing through: stays at 20.
    assert_eq!(origin, BfcOffset::new(lu(8), lu(23)));
}

#[test]
fn new_fc_minimum_inline_size() {
    assert_eq!(new_fc_min_inline_size(lu(10), lu(5), lu(7), None, false), lu(22));
    assert_eq!(new_fc_min_inline_size(lu(10), lu(-30), lu(7), None, false), lu(40));
    assert_eq!(new_fc_min_inline_size(lu(10), lu(-3), lu(-7), None, false), lu(10));
    assert_eq!(new_fc_min_inline_size(lu(10), lu(5), lu(7), Some(lu(100)), false), lu(110));
    assert_eq!(new_fc_min_inline_size(lu(10), lu(5), lu(7), Some(lu(100)), true), lu(100));
}

#[test]
fn new_fc_placement() {
    let full = LayoutOpportunity { rect: BfcRect::new(BfcOffset::new(lu(0), lu(0)), BfcOffset::new(lu(800), lu(50))) };
    let m = BoxStrut::new(lu(0), lu(10), lu(0), lu(20));
    assert_eq!(new_fc_placement_for_opportunity(&full, m, lu(800)), (lu(0), lu(800)));
    let beside = LayoutOpportunity { rect: BfcRect::new(BfcOffset::new(lu(200), lu(0)), BfcOffset::new(lu(800), lu(50))) };
    assert_eq!(new_fc_placement_for_opportunity(&beside, m, lu(800)), (lu(180), lu(630)));
}

#[test]
fn end_margin_and_float_bottom() {
    assert!(!resolves_end_margin(&MarginStrut::new(), true, lu(5), true, true, true));
    assert!(resolves_end_margin(&strut(&[10]), false, lu(1), false, false, false));
    assert!(!resolves_end_margin(&strut(&[10]), false, lu(0), false, false, false));
    assert_eq!(include_float_bottom(lu(50), true, lu(120), lu(5), lu(5)), lu(130));
    assert_eq!(include_float_bottom(lu(50), false, lu(120), lu(5), lu(5)), lu(50));
}

#[test]
fn float_start_offset_with_clear() {
    let mut space = ExclusionSpace::new();
    space.add(area(ExclusionType::Left, 0, 0, 100, 90));
    assert_eq!(float_start_block_offset(lu(30), lu(10), ClearType::NoClear, &space), lu(20));
    assert_eq!(float_start_block_offset(lu(30), lu(10), ClearType::Left, &space), lu(90));
    assert_eq!(float_start_block_offset(lu(30), lu(10), ClearType::Right, &space), lu(20));
}

#[test]
fn multicol_row_snapping() {
    let rows = Some((lu(100), lu(20)));
    // Ends inside the second row: cut back to the end of the first stride.
    assert_eq!(snap_wrapped_multicol_fragment_consumption(lu(150), lu(1000), rows), lu(120));
    // Ends inside a gap: rounded up to the next stride.
    assert_eq!(snap_wrapped_multicol_fragment_consumption(lu(110), lu(1000), rows), lu(120));
    // Rounded up, but never past the remaining space.
    assert_eq!(snap_wrapped_multicol_fragment_consumption(lu(110), lu(115), rows), lu(115));
    // Inside the first row, or no wrapping rows: unchanged.
    assert_eq!(snap_wrapped_multicol_fragment_consumption(lu(50), lu(1000), rows), lu(50));
    assert_eq!(snap_wrapped_multicol_fragment_consumption(lu(150), lu(1000), None), lu(150));
    assert_eq!(snap_wrapped_multicol_fragment_consumption(lu(150), lu(100), rows), lu(150));
}

#[test]
fn inflow_children_collapse_margins() {
    let mut state = MarginCollapseState {
        block_offset: lu(0),
        margin_strut: MarginStrut::new(),
        start_margin_resolved: false,
        saved_start_strut: None,
        intrinsic_block_size: lu(0),
    };
    let child = |top: i32, bottom: i32, height: i32| InflowChildMargins {
        margin_top: lu(top),
        margin_bottom: lu(bottom),
        start_margin_strut: MarginStrut::new(),
        end_margin_strut: MarginStrut::new(),
        float_resolved_bfc: false,
        is_self_collapsing: false,
        block_size: lu(height),
    };
    // Inside a new formatting context the first margin resolves.
    let p = place_inflow_child(&mut state, &child(20, 30, 50), true, lu(0));
    assert_eq!(p.border_offset, lu(20));
    assert_eq!(state.block_offset, lu(70));
    assert!(state.start_margin_resolved);
    // 30 bottom and 20 top collapse to 30.
    let p = place_inflow_child(&mut state, &child(20, 0, 30), true, lu(0));
    assert_eq!(p.border_offset, lu(100));
    assert_eq!(state.intrinsic_block_size, lu(130));
    assert!(p.flush_pending);
}

#[test]
fn first_child_margin_collapses_through_parent() {
    let mut state = MarginCollapseState {
        block_offset: lu(0),
        margin_strut: MarginStrut::new(),
        start_margin_resolved: false,
        saved_start_strut: None,
        intrinsic_block_size: lu(0),
    };
    let c = InflowChildMargins {
        margin_top: lu(25),
        margin_bottom: lu(0),
        start_margin_strut: MarginStrut::new(),
        end_margin_strut: MarginStrut::new(),
        float_resolved_bfc: false,
        is_self_collapsing: false,
        block_size: lu(40),
    };
    let p = place_inflow_child(&mut state, &c, false, lu(0));
    // The margin is handed to the parent instead of moving the child.
    assert_eq!(p.border_offset, lu(0));
    assert_eq!(state.saved_start_strut, Some(strut(&[25])));
    assert_eq!(state.block_offset, lu(40));
}

#[test]
fn self_collapsing_child_joins_strut() {
    let mut state = MarginCollapseState {
        block_offset: lu(10),
        margin_strut: strut(&[5]),
        start_margin_resolved: true,
        saved_start_strut: None,
        intrinsic_block_size: lu(10),
    };
    let empty = InflowChildMargins {
        margin_top: lu(12),
        margin_bottom: lu(8),
        start_margin_strut: MarginStrut::new(),
        end_margin_strut: MarginStrut::new(),
        float_resolved_bfc: false,
        is_self_collapsing: true,
        block_size: lu(0),
    };
    let p = place_inflow_child(&mut state, &empty, true, lu(0));
    assert!(!p.flush_pending);
    assert_eq!(state.block_offset, lu(10));
    assert_eq!(state.margin_strut, strut(&[5, 12, 8]));
}

#[test]
fn intrinsic_keywords_in_content_box_sizing() {
    let px = LayoutUnit::from_i32;
    // intrinsic sizes are border-box values: 120 and 300 with 20 of border and padding
    assert_eq!(resolve_intrinsic_inline(LengthType::MinContent, px(120), px(300), px(500), px(20), false), px(100));
    assert_eq!(resolve_intrinsic_inline(LengthType::MaxContent, px(120), px(300), px(500), px(20), false), px(280));
    assert_eq!(resolve_intrinsic_inline(LengthType::FitContent, px(120), px(300), px(500), px(20), false), px(280));
    assert_eq!(resolve_intrinsic_inline(LengthType::FitContent, px(120), px(300), px(200), px(20), false), px(180));
    assert_eq!(resolve_intrinsic_inline(LengthType::FitContent, px(120), px(300), px(50), px(20), false), px(100));
    assert_eq!(resolve_intrinsic_inline(LengthType::Stretch, px(120), px(300), px(500), px(20), false), px(480));
}

#[test]
fn intrinsic_keywords_in_border_box_sizing() {
    let px = LayoutUnit::from_i32;
    assert_eq!(resolve_intrinsic_inline(LengthType::MinContent, px(120), px(300), px(500), px(20), true), px(120));
    assert_eq!(resolve_intrinsic_inline(LengthType::FitContent, px(120), px(300), px(200), px(20), true), px(220));
    assert_eq!(resolve_intrinsic_inline(LengthType::Stretch, px(120), px(300), px(500), px(20), true), px(520));
    assert_eq!(resolve_intrinsic_block(px(75)), px(75));
}
