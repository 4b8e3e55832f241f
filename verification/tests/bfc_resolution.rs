use lib::bfc_resolution::{
    compute_bfc_block_offset_estimate, needs_relayout, resolve_bfc_block_offset, should_resolve_bfc_offset,
    BfcBlockOffsetState, PendingFloats,
};
use lib::exclusions::exclusion_space::{ClearType, ExclusionSpace};
use lib::exclusions::float_utils::UnpositionedFloat;
use lib::geometry::{BfcOffset, BoxStrut, LayoutUnit, MarginStrut, NodeId};

fn lu(v: i32) -> LayoutUnit {
    LayoutUnit::from_i32(v)
}

fn make_test_float(origin_block_offset: LayoutUnit, is_left: bool) -> UnpositionedFloat {
    UnpositionedFloat {
        node_id: NodeId::none(),
        available_size: lu(500),
        origin_bfc_offset: BfcOffset::new(lu(0), origin_block_offset),
        margins: BoxStrut::zero(),
        inline_size: lu(100),
        block_size: lu(50),
        is_left,
    }
}

#[test]
fn state_starts_unresolved() {
    let state = BfcBlockOffsetState::default();
    assert!(state.is_unresolved());
    assert!(!state.is_resolved());
    assert_eq!(state.resolved_offset(), None);
}

#[test]
fn state_with_estimate() {
    let state = BfcBlockOffsetState::new_with_estimate(lu(42));
    assert!(state.is_unresolved());
    match state {
        BfcBlockOffsetState::Unresolved { estimated } => {
            assert_eq!(estimated, Some(lu(42)));
        }
        _ => panic!("expected Unresolved"),
    }
}

#[test]
fn resolve_transitions_state() {
    let mut state = BfcBlockOffsetState::new_unresolved();
    let mut pending = PendingFloats::new();
    let mut space = ExclusionSpace::new();
    let changed = resolve_bfc_block_offset(&mut state, lu(100), &mut pending, &mut space);
    assert!(!changed);
    assert!(state.is_resolved());
    assert_eq!(state.resolved_offset(), Some(lu(100)));
}

#[test]
fn resolve_matching_estimate_no_relayout() {
    let mut state = BfcBlockOffsetState::new_with_estimate(lu(50));
    let mut pending = PendingFloats::new();
    let mut space = ExclusionSpace::new();
    let changed = resolve_bfc_block_offset(&mut state, lu(50), &mut pending, &mut space);
    assert!(!changed);
}

#[test]
fn resolve_different_estimate_triggers_relayout() {
    let mut state = BfcBlockOffsetState::new_with_estimate(lu(50));
    let mut pending = PendingFloats::new();
    let mut space = ExclusionSpace::new();
    let changed = resolve_bfc_block_offset(&mut state, lu(80), &mut pending, &mut space);
    assert!(changed);
    assert_eq!(state.resolved_offset(), Some(lu(80)));
}

#[test]
fn double_resolve_is_noop() {
    let mut state = BfcBlockOffsetState::new_with_estimate(lu(10));
    let mut pending = PendingFloats::new();
    let mut space = ExclusionSpace::new();
    let changed1 = resolve_bfc_block_offset(&mut state, lu(20), &mut pending, &mut space);
    assert!(changed1);
    let changed2 = resolve_bfc_block_offset(&mut state, lu(999), &mut pending, &mut space);
    assert!(!changed2);
    assert_eq!(state.resolved_offset(), Some(lu(20)));
}

#[test]
fn pending_floats_empty_by_default() {
    let pending = PendingFloats::new();
    assert!(pending.is_empty());
    assert_eq!(pending.len(), 0);
}

#[test]
fn pending_floats_add_and_count() {
    let mut pending = PendingFloats::new();
    pending.add(make_test_float(lu(0), true));
    pending.add(make_test_float(lu(0), false));
    assert!(!pending.is_empty());
    assert_eq!(pending.len(), 2);
}

#[test]
fn pending_floats_positioned_on_resolve() {
    let mut state = BfcBlockOffsetState::new_unresolved();
    let mut pending = PendingFloats::new();
    let mut space = ExclusionSpace::new();
    pending.add(make_test_float(lu(0), true));
    assert_eq!(pending.len(), 1);
    resolve_bfc_block_offset(&mut state, lu(50), &mut pending, &mut space);
    assert!(pending.is_empty());
    assert!(space.has_floats());
}

#[test]
fn multiple_pending_floats_all_positioned() {
    let mut state = BfcBlockOffsetState::new_unresolved();
    let mut pending = PendingFloats::new();
    let mut space = ExclusionSpace::new();
    pending.add(make_test_float(lu(0), true));
    pending.add(make_test_float(lu(0), false));
    pending.add(make_test_float(lu(0), true));
    assert_eq!(pending.len(), 3);
    resolve_bfc_block_offset(&mut state, lu(10), &mut pending, &mut space);
    assert!(pending.is_empty());
    assert_eq!(space.num_exclusions(), 3);
}

#[test]
fn should_resolve_border_padding() {
    let bp = BoxStrut::new(lu(1), lu(0), lu(0), lu(0));
    assert!(should_resolve_bfc_offset(&bp, false, ClearType::NoClear, false));
}

#[test]
fn should_resolve_content() {
    let bp = BoxStrut::zero();
    assert!(should_resolve_bfc_offset(&bp, true, ClearType::NoClear, false));
}

#[test]
fn should_resolve_clear() {
    let bp = BoxStrut::zero();
    assert!(should_resolve_bfc_offset(&bp, false, ClearType::Left, false));
    assert!(should_resolve_bfc_offset(&bp, false, ClearType::Right, false));
    assert!(should_resolve_bfc_offset(&bp, false, ClearType::Both, false));
}

#[test]
fn should_resolve_new_fc() {
    let bp = BoxStrut::zero();
    assert!(should_resolve_bfc_offset(&bp, false, ClearType::NoClear, true));
}

#[test]
fn should_not_resolve_when_none_apply() {
    let bp = BoxStrut::zero();
    assert!(!should_resolve_bfc_offset(&bp, false, ClearType::NoClear, false));
}

#[test]
fn estimate_computation() {
    let est = compute_bfc_block_offset_estimate(lu(100), lu(20), &MarginStrut::new());
    assert_eq!(est, lu(120));
    let mut strut = MarginStrut::new();
    strut.append_normal(lu(15));
    let est2 = compute_bfc_block_offset_estimate(lu(100), lu(20), &strut);
    assert_eq!(est2, lu(135));
}

#[test]
fn needs_relayout_when_mismatch() {
    let state = BfcBlockOffsetState::Resolved(lu(50));
    assert!(!needs_relayout(&state, lu(50)));
    assert!(needs_relayout(&state, lu(60)));
}

#[test]
fn needs_relayout_false_when_unresolved() {
    let state = BfcBlockOffsetState::new_unresolved();
    assert!(!needs_relayout(&state, lu(100)));
}

// ── Further cases ───────────────────────────────────────────────────

#[test]
fn resolved_state_keeps_pending_floats() {
    let mut state = BfcBlockOffsetState::Resolved(lu(5));
    let mut pending = PendingFloats::new();
    let mut space = ExclusionSpace::new();
    pending.add(make_test_float(lu(0), true));
    let changed = resolve_bfc_block_offset(&mut state, lu(70), &mut pending, &mut space);
    assert!(!changed);
    assert_eq!(pending.len(), 1);
    assert!(!space.has_floats());
    assert_eq!(state, BfcBlockOffsetState::Resolved(lu(5)));
}

#[test]
fn position_all_places_floats_at_resolved_offset_in_order() {
    let mut pending = PendingFloats::new();
    let mut space = ExclusionSpace::new();
    pending.add(make_test_float(lu(0), true));
    pending.add(make_test_float(lu(0), true));
    let placed = pending.position_all(lu(40), &mut space);
    assert_eq!(placed.len(), 2);
    assert_eq!(placed[0].bfc_offset, BfcOffset::new(lu(0), lu(40)));
    // The second left float sits beside the first.
    assert_eq!(placed[1].bfc_offset, BfcOffset::new(lu(100), lu(40)));
    assert!(pending.is_empty());
    assert_eq!(space.num_exclusions(), 2);
}

#[test]
fn negative_margin_strut_lowers_estimate() {
    let mut strut = MarginStrut::new();
    strut.append_normal(lu(30));
    strut.append_normal(lu(-10));
    let est = compute_bfc_block_offset_estimate(lu(0), lu(5), &strut);
    assert_eq!(est, lu(25));
}
