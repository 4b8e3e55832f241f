use lib::exclusions::exclusion_space::{ExclusionArea, ExclusionSpace, ExclusionType};
use lib::exclusions::float_utils::{compute_margin_box_inline_size, position_float, UnpositionedFloat};
use lib::geometry::{BfcOffset, BfcRect, BoxStrut, LayoutUnit, NodeId};

fn lu(v: i32) -> LayoutUnit {
    LayoutUnit::from_i32(v)
}

fn make_float(
    inline_size: i32,
    block_size: i32,
    is_left: bool,
    available: i32,
    origin_line: i32,
    origin_block: i32,
) -> UnpositionedFloat {
    UnpositionedFloat {
        node_id: NodeId::none(),
        available_size: lu(available),
        origin_bfc_offset: BfcOffset::new(lu(origin_line), lu(origin_block)),
        margins: BoxStrut::zero(),
        inline_size: lu(inline_size),
        block_size: lu(block_size),
        is_left,
    }
}

fn make_float_with_margins(
    inline_size: i32,
    block_size: i32,
    is_left: bool,
    available: i32,
    margins: BoxStrut,
) -> UnpositionedFloat {
    UnpositionedFloat {
        node_id: NodeId::none(),
        available_size: lu(available),
        origin_bfc_offset: BfcOffset::zero(),
        margins,
        inline_size: lu(inline_size),
        block_size: lu(block_size),
        is_left,
    }
}

fn left_exclusion(line_end: i32, block_end: i32) -> ExclusionArea {
    ExclusionArea {
        rect: BfcRect::new(BfcOffset::new(lu(0), lu(0)), BfcOffset::new(lu(line_end), lu(block_end))),
        exclusion_type: ExclusionType::Left,
    }
}

#[test]
fn margin_box_inline_size_zero_margins() {
    let f = make_float(200, 100, true, 800, 0, 0);
    assert_eq!(compute_margin_box_inline_size(&f), lu(200));
}

#[test]
fn margin_box_inline_size_with_margins() {
    let f = make_float_with_margins(200, 100, true, 800, BoxStrut::new(lu(5), lu(20), lu(5), lu(10)));
    assert_eq!(compute_margin_box_inline_size(&f), lu(230));
}

#[test]
fn left_float_empty_space() {
    let space = ExclusionSpace::new();
    let f = make_float(200, 100, true, 800, 0, 0);
    let (pos, excl) = position_float(&f, &space);
    assert_eq!(pos.bfc_offset.line_offset, lu(0));
    assert_eq!(pos.bfc_offset.block_offset, lu(0));
    assert_eq!(pos.exclusion_type, ExclusionType::Left);
    assert_eq!(excl.rect.line_start_offset(), lu(0));
    assert_eq!(excl.rect.line_end_offset(), lu(200));
    assert_eq!(excl.rect.block_start_offset(), lu(0));
    assert_eq!(excl.rect.block_end_offset(), lu(100));
}

#[test]
fn right_float_empty_space() {
    let space = ExclusionSpace::new();
    let f = make_float(200, 100, false, 800, 0, 0);
    let (pos, excl) = position_float(&f, &space);
    assert_eq!(pos.bfc_offset.line_offset, lu(600));
    assert_eq!(pos.bfc_offset.block_offset, lu(0));
    assert_eq!(pos.exclusion_type, ExclusionType::Right);
    assert_eq!(excl.rect.line_start_offset(), lu(600));
    assert_eq!(excl.rect.line_end_offset(), lu(800));
    assert_eq!(excl.rect.block_start_offset(), lu(0));
    assert_eq!(excl.rect.block_end_offset(), lu(100));
}

#[test]
fn left_float_with_margins() {
    let space = ExclusionSpace::new();
    let f = make_float_with_margins(200, 100, true, 800, BoxStrut::new(lu(10), lu(20), lu(15), lu(30)));
    let (pos, excl) = position_float(&f, &space);
    assert_eq!(pos.bfc_offset.line_offset, lu(30));
    assert_eq!(pos.bfc_offset.block_offset, lu(10));
    assert_eq!(excl.rect.line_start_offset(), lu(0));
    assert_eq!(excl.rect.line_end_offset(), lu(250));
    assert_eq!(excl.rect.block_start_offset(), lu(0));
    assert_eq!(excl.rect.block_end_offset(), lu(125));
}

#[test]
fn right_float_with_margins() {
    let space = ExclusionSpace::new();
    let f = make_float_with_margins(200, 100, false, 800, BoxStrut::new(lu(10), lu(20), lu(15), lu(30)));
    let (pos, excl) = position_float(&f, &space);
    assert_eq!(pos.bfc_offset.line_offset, lu(580));
    assert_eq!(pos.bfc_offset.block_offset, lu(10));
    assert_eq!(excl.rect.line_start_offset(), lu(550));
    assert_eq!(excl.rect.line_end_offset(), lu(800));
    assert_eq!(excl.rect.block_start_offset(), lu(0));
    assert_eq!(excl.rect.block_end_offset(), lu(125));
}

#[test]
fn left_float_drops_below_existing() {
    let mut space = ExclusionSpace::new();
    space.add(left_exclusion(600, 100));
    let f = make_float(300, 50, true, 800, 0, 0);
    let (pos, excl) = position_float(&f, &space);
    assert!(pos.bfc_offset.block_offset >= lu(100), "Float should drop below the existing float");
    assert_eq!(pos.bfc_offset.line_offset, lu(0));
    assert_eq!(excl.rect.line_start_offset(), lu(0));
    assert_eq!(excl.rect.line_end_offset(), lu(300));
}

#[test]
fn second_left_float_stacks_beside_first() {
    let mut space = ExclusionSpace::new();
    space.add(left_exclusion(200, 100));
    let f = make_float(150, 80, true, 800, 0, 0);
    let (pos, excl) = position_float(&f, &space);
    assert_eq!(pos.bfc_offset.line_offset, lu(200));
    assert_eq!(pos.bfc_offset.block_offset, lu(0));
    assert_eq!(excl.rect.line_start_offset(), lu(200));
    assert_eq!(excl.rect.line_end_offset(), lu(350));
}

#[test]
fn positioned_float_fragment_has_correct_size() {
    let space = ExclusionSpace::new();
    let f = make_float(200, 100, true, 800, 0, 0);
    let (pos, _) = position_float(&f, &space);
    assert_eq!(pos.fragment.size.width, lu(200));
    assert_eq!(pos.fragment.size.height, lu(100));
}

#[test]
fn float_with_nonzero_origin() {
    let space = ExclusionSpace::new();
    let f = make_float(200, 100, true, 800, 0, 50);
    let (pos, excl) = position_float(&f, &space);
    assert_eq!(pos.bfc_offset.line_offset, lu(0));
    assert_eq!(pos.bfc_offset.block_offset, lu(50));
    assert_eq!(excl.rect.block_start_offset(), lu(50));
    assert_eq!(excl.rect.block_end_offset(), lu(150));
}

#[test]
fn right_float_next_to_left_float() {
    let mut space = ExclusionSpace::new();
    space.add(left_exclusion(300, 100));
    let f = make_float(200, 80, false, 800, 0, 0);
    let (pos, excl) = position_float(&f, &space);
    assert_eq!(pos.bfc_offset.line_offset, lu(600));
    assert_eq!(pos.bfc_offset.block_offset, lu(0));
    assert_eq!(excl.rect.line_start_offset(), lu(600));
    assert_eq!(excl.rect.line_end_offset(), lu(800));
    assert_eq!(excl.exclusion_type, ExclusionType::Right);
}

#[test]
fn float_with_margins_next_to_existing() {
    let mut space = ExclusionSpace::new();
    space.add(left_exclusion(200, 100));
    let f = make_float_with_margins(100, 50, true, 800, BoxStrut::all(lu(10)));
    let (pos, excl) = position_float(&f, &space);
    assert_eq!(pos.bfc_offset.line_offset, lu(210));
    assert_eq!(pos.bfc_offset.block_offset, lu(10));
    assert_eq!(excl.rect.line_start_offset(), lu(200));
    assert_eq!(excl.rect.line_end_offset(), lu(320));
    assert_eq!(excl.rect.block_start_offset(), lu(0));
    assert_eq!(excl.rect.block_end_offset(), lu(70));
}

// ── Further cases ───────────────────────────────────────────────────

#[test]
fn fragment_carries_node_and_margins() {
    let space = ExclusionSpace::new();
    let mut f = make_float_with_margins(40, 30, true, 800, BoxStrut::new(lu(1), lu(2), lu(3), lu(4)));
    f.node_id = NodeId { index: 7 };
    let (pos, _) = position_float(&f, &space);
    assert_eq!(pos.node_id, NodeId { index: 7 });
    assert_eq!(pos.fragment.node_id, NodeId { index: 7 });
    assert_eq!(pos.fragment.margin, BoxStrut::new(lu(1), lu(2), lu(3), lu(4)));
}

#[test]
fn placed_floats_do_not_overlap() {
    let mut space = ExclusionSpace::new();
    let first = make_float(300, 100, true, 800, 0, 0);
    let (_, e1) = position_float(&first, &space);
    space.add(e1);
    let second = make_float(300, 100, false, 800, 0, 0);
    let (_, e2) = position_float(&second, &space);
    space.add(e2);
    let third = make_float(300, 100, true, 800, 0, 0);
    let (_, e3) = position_float(&third, &space);
    // The third float no longer fits beside the first two and drops below them.
    assert_eq!(e3.rect.block_start_offset(), lu(100));
    assert!(e1.rect.line_end_offset() <= e2.rect.line_start_offset());
}
