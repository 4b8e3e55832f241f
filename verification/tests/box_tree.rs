use lib::box_tree::{
    auto_height_spanner_has_sized_in_flow_content, clear_type_from_style, has_block_children,
    is_inline_level_child, previous_in_flow_sibling_is_float, propagated_break_after,
    propagated_break_before, resolve_border, subtree_has_avoid_break_descendant,
    subtree_has_clone_decoration_descendant, subtree_has_flex_descendant,
    subtree_has_forced_break_descendant, subtree_has_in_flow_spanner_descendant,
    subtree_has_positioned_abspos_descendant, subtree_has_positioned_descendant, BoxDecorationBreak,
    BreakValue, Clear, ColumnSpan, Display, Float, LayoutTree, NodeKind, NodeStyle, Position,
};
use lib::css_sizing::LengthType;
use lib::exclusions::exclusion_space::ClearType;
use lib::geometry::{LayoutUnit, NodeId};

fn block() -> NodeStyle {
    NodeStyle::with_display(Display::Block)
}

fn element(tree: &mut LayoutTree, parent: NodeId, style: NodeStyle) -> NodeId {
    tree.add_node(Some(parent), NodeKind::Element, style)
}

fn text(tree: &mut LayoutTree, parent: NodeId) -> NodeId {
    tree.add_node(Some(parent), NodeKind::Text, NodeStyle::with_display(Display::Inline))
}

fn root(tree: &mut LayoutTree) -> NodeId {
    tree.add_node(None, NodeKind::Element, block())
}

#[test]
fn tree_records_parents_and_children() {
    let mut tree = LayoutTree::new();
    let r = root(&mut tree);
    let a = element(&mut tree, r, block());
    let b = text(&mut tree, r);
    let c = element(&mut tree, a, block());
    assert_eq!(tree.node_count(), 4);
    assert_eq!(tree.children(r), &vec![a, b]);
    assert_eq!(tree.children(a), &vec![c]);
    assert_eq!(tree.parent(c), a);
    assert_eq!(tree.parent(r), NodeId::none());
    assert_eq!(tree.kind(b), NodeKind::Text);
    assert_eq!(tree.style(a).display, Display::Block);
}

#[test]
fn block_children_found_among_inline_content() {
    let mut tree = LayoutTree::new();
    let r = root(&mut tree);
    text(&mut tree, r);
    element(&mut tree, r, NodeStyle::with_display(Display::Inline));
    assert!(!has_block_children(&tree, r));
    element(&mut tree, r, block());
    assert!(has_block_children(&tree, r));
}

#[test]
fn floats_make_block_children_but_hidden_and_abspos_do_not() {
    let mut tree = LayoutTree::new();
    let r = root(&mut tree);
    element(&mut tree, r, NodeStyle::with_display(Display::DisplayNone));
    element(&mut tree, r, NodeStyle { position: Position::Absolute, ..block() });
    assert!(!has_block_children(&tree, r));
    element(&mut tree, r, NodeStyle { float: Float::Left, ..NodeStyle::with_display(Display::Inline) });
    assert!(has_block_children(&tree, r));
}

#[test]
fn inline_level_children() {
    let mut tree = LayoutTree::new();
    let r = root(&mut tree);
    let t = text(&mut tree, r);
    let span = element(&mut tree, r, NodeStyle::with_display(Display::InlineBlock));
    let floated = element(&mut tree, r, NodeStyle { float: Float::Right, ..NodeStyle::with_display(Display::Inline) });
    let hidden = element(&mut tree, r, NodeStyle::with_display(Display::DisplayNone));
    let div = element(&mut tree, r, block());
    assert!(is_inline_level_child(&tree, t));
    assert!(is_inline_level_child(&tree, span));
    assert!(!is_inline_level_child(&tree, floated));
    assert!(!is_inline_level_child(&tree, hidden));
    assert!(!is_inline_level_child(&tree, div));
}

#[test]
fn break_before_propagates_from_first_in_flow_child() {
    let mut tree = LayoutTree::new();
    let r = root(&mut tree);
    element(&mut tree, r, NodeStyle { float: Float::Left, break_before: BreakValue::Page, ..block() });
    let first = element(&mut tree, r, block());
    element(&mut tree, first, NodeStyle { break_before: BreakValue::Column, ..block() });
    element(&mut tree, r, NodeStyle { break_before: BreakValue::Page, ..block() });
    assert_eq!(propagated_break_before(&tree, r), BreakValue::Column);
}

#[test]
fn forced_break_before_on_the_node_wins() {
    let mut tree = LayoutTree::new();
    let r = tree.add_node(None, NodeKind::Element, NodeStyle { break_before: BreakValue::Left, ..block() });
    element(&mut tree, r, NodeStyle { break_before: BreakValue::Page, ..block() });
    assert_eq!(propagated_break_before(&tree, r), BreakValue::Left);
}

#[test]
fn break_before_without_in_flow_children_is_own() {
    let mut tree = LayoutTree::new();
    let r = tree.add_node(None, NodeKind::Element, NodeStyle { break_before: BreakValue::Avoid, ..block() });
    element(&mut tree, r, NodeStyle { position: Position::Fixed, break_before: BreakValue::Page, ..block() });
    assert_eq!(propagated_break_before(&tree, r), BreakValue::Avoid);
}

#[test]
fn break_after_propagates_from_last_in_flow_child() {
    let mut tree = LayoutTree::new();
    let r = root(&mut tree);
    element(&mut tree, r, NodeStyle { break_after: BreakValue::Page, ..block() });
    let last = element(&mut tree, r, block());
    element(&mut tree, last, NodeStyle { break_after: BreakValue::Right, ..block() });
    element(&mut tree, r, NodeStyle { display: Display::DisplayNone, break_after: BreakValue::Column, ..block() });
    assert_eq!(propagated_break_after(&tree, r), BreakValue::Right);
}

#[test]
fn descendant_searches_look_at_every_depth() {
    let mut tree = LayoutTree::new();
    let r = root(&mut tree);
    let a = element(&mut tree, r, block());
    let b = element(&mut tree, a, block());
    assert!(!subtree_has_flex_descendant(&tree, r));
    element(&mut tree, b, NodeStyle::with_display(Display::Flex));
    assert!(subtree_has_flex_descendant(&tree, r));
    assert!(subtree_has_flex_descendant(&tree, a));
    assert!(!subtree_has_positioned_descendant(&tree, r));
    element(&mut tree, b, NodeStyle { position: Position::Sticky, ..block() });
    assert!(subtree_has_positioned_descendant(&tree, r));
    assert!(!subtree_has_forced_break_descendant(&tree, r));
    element(&mut tree, a, NodeStyle { break_after: BreakValue::Column, ..block() });
    assert!(subtree_has_forced_break_descendant(&tree, r));
    assert!(!subtree_has_avoid_break_descendant(&tree, r));
    element(&mut tree, a, NodeStyle { break_inside: BreakValue::AvoidColumn, ..block() });
    assert!(subtree_has_avoid_break_descendant(&tree, r));
    assert!(!subtree_has_clone_decoration_descendant(&tree, r));
    element(&mut tree, b, NodeStyle { box_decoration_break: BoxDecorationBreak::Clone, ..block() });
    assert!(subtree_has_clone_decoration_descendant(&tree, r));
}

#[test]
fn node_itself_is_not_its_descendant() {
    let mut tree = LayoutTree::new();
    let r = tree.add_node(None, NodeKind::Element, NodeStyle::with_display(Display::Flex));
    element(&mut tree, r, block());
    assert!(!subtree_has_flex_descendant(&tree, r));
}

#[test]
fn in_flow_spanner_must_be_generated_and_in_flow() {
    let mut tree = LayoutTree::new();
    let r = root(&mut tree);
    element(&mut tree, r, NodeStyle { column_span: ColumnSpan::All, position: Position::Absolute, ..block() });
    element(&mut tree, r, NodeStyle { column_span: ColumnSpan::All, display: Display::DisplayNone, ..block() });
    assert!(!subtree_has_in_flow_spanner_descendant(&tree, r));
    element(&mut tree, r, NodeStyle { column_span: ColumnSpan::All, ..block() });
    assert!(subtree_has_in_flow_spanner_descendant(&tree, r));
}

#[test]
fn positioned_abspos_needs_a_positioned_parent() {
    let mut tree = LayoutTree::new();
    let r = root(&mut tree);
    let plain = element(&mut tree, r, block());
    element(&mut tree, plain, NodeStyle { position: Position::Absolute, ..block() });
    assert!(!subtree_has_positioned_abspos_descendant(&tree, r));
    let rel = element(&mut tree, plain, NodeStyle { position: Position::Relative, ..block() });
    element(&mut tree, rel, NodeStyle { position: Position::Fixed, ..block() });
    assert!(subtree_has_positioned_abspos_descendant(&tree, r));
    assert!(subtree_has_positioned_abspos_descendant(&tree, rel));
    assert!(subtree_has_positioned_descendant(&tree, r));
}

#[test]
fn spanner_content_with_height_or_borders_is_sized() {
    let mut tree = LayoutTree::new();
    let r = root(&mut tree);
    let a = element(&mut tree, r, block());
    element(&mut tree, r, NodeStyle { display: Display::DisplayNone, height: LengthType::Fixed, ..block() });
    assert!(!auto_height_spanner_has_sized_in_flow_content(&tree, r));
    element(&mut tree, a, NodeStyle { border_top: 2, ..block() });
    assert!(auto_height_spanner_has_sized_in_flow_content(&tree, r));
}

#[test]
fn spanner_content_hidden_under_abspos_is_not_counted() {
    let mut tree = LayoutTree::new();
    let r = root(&mut tree);
    let abs = element(&mut tree, r, NodeStyle { position: Position::Absolute, ..block() });
    element(&mut tree, abs, NodeStyle { height: LengthType::Fixed, ..block() });
    assert!(!auto_height_spanner_has_sized_in_flow_content(&tree, r));
}

#[test]
fn previous_in_flow_sibling_float_skips_hidden_and_abspos() {
    let mut tree = LayoutTree::new();
    let r = root(&mut tree);
    element(&mut tree, r, NodeStyle { float: Float::Left, ..block() });
    element(&mut tree, r, NodeStyle { position: Position::Absolute, ..block() });
    element(&mut tree, r, NodeStyle::with_display(Display::DisplayNone));
    let target = element(&mut tree, r, block());
    let after = element(&mut tree, r, block());
    assert!(previous_in_flow_sibling_is_float(&tree, target));
    assert!(!previous_in_flow_sibling_is_float(&tree, after));
    assert!(!previous_in_flow_sibling_is_float(&tree, r));
}

#[test]
fn first_child_has_no_previous_float() {
    let mut tree = LayoutTree::new();
    let r = root(&mut tree);
    let first = element(&mut tree, r, NodeStyle { float: Float::Left, ..block() });
    assert!(!previous_in_flow_sibling_is_float(&tree, first));
}

#[test]
fn clear_values_map_to_clear_types() {
    assert_eq!(clear_type_from_style(Clear::NoClear), ClearType::NoClear);
    assert_eq!(clear_type_from_style(Clear::Left), ClearType::Left);
    assert_eq!(clear_type_from_style(Clear::Right), ClearType::Right);
    assert_eq!(clear_type_from_style(Clear::Both), ClearType::Both);
}

#[test]
fn borders_become_layout_units() {
    let style = NodeStyle { border_top: 1, border_right: 2, border_bottom: 3, border_left: 4, ..block() };
    let b = resolve_border(&style);
    assert_eq!(b.top, LayoutUnit::from_i32(1));
    assert_eq!(b.right.to_i32(), 2);
    assert_eq!(b.bottom.raw, 3 * 64);
    assert_eq!(b.left, LayoutUnit::from_i32(4));
}
