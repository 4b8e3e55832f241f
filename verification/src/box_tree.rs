//! The box tree that block layout walks: nodes with the computed style
//! values that the layout decisions read, linked parent to children.
//!
//! Nodes are numbered in creation order and a child is always created after
//! its parent, so every child's id is larger than its parent's: walks down
//! the tree end, and the walkers below are total.
use vstd::prelude::*;
use crate::css_sizing::LengthType;
use crate::exclusions::exclusion_space::ClearType;
use crate::geometry::{BoxStrut, LayoutUnit, NodeId, spec_lu_from_int};

verus! {

/// Whether a node is an element or a run of text.
#[derive(Clone, Copy, Debug, PartialEq, Eq, Structural, Hash)]
pub enum NodeKind {
    Element,
    Text,
}

/// CSS `display`.
#[derive(Clone, Copy, Debug, PartialEq, Eq, Structural, Hash)]
pub enum Display {
    Block,
    Inline,
    InlineBlock,
    ListItem,
    FlowRoot,
    Flex,
    InlineFlex,
    /// `display: none`: the node generates no box.
    DisplayNone,
}

impl Display {
    pub open spec fn spec_is_block_level(self) -> bool {
        match self {
            Display::Block | Display::ListItem | Display::FlowRoot | Display::Flex => true,
            _ => false,
        }
    }

    pub open spec fn spec_is_inline_level(self) -> bool {
        match self {
            Display::Inline | Display::InlineBlock | Display::InlineFlex => true,
            _ => false,
        }
    }

    /// Whether the box is block-level (takes part in block layout).
    #[verifier::when_used_as_spec(spec_is_block_level)]
    pub fn is_block_level(self) -> (r: bool)
        ensures
            r == self.spec_is_block_level(),
    {
        match self {
            Display::Block | Display::ListItem | Display::FlowRoot | Display::Flex => true,
            _ => false,
        }
    }

    /// Whether the box is inline-level (takes part in inline layout).
    #[verifier::when_used_as_spec(spec_is_inline_level)]
    pub fn is_inline_level(self) -> (r: bool)
        ensures
            r == self.spec_is_inline_level(),
    {
        match self {
            Display::Inline | Display::InlineBlock | Display::InlineFlex => true,
            _ => false,
        }
    }
}

/// CSS `position`.
#[derive(Clone, Copy, Debug, PartialEq, Eq, Structural, Hash)]
pub enum Position {
    Static,
    Relative,
    Absolute,
    Fixed,
    Sticky,
}

impl Position {
    pub open spec fn spec_is_positioned(self) -> bool {
        self != Position::Static
    }

    pub open spec fn spec_is_absolutely_positioned(self) -> bool {
        self == Position::Absolute || self == Position::Fixed
    }

    /// Any value but `static`.
    #[verifier::when_used_as_spec(spec_is_positioned)]
    pub fn is_positioned(self) -> (r: bool)
        ensures
            r == self.spec_is_positioned(),
    {
        match self {
            Position::Static => false,
            _ => true,
        }
    }

    /// `absolute` or `fixed`: the box is taken out of flow.
    #[verifier::when_used_as_spec(spec_is_absolutely_positioned)]
    pub fn is_absolutely_positioned(self) -> (r: bool)
        ensures
            r == self.spec_is_absolutely_positioned(),
    {
        match self {
            Position::Absolute | Position::Fixed => true,
            _ => false,
        }
    }
}

/// CSS `float`.
#[derive(Clone, Copy, Debug, PartialEq, Eq, Structural, Hash)]
pub enum Float {
    NoFloat,
    Left,
    Right,
}

/// CSS `clear`.
#[derive(Clone, Copy, Debug, PartialEq, Eq, Structural, Hash)]
pub enum Clear {
    NoClear,
    Left,
    Right,
    Both,
}

/// CSS `break-before`, `break-after` and `break-inside`.
#[derive(Clone, Copy, Debug, PartialEq, Eq, Structural, Hash)]
pub enum BreakValue {
    Auto,
    Avoid,
    AvoidPage,
    AvoidColumn,
    Page,
    Column,
    Left,
    Right,
}

impl BreakValue {
    pub open spec fn spec_is_forced(self) -> bool {
        match self {
            BreakValue::Page | BreakValue::Column | BreakValue::Left | BreakValue::Right => true,
            _ => false,
        }
    }

    pub open spec fn spec_is_avoid(self) -> bool {
        match self {
            BreakValue::Avoid | BreakValue::AvoidPage | BreakValue::AvoidColumn => true,
            _ => false,
        }
    }

    /// A value that forces a break.
    #[verifier::when_used_as_spec(spec_is_forced)]
    pub fn is_forced(self) -> (r: bool)
        ensures
            r == self.spec_is_forced(),
    {
        match self {
            BreakValue::Page | BreakValue::Column | BreakValue::Left | BreakValue::Right => true,
            _ => false,
        }
    }

    /// A value that asks to avoid a break.
    #[verifier::when_used_as_spec(spec_is_avoid)]
    pub fn is_avoid(self) -> (r: bool)
        ensures
            r == self.spec_is_avoid(),
    {
        match self {
            BreakValue::Avoid | BreakValue::AvoidPage | BreakValue::AvoidColumn => true,
            _ => false,
        }
    }
}

/// CSS `column-span`.
#[derive(Clone, Copy, Debug, PartialEq, Eq, Structural, Hash)]
pub enum ColumnSpan {
    NoSpan,
    All,
}

/// CSS `box-decoration-break`.
#[derive(Clone, Copy, Debug, PartialEq, Eq, Structural, Hash)]
pub enum BoxDecorationBreak {
    Slice,
    Clone,
}

/// The computed style values of a node that block layout reads.
#[derive(Clone, Copy, Debug, PartialEq, Eq, Structural, Hash)]
pub struct NodeStyle {
    pub display: Display,
    pub position: Position,
    pub float: Float,
    pub clear: Clear,
    pub break_before: BreakValue,
    pub break_after: BreakValue,
    pub break_inside: BreakValue,
    pub column_span: ColumnSpan,
    pub box_decoration_break: BoxDecorationBreak,
    /// The kind of the `height` property's value.
    pub height: LengthType,
    /// Used border widths in whole pixels (zero where the border style is
    /// `none` or `hidden`).
    pub border_top: i32,
    pub border_right: i32,
    pub border_bottom: i32,
    pub border_left: i32,
    /// Whether the background colour is fully transparent.
    pub background_transparent: bool,
}

impl NodeStyle {
    /// The initial values, with the given `display`.
    pub fn with_display(display: Display) -> (r: NodeStyle)
        ensures
            r == (NodeStyle {
                display,
                position: Position::Static,
                float: Float::NoFloat,
                clear: Clear::NoClear,
                break_before: BreakValue::Auto,
                break_after: BreakValue::Auto,
                break_inside: BreakValue::Auto,
                column_span: ColumnSpan::NoSpan,
                box_decoration_break: BoxDecorationBreak::Slice,
                height: LengthType::Auto,
                border_top: 0,
                border_right: 0,
                border_bottom: 0,
                border_left: 0,
                background_transparent: true,
            }),
    {
        NodeStyle {
            display,
            position: Position::Static,
            float: Float::NoFloat,
            clear: Clear::NoClear,
            break_before: BreakValue::Auto,
            break_after: BreakValue::Auto,
            break_inside: BreakValue::Auto,
            column_span: ColumnSpan::NoSpan,
            box_decoration_break: BoxDecorationBreak::Slice,
            height: LengthType::Auto,
            border_top: 0,
            border_right: 0,
            border_bottom: 0,
            border_left: 0,
            background_transparent: true,
        }
    }

    pub open spec fn spec_is_out_of_flow(self) -> bool {
        self.float != Float::NoFloat || self.position.spec_is_absolutely_positioned()
    }

    /// Floated or absolutely positioned: the box is out of the normal flow.
    #[verifier::when_used_as_spec(spec_is_out_of_flow)]
    pub fn is_out_of_flow(self) -> (r: bool)
        ensures
            r == self.spec_is_out_of_flow(),
    {
        self.float != Float::NoFloat || self.position.is_absolutely_positioned()
    }
}

/// The border widths of a style as layout units (saturating).
pub fn resolve_border(style: &NodeStyle) -> (r: BoxStrut)
    ensures
        r.top == spec_lu_from_int(style.border_top as int),
        r.right == spec_lu_from_int(style.border_right as int),
        r.bottom == spec_lu_from_int(style.border_bottom as int),
        r.left == spec_lu_from_int(style.border_left as int),
{
    BoxStrut::new(
        LayoutUnit::from_i32(style.border_top),
        LayoutUnit::from_i32(style.border_right),
        LayoutUnit::from_i32(style.border_bottom),
        LayoutUnit::from_i32(style.border_left),
    )
}

/// The `ClearType` that a `clear` value asks the exclusion space for.
pub open spec fn spec_clear_type_from_style(clear: Clear) -> ClearType {
    match clear {
        Clear::NoClear => ClearType::NoClear,
        Clear::Left => ClearType::Left,
        Clear::Right => ClearType::Right,
        Clear::Both => ClearType::Both,
    }
}

/// Map a `clear` value to the clearance query it makes.
pub fn clear_type_from_style(clear: Clear) -> (r: ClearType)
    ensures
        r == spec_clear_type_from_style(clear),
{
    match clear {
        Clear::NoClear => ClearType::NoClear,
        Clear::Left => ClearType::Left,
        Clear::Right => ClearType::Right,
        Clear::Both => ClearType::Both,
    }
}

// ── The tree ──────────────────────────────────────────────────────────
/// One node of the tree.
struct TreeNode {
    kind: NodeKind,
    style: NodeStyle,
    /// The parent, or `NodeId::none()` for a root.
    parent: NodeId,
    children: Vec<NodeId>,
}

/// The abstract content of a node.
pub struct NodeView {
    pub kind: NodeKind,
    pub style: NodeStyle,
    pub parent: NodeId,
    pub children: Seq<NodeId>,
}

impl View for TreeNode {
    type V = NodeView;

    closed spec fn view(&self) -> NodeView {
        NodeView { kind: self.kind, style: self.style, parent: self.parent, children: self.children@ }
    }
}

/// A tree of nodes addressed by `NodeId`.
pub struct LayoutTree {
    nodes: Vec<TreeNode>,
}

/// The abstract content of a tree: its nodes, indexed by id.
pub struct TreeView {
    pub nodes: Seq<NodeView>,
}

impl View for LayoutTree {
    type V = TreeView;

    closed spec fn view(&self) -> TreeView {
        TreeView { nodes: self.nodes@.map_values(|n: TreeNode| n@) }
    }
}

/// Which property a descendant search looks for.
#[derive(Clone, Copy, Debug, PartialEq, Eq, Structural, Hash)]
pub enum DescendantTest {
    /// Any `position` but `static`.
    Positioned,
    /// A generated, in-flow box with `column-span: all`.
    InFlowSpanner,
    /// `display: flex`.
    Flex,
    /// A forced `break-before` or `break-after`.
    ForcedBreak,
    /// An avoid value in `break-before`, `break-after` or `break-inside`.
    AvoidBreak,
    /// `box-decoration-break: clone`.
    CloneDecoration,
}

/// Whether a style passes a descendant test.
pub open spec fn passes(test: DescendantTest, s: NodeStyle) -> bool {
    match test {
        DescendantTest::Positioned => s.position.spec_is_positioned(),
        DescendantTest::InFlowSpanner => s.display != Display::DisplayNone
            && !s.position.spec_is_absolutely_positioned() && s.column_span == ColumnSpan::All,
        DescendantTest::Flex => s.display == Display::Flex,
        DescendantTest::ForcedBreak => s.break_before.spec_is_forced() || s.break_after.spec_is_forced(),
        DescendantTest::AvoidBreak => s.break_before.spec_is_avoid() || s.break_after.spec_is_avoid()
            || s.break_inside.spec_is_avoid(),
        DescendantTest::CloneDecoration => s.box_decoration_break == BoxDecorationBreak::Clone,
    }
}

/// A child that takes part in the flow that break propagation follows:
/// generated, not floated, not absolutely positioned.
pub open spec fn is_break_flow_child(s: NodeStyle) -> bool {
    s.display != Display::DisplayNone && s.float == Float::NoFloat
        && !s.position.spec_is_absolutely_positioned()
}

/// A child that generates a box in the flow or as a float: not
/// `display: none` and not absolutely positioned.
pub open spec fn is_generated_in_flow(s: NodeStyle) -> bool {
    s.display != Display::DisplayNone && !s.position.spec_is_absolutely_positioned()
}

impl TreeView {
    pub open spec fn len(self) -> int {
        self.nodes.len() as int
    }

    pub open spec fn valid_id(self, n: int) -> bool {
        0 <= n < self.len()
    }

    pub open spec fn children(self, n: int) -> Seq<NodeId> {
        self.nodes[n].children
    }

    pub open spec fn style(self, n: int) -> NodeStyle {
        self.nodes[n].style
    }

    /// Ids fit below `NodeId::none()`; each child of a node is a node with a
    /// larger id whose parent is that node; each parent is an earlier node.
    pub open spec fn well_formed(self) -> bool {
        &&& self.len() < u32::MAX
        &&& forall|n: int, i: int|
            0 <= n < self.len() && 0 <= i < self.nodes[n].children.len() ==> {
                let c = #[trigger] self.nodes[n].children[i];
                &&& n < c.index < self.len()
                &&& self.nodes[c.index as int].parent == NodeId { index: n as u32 }
            }
        &&& forall|n: int|
            0 <= n < self.len() ==> (#[trigger] self.nodes[n].parent).index == u32::MAX
                || self.nodes[n].parent.index < n
    }

    /// Whether some child `c` of `n` at index `i` or later passes `test` or has
    /// a descendant that does.
    pub open spec fn has_descendant_from(self, n: int, i: int, test: DescendantTest) -> bool
        decreases self.len() - n, self.children(n).len() - i,
    {
        if 0 <= n < self.len() && 0 <= i < self.children(n).len() {
            let c = self.children(n)[i].index as int;
            ||| passes(test, self.style(c))
            ||| (n < c < self.len() && self.has_descendant_from(c, 0, test))
            ||| self.has_descendant_from(n, i + 1, test)
        } else {
            false
        }
    }

    /// Whether some proper descendant of `n` passes `test`.
    pub open spec fn has_descendant(self, n: int, test: DescendantTest) -> bool {
        self.has_descendant_from(n, 0, test)
    }

    /// Whether some child of `n` is absolutely positioned.
    pub open spec fn has_abspos_child(self, n: int) -> bool {
        exists|i: int|
            0 <= i < self.children(n).len() && (#[trigger] self.style(
                self.children(n)[i].index as int,
            )).position.spec_is_absolutely_positioned()
    }

    /// `n` is positioned and is the containing block of an absolutely
    /// positioned child.
    pub open spec fn is_abspos_container(self, n: int) -> bool {
        self.style(n).position.spec_is_positioned() && self.has_abspos_child(n)
    }

    /// Whether some child of `n` at index `i` or later, or one of its
    /// descendants, is an abspos container.
    pub open spec fn has_abspos_container_from(self, n: int, i: int) -> bool
        decreases self.len() - n, self.children(n).len() - i,
    {
        if 0 <= n < self.len() && 0 <= i < self.children(n).len() {
            let c = self.children(n)[i].index as int;
            ||| self.is_abspos_container(c)
            ||| (n < c < self.len() && self.has_abspos_container_from(c, 0))
            ||| self.has_abspos_container_from(n, i + 1)
        } else {
            false
        }
    }

    /// A generated in-flow box with a non-auto height or a top or bottom border.
    pub open spec fn is_sized_box(self, c: int) -> bool {
        self.style(c).height != LengthType::Auto || self.style(c).border_top != 0
            || self.style(c).border_bottom != 0
    }

    /// Whether some generated in-flow child of `n` at index `i` or later is a
    /// sized box or holds sized in-flow content, looking only through
    /// generated in-flow boxes.
    pub open spec fn has_sized_content_from(self, n: int, i: int) -> bool
        decreases self.len() - n, self.children(n).len() - i,
    {
        if 0 <= n < self.len() && 0 <= i < self.children(n).len() {
            let c = self.children(n)[i].index as int;
            ||| (is_generated_in_flow(self.style(c)) && (self.is_sized_box(c) || (n < c < self.len()
                && self.has_sized_content_from(c, 0))))
            ||| self.has_sized_content_from(n, i + 1)
        } else {
            false
        }
    }

    /// The index of the first child of `n` at index `i` or later that takes
    /// part in break propagation, or the number of children if none does.
    pub open spec fn first_break_flow_child(self, n: int, i: int) -> int
        decreases self.children(n).len() - i,
    {
        if 0 <= i < self.children(n).len() {
            if is_break_flow_child(self.style(self.children(n)[i].index as int)) {
                i
            } else {
                self.first_break_flow_child(n, i + 1)
            }
        } else {
            self.children(n).len() as int
        }
    }

    /// The index of the last child of `n` below index `k` that takes part in
    /// break propagation, or -1 if none does.
    pub open spec fn last_break_flow_child(self, n: int, k: int) -> int
        decreases k,
    {
        if 0 < k <= self.children(n).len() {
            if is_break_flow_child(self.style(self.children(n)[k - 1].index as int)) {
                k - 1
            } else {
                self.last_break_flow_child(n, k - 1)
            }
        } else {
            -1
        }
    }

    /// The `break-before` value that reaches `n`'s block-start edge: its own
    /// when forced, else the one propagated from its first in-flow child,
    /// else its own.
    pub open spec fn propagated_break_before(self, n: int) -> BreakValue
        decreases self.len() - n,
    {
        if 0 <= n < self.len() {
            let s = self.style(n);
            let k = self.first_break_flow_child(n, 0);
            if s.break_before.spec_is_forced() {
                s.break_before
            } else if 0 <= k < self.children(n).len() && n < self.children(n)[k].index < self.len() {
                self.propagated_break_before(self.children(n)[k].index as int)
            } else {
                s.break_before
            }
        } else {
            BreakValue::Auto
        }
    }

    /// The `break-after` value that reaches `n`'s block-end edge: its own
    /// when forced, else the one propagated from its last in-flow child,
    /// else its own.
    pub open spec fn propagated_break_after(self, n: int) -> BreakValue
        decreases self.len() - n,
    {
        if 0 <= n < self.len() {
            let s = self.style(n);
            let k = self.last_break_flow_child(n, self.children(n).len() as int);
            if s.break_after.spec_is_forced() {
                s.break_after
            } else if 0 <= k < self.children(n).len() && n < self.children(n)[k].index < self.len() {
                self.propagated_break_after(self.children(n)[k].index as int)
            } else {
                s.break_after
            }
        } else {
            BreakValue::Auto
        }
    }

    /// Whether `n` has a child that makes its content block-level: a
    /// generated in-flow child that floats, or an element child whose
    /// display is block-level.
    pub open spec fn has_block_children(self, n: int) -> bool {
        exists|i: int|
            0 <= i < self.children(n).len() && #[trigger] self.is_block_child(self.children(n)[i].index as int)
    }

    pub open spec fn is_block_child(self, c: int) -> bool {
        let s = self.style(c);
        &&& is_generated_in_flow(s)
        &&& (s.float != Float::NoFloat || (self.nodes[c].kind != NodeKind::Text
            && s.display.spec_is_block_level()))
    }

    /// Whether `c` is inline-level: in flow, generated, and a text node or
    /// of inline-level display.
    pub open spec fn is_inline_level_child(self, c: int) -> bool {
        let s = self.style(c);
        &&& !s.spec_is_out_of_flow()
        &&& s.display != Display::DisplayNone
        &&& (self.nodes[c].kind == NodeKind::Text || s.display.spec_is_inline_level())
    }

    /// The position of the first occurrence of `id` in `cs` at `i` or later,
    /// or the length of `cs`.
    pub open spec fn first_index_of(cs: Seq<NodeId>, id: NodeId, i: int) -> int
        decreases cs.len() - i,
    {
        if 0 <= i < cs.len() {
            if cs[i] == id {
                i
            } else {
                Self::first_index_of(cs, id, i + 1)
            }
        } else {
            cs.len() as int
        }
    }

    /// The index of the last generated in-flow node of `cs` below index `k`,
    /// or -1.
    pub open spec fn last_generated_before(self, cs: Seq<NodeId>, k: int) -> int
        decreases k,
    {
        if 0 < k <= cs.len() {
            if is_generated_in_flow(self.style(cs[k - 1].index as int)) {
                k - 1
            } else {
                self.last_generated_before(cs, k - 1)
            }
        } else {
            -1
        }
    }

    /// The index found by `last_generated_before` lies below `k`.
    pub proof fn lemma_last_generated_before_range(self, cs: Seq<NodeId>, k: int)
        requires
            0 <= k,
        ensures
            -1 <= self.last_generated_before(cs, k) < k,
            self.last_generated_before(cs, k) < cs.len(),
        decreases k,
    {
        if 0 < k <= cs.len() {
            self.lemma_last_generated_before_range(cs, k - 1);
        }
    }

    /// Whether the closest generated in-flow sibling before `n` floats.
    pub open spec fn previous_in_flow_sibling_is_float(self, n: int) -> bool {
        let p = self.nodes[n].parent;
        if p.index == u32::MAX {
            false
        } else {
            let cs = self.children(p.index as int);
            let j = self.last_generated_before(cs, Self::first_index_of(cs, NodeId { index: n as u32 }, 0));
            j >= 0 && self.style(cs[j].index as int).float != Float::NoFloat
        }
    }
}

// ── Laws ──────────────────────────────────────────────────────────────
/// A match at a later child is a match from an earlier one.
proof fn lemma_has_descendant_from_earlier(t: TreeView, n: int, i: int, j: int, test: DescendantTest)
    requires
        0 <= i <= j,
        t.has_descendant_from(n, j, test),
    ensures
        t.has_descendant_from(n, i, test),
    decreases j - i,
{
    if i < j {
        lemma_has_descendant_from_earlier(t, n, i + 1, j, test);
    }
}

/// A positioned node with an absolutely positioned child has a positioned
/// descendant.
proof fn lemma_abspos_container_positioned_child(t: TreeView, n: int)
    requires
        t.well_formed(),
        0 <= n < t.len(),
        t.is_abspos_container(n),
    ensures
        t.has_descendant(n, DescendantTest::Positioned),
{
    let i = choose|i: int|
        0 <= i < t.children(n).len() && (#[trigger] t.style(t.children(n)[i].index as int)).position.spec_is_absolutely_positioned();
    assert(t.has_descendant_from(n, i, DescendantTest::Positioned));
    lemma_has_descendant_from_earlier(t, n, 0, i, DescendantTest::Positioned);
}

proof fn lemma_abspos_container_below_positioned(t: TreeView, n: int, i: int)
    requires
        t.well_formed(),
        0 <= n < t.len(),
        t.has_abspos_container_from(n, i),
    ensures
        t.has_descendant_from(n, i, DescendantTest::Positioned),
    decreases t.len() - n, t.children(n).len() - i,
{
    let c = t.children(n)[i].index as int;
    assert(n < c < t.len());
    if t.is_abspos_container(c) {
        lemma_abspos_container_positioned_child(t, c);
    } else if t.has_abspos_container_from(c, 0) {
        lemma_abspos_container_below_positioned(t, c, 0);
    } else {
        lemma_abspos_container_below_positioned(t, n, i + 1);
    }
}

/// Whenever the subtree of a node holds a positioned box with an
/// absolutely positioned child, the node has a positioned descendant.
pub proof fn lemma_positioned_abspos_implies_positioned_descendant(t: TreeView, n: int)
    requires
        t.well_formed(),
        0 <= n < t.len(),
        t.is_abspos_container(n) || t.has_abspos_container_from(n, 0),
    ensures
        t.has_descendant(n, DescendantTest::Positioned),
{
    if t.is_abspos_container(n) {
        lemma_abspos_container_positioned_child(t, n);
    } else {
        lemma_abspos_container_below_positioned(t, n, 0);
    }
}

impl LayoutTree {
    #[verifier::type_invariant]
    spec fn tree_well_formed(self) -> bool {
        self@.well_formed()
    }

    /// An empty tree.
    pub fn new() -> (r: LayoutTree)
        ensures
            r@.nodes == Seq::<NodeView>::empty(),
    {
        let r = LayoutTree { nodes: Vec::new() };
        assert(r@.nodes =~= Seq::<NodeView>::empty());
        r
    }

    /// The tree is well formed.
    pub fn check_well_formed(&self)
        ensures
            self@.well_formed(),
    {
        proof {
            use_type_invariant(self);
        }
    }

    /// Number of nodes.
    pub fn node_count(&self) -> (r: usize)
        ensures
            r == self@.len(),
    {
        self.nodes.len()
    }

    /// Add a node as the last child of `parent`, or as a new root; returns its id.
    pub fn add_node(&mut self, parent: Option<NodeId>, kind: NodeKind, style: NodeStyle) -> (r: NodeId)
        requires
            old(self)@.len() + 1 < u32::MAX,
            parent matches Some(p) ==> p.index < old(self)@.len(),
        ensures
            r.index == old(self)@.len(),
            final(self)@.len() == old(self)@.len() + 1,
            final(self)@.nodes.last() == (NodeView {
                kind,
                style,
                parent: match parent {
                    Some(p) => p,
                    None => NodeId { index: u32::MAX },
                },
                children: Seq::<NodeId>::empty(),
            }),
            forall|n: int|
                0 <= n < old(self)@.len() ==> (#[trigger] final(self)@.nodes[n]) == (match parent {
                    Some(p) => if n == p.index {
                        NodeView { children: old(self)@.nodes[n].children.push(r), ..old(self)@.nodes[n] }
                    } else {
                        old(self)@.nodes[n]
                    },
                    None => old(self)@.nodes[n],
                }),
    {
        proof {
            use_type_invariant(&*self);
        }
        let id = NodeId { index: self.nodes.len() as u32 };
        let ghost before = self@;
        let mut tmp = LayoutTree::new();
        std::mem::swap(self, &mut tmp);
        let LayoutTree { mut nodes } = tmp;
        let parent_id = match parent {
            Some(p) => {
                nodes[p.index as usize].children.push(id);
                p
            },
            None => NodeId::none(),
        };
        nodes.push(TreeNode { kind, style, parent: parent_id, children: Vec::new() });
        let ghost after = TreeView { nodes: nodes@.map_values(|n: TreeNode| n@) };
        proof {
            assert forall|n: int| 0 <= n < before.len() implies (#[trigger] after.nodes[n]) == (match parent {
                Some(p) => if n == p.index {
                    NodeView { children: before.nodes[n].children.push(id), ..before.nodes[n] }
                } else {
                    before.nodes[n]
                },
                None => before.nodes[n],
            }) by {
                if parent is Some && n == parent->0.index {
                    assert(after.nodes[n].children =~= before.nodes[n].children.push(id));
                }
            }
            assert forall|n: int, i: int|
                0 <= n < after.len() && 0 <= i < after.nodes[n].children.len() implies {
                    let c = #[trigger] after.nodes[n].children[i];
                    &&& n < c.index < after.len()
                    &&& after.nodes[c.index as int].parent == NodeId { index: n as u32 }
                } by {
                let c = after.nodes[n].children[i];
                if parent is Some && n == parent->0.index && i == before.nodes[n].children.len() {
                    assert(c == id);
                } else {
                    assert(n < before.len());
                    assert(c == before.nodes[n].children[i]);
                    assert(after.nodes[c.index as int].parent == before.nodes[c.index as int].parent);
                }
            }
            assert(after.well_formed());
        }
        *self = LayoutTree { nodes };
        id
    }

    /// The node's kind.
    pub fn kind(&self, node_id: NodeId) -> (r: NodeKind)
        requires
            node_id.index < self@.len(),
        ensures
            r == self@.nodes[node_id.index as int].kind,
    {
        self.nodes[node_id.index as usize].kind
    }

    /// The node's style.
    pub fn style(&self, node_id: NodeId) -> (r: NodeStyle)
        requires
            node_id.index < self@.len(),
        ensures
            r == self@.style(node_id.index as int),
    {
        self.nodes[node_id.index as usize].style
    }

    /// The node's parent, or `NodeId::none()` for a root.
    pub fn parent(&self, node_id: NodeId) -> (r: NodeId)
        requires
            node_id.index < self@.len(),
        ensures
            r == self@.nodes[node_id.index as int].parent,
    {
        self.nodes[node_id.index as usize].parent
    }

    /// The node's children, in order.
    pub fn children(&self, node_id: NodeId) -> (r: &Vec<NodeId>)
        requires
            node_id.index < self@.len(),
        ensures
            r@ == self@.children(node_id.index as int),
    {
        &self.nodes[node_id.index as usize].children
    }
}

// ── Walks ─────────────────────────────────────────────────────────────
fn style_passes(test: DescendantTest, s: NodeStyle) -> (r: bool)
    ensures
        r == passes(test, s),
{
    match test {
        DescendantTest::Positioned => s.position.is_positioned(),
        DescendantTest::InFlowSpanner => s.display != Display::DisplayNone
            && !s.position.is_absolutely_positioned() && s.column_span == ColumnSpan::All,
        DescendantTest::Flex => s.display == Display::Flex,
        DescendantTest::ForcedBreak => s.break_before.is_forced() || s.break_after.is_forced(),
        DescendantTest::AvoidBreak => s.break_before.is_avoid() || s.break_after.is_avoid()
            || s.break_inside.is_avoid(),
        DescendantTest::CloneDecoration => s.box_decoration_break == BoxDecorationBreak::Clone,
    }
}

/// Whether some proper descendant of `node_id` passes `test`.
fn subtree_has(tree: &LayoutTree, node_id: NodeId, test: DescendantTest) -> (r: bool)
    requires
        node_id.index < tree@.len(),
    ensures
        r == tree@.has_descendant(node_id.index as int, test),
    decreases tree@.len() - node_id.index,
{
    tree.check_well_formed();
    let ghost n = node_id.index as int;
    let children = tree.children(node_id);
    let mut i: usize = 0;
    while i < children.len()
        invariant
            tree@.well_formed(),
            0 <= n < tree@.len(),
            n == node_id.index,
            children@ == tree@.children(n),
            i <= children@.len(),
            tree@.has_descendant_from(n, 0, test) == tree@.has_descendant_from(n, i as int, test),
        decreases children@.len() - i,
    {
        let c = children[i];
        assert(n < c.index < tree@.len());
        if style_passes(test, tree.style(c)) || subtree_has(tree, c, test) {
            return true;
        }
        i = i + 1;
    }
    false
}

/// Whether some proper descendant of the node is positioned.
pub fn subtree_has_positioned_descendant(tree: &LayoutTree, node_id: NodeId) -> (r: bool)
    requires
        node_id.index < tree@.len(),
    ensures
        r == tree@.has_descendant(node_id.index as int, DescendantTest::Positioned),
{
    subtree_has(tree, node_id, DescendantTest::Positioned)
}

/// Whether some proper descendant of the node is a generated, in-flow
/// column spanner.
pub fn subtree_has_in_flow_spanner_descendant(tree: &LayoutTree, node_id: NodeId) -> (r: bool)
    requires
        node_id.index < tree@.len(),
    ensures
        r == tree@.has_descendant(node_id.index as int, DescendantTest::InFlowSpanner),
{
    subtree_has(tree, node_id, DescendantTest::InFlowSpanner)
}

/// Whether some proper descendant of the node is a flex container.
pub fn subtree_has_flex_descendant(tree: &LayoutTree, node_id: NodeId) -> (r: bool)
    requires
        node_id.index < tree@.len(),
    ensures
        r == tree@.has_descendant(node_id.index as int, DescendantTest::Flex),
{
    subtree_has(tree, node_id, DescendantTest::Flex)
}

/// Whether some proper descendant of the node forces a break before or after it.
pub fn subtree_has_forced_break_descendant(tree: &LayoutTree, node_id: NodeId) -> (r: bool)
    requires
        node_id.index < tree@.len(),
    ensures
        r == tree@.has_descendant(node_id.index as int, DescendantTest::ForcedBreak),
{
    subtree_has(tree, node_id, DescendantTest::ForcedBreak)
}

/// Whether some proper descendant of the node asks to avoid a break before,
/// after or inside it.
pub fn subtree_has_avoid_break_descendant(tree: &LayoutTree, node_id: NodeId) -> (r: bool)
    requires
        node_id.index < tree@.len(),
    ensures
        r == tree@.has_descendant(node_id.index as int, DescendantTest::AvoidBreak),
{
    subtree_has(tree, node_id, DescendantTest::AvoidBreak)
}

/// Whether some proper descendant of the node clones its box decorations
/// at breaks.
pub fn subtree_has_clone_decoration_descendant(tree: &LayoutTree, node_id: NodeId) -> (r: bool)
    requires
        node_id.index < tree@.len(),
    ensures
        r == tree@.has_descendant(node_id.index as int, DescendantTest::CloneDecoration),
{
    subtree_has(tree, node_id, DescendantTest::CloneDecoration)
}

/// Whether some child of the node is absolutely positioned.
fn has_abspos_child(tree: &LayoutTree, node_id: NodeId) -> (r: bool)
    requires
        node_id.index < tree@.len(),
    ensures
        r == tree@.has_abspos_child(node_id.index as int),
{
    tree.check_well_formed();
    let ghost n = node_id.index as int;
    let children = tree.children(node_id);
    let mut i: usize = 0;
    while i < children.len()
        invariant
            tree@.well_formed(),
            0 <= n < tree@.len(),
            n == node_id.index,
            children@ == tree@.children(n),
            i <= children@.len(),
            forall|j: int|
                0 <= j < i ==> !(#[trigger] tree@.style(children@[j].index as int)).position.spec_is_absolutely_positioned(),
        decreases children@.len() - i,
    {
        let c = children[i];
        assert(n < c.index < tree@.len());
        if tree.style(c).position.is_absolutely_positioned() {
            return true;
        }
        i = i + 1;
    }
    false
}

/// Whether the node is positioned and has an absolutely positioned child.
fn is_abspos_container(tree: &LayoutTree, node_id: NodeId) -> (r: bool)
    requires
        node_id.index < tree@.len(),
    ensures
        r == tree@.is_abspos_container(node_id.index as int),
{
    tree.style(node_id).position.is_positioned() && has_abspos_child(tree, node_id)
}

fn abspos_container_below(tree: &LayoutTree, node_id: NodeId) -> (r: bool)
    requires
        node_id.index < tree@.len(),
    ensures
        r == tree@.has_abspos_container_from(node_id.index as int, 0),
    decreases tree@.len() - node_id.index,
{
    tree.check_well_formed();
    let ghost n = node_id.index as int;
    let children = tree.children(node_id);
    let mut i: usize = 0;
    while i < children.len()
        invariant
            tree@.well_formed(),
            0 <= n < tree@.len(),
            n == node_id.index,
            children@ == tree@.children(n),
            i <= children@.len(),
            tree@.has_abspos_container_from(n, 0) == tree@.has_abspos_container_from(n, i as int),
        decreases children@.len() - i,
    {
        let c = children[i];
        assert(n < c.index < tree@.len());
        if is_abspos_container(tree, c) || abspos_container_below(tree, c) {
            return true;
        }
        i = i + 1;
    }
    false
}

/// Whether the node or one of its descendants is positioned and holds an
/// absolutely positioned child.
pub fn subtree_has_positioned_abspos_descendant(tree: &LayoutTree, node_id: NodeId) -> (r: bool)
    requires
        node_id.index < tree@.len(),
    ensures
        r == (tree@.is_abspos_container(node_id.index as int) || tree@.has_abspos_container_from(
            node_id.index as int,
            0,
        )),
{
    is_abspos_container(tree, node_id) || abspos_container_below(tree, node_id)
}

/// Whether a column spanner with an auto height holds content that gives it
/// a height: a generated in-flow descendant, reached through generated
/// in-flow boxes, with a non-auto height or a top or bottom border.
pub fn auto_height_spanner_has_sized_in_flow_content(tree: &LayoutTree, node_id: NodeId) -> (r: bool)
    requires
        node_id.index < tree@.len(),
    ensures
        r == tree@.has_sized_content_from(node_id.index as int, 0),
    decreases tree@.len() - node_id.index,
{
    tree.check_well_formed();
    let ghost n = node_id.index as int;
    let children = tree.children(node_id);
    let mut i: usize = 0;
    while i < children.len()
        invariant
            tree@.well_formed(),
            0 <= n < tree@.len(),
            n == node_id.index,
            children@ == tree@.children(n),
            i <= children@.len(),
            tree@.has_sized_content_from(n, 0) == tree@.has_sized_content_from(n, i as int),
        decreases children@.len() - i,
    {
        let c = children[i];
        assert(n < c.index < tree@.len());
        let s = tree.style(c);
        if s.display != Display::DisplayNone && !s.position.is_absolutely_positioned() {
            if s.height != LengthType::Auto || s.border_top != 0 || s.border_bottom != 0
                || auto_height_spanner_has_sized_in_flow_content(tree, c) {
                return true;
            }
        }
        i = i + 1;
    }
    false
}

fn takes_part_in_break_flow(s: NodeStyle) -> (r: bool)
    ensures
        r == is_break_flow_child(s),
{
    s.display != Display::DisplayNone && s.float == Float::NoFloat && !s.position.is_absolutely_positioned()
}

/// The `break-before` value that applies at the node's block-start edge: its
/// own when it forces a break, else the value propagated from its first
/// in-flow child, else its own.
pub fn propagated_break_before(tree: &LayoutTree, node_id: NodeId) -> (r: BreakValue)
    requires
        node_id.index < tree@.len(),
    ensures
        r == tree@.propagated_break_before(node_id.index as int),
    decreases tree@.len() - node_id.index,
{
    tree.check_well_formed();
    let ghost n = node_id.index as int;
    let style = tree.style(node_id);
    if style.break_before.is_forced() {
        return style.break_before;
    }
    let children = tree.children(node_id);
    let mut i: usize = 0;
    while i < children.len()
        invariant
            tree@.well_formed(),
            0 <= n < tree@.len(),
            n == node_id.index,
            children@ == tree@.children(n),
            i <= children@.len(),
            tree@.first_break_flow_child(n, 0) == tree@.first_break_flow_child(n, i as int),
            style == tree@.style(n),
            !style.break_before.spec_is_forced(),
        decreases children@.len() - i,
    {
        let c = children[i];
        assert(n < c.index < tree@.len());
        if takes_part_in_break_flow(tree.style(c)) {
            assert(tree@.first_break_flow_child(n, i as int) == i);
            return propagated_break_before(tree, c);
        }
        i = i + 1;
    }
    style.break_before
}

/// The `break-after` value that applies at the node's block-end edge: its
/// own when it forces a break, else the value propagated from its last
/// in-flow child, else its own.
pub fn propagated_break_after(tree: &LayoutTree, node_id: NodeId) -> (r: BreakValue)
    requires
        node_id.index < tree@.len(),
    ensures
        r == tree@.propagated_break_after(node_id.index as int),
    decreases tree@.len() - node_id.index,
{
    tree.check_well_formed();
    let ghost n = node_id.index as int;
    let style = tree.style(node_id);
    if style.break_after.is_forced() {
        return style.break_after;
    }
    let children = tree.children(node_id);
    let mut k: usize = children.len();
    while k > 0
        invariant
            tree@.well_formed(),
            0 <= n < tree@.len(),
            n == node_id.index,
            children@ == tree@.children(n),
            k <= children@.len(),
            tree@.last_break_flow_child(n, children@.len() as int) == tree@.last_break_flow_child(n, k as int),
            style == tree@.style(n),
            !style.break_after.spec_is_forced(),
        decreases k,
    {
        let c = children[k - 1];
        assert(n < c.index < tree@.len());
        if takes_part_in_break_flow(tree.style(c)) {
            assert(tree@.last_break_flow_child(n, k as int) == k - 1);
            return propagated_break_after(tree, c);
        }
        k = k - 1;
    }
    style.break_after
}

/// Whether the node's content is block-level: some child that is generated
/// and not absolutely positioned either floats or is an element with a
/// block-level display.
pub fn has_block_children(tree: &LayoutTree, node_id: NodeId) -> (r: bool)
    requires
        node_id.index < tree@.len(),
    ensures
        r == tree@.has_block_children(node_id.index as int),
{
    tree.check_well_formed();
    let ghost n = node_id.index as int;
    let children = tree.children(node_id);
    let mut i: usize = 0;
    while i < children.len()
        invariant
            tree@.well_formed(),
            0 <= n < tree@.len(),
            n == node_id.index,
            children@ == tree@.children(n),
            i <= children@.len(),
            forall|j: int| 0 <= j < i ==> !#[trigger] tree@.is_block_child(children@[j].index as int),
        decreases children@.len() - i,
    {
        let c = children[i];
        assert(n < c.index < tree@.len());
        let s = tree.style(c);
        if s.position.is_absolutely_positioned() || s.display == Display::DisplayNone {
            i = i + 1;
            continue;
        }
        if s.float != Float::NoFloat {
            assert(tree@.is_block_child(children@[i as int].index as int));
            return true;
        }
        if tree.kind(c) == NodeKind::Text {
            i = i + 1;
            continue;
        }
        if s.display.is_block_level() {
            assert(tree@.is_block_child(children@[i as int].index as int));
            return true;
        }
        i = i + 1;
    }
    false
}

/// Whether the child is inline-level: neither out of flow nor `display:
/// none`, and a text node or of inline-level display.
pub fn is_inline_level_child(tree: &LayoutTree, child_id: NodeId) -> (r: bool)
    requires
        child_id.index < tree@.len(),
    ensures
        r == tree@.is_inline_level_child(child_id.index as int),
{
    let s = tree.style(child_id);
    if s.is_out_of_flow() || s.display == Display::DisplayNone {
        return false;
    }
    tree.kind(child_id) == NodeKind::Text || s.display.is_inline_level()
}

/// Whether the closest preceding sibling of the node that generates an
/// in-flow box (not `display: none`, not absolutely positioned) floats.
pub fn previous_in_flow_sibling_is_float(tree: &LayoutTree, node_id: NodeId) -> (r: bool)
    requires
        node_id.index < tree@.len(),
    ensures
        r == tree@.previous_in_flow_sibling_is_float(node_id.index as int),
{
    tree.check_well_formed();
    let parent = tree.parent(node_id);
    if parent.index == u32::MAX {
        return false;
    }
    let ghost p = parent.index as int;
    let siblings = tree.children(parent);
    let ghost cs = siblings@;
    let mut previous: Option<NodeId> = None;
    let mut i: usize = 0;
    while i < siblings.len()
        invariant
            tree@.well_formed(),
            0 <= p < tree@.len(),
            cs == tree@.children(p),
            siblings@ == cs,
            i <= cs.len(),
            TreeView::first_index_of(cs, node_id, 0) == TreeView::first_index_of(cs, node_id, i as int),
            previous == (if tree@.last_generated_before(cs, i as int) >= 0 {
                Some(cs[tree@.last_generated_before(cs, i as int)])
            } else {
                None::<NodeId>
            }),
        ensures
            i as int == TreeView::first_index_of(cs, node_id, 0),
            previous == (if tree@.last_generated_before(cs, i as int) >= 0 {
                Some(cs[tree@.last_generated_before(cs, i as int)])
            } else {
                None::<NodeId>
            }),
        decreases cs.len() - i,
    {
        let sibling = siblings[i];
        proof {
            tree@.lemma_last_generated_before_range(cs, i as int);
            tree@.lemma_last_generated_before_range(cs, i + 1);
        }
        if sibling == node_id {
            break;
        }
        assert(p < sibling.index < tree@.len());
        let s = tree.style(sibling);
        if s.display != Display::DisplayNone && !s.position.is_absolutely_positioned() {
            previous = Some(sibling);
        }
        i = i + 1;
    }
    proof {
        tree@.lemma_last_generated_before_range(cs, i as int);
    }
    match previous {
        Some(sibling) => {
            assert(p < sibling.index < tree@.len());
            tree.style(sibling).float != Float::NoFloat
        },
        None => false,
    }
}

} // verus!
