//! Box fragments as layout produces them (a tree of boxes with offsets
//! relative to their parent), and the walks over them that block
//! fragmentation makes: the visual block extent of a fragment, the topmost
//! descendant that forces or avoids a break, the suppression of avoid-break
//! descendants below a cut, and the repetition of a late float.
use vstd::prelude::*;
use crate::box_tree::{Float, LayoutTree, TreeView, previous_in_flow_sibling_is_float};
use crate::geometry::{LayoutUnit, NodeId, PhysicalOffset, PhysicalRect, PhysicalSize};

verus! {

/// A laid-out box: the node that generated it (`NodeId::none()` for an
/// anonymous box), its offset within its parent, its border-box size, the
/// rectangle its overflow reaches (relative to its own origin) where that
/// was recorded, and its child fragments.
pub struct BoxFragment {
    pub node_id: NodeId,
    pub offset: PhysicalOffset,
    pub size: PhysicalSize,
    pub overflow_rect: Option<PhysicalRect>,
    pub children: Vec<BoxFragment>,
}

/// The abstract content of a fragment, children included.
pub struct FragmentView {
    pub node_id: NodeId,
    pub offset: PhysicalOffset,
    pub size: PhysicalSize,
    pub overflow_rect: Option<PhysicalRect>,
    pub children: Seq<FragmentView>,
}

/// The view of a fragment and, recursively, of its children.
pub open spec fn fragment_view(f: BoxFragment) -> FragmentView
    decreases f,
{
    FragmentView {
        node_id: f.node_id,
        offset: f.offset,
        size: f.size,
        overflow_rect: f.overflow_rect,
        children: Seq::new(
            f.children@.len(),
            |i: int|
                if 0 <= i < f.children@.len() {
                    fragment_view(f.children@[i])
                } else {
                    FragmentView {
                        node_id: f.node_id,
                        offset: f.offset,
                        size: f.size,
                        overflow_rect: f.overflow_rect,
                        children: Seq::empty(),
                    }
                },
        ),
    }
}

impl View for BoxFragment {
    type V = FragmentView;

    open spec fn view(&self) -> FragmentView {
        fragment_view(*self)
    }
}

impl BoxFragment {
    /// A fragment with no children and no recorded overflow.
    pub fn new(node_id: NodeId, offset: PhysicalOffset, size: PhysicalSize) -> (r: BoxFragment)
        ensures
            r@ == (FragmentView {
                node_id,
                offset,
                size,
                overflow_rect: None,
                children: Seq::<FragmentView>::empty(),
            }),
    {
        let r = BoxFragment { node_id, offset, size, overflow_rect: None, children: Vec::new() };
        assert(r@.children =~= Seq::<FragmentView>::empty());
        r
    }

    /// Append a child fragment.
    pub fn add_child(&mut self, child: BoxFragment)
        ensures
            final(self)@ == (FragmentView { children: old(self)@.children.push(child@), ..old(self)@ }),
    {
        let ghost before = self@;
        self.children.push(child);
        assert(self@.children =~= before.children.push(child@));
    }

    /// A deep copy.
    pub fn copy(&self) -> (r: BoxFragment)
        ensures
            r@ == self@,
        decreases self,
    {
        let mut children: Vec<BoxFragment> = Vec::new();
        let mut i: usize = 0;
        while i < self.children.len()
            invariant
                i <= self.children@.len(),
                children@.len() == i,
                forall|j: int| 0 <= j < i ==> (#[trigger] children@[j])@ == self.children@[j]@,
            decreases self.children@.len() - i,
        {
            let c = self.children[i].copy();
            children.push(c);
            i = i + 1;
        }
        let r = BoxFragment {
            node_id: self.node_id,
            offset: self.offset,
            size: self.size,
            overflow_rect: self.overflow_rect,
            children,
        };
        assert(r@.children =~= self@.children);
        r
    }
}

// ── Visual block extent ───────────────────────────────────────────────
/// The block-end of a fragment's own box and recorded overflow, relative to
/// its origin.
pub open spec fn own_visual_bottom(v: FragmentView) -> LayoutUnit {
    let overflow_bottom = match v.overflow_rect {
        Some(r) => r.offset.top.spec_plus(r.size.height),
        None => v.size.height,
    };
    v.size.height.spec_max_of(overflow_bottom)
}

/// The block-start of a fragment's recorded overflow (zero if none),
/// relative to its origin.
pub open spec fn own_visual_top(v: FragmentView) -> LayoutUnit {
    match v.overflow_rect {
        Some(r) => r.offset.top,
        None => LayoutUnit { raw: 0 },
    }
}

/// `init` extended by the visual bottoms of the first `k` fragments of
/// `cs`, each shifted by its block offset.
pub open spec fn children_visual_bottom(cs: Seq<FragmentView>, k: int, init: LayoutUnit) -> LayoutUnit
    decreases cs, k,
{
    if 0 < k <= cs.len() {
        let c = cs[k - 1];
        children_visual_bottom(cs, k - 1, init).spec_max_of(
            c.offset.top.spec_plus(children_visual_bottom(c.children, c.children.len() as int, own_visual_bottom(c))),
        )
    } else {
        init
    }
}

/// `init` extended by the visual tops of the first `k` fragments of `cs`,
/// each shifted by its block offset.
pub open spec fn children_visual_top(cs: Seq<FragmentView>, k: int, init: LayoutUnit) -> LayoutUnit
    decreases cs, k,
{
    if 0 < k <= cs.len() {
        let c = cs[k - 1];
        children_visual_top(cs, k - 1, init).spec_min_of(
            c.offset.top.spec_plus(children_visual_top(c.children, c.children.len() as int, own_visual_top(c))),
        )
    } else {
        init
    }
}

/// The lowest block offset, relative to the fragment's origin, that the
/// fragment or any descendant paints to: its own height and overflow, and
/// each child's visual bottom shifted by the child's offset.
pub open spec fn visual_block_bottom(v: FragmentView) -> LayoutUnit {
    children_visual_bottom(v.children, v.children.len() as int, own_visual_bottom(v))
}

/// The highest block offset, relative to the fragment's origin, that the
/// fragment's overflow or any descendant reaches.
pub open spec fn visual_block_top(v: FragmentView) -> LayoutUnit {
    children_visual_top(v.children, v.children.len() as int, own_visual_top(v))
}

proof fn lemma_children_visual_bottom_at_least(cs: Seq<FragmentView>, k: int, init: LayoutUnit)
    ensures
        children_visual_bottom(cs, k, init).raw >= init.raw,
    decreases k,
{
    if 0 < k <= cs.len() {
        lemma_children_visual_bottom_at_least(cs, k - 1, init);
    }
}

proof fn lemma_children_visual_top_at_most(cs: Seq<FragmentView>, k: int, init: LayoutUnit)
    ensures
        children_visual_top(cs, k, init).raw <= init.raw,
    decreases k,
{
    if 0 < k <= cs.len() {
        lemma_children_visual_top_at_most(cs, k - 1, init);
    }
}

/// The visual block extent of a fragment covers its own box and its
/// recorded overflow: the visual bottom is at least its height and its
/// overflow's bottom, and the visual top at most its overflow's top (zero
/// without overflow).
pub proof fn lemma_visual_extent_covers_own_box(v: FragmentView)
    ensures
        visual_block_bottom(v).raw >= own_visual_bottom(v).raw,
        own_visual_bottom(v).raw >= v.size.height.raw,
        visual_block_top(v).raw <= own_visual_top(v).raw,
{
    lemma_children_visual_bottom_at_least(v.children, v.children.len() as int, own_visual_bottom(v));
    lemma_children_visual_top_at_most(v.children, v.children.len() as int, own_visual_top(v));
}

/// The fragment's visual block-end: see `visual_block_bottom`.
pub fn fragment_visual_block_bottom(fragment: &BoxFragment) -> (r: LayoutUnit)
    ensures
        r == visual_block_bottom(fragment@),
    decreases fragment,
{
    let overflow_bottom = match fragment.overflow_rect {
        Some(rect) => rect.offset.top.plus(rect.size.height),
        None => fragment.size.height,
    };
    let mut bottom = fragment.size.height.max_of(overflow_bottom);
    let ghost v = fragment@;
    let mut i: usize = 0;
    while i < fragment.children.len()
        invariant
            v == fragment@,
            i <= fragment.children@.len(),
            bottom == children_visual_bottom(v.children, i as int, own_visual_bottom(v)),
        decreases fragment.children@.len() - i,
    {
        let child = &fragment.children[i];
        assert(v.children[i as int] == child@);
        let b = fragment_visual_block_bottom(child);
        bottom = bottom.max_of(child.offset.top.plus(b));
        i = i + 1;
    }
    bottom
}

/// The fragment's visual block-start: see `visual_block_top`.
pub fn fragment_visual_block_top(fragment: &BoxFragment) -> (r: LayoutUnit)
    ensures
        r == visual_block_top(fragment@),
    decreases fragment,
{
    let mut top = match fragment.overflow_rect {
        Some(rect) => rect.offset.top,
        None => LayoutUnit::zero(),
    };
    let ghost v = fragment@;
    let mut i: usize = 0;
    while i < fragment.children.len()
        invariant
            v == fragment@,
            i <= fragment.children@.len(),
            top == children_visual_top(v.children, i as int, own_visual_top(v)),
        decreases fragment.children@.len() - i,
    {
        let child = &fragment.children[i];
        assert(v.children[i as int] == child@);
        let t = fragment_visual_block_top(child);
        top = top.min_of(child.offset.top.plus(t));
        i = i + 1;
    }
    top
}

// ── Break candidates ──────────────────────────────────────────────────
/// Whether every descendant of the fragments `cs[..k]` (and they
/// themselves) is anonymous or generated by a node of a tree of `len` nodes.
pub open spec fn node_ids_within(cs: Seq<FragmentView>, k: int, len: int) -> bool
    decreases cs, k,
{
    if 0 < k <= cs.len() {
        let c = cs[k - 1];
        &&& node_ids_within(cs, k - 1, len)
        &&& (c.node_id.index == u32::MAX || c.node_id.index < len)
        &&& node_ids_within(c.children, c.children.len() as int, len)
    } else {
        true
    }
}

/// Every descendant of the fragment is anonymous or generated by a node of
/// the tree.
pub open spec fn fragment_ids_within(v: FragmentView, tree: TreeView) -> bool {
    node_ids_within(v.children, v.children.len() as int, tree.len())
}

/// Which descendants a break search looks for.
#[derive(Clone, Copy, Debug, PartialEq, Eq, Structural, Hash)]
pub enum BreakSearch {
    /// Boxes whose node forces a break before them; positioned boxes are
    /// not looked into.
    ForcedBreakBefore,
    /// Non-positioned boxes that avoid breaks inside, follow a floated
    /// sibling and cross the break offset; positioned boxes are not looked
    /// into.
    AvoidAfterFloat,
    /// Non-positioned boxes that avoid breaks inside and cross the break offset.
    AvoidInside,
}

/// Whether a box, at block offsets `top` to `bottom` from the searched
/// fragment, starts after `consumed` and crosses `break_at`.
pub open spec fn crosses_break(top: LayoutUnit, bottom: LayoutUnit, consumed: LayoutUnit, break_at: LayoutUnit) -> bool {
    consumed.raw < top.raw && top.raw < break_at.raw && bottom.raw > break_at.raw
}

/// Whether a child fragment, at `top` to `bottom`, is a match of the search.
pub open spec fn is_break_candidate(
    tree: TreeView,
    search: BreakSearch,
    consumed: LayoutUnit,
    break_at: LayoutUnit,
    c: FragmentView,
    top: LayoutUnit,
    bottom: LayoutUnit,
) -> bool {
    let id = c.node_id.index as int;
    let s = tree.style(id);
    &&& c.node_id.index != u32::MAX
    &&& match search {
        BreakSearch::ForcedBreakBefore => s.break_before.spec_is_forced(),
        BreakSearch::AvoidAfterFloat => s.break_inside.spec_is_avoid() && tree.previous_in_flow_sibling_is_float(id)
            && !s.position.spec_is_positioned() && crosses_break(top, bottom, consumed, break_at),
        BreakSearch::AvoidInside => s.break_inside.spec_is_avoid() && !s.position.spec_is_positioned()
            && crosses_break(top, bottom, consumed, break_at),
    }
}

/// Whether the search looks inside a child fragment at `top` to `bottom`.
pub open spec fn searches_inside(
    tree: TreeView,
    search: BreakSearch,
    consumed: LayoutUnit,
    break_at: LayoutUnit,
    c: FragmentView,
    top: LayoutUnit,
    bottom: LayoutUnit,
) -> bool {
    let positioned = c.node_id.index != u32::MAX && tree.style(c.node_id.index as int).position.spec_is_positioned();
    match search {
        BreakSearch::ForcedBreakBefore => !positioned,
        BreakSearch::AvoidAfterFloat => !positioned && bottom.raw > consumed.raw && top.raw < break_at.raw,
        BreakSearch::AvoidInside => bottom.raw > consumed.raw && top.raw < break_at.raw,
    }
}

/// The matches of the search among the fragments `cs[..k]` and their
/// descendants, in tree order (each box before its descendants), as block
/// offsets `(top, bottom)` from the searched fragment; the fragments of `cs`
/// sit at `parent_top` plus their own offset.
pub open spec fn break_candidates(
    tree: TreeView,
    search: BreakSearch,
    consumed: LayoutUnit,
    break_at: LayoutUnit,
    cs: Seq<FragmentView>,
    k: int,
    parent_top: LayoutUnit,
) -> Seq<(LayoutUnit, LayoutUnit)>
    decreases cs, k,
{
    if 0 < k <= cs.len() {
        let c = cs[k - 1];
        let top = parent_top.spec_plus(c.offset.top);
        let bottom = top.spec_plus(c.size.height);
        let own = if is_break_candidate(tree, search, consumed, break_at, c, top, bottom) {
            seq![(top, bottom)]
        } else {
            Seq::<(LayoutUnit, LayoutUnit)>::empty()
        };
        let inside = if searches_inside(tree, search, consumed, break_at, c, top, bottom) {
            break_candidates(tree, search, consumed, break_at, c.children, c.children.len() as int, top)
        } else {
            Seq::<(LayoutUnit, LayoutUnit)>::empty()
        };
        break_candidates(tree, search, consumed, break_at, cs, k - 1, parent_top) + own + inside
    } else {
        Seq::<(LayoutUnit, LayoutUnit)>::empty()
    }
}

/// The first of the boxes `s` (after `best`, if any) whose top is smallest.
pub open spec fn topmost_from(best: Option<(LayoutUnit, LayoutUnit)>, s: Seq<(LayoutUnit, LayoutUnit)>) -> Option<(LayoutUnit, LayoutUnit)>
    decreases s.len(),
{
    if s.len() == 0 {
        best
    } else {
        let b = topmost_from(best, s.drop_last());
        let x = s.last();
        match b {
            Some(y) => if x.0.raw < y.0.raw {
                Some(x)
            } else {
                Some(y)
            },
            None => Some(x),
        }
    }
}

/// The first of the boxes `s` whose top is smallest, if any.
pub open spec fn topmost_first(s: Seq<(LayoutUnit, LayoutUnit)>) -> Option<(LayoutUnit, LayoutUnit)> {
    topmost_from(None, s)
}

/// The top of a box, if any.
pub open spec fn top_of(b: Option<(LayoutUnit, LayoutUnit)>) -> Option<LayoutUnit> {
    match b {
        Some(p) => Some(p.0),
        None => None,
    }
}

/// Searching two runs of boxes one after the other is searching the first
/// and carrying its result into the second.
pub proof fn lemma_topmost_from_concat(
    best: Option<(LayoutUnit, LayoutUnit)>,
    s1: Seq<(LayoutUnit, LayoutUnit)>,
    s2: Seq<(LayoutUnit, LayoutUnit)>,
)
    ensures
        topmost_from(best, s1 + s2) == topmost_from(topmost_from(best, s1), s2),
    decreases s2.len(),
{
    if s2.len() == 0 {
        assert(s1 + s2 =~= s1);
    } else {
        lemma_topmost_from_concat(best, s1, s2.drop_last());
        assert((s1 + s2).drop_last() =~= s1 + s2.drop_last());
        assert((s1 + s2).last() == s2.last());
    }
}

/// The box picked is one of `s` with the smallest top, and no box before it
/// has that top; there is none exactly when `s` is empty.
pub proof fn lemma_topmost_first_is_first_minimum(s: Seq<(LayoutUnit, LayoutUnit)>)
    ensures
        topmost_first(s) is None <==> s.len() == 0,
        topmost_first(s) matches Some(x) ==> exists|j: int|
            0 <= j < s.len() && s[j] == x && (forall|i: int| 0 <= i < j ==> (#[trigger] s[i]).0.raw > x.0.raw)
                && (forall|i: int| 0 <= i < s.len() ==> (#[trigger] s[i]).0.raw >= x.0.raw),
    decreases s.len(),
{
    if s.len() > 0 {
        let d = s.drop_last();
        lemma_topmost_first_is_first_minimum(d);
        let x = s.last();
        match topmost_first(d) {
            Some(y) => {
                let j = choose|j: int|
                    0 <= j < d.len() && d[j] == y && (forall|i: int| 0 <= i < j ==> (#[trigger] d[i]).0.raw > y.0.raw)
                        && (forall|i: int| 0 <= i < d.len() ==> (#[trigger] d[i]).0.raw >= y.0.raw);
                if x.0.raw < y.0.raw {
                    let k = s.len() - 1;
                    assert(s[k] == x);
                    assert forall|i: int| 0 <= i < k implies (#[trigger] s[i]).0.raw > x.0.raw by {
                        assert(s[i] == d[i]);
                    }
                } else {
                    assert(s[j] == y);
                    assert forall|i: int| 0 <= i < j implies (#[trigger] s[i]).0.raw > y.0.raw by {
                        assert(s[i] == d[i]);
                    }
                    assert forall|i: int| 0 <= i < s.len() implies (#[trigger] s[i]).0.raw >= y.0.raw by {
                        if i < d.len() {
                            assert(s[i] == d[i]);
                        }
                    }
                }
            },
            None => {
                assert(s[0] == x);
            },
        }
    }
}

fn is_break_candidate_exec(
    tree: &LayoutTree,
    search: BreakSearch,
    consumed: LayoutUnit,
    break_at: LayoutUnit,
    c: &BoxFragment,
    top: LayoutUnit,
    bottom: LayoutUnit,
) -> (r: bool)
    requires
        c.node_id.index == u32::MAX || c.node_id.index < tree@.len(),
    ensures
        r == is_break_candidate(tree@, search, consumed, break_at, c@, top, bottom),
{
    if c.node_id.index == u32::MAX {
        return false;
    }
    let s = tree.style(c.node_id);
    let crosses = consumed.raw < top.raw && top.raw < break_at.raw && bottom.raw > break_at.raw;
    match search {
        BreakSearch::ForcedBreakBefore => s.break_before.is_forced(),
        BreakSearch::AvoidAfterFloat => s.break_inside.is_avoid() && previous_in_flow_sibling_is_float(tree, c.node_id)
            && !s.position.is_positioned() && crosses,
        BreakSearch::AvoidInside => s.break_inside.is_avoid() && !s.position.is_positioned() && crosses,
    }
}

fn searches_inside_exec(
    tree: &LayoutTree,
    search: BreakSearch,
    consumed: LayoutUnit,
    break_at: LayoutUnit,
    c: &BoxFragment,
    top: LayoutUnit,
    bottom: LayoutUnit,
) -> (r: bool)
    requires
        c.node_id.index == u32::MAX || c.node_id.index < tree@.len(),
    ensures
        r == searches_inside(tree@, search, consumed, break_at, c@, top, bottom),
{
    let positioned = c.node_id.index != u32::MAX && tree.style(c.node_id).position.is_positioned();
    match search {
        BreakSearch::ForcedBreakBefore => !positioned,
        BreakSearch::AvoidAfterFloat => !positioned && bottom.raw > consumed.raw && top.raw < break_at.raw,
        BreakSearch::AvoidInside => bottom.raw > consumed.raw && top.raw < break_at.raw,
    }
}

/// Walk the descendants of `fragment` (at `parent_top` from the searched
/// fragment) in tree order, keeping in `best` the first topmost match.
fn walk_break_candidates(
    fragment: &BoxFragment,
    tree: &LayoutTree,
    search: BreakSearch,
    consumed: LayoutUnit,
    break_at: LayoutUnit,
    parent_top: LayoutUnit,
    best: &mut Option<(LayoutUnit, LayoutUnit)>,
)
    requires
        fragment_ids_within(fragment@, tree@),
    ensures
        *final(best) == topmost_from(
            *old(best),
            break_candidates(
                tree@,
                search,
                consumed,
                break_at,
                fragment@.children,
                fragment@.children.len() as int,
                parent_top,
            ),
        ),
    decreases fragment,
{
    let ghost v = fragment@;
    let ghost best0 = *best;
    let mut i: usize = 0;
    while i < fragment.children.len()
        invariant
            v == fragment@,
            i <= fragment.children@.len(),
            node_ids_within(v.children, v.children.len() as int, tree@.len()),
            *best == topmost_from(best0, break_candidates(tree@, search, consumed, break_at, v.children, i as int, parent_top)),
        decreases fragment.children@.len() - i,
    {
        let child = &fragment.children[i];
        assert(v.children[i as int] == child@);
        proof {
            lemma_node_ids_within_prefix(v.children, v.children.len() as int, i + 1, tree@.len());
        }
        let ghost before = *best;
        let child_top = parent_top.plus(child.offset.top);
        let child_bottom = child_top.plus(child.size.height);
        let ghost own = if is_break_candidate(tree@, search, consumed, break_at, child@, child_top, child_bottom) {
            seq![(child_top, child_bottom)]
        } else {
            Seq::<(LayoutUnit, LayoutUnit)>::empty()
        };
        if is_break_candidate_exec(tree, search, consumed, break_at, child, child_top, child_bottom) {
            let replace = match *best {
                Some(current) => child_top.raw < current.0.raw,
                None => true,
            };
            if replace {
                *best = Some((child_top, child_bottom));
            }
            proof {
                assert(own.drop_last() =~= Seq::<(LayoutUnit, LayoutUnit)>::empty());
                assert(topmost_from(before, own.drop_last()) == before);
                assert(own.last() == (child_top, child_bottom));
            }
        } else {
            assert(own =~= Seq::<(LayoutUnit, LayoutUnit)>::empty());
        }
        assert(*best == topmost_from(before, own));
        let ghost mid = *best;
        let ghost inside = if searches_inside(tree@, search, consumed, break_at, child@, child_top, child_bottom) {
            break_candidates(tree@, search, consumed, break_at, child@.children, child@.children.len() as int, child_top)
        } else {
            Seq::<(LayoutUnit, LayoutUnit)>::empty()
        };
        if searches_inside_exec(tree, search, consumed, break_at, child, child_top, child_bottom) {
            walk_break_candidates(child, tree, search, consumed, break_at, child_top, best);
        }
        proof {
            let prefix = break_candidates(tree@, search, consumed, break_at, v.children, i as int, parent_top);
            assert(break_candidates(tree@, search, consumed, break_at, v.children, i + 1, parent_top) == prefix + own
                + inside);
            lemma_topmost_from_concat(best0, prefix, own);
            lemma_topmost_from_concat(best0, prefix + own, inside);
        }
        i = i + 1;
    }
}

/// The ids of a prefix of fragments lie within the tree when those of the
/// whole run do.
proof fn lemma_node_ids_within_prefix(cs: Seq<FragmentView>, k: int, j: int, len: int)
    requires
        node_ids_within(cs, k, len),
        0 < j <= k <= cs.len(),
    ensures
        node_ids_within(cs, j, len),
        cs[j - 1].node_id.index == u32::MAX || cs[j - 1].node_id.index < len,
        node_ids_within(cs[j - 1].children, cs[j - 1].children.len() as int, len),
    decreases k - j,
{
    if j < k {
        lemma_node_ids_within_prefix(cs, k - 1, j, len);
    }
}

fn search_break_candidates(
    fragment: &BoxFragment,
    tree: &LayoutTree,
    search: BreakSearch,
    consumed: LayoutUnit,
    break_at: LayoutUnit,
) -> (r: Option<(LayoutUnit, LayoutUnit)>)
    requires
        fragment_ids_within(fragment@, tree@),
    ensures
        r == topmost_first(
            break_candidates(
                tree@,
                search,
                consumed,
                break_at,
                fragment@.children,
                fragment@.children.len() as int,
                LayoutUnit { raw: 0 },
            ),
        ),
{
    let mut best: Option<(LayoutUnit, LayoutUnit)> = None;
    walk_break_candidates(fragment, tree, search, consumed, break_at, LayoutUnit::zero(), &mut best);
    best
}

/// The block offset, from the fragment's top, of the topmost descendant
/// whose node forces a break before it (the first in tree order on a tie);
/// positioned boxes are not looked into.
pub fn forced_break_descendant_top(fragment: &BoxFragment, tree: &LayoutTree) -> (r: Option<LayoutUnit>)
    requires
        fragment_ids_within(fragment@, tree@),
    ensures
        r == top_of(
            topmost_first(
                break_candidates(
                    tree@,
                    BreakSearch::ForcedBreakBefore,
                    LayoutUnit { raw: 0 },
                    LayoutUnit { raw: 0 },
                    fragment@.children,
                    fragment@.children.len() as int,
                    LayoutUnit { raw: 0 },
                ),
            ),
        ),
{
    let best = search_break_candidates(
        fragment,
        tree,
        BreakSearch::ForcedBreakBefore,
        LayoutUnit::zero(),
        LayoutUnit::zero(),
    );
    match best {
        Some(b) => Some(b.0),
        None => None,
    }
}

/// Where a break at `break_at` would cut through a box that avoids breaks
/// inside and directly follows a floated sibling: the top of the topmost
/// such descendant that starts after `consumed`, before `break_at`, and
/// ends after it (positioned boxes, and boxes wholly outside the range, are
/// not looked into). None when `break_at` is not after `consumed`.
pub fn avoid_descendant_break_before(
    fragment: &BoxFragment,
    tree: &LayoutTree,
    consumed: LayoutUnit,
    break_at: LayoutUnit,
) -> (r: Option<LayoutUnit>)
    requires
        fragment_ids_within(fragment@, tree@),
    ensures
        break_at.raw <= consumed.raw ==> r is None,
        break_at.raw > consumed.raw ==> r == top_of(
            topmost_first(
                break_candidates(
                    tree@,
                    BreakSearch::AvoidAfterFloat,
                    consumed,
                    break_at,
                    fragment@.children,
                    fragment@.children.len() as int,
                    LayoutUnit { raw: 0 },
                ),
            ),
        ),
{
    if break_at.raw <= consumed.raw {
        return None;
    }
    let best = search_break_candidates(fragment, tree, BreakSearch::AvoidAfterFloat, consumed, break_at);
    match best {
        Some(b) => Some(b.0),
        None => None,
    }
}

/// The top of the topmost descendant that avoids breaks inside, is not
/// positioned, starts after `consumed` and before `break_at`, and ends after
/// it (boxes wholly outside the range are not looked into). None when
/// `break_at` is not after `consumed`.
pub fn bottom_abspos_avoid_descendant_break_before(
    fragment: &BoxFragment,
    tree: &LayoutTree,
    consumed: LayoutUnit,
    break_at: LayoutUnit,
) -> (r: Option<LayoutUnit>)
    requires
        fragment_ids_within(fragment@, tree@),
    ensures
        break_at.raw <= consumed.raw ==> r is None,
        break_at.raw > consumed.raw ==> r == top_of(
            topmost_first(
                break_candidates(
                    tree@,
                    BreakSearch::AvoidInside,
                    consumed,
                    break_at,
                    fragment@.children,
                    fragment@.children.len() as int,
                    LayoutUnit { raw: 0 },
                ),
            ),
        ),
{
    if break_at.raw <= consumed.raw {
        return None;
    }
    let best = search_break_candidates(fragment, tree, BreakSearch::AvoidInside, consumed, break_at);
    match best {
        Some(b) => Some(b.0),
        None => None,
    }
}

/// The block range `(top, bottom)` of the box that
/// `bottom_abspos_avoid_descendant_break_before` finds.
pub fn bottom_abspos_avoid_descendant_crossing(
    fragment: &BoxFragment,
    tree: &LayoutTree,
    consumed: LayoutUnit,
    break_at: LayoutUnit,
) -> (r: Option<(LayoutUnit, LayoutUnit)>)
    requires
        fragment_ids_within(fragment@, tree@),
    ensures
        break_at.raw <= consumed.raw ==> r is None,
        break_at.raw > consumed.raw ==> r == topmost_first(
            break_candidates(
                tree@,
                BreakSearch::AvoidInside,
                consumed,
                break_at,
                fragment@.children,
                fragment@.children.len() as int,
                LayoutUnit { raw: 0 },
            ),
        ),
{
    if break_at.raw <= consumed.raw {
        return None;
    }
    search_break_candidates(fragment, tree, BreakSearch::AvoidInside, consumed, break_at)
}

// ── Suppressing avoid-break descendants ───────────────────────────────
/// The views of a run of fragments.
pub open spec fn fragment_views(s: Seq<BoxFragment>) -> Seq<FragmentView> {
    Seq::new(s.len(), |i: int| s[i]@)
}

/// Whether a child fragment at `top` avoids breaks inside, is not
/// positioned, and starts at or below `cutoff`.
pub open spec fn is_suppressed(tree: TreeView, c: FragmentView, top: LayoutUnit, cutoff: LayoutUnit) -> bool {
    let s = tree.style(c.node_id.index as int);
    &&& c.node_id.index != u32::MAX
    &&& s.break_inside.spec_is_avoid()
    &&& !s.position.spec_is_positioned()
    &&& top.raw >= cutoff.raw
}

/// The fragments `cs[..k]` (at `parent_top` plus their own offsets) with
/// every suppressed fragment removed, at every depth.
pub open spec fn suppressed_children(
    tree: TreeView,
    cs: Seq<FragmentView>,
    k: int,
    parent_top: LayoutUnit,
    cutoff: LayoutUnit,
) -> Seq<FragmentView>
    decreases cs, k,
{
    if 0 < k <= cs.len() {
        let c = cs[k - 1];
        let top = parent_top.spec_plus(c.offset.top);
        let prev = suppressed_children(tree, cs, k - 1, parent_top, cutoff);
        if is_suppressed(tree, c, top, cutoff) {
            prev
        } else {
            prev.push(
                FragmentView {
                    children: suppressed_children(tree, c.children, c.children.len() as int, top, cutoff),
                    ..c
                },
            )
        }
    } else {
        Seq::<FragmentView>::empty()
    }
}

fn is_suppressed_exec(tree: &LayoutTree, c: &BoxFragment, top: LayoutUnit, cutoff: LayoutUnit) -> (r: bool)
    requires
        c.node_id.index == u32::MAX || c.node_id.index < tree@.len(),
    ensures
        r == is_suppressed(tree@, c@, top, cutoff),
{
    if c.node_id.index == u32::MAX {
        return false;
    }
    let s = tree.style(c.node_id);
    s.break_inside.is_avoid() && !s.position.is_positioned() && top.raw >= cutoff.raw
}

fn suppress_children(children: Vec<BoxFragment>, tree: &LayoutTree, parent_top: LayoutUnit, cutoff: LayoutUnit) -> (r: Vec<BoxFragment>)
    requires
        node_ids_within(fragment_views(children@), children@.len() as int, tree@.len()),
    ensures
        fragment_views(r@) == suppressed_children(
            tree@,
            fragment_views(children@),
            children@.len() as int,
            parent_top,
            cutoff,
        ),
    decreases children,
{
    let ghost orig = children;
    let ghost cv = fragment_views(children@);
    let n: usize = children.len();
    let mut rest = children;
    let mut out: Vec<BoxFragment> = Vec::new();
    let mut i: usize = 0;
    while i < n
        invariant
            orig == children,
            n == orig@.len(),
            cv == fragment_views(orig@),
            i <= n,
            rest@ == orig@.subrange(i as int, n as int),
            node_ids_within(cv, n as int, tree@.len()),
            fragment_views(out@) == suppressed_children(tree@, cv, i as int, parent_top, cutoff),
        decreases n - i,
    {
        let mut c = rest.remove(0);
        assert(c == orig@[i as int]);
        assert(cv[i as int] == c@);
        proof {
            lemma_node_ids_within_prefix(cv, n as int, i + 1, tree@.len());
        }
        let top = parent_top.plus(c.offset.top);
        let ghost prev = fragment_views(out@);
        if !is_suppressed_exec(tree, &c, top, cutoff) {
            let ghost cview = c@;
            let mut grandchildren: Vec<BoxFragment> = Vec::new();
            std::mem::swap(&mut c.children, &mut grandchildren);
            assert(fragment_views(grandchildren@) =~= cview.children);
            assert(decreases_to!(children => grandchildren)) by {
                assert(decreases_to!(orig => orig@[i as int]));
            }
            let kept = suppress_children(grandchildren, tree, top, cutoff);
            c.children = kept;
            assert(c@.children =~= fragment_views(kept@));
            assert(c@ == FragmentView { children: fragment_views(kept@), ..cview });
            out.push(c);
            assert(fragment_views(out@) =~= prev.push(c@));
        }
        i = i + 1;
        assert(rest@ =~= orig@.subrange(i as int, n as int));
    }
    out
}

/// Whether every box of `s` starts above `cutoff`.
pub open spec fn all_start_above(s: Seq<(LayoutUnit, LayoutUnit)>, cutoff: LayoutUnit) -> bool {
    forall|i: int| 0 <= i < s.len() ==> (#[trigger] s[i]).0.raw < cutoff.raw
}

/// The matches among a prefix of fragments do not depend on what follows it.
proof fn lemma_break_candidates_push(
    tree: TreeView,
    search: BreakSearch,
    consumed: LayoutUnit,
    break_at: LayoutUnit,
    s: Seq<FragmentView>,
    x: FragmentView,
    k: int,
    parent_top: LayoutUnit,
)
    requires
        0 <= k <= s.len(),
    ensures
        break_candidates(tree, search, consumed, break_at, s.push(x), k, parent_top) == break_candidates(
            tree,
            search,
            consumed,
            break_at,
            s,
            k,
            parent_top,
        ),
    decreases k,
{
    if k > 0 {
        lemma_break_candidates_push(tree, search, consumed, break_at, s, x, k - 1, parent_top);
        assert(s.push(x)[k - 1] == s[k - 1]);
    }
}

proof fn lemma_suppressed_prefix_starts_above(
    tree: TreeView,
    search: BreakSearch,
    consumed: LayoutUnit,
    break_at: LayoutUnit,
    cs: Seq<FragmentView>,
    k: int,
    parent_top: LayoutUnit,
    cutoff: LayoutUnit,
)
    requires
        search != BreakSearch::ForcedBreakBefore,
        0 <= k <= cs.len(),
    ensures
        all_start_above(
            break_candidates(
                tree,
                search,
                consumed,
                break_at,
                suppressed_children(tree, cs, k, parent_top, cutoff),
                suppressed_children(tree, cs, k, parent_top, cutoff).len() as int,
                parent_top,
            ),
            cutoff,
        ),
    decreases cs, k,
{
    if k > 0 {
        let c = cs[k - 1];
        let top = parent_top.spec_plus(c.offset.top);
        let prev = suppressed_children(tree, cs, k - 1, parent_top, cutoff);
        lemma_suppressed_prefix_starts_above(tree, search, consumed, break_at, cs, k - 1, parent_top, cutoff);
        if !is_suppressed(tree, c, top, cutoff) {
            let inner = suppressed_children(tree, c.children, c.children.len() as int, top, cutoff);
            let y = FragmentView { children: inner, ..c };
            lemma_suppressed_prefix_starts_above(
                tree,
                search,
                consumed,
                break_at,
                c.children,
                c.children.len() as int,
                top,
                cutoff,
            );
            lemma_break_candidates_push(tree, search, consumed, break_at, prev, y, prev.len() as int, parent_top);
            let whole = prev.push(y);
            assert(whole[prev.len() as int] == y);
            let a = break_candidates(tree, search, consumed, break_at, prev, prev.len() as int, parent_top);
            let bottom = top.spec_plus(y.size.height);
            let own = if is_break_candidate(tree, search, consumed, break_at, y, top, bottom) {
                seq![(top, bottom)]
            } else {
                Seq::<(LayoutUnit, LayoutUnit)>::empty()
            };
            let inside = if searches_inside(tree, search, consumed, break_at, y, top, bottom) {
                break_candidates(tree, search, consumed, break_at, inner, inner.len() as int, top)
            } else {
                Seq::<(LayoutUnit, LayoutUnit)>::empty()
            };
            let r = break_candidates(tree, search, consumed, break_at, whole, whole.len() as int, parent_top);
            assert(r == a + own + inside);
            assert forall|i: int| 0 <= i < r.len() implies (#[trigger] r[i]).0.raw < cutoff.raw by {
                if i < a.len() {
                    assert(r[i] == a[i]);
                } else if i < a.len() + own.len() {
                    assert(r[i] == own[i - a.len()]);
                } else {
                    assert(r[i] == inside[i - a.len() - own.len()]);
                }
            }
        }
    }
}

/// After suppression at `cutoff`, a search for boxes that avoid breaks
/// inside finds none that starts at or below the cutoff, whatever range it
/// searches.
pub proof fn lemma_suppression_clears_avoid_boxes_below_cutoff(
    tree: TreeView,
    search: BreakSearch,
    consumed: LayoutUnit,
    break_at: LayoutUnit,
    v: FragmentView,
    parent_top: LayoutUnit,
    cutoff: LayoutUnit,
)
    requires
        search != BreakSearch::ForcedBreakBefore,
    ensures
        all_start_above(
            break_candidates(
                tree,
                search,
                consumed,
                break_at,
                suppressed_children(tree, v.children, v.children.len() as int, parent_top, cutoff),
                suppressed_children(tree, v.children, v.children.len() as int, parent_top, cutoff).len() as int,
                parent_top,
            ),
            cutoff,
        ),
{
    lemma_suppressed_prefix_starts_above(
        tree,
        search,
        consumed,
        break_at,
        v.children,
        v.children.len() as int,
        parent_top,
        cutoff,
    );
}

/// Remove, at every depth below `fragment`, each box that avoids breaks
/// inside, is not positioned, and starts (at `parent_top` plus its offsets)
/// at or below `cutoff`; what remains keeps its order.
pub fn suppress_avoid_descendants_at_or_after(
    fragment: &mut BoxFragment,
    tree: &LayoutTree,
    parent_top: LayoutUnit,
    cutoff: LayoutUnit,
)
    requires
        fragment_ids_within(old(fragment)@, tree@),
    ensures
        final(fragment)@ == (FragmentView {
            children: suppressed_children(
                tree@,
                old(fragment)@.children,
                old(fragment)@.children.len() as int,
                parent_top,
                cutoff,
            ),
            ..old(fragment)@
        }),
{
    let ghost before = fragment@;
    let mut children: Vec<BoxFragment> = Vec::new();
    std::mem::swap(&mut fragment.children, &mut children);
    assert(fragment_views(children@) =~= before.children);
    let kept = suppress_children(children, tree, parent_top, cutoff);
    fragment.children = kept;
    assert(fragment@.children =~= fragment_views(kept@));
}

// ── Repeating a late float ────────────────────────────────────────────
/// Whether a fragment is generated by a floated node.
pub open spec fn is_float_fragment(tree: TreeView, c: FragmentView) -> bool {
    c.node_id.index != u32::MAX && tree.style(c.node_id.index as int).float != Float::NoFloat
}

/// The lowest block-end among the floated fragments of `cs[..k]`, if any.
pub open spec fn float_bottom_before(tree: TreeView, cs: Seq<FragmentView>, k: int) -> Option<LayoutUnit>
    decreases k,
{
    if 0 < k <= cs.len() {
        let prev = float_bottom_before(tree, cs, k - 1);
        let c = cs[k - 1];
        if is_float_fragment(tree, c) {
            let b = c.offset.top.spec_plus(c.size.height);
            Some(
                match prev {
                    Some(p) => p.spec_max_of(b),
                    None => b,
                },
            )
        } else {
            prev
        }
    } else {
        None
    }
}

/// Whether the child `cs[j]` is a float with a visible background that was
/// pushed to the next fragmentainer (it starts at or below `height`) though
/// it would fit in this one below the earlier floats, which end above
/// `height`.
pub open spec fn is_late_float(tree: TreeView, cs: Seq<FragmentView>, j: int, height: LayoutUnit) -> bool {
    let c = cs[j];
    &&& is_float_fragment(tree, c)
    &&& c.offset.top.raw >= height.raw
    &&& !tree.style(c.node_id.index as int).background_transparent
    &&& match float_bottom_before(tree, cs, j) {
        Some(anchor) => anchor.raw < height.raw && anchor.spec_plus(c.size.height).raw <= height.raw,
        None => false,
    }
}

/// The index of the first late float among the children from `i` on, or
/// the number of children.
pub open spec fn first_late_float(tree: TreeView, cs: Seq<FragmentView>, i: int, height: LayoutUnit) -> int
    decreases cs.len() - i,
{
    if 0 <= i < cs.len() {
        if is_late_float(tree, cs, i, height) {
            i
        } else {
            first_late_float(tree, cs, i + 1, height)
        }
    } else {
        cs.len() as int
    }
}

/// A copy of the child `cs[j]` moved up to start at the bottom of the
/// floats before it.
pub open spec fn repeated_float(tree: TreeView, cs: Seq<FragmentView>, j: int) -> FragmentView {
    let anchor = match float_bottom_before(tree, cs, j) {
        Some(a) => a,
        None => LayoutUnit { raw: 0 },
    };
    FragmentView { offset: PhysicalOffset { top: anchor, ..cs[j].offset }, ..cs[j] }
}

proof fn lemma_first_late_float_is_late(tree: TreeView, cs: Seq<FragmentView>, i: int, height: LayoutUnit)
    requires
        0 <= i,
    ensures
        i <= first_late_float(tree, cs, i, height) <= cs.len() || cs.len() < i,
        first_late_float(tree, cs, i, height) < cs.len() ==> is_late_float(
            tree,
            cs,
            first_late_float(tree, cs, i, height),
            height,
        ),
    decreases cs.len() - i,
{
    if 0 <= i < cs.len() && !is_late_float(tree, cs, i, height) {
        lemma_first_late_float_is_late(tree, cs, i + 1, height);
    }
}

/// The copy that repeats a late float lies within the current
/// fragmentainer: it starts above the fragmentainer's end and its block-end
/// is not below it.
pub proof fn lemma_repeated_float_fits(tree: TreeView, cs: Seq<FragmentView>, height: LayoutUnit)
    requires
        first_late_float(tree, cs, 0, height) < cs.len(),
    ensures
        repeated_float(tree, cs, first_late_float(tree, cs, 0, height)).offset.top.raw < height.raw,
        repeated_float(tree, cs, first_late_float(tree, cs, 0, height)).offset.top.spec_plus(
            repeated_float(tree, cs, first_late_float(tree, cs, 0, height)).size.height,
        ).raw <= height.raw,
{
    lemma_first_late_float_is_late(tree, cs, 0, height);
}

/// Repeat in the current fragmentainer (of block size `fragmentainer_height`,
/// which must be positive) the first direct child float that was pushed
/// below it though it would fit under the earlier floats: a copy of it,
/// moved up to the bottom of those floats, is appended to the children.
/// Returns whether a copy was added; otherwise nothing changes.
pub fn fill_current_fragmentainer_with_late_direct_float(
    fragment: &mut BoxFragment,
    tree: &LayoutTree,
    fragmentainer_height: LayoutUnit,
) -> (r: bool)
    requires
        fragment_ids_within(old(fragment)@, tree@),
    ensures
        r == (fragmentainer_height.raw > 0 && first_late_float(tree@, old(fragment)@.children, 0, fragmentainer_height)
            < old(fragment)@.children.len()),
        r ==> final(fragment)@ == (FragmentView {
            children: old(fragment)@.children.push(
                repeated_float(
                    tree@,
                    old(fragment)@.children,
                    first_late_float(tree@, old(fragment)@.children, 0, fragmentainer_height),
                ),
            ),
            ..old(fragment)@
        }),
        !r ==> final(fragment)@ == old(fragment)@,
{
    if fragmentainer_height.raw <= 0 {
        return false;
    }
    let ghost v = fragment@;
    let ghost cs = v.children;
    let mut previous_float_bottom: Option<LayoutUnit> = None;
    let mut found: Option<usize> = None;
    let mut anchor_found = LayoutUnit::zero();
    let mut i: usize = 0;
    while i < fragment.children.len() && found.is_none()
        invariant
            v == fragment@,
            cs == v.children,
            i <= cs.len(),
            node_ids_within(cs, cs.len() as int, tree@.len()),
            found is None ==> previous_float_bottom == float_bottom_before(tree@, cs, i as int)
                && first_late_float(tree@, cs, 0, fragmentainer_height) == first_late_float(
                tree@,
                cs,
                i as int,
                fragmentainer_height,
            ),
            found matches Some(j) ==> j == first_late_float(tree@, cs, 0, fragmentainer_height) && j < i
                && float_bottom_before(tree@, cs, j as int) == Some(anchor_found),
        decreases cs.len() - i,
    {
        let child = &fragment.children[i];
        assert(cs[i as int] == child@);
        proof {
            lemma_node_ids_within_prefix(cs, cs.len() as int, i + 1, tree@.len());
        }
        if child.node_id.index != u32::MAX {
            let style = tree.style(child.node_id);
            if style.float != Float::NoFloat {
                let child_bottom = child.offset.top.plus(child.size.height);
                if child.offset.top.raw >= fragmentainer_height.raw {
                    if let Some(anchor) = previous_float_bottom {
                        if anchor.raw < fragmentainer_height.raw
                            && anchor.plus(child.size.height).raw <= fragmentainer_height.raw
                            && !style.background_transparent {
                            found = Some(i);
                            anchor_found = anchor;
                        }
                    }
                }
                if found.is_none() {
                    previous_float_bottom = Some(
                        match previous_float_bottom {
                            Some(bottom) => bottom.max_of(child_bottom),
                            None => child_bottom,
                        },
                    );
                }
            }
        }
        i = i + 1;
    }
    match found {
        Some(j) => {
            let mut copy = fragment.children[j].copy();
            assert(copy@ == cs[j as int]);
            copy.offset.top = anchor_found;
            assert(copy@.children =~= cs[j as int].children);
            assert(copy@ == repeated_float(tree@, cs, j as int));
            fragment.add_child(copy);
            true
        },
        None => false,
    }
}

} // verus!
