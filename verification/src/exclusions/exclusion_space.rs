//! The exclusion space of a block formatting context: the float exclusion
//! rectangles placed so far, queried for layout opportunities (inline space
//! left free by the floats at a block offset) and clearance offsets.
//!
//! Opportunities are found shelf by shelf: the candidate block offsets are
//! the query offset and every float edge below it; the first candidate at
//! which enough inline space is free wins.
use vstd::prelude::*;
use crate::geometry::{BfcOffset, BfcRect, LayoutUnit, lu_raw};

verus! {

/// Type of float exclusion.
#[derive(Clone, Copy, Debug, PartialEq, Eq, Structural, Hash)]
pub enum ExclusionType {
    /// `float: left`: content flows to the right of this exclusion.
    Left,
    /// `float: right`: content flows to the left of this exclusion.
    Right,
}

/// A single float exclusion area within the formatting context.
#[derive(Clone, Copy, Debug, PartialEq, Eq, Structural, Hash)]
pub struct ExclusionArea {
    /// The rectangle this float occupies (its margin box).
    pub rect: BfcRect,
    /// Whether this is a left or right float.
    pub exclusion_type: ExclusionType,
}

/// A rectangular region where content can be placed without overlapping floats.
#[derive(Clone, Copy, Debug, PartialEq, Eq, Structural, Hash)]
pub struct LayoutOpportunity {
    /// The available rectangle.
    pub rect: BfcRect,
}

impl LayoutOpportunity {
    /// Inline size of this opportunity.
    pub fn inline_size(&self) -> (r: LayoutUnit)
        ensures
            r == self.rect.spec_inline_size(),
    {
        self.rect.inline_size()
    }

    /// Block size of this opportunity.
    pub fn block_size(&self) -> (r: LayoutUnit)
        ensures
            r == self.rect.spec_block_size(),
    {
        self.rect.block_size()
    }
}

/// CSS `clear` property values.
#[derive(Clone, Copy, Debug, PartialEq, Eq, Structural, Hash)]
pub enum ClearType {
    /// `clear: none`.
    NoClear,
    Left,
    Right,
    Both,
}

// ── Mathematical model ────────────────────────────────────────────────
/// The clearance offset of a list of exclusions: the largest block-end
/// offset among them, and never less than zero.
pub open spec fn clear_offset_of(s: Seq<ExclusionArea>) -> LayoutUnit
    decreases s.len(),
{
    if s.len() == 0 {
        LayoutUnit { raw: 0 }
    } else {
        let c = clear_offset_of(s.drop_last());
        let e = s.last().rect.end_offset.block_offset;
        if e.raw > c.raw {
            e
        } else {
            c
        }
    }
}

/// Whether an exclusion covers the block offset `b` (half-open on its block range).
pub open spec fn is_active_at(f: ExclusionArea, b: LayoutUnit) -> bool {
    f.rect.start_offset.block_offset.raw <= b.raw && f.rect.end_offset.block_offset.raw > b.raw
}

/// The left edge of free space at `b`: the rightmost line-end of the
/// exclusions of `s` active at `b`, and never left of `init`.
pub open spec fn left_edge_over(s: Seq<ExclusionArea>, b: LayoutUnit, init: LayoutUnit) -> LayoutUnit
    decreases s.len(),
{
    if s.len() == 0 {
        init
    } else {
        let e = left_edge_over(s.drop_last(), b, init);
        let f = s.last();
        if is_active_at(f, b) && f.rect.end_offset.line_offset.raw > e.raw {
            f.rect.end_offset.line_offset
        } else {
            e
        }
    }
}

/// The right edge of free space at `b`: the leftmost line-start of the
/// exclusions of `s` active at `b`, and never right of `init`.
pub open spec fn right_edge_over(s: Seq<ExclusionArea>, b: LayoutUnit, init: LayoutUnit) -> LayoutUnit
    decreases s.len(),
{
    if s.len() == 0 {
        init
    } else {
        let e = right_edge_over(s.drop_last(), b, init);
        let f = s.last();
        if is_active_at(f, b) && f.rect.start_offset.line_offset.raw < e.raw {
            f.rect.start_offset.line_offset
        } else {
            e
        }
    }
}

/// The smallest block-start or block-end offset of the exclusions of `s`
/// that lies strictly below `b`, and never more than `init`.
pub open spec fn next_edge_over(s: Seq<ExclusionArea>, b: LayoutUnit, init: LayoutUnit) -> LayoutUnit
    decreases s.len(),
{
    if s.len() == 0 {
        init
    } else {
        let n = next_edge_over(s.drop_last(), b, init);
        let f = s.last();
        let st = f.rect.start_offset.block_offset;
        let n1 = if st.raw > b.raw && st.raw < n.raw {
            st
        } else {
            n
        };
        let en = f.rect.end_offset.block_offset;
        if en.raw > b.raw && en.raw < n1.raw {
            en
        } else {
            n1
        }
    }
}

/// Whether `e` is a block offset at which the free inline space may change
/// below the query offset `b0`: the block-end of an exclusion that ends
/// below `b0`, or its block-start if that also lies below `b0`.
pub open spec fn float_has_edge(f: ExclusionArea, b0: LayoutUnit, e: LayoutUnit) -> bool {
    &&& f.rect.end_offset.block_offset.raw > b0.raw
    &&& (e == f.rect.end_offset.block_offset || (e == f.rect.start_offset.block_offset
        && f.rect.start_offset.block_offset.raw > b0.raw))
}

/// Block-start offset of an exclusion, as a raw value.
pub open spec fn start_of(a: ExclusionArea) -> int {
    a.rect.start_offset.block_offset.raw as int
}

/// The exclusions are ordered by block-start offset, ascending.
pub open spec fn starts_sorted(s: Seq<ExclusionArea>) -> bool {
    forall|i: int, j: int| 0 <= i <= j < s.len() ==> start_of(#[trigger] s[i]) <= start_of(#[trigger] s[j])
}

/// `s` with `x` inserted after every exclusion starting at or above it.
pub open spec fn insert_by_start(s: Seq<ExclusionArea>, x: ExclusionArea) -> Seq<ExclusionArea>
    decreases s.len(),
{
    if s.len() == 0 {
        seq![x]
    } else if start_of(s.last()) <= start_of(x) {
        s.push(x)
    } else {
        insert_by_start(s.drop_last(), x).push(s.last())
    }
}

/// Inserting into a sorted list at the first position whose exclusion starts
/// below `x` is inserting by block start.
proof fn lemma_insert_by_start_at(s: Seq<ExclusionArea>, x: ExclusionArea, i: int)
    requires
        starts_sorted(s),
        0 <= i <= s.len(),
        forall|k: int| 0 <= k < i ==> start_of(#[trigger] s[k]) <= start_of(x),
        forall|k: int| i <= k < s.len() ==> start_of(#[trigger] s[k]) > start_of(x),
    ensures
        insert_by_start(s, x) == s.insert(i, x),
        starts_sorted(s.insert(i, x)),
    decreases s.len(),
{
    if s.len() == 0 {
        assert(s.insert(i, x) =~= seq![x]);
    } else if i == s.len() {
        assert(s.insert(i, x) =~= s.push(x));
    } else {
        let d = s.drop_last();
        assert(starts_sorted(d));
        assert forall|k: int| 0 <= k < i implies start_of(#[trigger] d[k]) <= start_of(x) by {
            assert(d[k] == s[k]);
        }
        assert forall|k: int| i <= k < d.len() implies start_of(#[trigger] d[k]) > start_of(x) by {
            assert(d[k] == s[k]);
        }
        lemma_insert_by_start_at(d, x, i);
        assert(start_of(s[s.len() - 1]) > start_of(x));
        assert(s.insert(i, x) =~= d.insert(i, x).push(s.last()));
    }
    let r = s.insert(i, x);
    assert forall|a: int, b: int| 0 <= a <= b < r.len() implies start_of(#[trigger] r[a]) <= start_of(#[trigger] r[b]) by {
        if a < i && b < i {
            assert(r[a] == s[a] && r[b] == s[b]);
        } else if a < i && b == i {
            assert(r[a] == s[a]);
        } else if a < i {
            assert(r[a] == s[a] && r[b] == s[b - 1]);
        } else if a == i && b == i {
        } else if a == i {
            assert(r[b] == s[b - 1]);
        } else {
            assert(r[a] == s[a - 1] && r[b] == s[b - 1]);
        }
    }
}

/// Inserting by block start adds `x` and keeps every exclusion of `s`, and
/// nothing else.
pub proof fn lemma_insert_by_start_elements(s: Seq<ExclusionArea>, x: ExclusionArea)
    ensures
        insert_by_start(s, x).len() == s.len() + 1,
        insert_by_start(s, x).contains(x),
        forall|k: int| 0 <= k < s.len() ==> insert_by_start(s, x).contains(#[trigger] s[k]),
        forall|k: int|
            0 <= k < insert_by_start(s, x).len() ==> #[trigger] insert_by_start(s, x)[k] == x
                || s.contains(insert_by_start(s, x)[k]),
    decreases s.len(),
{
    let r = insert_by_start(s, x);
    if s.len() == 0 {
        assert(r[0] == x);
    } else if start_of(s.last()) <= start_of(x) {
        assert(r[s.len() as int] == x);
        assert forall|k: int| 0 <= k < s.len() implies r.contains(#[trigger] s[k]) by {
            assert(r[k] == s[k]);
        }
        assert forall|k: int| 0 <= k < r.len() implies #[trigger] r[k] == x || s.contains(r[k]) by {
            if k < s.len() {
                assert(r[k] == s[k]);
            }
        }
    } else {
        let d = s.drop_last();
        lemma_insert_by_start_elements(d, x);
        let rd = insert_by_start(d, x);
        assert(r == rd.push(s.last()));
        let j = choose|j: int| 0 <= j < rd.len() && rd[j] == x;
        assert(r[j] == x);
        assert forall|k: int| 0 <= k < s.len() implies r.contains(#[trigger] s[k]) by {
            if k == s.len() - 1 {
                assert(r[rd.len() as int] == s[k]);
            } else {
                assert(s[k] == d[k]);
                assert(rd.contains(d[k]));
                let m = choose|m: int| 0 <= m < rd.len() && rd[m] == d[k];
                assert(r[m] == s[k]);
            }
        }
        assert forall|k: int| 0 <= k < r.len() implies #[trigger] r[k] == x || s.contains(r[k]) by {
            if k == rd.len() {
                assert(r[k] == s[s.len() - 1]);
            } else {
                assert(r[k] == rd[k]);
                if rd[k] != x {
                    let m = choose|m: int| 0 <= m < d.len() && d[m] == rd[k];
                    assert(s[m] == d[m]);
                }
            }
        }
    }
}

/// The clearance offset after inserting `x` is the larger of the previous
/// one and `x`'s block-end.
pub proof fn lemma_clear_offset_insert(s: Seq<ExclusionArea>, x: ExclusionArea)
    ensures
        clear_offset_of(insert_by_start(s, x)) == (if x.rect.end_offset.block_offset.raw
            > clear_offset_of(s).raw {
            x.rect.end_offset.block_offset
        } else {
            clear_offset_of(s)
        }),
    decreases s.len(),
{
    let r = insert_by_start(s, x);
    if s.len() == 0 {
        assert(r == seq![x]);
        assert(r.drop_last() =~= Seq::<ExclusionArea>::empty());
        assert(r.last() == x);
        assert(clear_offset_of(s) == LayoutUnit { raw: 0 });
        assert(clear_offset_of(r.drop_last()) == LayoutUnit { raw: 0 });
        assert(clear_offset_of(r).raw == (if x.rect.end_offset.block_offset.raw > 0 { x.rect.end_offset.block_offset.raw } else { 0 }));
    } else if start_of(s.last()) <= start_of(x) {
        assert(r == s.push(x));
        assert(r.drop_last() =~= s);
        assert(r.last() == x);
        assert(clear_offset_of(r.drop_last()) == clear_offset_of(s));
    } else {
        let d = s.drop_last();
        lemma_clear_offset_insert(d, x);
        let rd = insert_by_start(d, x);
        assert(r == rd.push(s.last()));
        assert(r.drop_last() =~= rd);
        assert(r.last() == s.last());
        assert(clear_offset_of(r) == {
            let c = clear_offset_of(rd);
            let e = s.last().rect.end_offset.block_offset;
            if e.raw > c.raw { e } else { c }
        });
        assert(clear_offset_of(s) == {
            let c = clear_offset_of(d);
            let e = s.last().rect.end_offset.block_offset;
            if e.raw > c.raw { e } else { c }
        });
    }
}

/// The abstract content of an exclusion space: its left and right float
/// exclusions, each list ordered by block-start offset (exclusions with the
/// same block start in the order they were added).
pub struct ExclusionsView {
    pub left: Seq<ExclusionArea>,
    pub right: Seq<ExclusionArea>,
}

impl ExclusionsView {
    /// Every left exclusion is of type left, every right one of type right.
    pub open spec fn well_typed(self) -> bool {
        &&& forall|i: int|
            0 <= i < self.left.len() ==> #[trigger] self.left[i].exclusion_type
                == ExclusionType::Left
        &&& forall|i: int|
            0 <= i < self.right.len() ==> #[trigger] self.right[i].exclusion_type
                == ExclusionType::Right
    }

    /// Well typed, and each list ordered by block-start offset.
    pub open spec fn well_formed(self) -> bool {
        &&& self.well_typed()
        &&& starts_sorted(self.left)
        &&& starts_sorted(self.right)
    }

    pub open spec fn left_clear(self) -> LayoutUnit {
        clear_offset_of(self.left)
    }

    pub open spec fn right_clear(self) -> LayoutUnit {
        clear_offset_of(self.right)
    }

    /// The larger of the two clearance offsets (the right one on a tie).
    pub open spec fn both_clear(self) -> LayoutUnit {
        if self.left_clear().raw > self.right_clear().raw {
            self.left_clear()
        } else {
            self.right_clear()
        }
    }

    pub open spec fn clearance(self, clear_type: ClearType) -> LayoutUnit {
        match clear_type {
            ClearType::NoClear => LayoutUnit { raw: 0 },
            ClearType::Left => self.left_clear(),
            ClearType::Right => self.right_clear(),
            ClearType::Both => self.both_clear(),
        }
    }

    pub open spec fn num_exclusions(self) -> nat {
        self.left.len() + self.right.len()
    }

    /// The left edge of free space at `b` when the container spans from `line_start`.
    pub open spec fn left_edge(self, b: LayoutUnit, line_start: LayoutUnit) -> LayoutUnit {
        left_edge_over(self.left, b, line_start)
    }

    /// The right edge of free space at `b` when the container spans
    /// `available` from `line_start`.
    pub open spec fn right_edge(self, b: LayoutUnit, line_start: LayoutUnit, available: LayoutUnit) -> LayoutUnit {
        right_edge_over(self.right, b, line_start.spec_plus(available))
    }

    /// The first float block edge strictly below `b`, or the maximum value if none.
    pub open spec fn next_float_edge_after(self, b: LayoutUnit) -> LayoutUnit {
        next_edge_over(self.right, b, next_edge_over(self.left, b, LayoutUnit { raw: i32::MAX }))
    }

    /// Whether `e` is a candidate shelf for a query at `b0`.
    pub open spec fn is_shelf_edge(self, b0: LayoutUnit, e: LayoutUnit) -> bool {
        ||| e == b0
        ||| exists|i: int| 0 <= i < self.left.len() && #[trigger] float_has_edge(self.left[i], b0, e)
        ||| exists|i: int| 0 <= i < self.right.len() && #[trigger] float_has_edge(self.right[i], b0, e)
    }

    /// Whether at least `min` inline space is free at `e`.
    pub open spec fn fits_at(self, e: LayoutUnit, line_start: LayoutUnit, available: LayoutUnit, min: LayoutUnit) -> bool {
        self.right_edge(e, line_start, available).spec_minus(self.left_edge(e, line_start)).raw
            >= min.raw
    }

    /// `e` is the topmost candidate shelf with enough free space.
    pub open spec fn is_first_fit(self, offset: BfcOffset, available: LayoutUnit, min: LayoutUnit, e: LayoutUnit) -> bool {
        &&& self.is_shelf_edge(offset.block_offset, e)
        &&& self.fits_at(e, offset.line_offset, available, min)
        &&& forall|e2: LayoutUnit|
            #![trigger self.is_shelf_edge(offset.block_offset, e2)]
            self.is_shelf_edge(offset.block_offset, e2) && e2.raw < e.raw ==> !self.fits_at(
                e2,
                offset.line_offset,
                available,
                min,
            )
    }

    /// Some candidate shelf has enough free space.
    pub open spec fn has_fit(self, offset: BfcOffset, available: LayoutUnit, min: LayoutUnit) -> bool {
        exists|e: LayoutUnit| #[trigger]
            self.is_shelf_edge(offset.block_offset, e) && self.fits_at(
                e,
                offset.line_offset,
                available,
                min,
            )
    }

    /// `x` is the lowest candidate shelf for a query at `b0`.
    pub open spec fn is_last_shelf(self, b0: LayoutUnit, x: LayoutUnit) -> bool {
        &&& self.is_shelf_edge(b0, x)
        &&& forall|e: LayoutUnit| #[trigger] self.is_shelf_edge(b0, e) ==> e.raw <= x.raw
    }

    /// The layout opportunity for content of at least `min` inline size at
    /// or below `offset`, within `available` inline space starting at the
    /// offset's line position. At the topmost fitting shelf it spans the free
    /// space there, down to the next float edge; with no fitting shelf it is
    /// the full width, starting below all floats and the lowest shelf, and
    /// unbounded downwards.
    pub open spec fn opportunity(self, offset: BfcOffset, available: LayoutUnit, min: LayoutUnit) -> LayoutOpportunity {
        if self.has_fit(offset, available, min) {
            let e = choose|e: LayoutUnit| self.is_first_fit(offset, available, min, e);
            LayoutOpportunity {
                rect: BfcRect {
                    start_offset: BfcOffset {
                        line_offset: self.left_edge(e, offset.line_offset),
                        block_offset: e,
                    },
                    end_offset: BfcOffset {
                        line_offset: self.right_edge(e, offset.line_offset, available),
                        block_offset: self.next_float_edge_after(e),
                    },
                },
            }
        } else {
            let last = choose|x: LayoutUnit| self.is_last_shelf(offset.block_offset, x);
            let clear = self.both_clear();
            let start = if clear.raw > last.raw {
                clear
            } else {
                last
            };
            LayoutOpportunity {
                rect: BfcRect {
                    start_offset: BfcOffset { line_offset: offset.line_offset, block_offset: start },
                    end_offset: BfcOffset {
                        line_offset: offset.line_offset.spec_plus(available),
                        block_offset: LayoutUnit { raw: i32::MAX },
                    },
                },
            }
        }
    }

    /// The view after adding an exclusion to the list of its side.
    pub open spec fn add(self, exclusion: ExclusionArea) -> ExclusionsView {
        match exclusion.exclusion_type {
            ExclusionType::Left => ExclusionsView { left: insert_by_start(self.left, exclusion), ..self },
            ExclusionType::Right => ExclusionsView { right: insert_by_start(self.right, exclusion), ..self },
        }
    }
}


// ── Laws ──────────────────────────────────────────────────────────────
/// The clearance offset of a list of exclusions is at least zero and at least
/// every exclusion's block-end, and it is zero or one of those block-ends.
pub proof fn lemma_clear_offset_bounds(s: Seq<ExclusionArea>)
    ensures
        clear_offset_of(s).raw >= 0,
        forall|i: int|
            0 <= i < s.len() ==> (#[trigger] s[i]).rect.end_offset.block_offset.raw
                <= clear_offset_of(s).raw,
        clear_offset_of(s).raw == 0 || exists|i: int|
            0 <= i < s.len() && clear_offset_of(s) == (#[trigger] s[i]).rect.end_offset.block_offset,
    decreases s.len(),
{
    if s.len() > 0 {
        lemma_clear_offset_bounds(s.drop_last());
        let c = clear_offset_of(s.drop_last());
        assert forall|i: int| 0 <= i < s.len() implies (#[trigger] s[i]).rect.end_offset.block_offset.raw
            <= clear_offset_of(s).raw by {
            if i < s.len() - 1 {
                assert(s.drop_last()[i] == s[i]);
            }
        }
        if clear_offset_of(s).raw != 0 {
            if clear_offset_of(s) == s.last().rect.end_offset.block_offset {
                assert(s[s.len() - 1] == s.last());
            } else {
                let i = choose|i: int|
                    0 <= i < s.drop_last().len() && c == (#[trigger] s.drop_last()[i]).rect.end_offset.block_offset;
                assert(s[i] == s.drop_last()[i]);
            }
        }
    }
}

/// The free space's left edge at `b` is at or right of `init` and of the
/// line-end of every exclusion active at `b`.
pub proof fn lemma_left_edge_bounds(s: Seq<ExclusionArea>, b: LayoutUnit, init: LayoutUnit)
    ensures
        left_edge_over(s, b, init).raw >= init.raw,
        forall|i: int|
            0 <= i < s.len() && is_active_at(#[trigger] s[i], b) ==> s[i].rect.end_offset.line_offset.raw
                <= left_edge_over(s, b, init).raw,
    decreases s.len(),
{
    if s.len() > 0 {
        lemma_left_edge_bounds(s.drop_last(), b, init);
        assert forall|i: int| 0 <= i < s.len() && is_active_at(#[trigger] s[i], b) implies s[i].rect.end_offset.line_offset.raw
            <= left_edge_over(s, b, init).raw by {
            if i < s.len() - 1 {
                assert(s.drop_last()[i] == s[i]);
            }
        }
    }
}

/// The free space's right edge at `b` is at or left of `init` and of the
/// line-start of every exclusion active at `b`.
pub proof fn lemma_right_edge_bounds(s: Seq<ExclusionArea>, b: LayoutUnit, init: LayoutUnit)
    ensures
        right_edge_over(s, b, init).raw <= init.raw,
        forall|i: int|
            0 <= i < s.len() && is_active_at(#[trigger] s[i], b) ==> s[i].rect.start_offset.line_offset.raw
                >= right_edge_over(s, b, init).raw,
    decreases s.len(),
{
    if s.len() > 0 {
        lemma_right_edge_bounds(s.drop_last(), b, init);
        assert forall|i: int| 0 <= i < s.len() && is_active_at(#[trigger] s[i], b) implies s[i].rect.start_offset.line_offset.raw
            >= right_edge_over(s, b, init).raw by {
            if i < s.len() - 1 {
                assert(s.drop_last()[i] == s[i]);
            }
        }
    }
}

/// Clearance never decreases when an exclusion is added, and the added
/// exclusion's block-end is cleared by its own side and by `Both`.
pub proof fn lemma_add_clearance(v: ExclusionsView, x: ExclusionArea)
    ensures
        v.add(x).clearance(ClearType::Left).raw >= v.clearance(ClearType::Left).raw,
        v.add(x).clearance(ClearType::Right).raw >= v.clearance(ClearType::Right).raw,
        v.add(x).clearance(ClearType::Both).raw >= v.clearance(ClearType::Both).raw,
        x.exclusion_type == ExclusionType::Left ==> v.add(x).clearance(ClearType::Left).raw >= x.rect.end_offset.block_offset.raw,
        x.exclusion_type == ExclusionType::Right ==> v.add(x).clearance(ClearType::Right).raw >= x.rect.end_offset.block_offset.raw,
        v.add(x).clearance(ClearType::Both).raw >= x.rect.end_offset.block_offset.raw,
{
    lemma_clear_offset_insert(v.left, x);
    lemma_clear_offset_insert(v.right, x);
}

/// Every exclusion ends at or above the clearance offset of its side, and
/// at or above the `Both` clearance offset.
pub proof fn lemma_clearance_clears_exclusions(v: ExclusionsView)
    ensures
        forall|i: int|
            0 <= i < v.left.len() ==> (#[trigger] v.left[i]).rect.end_offset.block_offset.raw
                <= v.clearance(ClearType::Left).raw,
        forall|i: int|
            0 <= i < v.right.len() ==> (#[trigger] v.right[i]).rect.end_offset.block_offset.raw
                <= v.clearance(ClearType::Right).raw,
        v.clearance(ClearType::Both).raw >= v.clearance(ClearType::Left).raw,
        v.clearance(ClearType::Both).raw >= v.clearance(ClearType::Right).raw,
        v.clearance(ClearType::NoClear).raw == 0,
{
    lemma_clear_offset_bounds(v.left);
    lemma_clear_offset_bounds(v.right);
}

/// A candidate shelf never lies above the query offset.
proof fn lemma_shelf_at_or_below(v: ExclusionsView, b0: LayoutUnit, e: LayoutUnit)
    requires
        v.is_shelf_edge(b0, e),
    ensures
        e.raw >= b0.raw,
{
    if e != b0 {
        if exists|i: int| 0 <= i < v.left.len() && #[trigger] float_has_edge(v.left[i], b0, e) {
            let i = choose|i: int| 0 <= i < v.left.len() && #[trigger] float_has_edge(v.left[i], b0, e);
        } else {
            let i = choose|i: int| 0 <= i < v.right.len() && #[trigger] float_has_edge(v.right[i], b0, e);
        }
    }
}

/// Facts about the opportunity chosen when some shelf fits: its block start
/// is that first fitting shelf.
proof fn lemma_first_fit_chosen(v: ExclusionsView, offset: BfcOffset, available: LayoutUnit, min: LayoutUnit)
    requires
        v.has_fit(offset, available, min),
    ensures
        v.is_first_fit(offset, available, min, v.opportunity(offset, available, min).rect.start_offset.block_offset),
{
    let e0 = choose|e: LayoutUnit| #[trigger]
        v.is_shelf_edge(offset.block_offset, e) && v.fits_at(e, offset.line_offset, available, min);
    // The lowest fitting shelf exists: search upward from e0 is not needed,
    // take the minimum over the finite set of fitting shelves below e0.
    lemma_first_fit_exists(v, offset, available, min, e0);
}

/// Among the fitting shelves at or above `e0` there is a topmost one.
proof fn lemma_first_fit_exists(v: ExclusionsView, offset: BfcOffset, available: LayoutUnit, min: LayoutUnit, e0: LayoutUnit)
    requires
        v.is_shelf_edge(offset.block_offset, e0),
        v.fits_at(e0, offset.line_offset, available, min),
    ensures
        exists|e: LayoutUnit| v.is_first_fit(offset, available, min, e),
    decreases e0.raw - offset.block_offset.raw,
{
    lemma_shelf_at_or_below(v, offset.block_offset, e0);
    if v.is_first_fit(offset, available, min, e0) {
    } else {
        let e1 = choose|e2: LayoutUnit|
            #![trigger v.is_shelf_edge(offset.block_offset, e2)]
            v.is_shelf_edge(offset.block_offset, e2) && e2.raw < e0.raw && v.fits_at(
                e2,
                offset.line_offset,
                available,
                min,
            );
        lemma_shelf_at_or_below(v, offset.block_offset, e1);
        lemma_first_fit_exists(v, offset, available, min, e1);
    }
}

/// There is a lowest candidate shelf at or below any candidate shelf `x`.
proof fn lemma_last_shelf_exists(v: ExclusionsView, b0: LayoutUnit, x: LayoutUnit)
    requires
        v.is_shelf_edge(b0, x),
    ensures
        exists|y: LayoutUnit| v.is_last_shelf(b0, y),
    decreases i32::MAX - x.raw,
{
    if !v.is_last_shelf(b0, x) {
        let e = choose|e: LayoutUnit| #[trigger] v.is_shelf_edge(b0, e) && e.raw > x.raw;
        lemma_last_shelf_exists(v, b0, e);
    }
}

/// The block start of the opportunity when no shelf fits: at or below the
/// lowest shelf and the `Both` clearance offset.
proof fn lemma_fallback_start(v: ExclusionsView, offset: BfcOffset, available: LayoutUnit, min: LayoutUnit)
    requires
        !v.has_fit(offset, available, min),
    ensures
        v.is_last_shelf(offset.block_offset, choose|x: LayoutUnit| v.is_last_shelf(offset.block_offset, x)),
        v.opportunity(offset, available, min).rect.start_offset.block_offset.raw
            >= (choose|x: LayoutUnit| v.is_last_shelf(offset.block_offset, x)).raw,
        v.opportunity(offset, available, min).rect.start_offset.block_offset.raw >= v.both_clear().raw,
{
    assert(v.is_shelf_edge(offset.block_offset, offset.block_offset));
    lemma_last_shelf_exists(v, offset.block_offset, offset.block_offset);
}

/// The opportunity lies at or below the query offset.
pub proof fn lemma_opportunity_at_or_below(v: ExclusionsView, offset: BfcOffset, available: LayoutUnit, min: LayoutUnit)
    ensures
        v.opportunity(offset, available, min).rect.start_offset.block_offset.raw >= offset.block_offset.raw,
{
    if v.has_fit(offset, available, min) {
        lemma_first_fit_chosen(v, offset, available, min);
        lemma_shelf_at_or_below(v, offset.block_offset, v.opportunity(offset, available, min).rect.start_offset.block_offset);
    } else {
        lemma_fallback_start(v, offset, available, min);
        assert(v.is_shelf_edge(offset.block_offset, offset.block_offset));
    }
}

/// When some shelf fits, the opportunity is at least `min` wide; it lies
/// within the container's line range and no float active at its block start
/// reaches into it.
pub proof fn lemma_opportunity_fits_between_floats(v: ExclusionsView, offset: BfcOffset, available: LayoutUnit, min: LayoutUnit)
    requires
        v.has_fit(offset, available, min),
    ensures
        ({
            let r = v.opportunity(offset, available, min).rect;
            &&& r.spec_inline_size().raw >= min.raw
            &&& r.start_offset.line_offset.raw >= offset.line_offset.raw
            &&& r.end_offset.line_offset.raw <= offset.line_offset.spec_plus(available).raw
            &&& forall|i: int|
                0 <= i < v.left.len() && is_active_at(#[trigger] v.left[i], r.start_offset.block_offset)
                    ==> v.left[i].rect.end_offset.line_offset.raw <= r.start_offset.line_offset.raw
            &&& forall|i: int|
                0 <= i < v.right.len() && is_active_at(#[trigger] v.right[i], r.start_offset.block_offset)
                    ==> v.right[i].rect.start_offset.line_offset.raw >= r.end_offset.line_offset.raw
        }),
{
    lemma_first_fit_chosen(v, offset, available, min);
    let e = v.opportunity(offset, available, min).rect.start_offset.block_offset;
    lemma_left_edge_bounds(v.left, e, offset.line_offset);
    lemma_right_edge_bounds(v.right, e, offset.line_offset.spec_plus(available));
}

/// When no shelf fits, the opportunity starts below every float: no
/// exclusion is active at its block start.
pub proof fn lemma_opportunity_below_all_floats(v: ExclusionsView, offset: BfcOffset, available: LayoutUnit, min: LayoutUnit)
    requires
        !v.has_fit(offset, available, min),
    ensures
        forall|i: int|
            0 <= i < v.left.len() ==> !is_active_at(
                #[trigger] v.left[i],
                v.opportunity(offset, available, min).rect.start_offset.block_offset,
            ),
        forall|i: int|
            0 <= i < v.right.len() ==> !is_active_at(
                #[trigger] v.right[i],
                v.opportunity(offset, available, min).rect.start_offset.block_offset,
            ),
{
    lemma_fallback_start(v, offset, available, min);
    lemma_clearance_clears_exclusions(v);
}

/// In an empty exclusion space the opportunity spans the whole container
/// width from the query's line offset and is unbounded downwards; it starts
/// at the query offset if the width suffices, else at the lower of the query
/// offset and zero.
pub proof fn lemma_empty_space_opportunity(offset: BfcOffset, available: LayoutUnit, min: LayoutUnit)
    ensures
        ({
            let v = ExclusionsView { left: Seq::empty(), right: Seq::empty() };
            let r = v.opportunity(offset, available, min).rect;
            let full = offset.line_offset.spec_plus(available).spec_minus(offset.line_offset).raw >= min.raw;
            &&& r.start_offset.line_offset == offset.line_offset
            &&& r.end_offset.line_offset == offset.line_offset.spec_plus(available)
            &&& r.end_offset.block_offset.raw == i32::MAX
            &&& full ==> r.start_offset.block_offset == offset.block_offset
            &&& !full ==> r.start_offset.block_offset.raw == if offset.block_offset.raw >= 0 {
                offset.block_offset.raw
            } else {
                0
            }
        }),
{
    let v = ExclusionsView { left: Seq::empty(), right: Seq::empty() };
    let b0 = offset.block_offset;
    assert forall|e: LayoutUnit| #[trigger] v.is_shelf_edge(b0, e) implies e == b0 by {}
    assert(v.is_shelf_edge(b0, b0));
    if v.fits_at(b0, offset.line_offset, available, min) {
        assert(v.has_fit(offset, available, min));
        lemma_first_fit_chosen(v, offset, available, min);
    } else {
        assert(!v.has_fit(offset, available, min));
        lemma_fallback_start(v, offset, available, min);
    }
}

/// Tracks float exclusion areas within a block formatting context.
#[derive(Debug)]
pub struct ExclusionSpace {
    /// Left float exclusions, sorted by block start ascending.
    left_floats: Vec<ExclusionArea>,
    /// Right float exclusions, sorted by block start ascending.
    right_floats: Vec<ExclusionArea>,
    /// Cached clearance offsets.
    left_clear_offset: LayoutUnit,
    right_clear_offset: LayoutUnit,
}

impl View for ExclusionSpace {
    type V = ExclusionsView;

    closed spec fn view(&self) -> ExclusionsView {
        ExclusionsView { left: self.left_floats@, right: self.right_floats@ }
    }
}


/// The character of a decimal digit.
pub open spec fn digit_char(d: nat) -> char {
    (d + 48) as char
}

/// The decimal digits of a natural number, most significant first.
pub open spec fn decimal(n: nat) -> Seq<char>
    decreases n,
{
    if n < 10 {
        seq![digit_char(n)]
    } else {
        decimal(n / 10) + seq![digit_char(n % 10)]
    }
}

/// The one-character text of a decimal digit.
fn digit_str(d: usize) -> (r: &'static str)
    requires
        d < 10,
    ensures
        r@ == seq![digit_char(d as nat)],
{
    proof {
        reveal_strlit("0");
        reveal_strlit("1");
        reveal_strlit("2");
        reveal_strlit("3");
        reveal_strlit("4");
        reveal_strlit("5");
        reveal_strlit("6");
        reveal_strlit("7");
        reveal_strlit("8");
        reveal_strlit("9");
    }
    let r = match d {
        0 => "0",
        1 => "1",
        2 => "2",
        3 => "3",
        4 => "4",
        5 => "5",
        6 => "6",
        7 => "7",
        8 => "8",
        _ => "9",
    };
    assert(r@ =~= seq![digit_char(d as nat)]);
    r
}

/// Append the decimal digits of `n`.
fn append_decimal(s: &mut String, n: usize)
    ensures
        final(s)@ == old(s)@ + decimal(n as nat),
    decreases n,
{
    if n >= 10 {
        append_decimal(s, n / 10);
    }
    s.append(digit_str(n % 10));
    proof {
        if n >= 10 {
            assert(final(s)@ =~= old(s)@ + decimal(n as nat));
        } else {
            assert(final(s)@ =~= old(s)@ + decimal(n as nat));
        }
    }
}

/// Insert `x` into a list sorted by block start, after every exclusion
/// starting at or above it.
fn insert_sorted(v: &mut Vec<ExclusionArea>, x: ExclusionArea)
    requires
        starts_sorted(old(v)@),
        forall|k: int| 0 <= k < old(v)@.len() ==> (#[trigger] old(v)@[k]).exclusion_type == x.exclusion_type,
    ensures
        final(v)@ == insert_by_start(old(v)@, x),
        starts_sorted(final(v)@),
        forall|k: int| 0 <= k < final(v)@.len() ==> (#[trigger] final(v)@[k]).exclusion_type == x.exclusion_type,
{
    let start = x.rect.block_start_offset();
    let mut i: usize = v.len();
    while i > 0 && v[i - 1].rect.block_start_offset().raw > start.raw
        invariant
            v@ == old(v)@,
            i <= v@.len(),
            start == x.rect.start_offset.block_offset,
            forall|k: int| i <= k < v@.len() ==> start_of(#[trigger] v@[k]) > start_of(x),
        decreases i,
    {
        assert(start_of(v@[i - 1]) > start_of(x));
        i = i - 1;
    }
    proof {
        assert forall|k: int| 0 <= k < i implies start_of(#[trigger] v@[k]) <= start_of(x) by {
            assert(start_of(v@[k]) <= start_of(v@[i - 1]));
        }
        lemma_insert_by_start_at(v@, x, i as int);
        lemma_insert_by_start_elements(v@, x);
    }
    let ghost before = v@;
    v.insert(i, x);
    proof {
        assert forall|k: int| 0 <= k < v@.len() implies (#[trigger] v@[k]).exclusion_type == x.exclusion_type by {
            if v@[k] != x {
                let m = choose|m: int| 0 <= m < before.len() && before[m] == v@[k];
            }
        }
    }
}

/// A copy of a list of exclusions.
fn copy_areas(v: &Vec<ExclusionArea>) -> (r: Vec<ExclusionArea>)
    ensures
        r@ == v@,
{
    let mut r: Vec<ExclusionArea> = Vec::new();
    let mut i: usize = 0;
    while i < v.len()
        invariant
            i <= v.len(),
            r@ == v@.take(i as int),
        decreases v.len() - i,
    {
        r.push(v[i]);
        i = i + 1;
        assert(r@ =~= v@.take(i as int));
    }
    assert(v@.take(v.len() as int) =~= v@);
    r
}

impl ExclusionSpace {
    #[verifier::type_invariant]
    spec fn well_formed(self) -> bool {
        &&& self@.well_formed()
        &&& self.left_clear_offset == clear_offset_of(self.left_floats@)
        &&& self.right_clear_offset == clear_offset_of(self.right_floats@)
    }

    /// Create an empty exclusion space.
    pub fn new() -> (r: ExclusionSpace)
        ensures
            r@.left == Seq::<ExclusionArea>::empty(),
            r@.right == Seq::<ExclusionArea>::empty(),
    {
        ExclusionSpace {
            left_floats: Vec::new(),
            right_floats: Vec::new(),
            left_clear_offset: LayoutUnit::zero(),
            right_clear_offset: LayoutUnit::zero(),
        }
    }

    /// Every stored exclusion has the type of the list it is kept in, and
    /// each list is sorted by block start.
    pub(crate) fn check_well_formed(&self)
        ensures
            self@.well_formed(),
    {
        proof {
            use_type_invariant(self);
        }
    }

    /// Add a float exclusion to the space, keeping its side's list sorted by
    /// block start, and update that side's clearance offset.
    pub fn add(&mut self, exclusion: ExclusionArea)
        ensures
            final(self)@ == old(self)@.add(exclusion),
            final(self)@.well_formed(),
    {
        proof {
            use_type_invariant(&*self);
        }
        let block_end = exclusion.rect.block_end_offset();
        let mut tmp = ExclusionSpace::new();
        std::mem::swap(self, &mut tmp);
        let ExclusionSpace { mut left_floats, mut right_floats, mut left_clear_offset, mut right_clear_offset } = tmp;
        match exclusion.exclusion_type {
            ExclusionType::Left => {
                if block_end.raw > left_clear_offset.raw {
                    left_clear_offset = block_end;
                }
                proof {
                    lemma_clear_offset_insert(left_floats@, exclusion);
                }
                insert_sorted(&mut left_floats, exclusion);
            },
            ExclusionType::Right => {
                if block_end.raw > right_clear_offset.raw {
                    right_clear_offset = block_end;
                }
                proof {
                    lemma_clear_offset_insert(right_floats@, exclusion);
                }
                insert_sorted(&mut right_floats, exclusion);
            },
        }
        *self = ExclusionSpace { left_floats, right_floats, left_clear_offset, right_clear_offset };
    }

    /// All exclusions: the left ones, then the right ones, each in the order added.
    pub fn all_exclusions(&self) -> (r: Vec<ExclusionArea>)
        ensures
            r@ == self@.left + self@.right,
    {
        let mut r = copy_areas(&self.left_floats);
        let mut i: usize = 0;
        while i < self.right_floats.len()
            invariant
                i <= self.right_floats@.len(),
                r@ == self.left_floats@ + self.right_floats@.take(i as int),
            decreases self.right_floats@.len() - i,
        {
            r.push(self.right_floats[i]);
            i = i + 1;
            assert(r@ =~= self.left_floats@ + self.right_floats@.take(i as int));
        }
        assert(self.right_floats@.take(i as int) =~= self.right_floats@);
        r
    }

    /// Find the first layout opportunity at or below `offset` that has at
    /// least `min_inline_size` of inline space within `available_inline_size`.
    pub fn find_layout_opportunity(
        &self,
        offset: &BfcOffset,
        available_inline_size: LayoutUnit,
        min_inline_size: LayoutUnit,
    ) -> (r: LayoutOpportunity)
        ensures
            r == self@.opportunity(*offset, available_inline_size, min_inline_size),
    {
        proof {
            use_type_invariant(self);
        }
        let ghost m = self@;
        let b0 = offset.block_offset;
        let line_start = offset.line_offset;
        let mut cur = b0;
        loop
            invariant
                m == self@,
                b0 == offset.block_offset,
                line_start == offset.line_offset,
                m.is_shelf_edge(b0, cur),
                cur.raw >= b0.raw,
                forall|e: LayoutUnit|
                    #![trigger m.is_shelf_edge(b0, e)]
                    m.is_shelf_edge(b0, e) && e.raw < cur.raw ==> !m.fits_at(
                        e,
                        line_start,
                        available_inline_size,
                        min_inline_size,
                    ),
            ensures
                m.is_shelf_edge(b0, cur),
                forall|e: LayoutUnit|
                    #![trigger m.is_shelf_edge(b0, e)]
                    m.is_shelf_edge(b0, e) ==> e.raw <= cur.raw && !m.fits_at(
                        e,
                        line_start,
                        available_inline_size,
                        min_inline_size,
                    ),
            decreases i32::MAX - cur.raw,
        {
            let (left_edge, right_edge) = self.compute_edges_at(
                cur,
                line_start,
                available_inline_size,
            );
            let inline_space = right_edge.minus(left_edge);
            if inline_space.raw >= min_inline_size.raw {
                let block_end = self.next_float_start_after(cur);
                proof {
                    assert(m.is_first_fit(*offset, available_inline_size, min_inline_size, cur));
                    assert(m.has_fit(*offset, available_inline_size, min_inline_size));
                    let e = choose|e: LayoutUnit|
                        m.is_first_fit(*offset, available_inline_size, min_inline_size, e);
                    assert(m.is_shelf_edge(b0, e));
                    assert(m.is_shelf_edge(b0, cur));
                    assert(e.raw == cur.raw);
                }
                return LayoutOpportunity {
                    rect: BfcRect::new(
                        BfcOffset::new(left_edge, cur),
                        BfcOffset::new(right_edge, block_end),
                    ),
                };
            }
            match self.next_shelf_edge(b0, cur) {
                Some(v) => {
                    cur = v;
                },
                None => {
                    break ;
                },
            }
        }
        let max_clear = if self.left_clear_offset.raw > self.right_clear_offset.raw {
            self.left_clear_offset
        } else {
            self.right_clear_offset
        };
        let start_block = if max_clear.raw > cur.raw {
            max_clear
        } else {
            cur
        };
        proof {
            assert(!m.has_fit(*offset, available_inline_size, min_inline_size));
            assert(m.is_last_shelf(b0, cur));
            let x = choose|x: LayoutUnit| m.is_last_shelf(b0, x);
            assert(m.is_shelf_edge(b0, x));
            assert(m.is_shelf_edge(b0, cur));
            assert(x.raw == cur.raw);
        }
        LayoutOpportunity {
            rect: BfcRect::new(
                BfcOffset::new(line_start, start_block),
                BfcOffset::new(line_start.plus(available_inline_size), LayoutUnit::max_value()),
            ),
        }
    }

    /// The clearance offset for the given clear type: the block offset below
    /// which no floats of that side exist (zero for `None`).
    pub fn clearance_offset(&self, clear_type: ClearType) -> (r: LayoutUnit)
        ensures
            r == self@.clearance(clear_type),
    {
        proof {
            use_type_invariant(self);
        }
        match clear_type {
            ClearType::NoClear => LayoutUnit::zero(),
            ClearType::Left => self.left_clear_offset,
            ClearType::Right => self.right_clear_offset,
            ClearType::Both => {
                if self.left_clear_offset.raw > self.right_clear_offset.raw {
                    self.left_clear_offset
                } else {
                    self.right_clear_offset
                }
            },
        }
    }

    /// Whether this exclusion space has any floats.
    pub fn has_floats(&self) -> (r: bool)
        ensures
            r == (self@.num_exclusions() > 0),
    {
        self.left_floats.len() > 0 || self.right_floats.len() > 0
    }

    /// Number of float exclusions tracked.
    pub fn num_exclusions(&self) -> (r: usize)
        requires
            self@.num_exclusions() <= usize::MAX,
        ensures
            r == self@.num_exclusions(),
    {
        self.left_floats.len() + self.right_floats.len()
    }

    /// A one-line description: the number of left and right exclusions,
    /// as `ExclusionSpace(left: L, right: R)`.
    pub fn to_display_string(&self) -> (r: String)
        ensures
            r@ == "ExclusionSpace(left: "@ + decimal(self@.left.len()) + ", right: "@ + decimal(
                self@.right.len(),
            ) + ")"@,
    {
        let mut s = String::from_str("ExclusionSpace(left: ");
        append_decimal(&mut s, self.left_floats.len());
        s.append(", right: ");
        append_decimal(&mut s, self.right_floats.len());
        s.append(")");
        s
    }

    // ── Internal helpers ─────────────────────────────────────────────
    /// The left and right edges of free space at a block offset.
    fn compute_edges_at(
        &self,
        block_offset: LayoutUnit,
        bfc_line_start: LayoutUnit,
        available_inline_size: LayoutUnit,
    ) -> (r: (LayoutUnit, LayoutUnit))
        ensures
            r.0 == self@.left_edge(block_offset, bfc_line_start),
            r.1 == self@.right_edge(block_offset, bfc_line_start, available_inline_size),
    {
        let mut left_edge = bfc_line_start;
        let right_init = bfc_line_start.plus(available_inline_size);
        let mut right_edge = right_init;
        let mut i: usize = 0;
        while i < self.left_floats.len()
            invariant
                i <= self.left_floats@.len(),
                left_edge == left_edge_over(self.left_floats@.take(i as int), block_offset, bfc_line_start),
            decreases self.left_floats@.len() - i,
        {
            let f = self.left_floats[i];
            if f.rect.block_start_offset().raw <= block_offset.raw
                && f.rect.block_end_offset().raw > block_offset.raw {
                let float_right = f.rect.line_end_offset();
                if float_right.raw > left_edge.raw {
                    left_edge = float_right;
                }
            }
            proof {
                assert(self.left_floats@.take(i + 1).drop_last() =~= self.left_floats@.take(i as int));
            }
            i = i + 1;
        }
        assert(self.left_floats@.take(i as int) =~= self.left_floats@);
        let mut j: usize = 0;
        while j < self.right_floats.len()
            invariant
                j <= self.right_floats@.len(),
                right_edge == right_edge_over(self.right_floats@.take(j as int), block_offset, right_init),
            decreases self.right_floats@.len() - j,
        {
            let f = self.right_floats[j];
            if f.rect.block_start_offset().raw <= block_offset.raw
                && f.rect.block_end_offset().raw > block_offset.raw {
                let float_left = f.rect.line_start_offset();
                if float_left.raw < right_edge.raw {
                    right_edge = float_left;
                }
            }
            proof {
                assert(self.right_floats@.take(j + 1).drop_last() =~= self.right_floats@.take(j as int));
            }
            j = j + 1;
        }
        assert(self.right_floats@.take(j as int) =~= self.right_floats@);
        (left_edge, right_edge)
    }

    /// The next block offset after `block_offset` where a float edge lies.
    fn next_float_start_after(&self, block_offset: LayoutUnit) -> (r: LayoutUnit)
        ensures
            r == self@.next_float_edge_after(block_offset),
    {
        let mut next = LayoutUnit::max_value();
        let mut i: usize = 0;
        while i < self.left_floats.len()
            invariant
                i <= self.left_floats@.len(),
                next == next_edge_over(self.left_floats@.take(i as int), block_offset, LayoutUnit { raw: i32::MAX }),
            decreases self.left_floats@.len() - i,
        {
            let f = self.left_floats[i];
            let start = f.rect.block_start_offset();
            if start.raw > block_offset.raw && start.raw < next.raw {
                next = start;
            }
            let end = f.rect.block_end_offset();
            if end.raw > block_offset.raw && end.raw < next.raw {
                next = end;
            }
            proof {
                assert(self.left_floats@.take(i + 1).drop_last() =~= self.left_floats@.take(i as int));
            }
            i = i + 1;
        }
        assert(self.left_floats@.take(i as int) =~= self.left_floats@);
        let ghost after_left = next;
        let mut j: usize = 0;
        while j < self.right_floats.len()
            invariant
                j <= self.right_floats@.len(),
                after_left == next_edge_over(self.left_floats@, block_offset, LayoutUnit { raw: i32::MAX }),
                next == next_edge_over(self.right_floats@.take(j as int), block_offset, after_left),
            decreases self.right_floats@.len() - j,
        {
            let f = self.right_floats[j];
            let start = f.rect.block_start_offset();
            if start.raw > block_offset.raw && start.raw < next.raw {
                next = start;
            }
            let end = f.rect.block_end_offset();
            if end.raw > block_offset.raw && end.raw < next.raw {
                next = end;
            }
            proof {
                assert(self.right_floats@.take(j + 1).drop_last() =~= self.right_floats@.take(j as int));
            }
            j = j + 1;
        }
        assert(self.right_floats@.take(j as int) =~= self.right_floats@);
        next
    }

    /// The smallest candidate shelf for a query at `b0` that lies strictly
    /// below `cur`, if any.
    fn next_shelf_edge(&self, b0: LayoutUnit, cur: LayoutUnit) -> (r: Option<LayoutUnit>)
        requires
            cur.raw >= b0.raw,
        ensures
            r matches Some(v) ==> v.raw > cur.raw && self@.is_shelf_edge(b0, v),
            forall|e: LayoutUnit|
                #![trigger self@.is_shelf_edge(b0, e)]
                self@.is_shelf_edge(b0, e) && e.raw > cur.raw ==> (r matches Some(v) && v.raw
                    <= e.raw),
    {
        let ghost m = self@;
        let mut best: Option<LayoutUnit> = None;
        let mut i: usize = 0;
        while i < self.left_floats.len()
            invariant
                m == self@,
                i <= self.left_floats@.len(),
                best matches Some(v) ==> v.raw > cur.raw && m.is_shelf_edge(b0, v),
                forall|k: int, e: LayoutUnit|
                    #![trigger float_has_edge(m.left[k], b0, e)]
                    0 <= k < i && float_has_edge(m.left[k], b0, e) && e.raw > cur.raw ==> (
                    best matches Some(v) && v.raw <= e.raw),
            decreases self.left_floats@.len() - i,
        {
            let f = self.left_floats[i];
            let start = f.rect.block_start_offset();
            let end = f.rect.block_end_offset();
            if end.raw > b0.raw {
                if end.raw > cur.raw {
                    let better = match best {
                        Some(v) => end.raw < v.raw,
                        None => true,
                    };
                    if better {
                        best = Some(end);
                        assert(float_has_edge(m.left[i as int], b0, end));
                    }
                }
                if start.raw > b0.raw && start.raw > cur.raw {
                    let better = match best {
                        Some(v) => start.raw < v.raw,
                        None => true,
                    };
                    if better {
                        best = Some(start);
                        assert(float_has_edge(m.left[i as int], b0, start));
                    }
                }
            }
            i = i + 1;
        }
        let mut j: usize = 0;
        while j < self.right_floats.len()
            invariant
                m == self@,
                i == self.left_floats@.len(),
                j <= self.right_floats@.len(),
                best matches Some(v) ==> v.raw > cur.raw && m.is_shelf_edge(b0, v),
                forall|k: int, e: LayoutUnit|
                    #![trigger float_has_edge(m.left[k], b0, e)]
                    0 <= k < i && float_has_edge(m.left[k], b0, e) && e.raw > cur.raw ==> (
                    best matches Some(v) && v.raw <= e.raw),
                forall|k: int, e: LayoutUnit|
                    #![trigger float_has_edge(m.right[k], b0, e)]
                    0 <= k < j && float_has_edge(m.right[k], b0, e) && e.raw > cur.raw ==> (
                    best matches Some(v) && v.raw <= e.raw),
            decreases self.right_floats@.len() - j,
        {
            let f = self.right_floats[j];
            let start = f.rect.block_start_offset();
            let end = f.rect.block_end_offset();
            if end.raw > b0.raw {
                if end.raw > cur.raw {
                    let better = match best {
                        Some(v) => end.raw < v.raw,
                        None => true,
                    };
                    if better {
                        best = Some(end);
                        assert(float_has_edge(m.right[j as int], b0, end));
                    }
                }
                if start.raw > b0.raw && start.raw > cur.raw {
                    let better = match best {
                        Some(v) => start.raw < v.raw,
                        None => true,
                    };
                    if better {
                        best = Some(start);
                        assert(float_has_edge(m.right[j as int], b0, start));
                    }
                }
            }
            j = j + 1;
        }
        best
    }
}

impl Clone for ExclusionSpace {
    fn clone(&self) -> (r: ExclusionSpace)
        ensures
            r@ == self@,
    {
        proof {
            use_type_invariant(self);
        }
        ExclusionSpace {
            left_floats: copy_areas(&self.left_floats),
            right_floats: copy_areas(&self.right_floats),
            left_clear_offset: self.left_clear_offset,
            right_clear_offset: self.right_clear_offset,
        }
    }
}

impl Default for ExclusionSpace {
    fn default() -> (r: ExclusionSpace)
        ensures
            r@.left == Seq::<ExclusionArea>::empty(),
            r@.right == Seq::<ExclusionArea>::empty(),
    {
        ExclusionSpace::new()
    }
}

} // verus!
