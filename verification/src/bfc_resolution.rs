//! Lazy resolution of the block offset within the block formatting context.
//!
//! The offset of a block in its formatting context starts unresolved
//! (possibly with an estimate) and is committed when border or padding,
//! in-flow content, clearance or a new formatting context separates it
//! from its margins. Floats met before that are queued and placed once the
//! offset commits; if the committed offset differs from the estimate the
//! layout must restart.
use vstd::prelude::*;
use crate::geometry::{BoxStrut, LayoutUnit, MarginStrut};
use crate::exclusions::exclusion_space::{
    ClearType, ExclusionSpace, ExclusionType, ExclusionsView, insert_by_start, lemma_insert_by_start_elements,
};
use crate::exclusions::float_utils::{
    PositionedFloat,
    UnpositionedFloat,
    lemma_float_at_or_below_origin,
    position_float,
    spec_position_float,
};

verus! {

/// Whether the block offset in the formatting context has been resolved.
#[derive(Clone, Copy, Debug, PartialEq, Eq, Structural)]
pub enum BfcBlockOffsetState {
    /// Not yet known; an estimate may be used for speculative float placement.
    Unresolved { estimated: Option<LayoutUnit> },
    /// Committed.
    Resolved(LayoutUnit),
}

impl BfcBlockOffsetState {
    /// A new unresolved state with no estimate.
    pub fn new_unresolved() -> (r: BfcBlockOffsetState)
        ensures
            r == (BfcBlockOffsetState::Unresolved { estimated: None }),
    {
        BfcBlockOffsetState::Unresolved { estimated: None }
    }

    /// A new unresolved state with an estimate.
    pub fn new_with_estimate(estimate: LayoutUnit) -> (r: BfcBlockOffsetState)
        ensures
            r == (BfcBlockOffsetState::Unresolved { estimated: Some(estimate) }),
    {
        BfcBlockOffsetState::Unresolved { estimated: Some(estimate) }
    }

    /// Whether the offset is still unresolved.
    pub fn is_unresolved(&self) -> (r: bool)
        ensures
            r == (*self is Unresolved),
    {
        match self {
            BfcBlockOffsetState::Unresolved { .. } => true,
            BfcBlockOffsetState::Resolved(_) => false,
        }
    }

    /// Whether the offset has been resolved.
    pub fn is_resolved(&self) -> (r: bool)
        ensures
            r == (*self is Resolved),
    {
        match self {
            BfcBlockOffsetState::Unresolved { .. } => false,
            BfcBlockOffsetState::Resolved(_) => true,
        }
    }

    /// The resolved offset, if any.
    pub fn resolved_offset(&self) -> (r: Option<LayoutUnit>)
        ensures
            r == spec_resolved_offset(*self),
    {
        match self {
            BfcBlockOffsetState::Resolved(v) => Some(*v),
            _ => None,
        }
    }
}

pub open spec fn spec_resolved_offset(state: BfcBlockOffsetState) -> Option<LayoutUnit> {
    match state {
        BfcBlockOffsetState::Resolved(v) => Some(v),
        _ => None,
    }
}

impl Default for BfcBlockOffsetState {
    fn default() -> (r: BfcBlockOffsetState)
        ensures
            r == (BfcBlockOffsetState::Unresolved { estimated: None }),
    {
        Self::new_unresolved()
    }
}

/// Floats awaiting the resolution of the block offset, in the order met.
#[derive(Debug)]
pub struct PendingFloats {
    floats: Vec<UnpositionedFloat>,
}

impl View for PendingFloats {
    type V = Seq<UnpositionedFloat>;

    closed spec fn view(&self) -> Seq<UnpositionedFloat> {
        self.floats@
    }
}

/// The float with its origin moved to the block offset `offset`.
pub open spec fn float_at_offset(f: UnpositionedFloat, offset: LayoutUnit) -> UnpositionedFloat {
    UnpositionedFloat {
        origin_bfc_offset: crate::geometry::BfcOffset {
            block_offset: offset,
            ..f.origin_bfc_offset
        },
        ..f
    }
}

/// Positioning the floats `fs` in order at block offset `offset`, each one
/// in the exclusion space left by those before it: the positioned floats,
/// and the exclusion space after all their exclusions are added.
pub open spec fn spec_position_all(fs: Seq<UnpositionedFloat>, offset: LayoutUnit, space: ExclusionsView) -> (Seq<PositionedFloat>, ExclusionsView)
    decreases fs.len(),
{
    if fs.len() == 0 {
        (Seq::empty(), space)
    } else {
        let (placed, before) = spec_position_all(fs.drop_last(), offset, space);
        let (p, exclusion) = spec_position_float(float_at_offset(fs.last(), offset), before);
        (placed.push(p), before.add(exclusion))
    }
}

impl PendingFloats {
    /// An empty queue.
    pub fn new() -> (r: PendingFloats)
        ensures
            r@ == Seq::<UnpositionedFloat>::empty(),
    {
        PendingFloats { floats: Vec::new() }
    }

    /// Queue a float for later positioning.
    pub fn add(&mut self, float: UnpositionedFloat)
        ensures
            final(self)@ == old(self)@.push(float),
    {
        self.floats.push(float);
    }

    /// Position all pending floats at the resolved block offset, in order,
    /// adding each one's exclusion to the exclusion space; the queue is left
    /// empty.
    pub fn position_all(&mut self, resolved_offset: LayoutUnit, exclusion_space: &mut ExclusionSpace) -> (r: Vec<PositionedFloat>)
        ensures
            final(self)@ == Seq::<UnpositionedFloat>::empty(),
            r@ == spec_position_all(old(self)@, resolved_offset, old(exclusion_space)@).0,
            final(exclusion_space)@ == spec_position_all(old(self)@, resolved_offset, old(exclusion_space)@).1,
    {
        let mut pending: Vec<UnpositionedFloat> = Vec::new();
        std::mem::swap(&mut self.floats, &mut pending);
        let ghost fs = pending@;
        let ghost space0 = exclusion_space@;
        let mut positioned: Vec<PositionedFloat> = Vec::new();
        let mut i: usize = 0;
        while i < pending.len()
            invariant
                fs == pending@,
                i <= fs.len(),
                positioned@ == spec_position_all(fs.take(i as int), resolved_offset, space0).0,
                exclusion_space@ == spec_position_all(fs.take(i as int), resolved_offset, space0).1,
            decreases fs.len() - i,
        {
            let mut float = pending[i];
            float.origin_bfc_offset.block_offset = resolved_offset;
            let (pos, exclusion) = position_float(&float, exclusion_space);
            exclusion_space.add(exclusion);
            positioned.push(pos);
            proof {
                assert(fs.take(i + 1).drop_last() =~= fs.take(i as int));
                assert(fs.take(i + 1).last() == fs[i as int]);
                assert(float == float_at_offset(fs[i as int], resolved_offset));
            }
            i = i + 1;
        }
        assert(fs.take(fs.len() as int) =~= fs);
        positioned
    }

    /// Whether there are no pending floats.
    pub fn is_empty(&self) -> (r: bool)
        ensures
            r == (self@.len() == 0),
    {
        self.floats.len() == 0
    }

    /// Number of pending floats.
    pub fn len(&self) -> (r: usize)
        ensures
            r == self@.len(),
    {
        self.floats.len()
    }
}

impl Default for PendingFloats {
    fn default() -> (r: PendingFloats)
        ensures
            r@ == Seq::<UnpositionedFloat>::empty(),
    {
        PendingFloats::new()
    }
}


// ── Laws ──────────────────────────────────────────────────────────────
/// Positioning pending floats places each of them once and adds exactly one
/// exclusion per float, keeping every exclusion that was already there.
pub proof fn lemma_position_all_counts(fs: Seq<UnpositionedFloat>, offset: LayoutUnit, space: ExclusionsView)
    ensures
        spec_position_all(fs, offset, space).0.len() == fs.len(),
        spec_position_all(fs, offset, space).1.num_exclusions() == space.num_exclusions() + fs.len(),
        spec_position_all(fs, offset, space).1.left.len() >= space.left.len(),
        spec_position_all(fs, offset, space).1.right.len() >= space.right.len(),
        forall|k: int|
            0 <= k < space.left.len() ==> spec_position_all(fs, offset, space).1.left.contains(
                #[trigger] space.left[k],
            ),
        forall|k: int|
            0 <= k < space.right.len() ==> spec_position_all(fs, offset, space).1.right.contains(
                #[trigger] space.right[k],
            ),
    decreases fs.len(),
{
    if fs.len() > 0 {
        lemma_position_all_counts(fs.drop_last(), offset, space);
        let before = spec_position_all(fs.drop_last(), offset, space).1;
        let after = spec_position_all(fs, offset, space).1;
        let ex = spec_position_float(float_at_offset(fs.last(), offset), before).1;
        assert(after == before.add(ex));
        lemma_insert_by_start_elements(before.left, ex);
        lemma_insert_by_start_elements(before.right, ex);
        assert forall|k: int| 0 <= k < space.left.len() implies after.left.contains(#[trigger] space.left[k]) by {
            let m = choose|m: int| 0 <= m < before.left.len() && before.left[m] == space.left[k];
            assert(before.left.contains(before.left[m]));
            if ex.exclusion_type == ExclusionType::Left {
                assert(insert_by_start(before.left, ex).contains(before.left[m]));
            }
        }
        assert forall|k: int| 0 <= k < space.right.len() implies after.right.contains(#[trigger] space.right[k]) by {
            let m = choose|m: int| 0 <= m < before.right.len() && before.right[m] == space.right[k];
            if ex.exclusion_type == ExclusionType::Right {
                assert(insert_by_start(before.right, ex).contains(before.right[m]));
            }
        }
    }
}

/// Floats positioned once the offset resolves lie at or below the resolved
/// offset, when none of them has a negative top margin.
pub proof fn lemma_positioned_floats_below_offset(fs: Seq<UnpositionedFloat>, offset: LayoutUnit, space: ExclusionsView)
    requires
        forall|i: int| 0 <= i < fs.len() ==> (#[trigger] fs[i]).margins.top.raw >= 0,
    ensures
        forall|i: int|
            0 <= i < fs.len() ==> (#[trigger] spec_position_all(fs, offset, space).0[i]).bfc_offset.block_offset.raw
                >= offset.raw,
    decreases fs.len(),
{
    if fs.len() > 0 {
        lemma_position_all_counts(fs.drop_last(), offset, space);
        lemma_positioned_floats_below_offset(fs.drop_last(), offset, space);
        let before = spec_position_all(fs.drop_last(), offset, space).1;
        let f = float_at_offset(fs.last(), offset);
        lemma_float_at_or_below_origin(f, before);
        assert(fs[fs.len() - 1] == fs.last());
        assert forall|i: int| 0 <= i < fs.len() implies (#[trigger] spec_position_all(fs, offset, space).0[i]).bfc_offset.block_offset.raw
            >= offset.raw by {
            if i < fs.len() - 1 {
                assert(fs.drop_last()[i] == fs[i]);
            }
        }
    }
}

/// Committing an offset from an unresolved state calls for relayout exactly
/// when the committed state would be reported as needing relayout against
/// the estimate.
pub proof fn lemma_resolve_agrees_with_needs_relayout(estimate: LayoutUnit, offset: LayoutUnit)
    ensures
        spec_resolve_needs_relayout(BfcBlockOffsetState::Unresolved { estimated: Some(estimate) }, offset)
            == spec_needs_relayout(BfcBlockOffsetState::Resolved(offset), estimate),
        !spec_resolve_needs_relayout(BfcBlockOffsetState::Unresolved { estimated: None }, offset),
{
}

/// Whether committing the offset `offset` from `state` calls for a relayout:
/// only when the state was unresolved with an estimate other than `offset`.
pub open spec fn spec_resolve_needs_relayout(state: BfcBlockOffsetState, offset: LayoutUnit) -> bool {
    match state {
        BfcBlockOffsetState::Unresolved { estimated: Some(est) } => est != offset,
        _ => false,
    }
}

/// Commit the block offset, positioning all pending floats.
///
/// From an unresolved state the state becomes `Resolved(offset)`, the
/// pending floats are placed at `offset` and their exclusions added, and the
/// result says whether the offset differs from the estimate (so that layout
/// must restart). From a resolved state nothing changes and the result is
/// `false`.
pub fn resolve_bfc_block_offset(
    state: &mut BfcBlockOffsetState,
    offset: LayoutUnit,
    pending: &mut PendingFloats,
    exclusion_space: &mut ExclusionSpace,
) -> (r: bool)
    ensures
        r == spec_resolve_needs_relayout(*old(state), offset),
        *old(state) is Resolved ==> {
            &&& *final(state) == *old(state)
            &&& final(pending)@ == old(pending)@
            &&& final(exclusion_space)@ == old(exclusion_space)@
        },
        *old(state) is Unresolved ==> {
            &&& *final(state) == BfcBlockOffsetState::Resolved(offset)
            &&& final(pending)@ == Seq::<UnpositionedFloat>::empty()
            &&& final(exclusion_space)@ == spec_position_all(old(pending)@, offset, old(exclusion_space)@).1
        },
{
    match *state {
        BfcBlockOffsetState::Resolved(_) => false,
        BfcBlockOffsetState::Unresolved { estimated } => {
            *state = BfcBlockOffsetState::Resolved(offset);
            let _positioned = pending.position_all(offset, exclusion_space);
            match estimated {
                Some(est) => est != offset,
                None => false,
            }
        },
    }
}

/// Whether the block offset should be resolved now: when there is block-start
/// border or padding, in-flow content, a child with `clear`, or a new
/// formatting context.
pub fn should_resolve_bfc_offset(
    border_padding: &BoxStrut,
    has_content: bool,
    child_clear: ClearType,
    establishes_new_fc: bool,
) -> (r: bool)
    ensures
        r == (border_padding.top.raw > 0 || has_content || child_clear != ClearType::NoClear
            || establishes_new_fc),
{
    if border_padding.top.raw > 0 {
        return true;
    }
    if has_content {
        return true;
    }
    if !matches!(child_clear, ClearType::NoClear) {
        return true;
    }
    if establishes_new_fc {
        return true;
    }
    false
}

/// Estimate of the block offset: the container's offset plus the content
/// offset plus the collapsed margin strut (saturating).
pub fn compute_bfc_block_offset_estimate(
    container_bfc_block_offset: LayoutUnit,
    content_offset: LayoutUnit,
    margin_strut: &MarginStrut,
) -> (r: LayoutUnit)
    ensures
        r == container_bfc_block_offset.spec_plus(content_offset).spec_plus(margin_strut.spec_sum()),
{
    container_bfc_block_offset.plus(content_offset).plus(margin_strut.sum())
}

pub open spec fn spec_needs_relayout(state: BfcBlockOffsetState, estimate: LayoutUnit) -> bool {
    match state {
        BfcBlockOffsetState::Resolved(resolved) => resolved != estimate,
        BfcBlockOffsetState::Unresolved { .. } => false,
    }
}

/// Whether the resolved offset differs from the estimate (never while unresolved).
pub fn needs_relayout(state: &BfcBlockOffsetState, estimate: LayoutUnit) -> (r: bool)
    ensures
        r == spec_needs_relayout(*state, estimate),
{
    match state {
        BfcBlockOffsetState::Resolved(resolved) => *resolved != estimate,
        BfcBlockOffsetState::Unresolved { .. } => false,
    }
}

} // verus!
