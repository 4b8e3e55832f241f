//! The constraint space: the input a parent passes to a child's layout.
//! It carries the available size, the percentage resolution size, the
//! child's offset in its block formatting context, the shared exclusion
//! space, and flags about formatting contexts, flex sizing, fragmentation
//! and baselines.
use vstd::prelude::*;
use std::sync::Arc;
use crate::geometry::{BfcOffset, LayoutUnit};
use crate::exclusions::exclusion_space::ExclusionSpace;

verus! {

/// Layout input constraints passed from parent to child.
#[derive(Debug)]
pub struct ConstraintSpace {
    /// Available inline size (width in horizontal writing mode).
    pub available_inline_size: LayoutUnit,
    /// Available block size; the indefinite sentinel if unconstrained.
    pub available_block_size: LayoutUnit,
    /// The size against which percentage inline sizes resolve.
    pub percentage_resolution_inline_size: LayoutUnit,
    /// The size against which percentage block sizes resolve; may be indefinite.
    pub percentage_resolution_block_size: LayoutUnit,
    /// The offset of this element within its block formatting context.
    pub bfc_offset: BfcOffset,
    /// The block offset at which floats were last positioned, if known.
    pub floats_bfc_block_offset: Option<LayoutUnit>,
    /// The shared exclusion space of the formatting context, if any.
    pub exclusion_space: Option<Arc<ExclusionSpace>>,
    /// Whether this element establishes a new block formatting context.
    pub is_new_formatting_context: bool,
    /// The inline size is determined from outside (e.g. a row flex main axis).
    pub is_fixed_inline_size: bool,
    /// The block size is determined from outside (e.g. a column flex main axis).
    pub is_fixed_block_size: bool,
    /// The child stretches its inline size to fill the cross axis.
    pub stretch_inline_size: bool,
    /// The child stretches its block size to fill the cross axis.
    pub stretch_block_size: bool,
    /// For column flex children whose container's block size is indefinite.
    pub is_initial_block_size_indefinite: bool,
    /// Block size of the current fragmentainer; zero means no fragmentation.
    pub fragmentainer_block_size: LayoutUnit,
    /// How far into the current fragmentainer this element starts.
    pub block_offset_in_fragmentainer: LayoutUnit,
    /// Whether layout resumes after a fragmentainer break.
    pub is_resuming: bool,
    /// Whether the parent needs a first baseline from this child.
    pub needs_first_baseline: bool,
    /// Whether the parent needs a last baseline from this child.
    pub needs_last_baseline: bool,
}

/// `Arc::clone`: another handle to the same exclusion space.
#[verifier::external_body]
fn share_exclusion_space(space: &Arc<ExclusionSpace>) -> (r: Arc<ExclusionSpace>)
    ensures
        r == *space,
{
    Arc::clone(space)
}

/// A space with the given sizes, no offset, no exclusions, and every flag
/// off except the new-formatting-context flag.
pub open spec fn spec_space_with(
    available_inline_size: LayoutUnit,
    available_block_size: LayoutUnit,
    percentage_inline: LayoutUnit,
    percentage_block: LayoutUnit,
    is_new_fc: bool,
) -> ConstraintSpace {
    ConstraintSpace {
        available_inline_size,
        available_block_size,
        percentage_resolution_inline_size: percentage_inline,
        percentage_resolution_block_size: percentage_block,
        bfc_offset: BfcOffset {
            line_offset: LayoutUnit { raw: 0 },
            block_offset: LayoutUnit { raw: 0 },
        },
        floats_bfc_block_offset: None,
        exclusion_space: None,
        is_new_formatting_context: is_new_fc,
        is_fixed_inline_size: false,
        is_fixed_block_size: false,
        stretch_inline_size: false,
        stretch_block_size: false,
        is_initial_block_size_indefinite: false,
        fragmentainer_block_size: LayoutUnit { raw: 0 },
        block_offset_in_fragmentainer: LayoutUnit { raw: 0 },
        is_resuming: false,
        needs_first_baseline: false,
        needs_last_baseline: false,
    }
}

/// The space a child inherits from `parent`: the same, with the flex
/// sizing flags and baseline requests cleared.
pub open spec fn spec_inherited(parent: ConstraintSpace) -> ConstraintSpace {
    ConstraintSpace {
        is_fixed_inline_size: false,
        is_fixed_block_size: false,
        stretch_inline_size: false,
        stretch_block_size: false,
        is_initial_block_size_indefinite: false,
        needs_first_baseline: false,
        needs_last_baseline: false,
        ..parent
    }
}

fn make_space(
    available_inline_size: LayoutUnit,
    available_block_size: LayoutUnit,
    percentage_inline: LayoutUnit,
    percentage_block: LayoutUnit,
    is_new_fc: bool,
) -> (r: ConstraintSpace)
    ensures
        r == spec_space_with(
            available_inline_size,
            available_block_size,
            percentage_inline,
            percentage_block,
            is_new_fc,
        ),
{
    ConstraintSpace {
        available_inline_size,
        available_block_size,
        percentage_resolution_inline_size: percentage_inline,
        percentage_resolution_block_size: percentage_block,
        bfc_offset: BfcOffset::zero(),
        floats_bfc_block_offset: None,
        exclusion_space: None,
        is_new_formatting_context: is_new_fc,
        is_fixed_inline_size: false,
        is_fixed_block_size: false,
        stretch_inline_size: false,
        stretch_block_size: false,
        is_initial_block_size_indefinite: false,
        fragmentainer_block_size: LayoutUnit::zero(),
        block_offset_in_fragmentainer: LayoutUnit::zero(),
        is_resuming: false,
        needs_first_baseline: false,
        needs_last_baseline: false,
    }
}

impl ConstraintSpace {
    /// The space for the root viewport: the viewport size is both the
    /// available and the percentage resolution size, and the root
    /// establishes a new formatting context.
    pub fn for_root(width: LayoutUnit, height: LayoutUnit) -> (r: ConstraintSpace)
        ensures
            r == spec_space_with(width, height, width, height, true),
    {
        make_space(width, height, width, height, true)
    }

    /// The space for a child in normal block flow.
    pub fn for_block_child(
        available_inline_size: LayoutUnit,
        available_block_size: LayoutUnit,
        percentage_inline: LayoutUnit,
        percentage_block: LayoutUnit,
        is_new_fc: bool,
    ) -> (r: ConstraintSpace)
        ensures
            r == spec_space_with(
                available_inline_size,
                available_block_size,
                percentage_inline,
                percentage_block,
                is_new_fc,
            ),
    {
        make_space(
            available_inline_size,
            available_block_size,
            percentage_inline,
            percentage_block,
            is_new_fc,
        )
    }

    /// The space for a flex child; flex items establish a new formatting context.
    pub fn for_flex_child(
        available_inline_size: LayoutUnit,
        available_block_size: LayoutUnit,
        percentage_inline: LayoutUnit,
        percentage_block: LayoutUnit,
    ) -> (r: ConstraintSpace)
        ensures
            r == spec_space_with(
                available_inline_size,
                available_block_size,
                percentage_inline,
                percentage_block,
                true,
            ),
    {
        make_space(
            available_inline_size,
            available_block_size,
            percentage_inline,
            percentage_block,
            true,
        )
    }

    /// Whether there is a fragmentation context (a positive fragmentainer size).
    pub fn has_block_fragmentation(&self) -> (r: bool)
        ensures
            r == (self.fragmentainer_block_size.raw > 0),
    {
        self.fragmentainer_block_size.raw > 0
    }
}

impl Clone for ConstraintSpace {
    fn clone(&self) -> (r: ConstraintSpace)
        ensures
            r == *self,
    {
        let exclusion_space = match &self.exclusion_space {
            Some(space) => Some(share_exclusion_space(space)),
            None => None,
        };
        ConstraintSpace {
            available_inline_size: self.available_inline_size,
            available_block_size: self.available_block_size,
            percentage_resolution_inline_size: self.percentage_resolution_inline_size,
            percentage_resolution_block_size: self.percentage_resolution_block_size,
            bfc_offset: self.bfc_offset,
            floats_bfc_block_offset: self.floats_bfc_block_offset,
            exclusion_space,
            is_new_formatting_context: self.is_new_formatting_context,
            is_fixed_inline_size: self.is_fixed_inline_size,
            is_fixed_block_size: self.is_fixed_block_size,
            stretch_inline_size: self.stretch_inline_size,
            stretch_block_size: self.stretch_block_size,
            is_initial_block_size_indefinite: self.is_initial_block_size_indefinite,
            fragmentainer_block_size: self.fragmentainer_block_size,
            block_offset_in_fragmentainer: self.block_offset_in_fragmentainer,
            is_resuming: self.is_resuming,
            needs_first_baseline: self.needs_first_baseline,
            needs_last_baseline: self.needs_last_baseline,
        }
    }
}

/// Builds a `ConstraintSpace` field by field, starting from defaults or
/// from a parent space.
pub struct ConstraintSpaceBuilder {
    space: ConstraintSpace,
}

impl View for ConstraintSpaceBuilder {
    type V = ConstraintSpace;

    closed spec fn view(&self) -> ConstraintSpace {
        self.space
    }
}

impl ConstraintSpaceBuilder {
    /// A builder holding the root space of a zero-sized viewport.
    pub fn new() -> (r: ConstraintSpaceBuilder)
        ensures
            r@ == spec_space_with(
                LayoutUnit { raw: 0 },
                LayoutUnit { raw: 0 },
                LayoutUnit { raw: 0 },
                LayoutUnit { raw: 0 },
                true,
            ),
    {
        ConstraintSpaceBuilder { space: ConstraintSpace::for_root(LayoutUnit::zero(), LayoutUnit::zero()) }
    }

    /// A builder starting from a parent space: the formatting-context,
    /// offset, exclusion and fragmentation state is inherited, and the
    /// child starts non-fixed, non-stretched, with no baseline requests.
    pub fn from_parent(parent: &ConstraintSpace) -> (r: ConstraintSpaceBuilder)
        ensures
            r@ == spec_inherited(*parent),
    {
        let mut space = parent.clone();
        space.is_fixed_inline_size = false;
        space.is_fixed_block_size = false;
        space.stretch_inline_size = false;
        space.stretch_block_size = false;
        space.is_initial_block_size_indefinite = false;
        space.needs_first_baseline = false;
        space.needs_last_baseline = false;
        ConstraintSpaceBuilder { space }
    }

    pub fn set_available_size(self, inline_size: LayoutUnit, block_size: LayoutUnit) -> (r: ConstraintSpaceBuilder)
        ensures
            r@ == (ConstraintSpace {
                available_inline_size: inline_size,
                available_block_size: block_size,
                ..self@
            }),
    {
        let mut s = self;
        s.space.available_inline_size = inline_size;
        s.space.available_block_size = block_size;
        s
    }

    pub fn set_percentage_resolution_size(self, inline_size: LayoutUnit, block_size: LayoutUnit) -> (r: ConstraintSpaceBuilder)
        ensures
            r@ == (ConstraintSpace {
                percentage_resolution_inline_size: inline_size,
                percentage_resolution_block_size: block_size,
                ..self@
            }),
    {
        let mut s = self;
        s.space.percentage_resolution_inline_size = inline_size;
        s.space.percentage_resolution_block_size = block_size;
        s
    }

    pub fn set_bfc_offset(self, offset: BfcOffset) -> (r: ConstraintSpaceBuilder)
        ensures
            r@ == (ConstraintSpace { bfc_offset: offset, ..self@ }),
    {
        let mut s = self;
        s.space.bfc_offset = offset;
        s
    }

    pub fn set_floats_bfc_block_offset(self, offset: Option<LayoutUnit>) -> (r: ConstraintSpaceBuilder)
        ensures
            r@ == (ConstraintSpace { floats_bfc_block_offset: offset, ..self@ }),
    {
        let mut s = self;
        s.space.floats_bfc_block_offset = offset;
        s
    }

    pub fn set_exclusion_space(self, exclusion_space: Option<Arc<ExclusionSpace>>) -> (r: ConstraintSpaceBuilder)
        ensures
            r@ == (ConstraintSpace { exclusion_space: exclusion_space, ..self@ }),
    {
        let mut s = self;
        s.space.exclusion_space = exclusion_space;
        s
    }

    pub fn set_is_new_formatting_context(self, is_new_fc: bool) -> (r: ConstraintSpaceBuilder)
        ensures
            r@ == (ConstraintSpace { is_new_formatting_context: is_new_fc, ..self@ }),
    {
        let mut s = self;
        s.space.is_new_formatting_context = is_new_fc;
        s
    }

    pub fn set_is_fixed_inline_size(self, v: bool) -> (r: ConstraintSpaceBuilder)
        ensures
            r@ == (ConstraintSpace { is_fixed_inline_size: v, ..self@ }),
    {
        let mut s = self;
        s.space.is_fixed_inline_size = v;
        s
    }

    pub fn set_is_fixed_block_size(self, v: bool) -> (r: ConstraintSpaceBuilder)
        ensures
            r@ == (ConstraintSpace { is_fixed_block_size: v, ..self@ }),
    {
        let mut s = self;
        s.space.is_fixed_block_size = v;
        s
    }

    pub fn set_stretch_inline_size(self, v: bool) -> (r: ConstraintSpaceBuilder)
        ensures
            r@ == (ConstraintSpace { stretch_inline_size: v, ..self@ }),
    {
        let mut s = self;
        s.space.stretch_inline_size = v;
        s
    }

    pub fn set_stretch_block_size(self, v: bool) -> (r: ConstraintSpaceBuilder)
        ensures
            r@ == (ConstraintSpace { stretch_block_size: v, ..self@ }),
    {
        let mut s = self;
        s.space.stretch_block_size = v;
        s
    }

    pub fn set_is_initial_block_size_indefinite(self, v: bool) -> (r: ConstraintSpaceBuilder)
        ensures
            r@ == (ConstraintSpace { is_initial_block_size_indefinite: v, ..self@ }),
    {
        let mut s = self;
        s.space.is_initial_block_size_indefinite = v;
        s
    }

    pub fn set_fragmentainer_block_size(self, size: LayoutUnit) -> (r: ConstraintSpaceBuilder)
        ensures
            r@ == (ConstraintSpace { fragmentainer_block_size: size, ..self@ }),
    {
        let mut s = self;
        s.space.fragmentainer_block_size = size;
        s
    }

    pub fn set_block_offset_in_fragmentainer(self, offset: LayoutUnit) -> (r: ConstraintSpaceBuilder)
        ensures
            r@ == (ConstraintSpace { block_offset_in_fragmentainer: offset, ..self@ }),
    {
        let mut s = self;
        s.space.block_offset_in_fragmentainer = offset;
        s
    }

    pub fn set_is_resuming(self, v: bool) -> (r: ConstraintSpaceBuilder)
        ensures
            r@ == (ConstraintSpace { is_resuming: v, ..self@ }),
    {
        let mut s = self;
        s.space.is_resuming = v;
        s
    }

    pub fn set_needs_first_baseline(self, v: bool) -> (r: ConstraintSpaceBuilder)
        ensures
            r@ == (ConstraintSpace { needs_first_baseline: v, ..self@ }),
    {
        let mut s = self;
        s.space.needs_first_baseline = v;
        s
    }

    pub fn set_needs_last_baseline(self, v: bool) -> (r: ConstraintSpaceBuilder)
        ensures
            r@ == (ConstraintSpace { needs_last_baseline: v, ..self@ }),
    {
        let mut s = self;
        s.space.needs_last_baseline = v;
        s
    }

    /// The space built so far.
    pub fn build(self) -> (r: ConstraintSpace)
        ensures
            r == self@,
    {
        self.space
    }
}

impl Default for ConstraintSpaceBuilder {
    fn default() -> (r: ConstraintSpaceBuilder)
        ensures
            r@ == spec_space_with(
                LayoutUnit { raw: 0 },
                LayoutUnit { raw: 0 },
                LayoutUnit { raw: 0 },
                LayoutUnit { raw: 0 },
                true,
            ),
    {
        ConstraintSpaceBuilder::new()
    }
}

} // verus!
