//! Float positioning: a float whose size is known but whose position is not
//! ([`UnpositionedFloat`]) is placed in the first layout opportunity of the
//! exclusion space that is wide enough for its margin box, giving a
//! [`PositionedFloat`] and the [`ExclusionArea`] its margin box occupies.
use vstd::prelude::*;
use crate::geometry::{BfcOffset, BfcRect, BoxStrut, LayoutUnit, NodeId, PhysicalSize};
use crate::exclusions::exclusion_space::{
    ExclusionArea,
    ExclusionSpace,
    ExclusionType,
    ExclusionsView,
    LayoutOpportunity,
    is_active_at,
    lemma_opportunity_at_or_below,
    lemma_opportunity_below_all_floats,
    lemma_opportunity_fits_between_floats,
};

verus! {

/// A float whose size has been computed but whose position has not.
#[derive(Clone, Copy, Debug, PartialEq, Eq, Structural)]
pub struct UnpositionedFloat {
    /// The DOM node that generated this float.
    pub node_id: NodeId,
    /// Available inline size in the formatting context at the float's origin.
    pub available_size: LayoutUnit,
    /// Where the float originates in the formatting context.
    pub origin_bfc_offset: BfcOffset,
    /// Resolved margins of the float.
    pub margins: BoxStrut,
    /// Border-box inline size of the float.
    pub inline_size: LayoutUnit,
    /// Border-box block size of the float.
    pub block_size: LayoutUnit,
    /// `true` for `float: left`, `false` for `float: right`.
    pub is_left: bool,
}

/// The box fragment generated for a placed float: its node, border-box
/// size and margins.
#[derive(Clone, Copy, Debug, PartialEq, Eq, Structural)]
pub struct Fragment {
    pub node_id: NodeId,
    pub size: PhysicalSize,
    pub margin: BoxStrut,
}

impl Fragment {
    /// A box fragment of the given size with zero margins.
    pub fn new_box(node_id: NodeId, size: PhysicalSize) -> (r: Fragment)
        ensures
            r.node_id == node_id,
            r.size == size,
            r.margin.top.raw == 0 && r.margin.right.raw == 0 && r.margin.bottom.raw == 0
                && r.margin.left.raw == 0,
    {
        Fragment { node_id, size, margin: BoxStrut::zero() }
    }
}

/// A float placed at a concrete offset.
#[derive(Clone, Copy, Debug, PartialEq, Eq, Structural)]
pub struct PositionedFloat {
    /// The DOM node that generated this float.
    pub node_id: NodeId,
    /// Position of the float's border box.
    pub bfc_offset: BfcOffset,
    /// The fragment for this float.
    pub fragment: Fragment,
    /// Whether this is a left or right exclusion.
    pub exclusion_type: ExclusionType,
}

/// Margin-left plus border-box inline size plus margin-right (saturating).
pub open spec fn spec_margin_box_inline_size(f: UnpositionedFloat) -> LayoutUnit {
    f.margins.left.spec_plus(f.inline_size).spec_plus(f.margins.right)
}

/// Margin-top plus border-box block size plus margin-bottom (saturating).
pub open spec fn spec_margin_box_block_size(f: UnpositionedFloat) -> LayoutUnit {
    f.margins.top.spec_plus(f.block_size).spec_plus(f.margins.bottom)
}

pub open spec fn spec_exclusion_type(f: UnpositionedFloat) -> ExclusionType {
    if f.is_left {
        ExclusionType::Left
    } else {
        ExclusionType::Right
    }
}

/// The opportunity in which the float is placed: the first one at or below
/// its origin wide enough for its margin box.
pub open spec fn float_opportunity(f: UnpositionedFloat, space: ExclusionsView) -> LayoutOpportunity {
    space.opportunity(f.origin_bfc_offset, f.available_size, spec_margin_box_inline_size(f))
}

/// The border-box position of the float within the opportunity: a left
/// float sits at the opportunity's line-start plus its left margin, a right
/// float flush against the line-end (minus its right margin and size); both
/// start at the opportunity's block-start plus the top margin.
pub open spec fn spec_float_position(f: UnpositionedFloat, opp: LayoutOpportunity) -> BfcOffset {
    BfcOffset {
        line_offset: if f.is_left {
            opp.rect.start_offset.line_offset.spec_plus(f.margins.left)
        } else {
            opp.rect.end_offset.line_offset.spec_minus(f.margins.right).spec_minus(f.inline_size)
        },
        block_offset: opp.rect.start_offset.block_offset.spec_plus(f.margins.top),
    }
}

/// The margin box of the float within the opportunity.
pub open spec fn spec_exclusion_rect(f: UnpositionedFloat, opp: LayoutOpportunity) -> BfcRect {
    let block_start = opp.rect.start_offset.block_offset;
    let w = spec_margin_box_inline_size(f);
    let line_start = if f.is_left {
        opp.rect.start_offset.line_offset
    } else {
        opp.rect.end_offset.line_offset.spec_minus(w)
    };
    let line_end = if f.is_left {
        opp.rect.start_offset.line_offset.spec_plus(w)
    } else {
        opp.rect.end_offset.line_offset
    };
    BfcRect {
        start_offset: BfcOffset { line_offset: line_start, block_offset: block_start },
        end_offset: BfcOffset {
            line_offset: line_end,
            block_offset: block_start.spec_plus(spec_margin_box_block_size(f)),
        },
    }
}

/// The positioned float and its exclusion for a float placed in `space`.
pub open spec fn spec_position_float(f: UnpositionedFloat, space: ExclusionsView) -> (PositionedFloat, ExclusionArea) {
    let opp = float_opportunity(f, space);
    (
        PositionedFloat {
            node_id: f.node_id,
            bfc_offset: spec_float_position(f, opp),
            fragment: Fragment {
                node_id: f.node_id,
                size: PhysicalSize { width: f.inline_size, height: f.block_size },
                margin: f.margins,
            },
            exclusion_type: spec_exclusion_type(f),
        },
        ExclusionArea { rect: spec_exclusion_rect(f, opp), exclusion_type: spec_exclusion_type(f) },
    )
}


// ── Laws ──────────────────────────────────────────────────────────────
/// A float is placed at or below its origin: its margin box starts there or
/// lower, and its border box is offset from the margin box by its top margin.
pub proof fn lemma_float_at_or_below_origin(f: UnpositionedFloat, space: ExclusionsView)
    ensures
        spec_position_float(f, space).1.rect.start_offset.block_offset.raw
            >= f.origin_bfc_offset.block_offset.raw,
        spec_position_float(f, space).0.bfc_offset.block_offset
            == spec_position_float(f, space).1.rect.start_offset.block_offset.spec_plus(f.margins.top),
{
    lemma_opportunity_at_or_below(space, f.origin_bfc_offset, f.available_size, spec_margin_box_inline_size(f));
}

/// A float's margin box does not overlap, at its block start, any float
/// placed before it: every left float active there ends at or before the
/// new margin box's line-start, and every right float active there starts at
/// or after its line-end (for a margin box of non-negative inline size).
pub proof fn lemma_float_avoids_placed_floats(f: UnpositionedFloat, space: ExclusionsView)
    requires
        spec_margin_box_inline_size(f).raw >= 0,
    ensures
        ({
            let ex = spec_position_float(f, space).1.rect;
            &&& forall|i: int|
                0 <= i < space.left.len() && is_active_at(#[trigger] space.left[i], ex.start_offset.block_offset)
                    ==> space.left[i].rect.end_offset.line_offset.raw <= ex.start_offset.line_offset.raw
            &&& forall|i: int|
                0 <= i < space.right.len() && is_active_at(#[trigger] space.right[i], ex.start_offset.block_offset)
                    ==> space.right[i].rect.start_offset.line_offset.raw >= ex.end_offset.line_offset.raw
        }),
{
    let offset = f.origin_bfc_offset;
    let w = spec_margin_box_inline_size(f);
    if space.has_fit(offset, f.available_size, w) {
        lemma_opportunity_fits_between_floats(space, offset, f.available_size, w);
    } else {
        lemma_opportunity_below_all_floats(space, offset, f.available_size, w);
    }
}

/// A positioned float's border box sits inside its exclusion (its margin
/// box): a left float's border box starts its left margin after the
/// exclusion's line-start, a right float's border box ends its right margin
/// before the exclusion's line-end, and the border box starts its top margin
/// below the exclusion's block-start. Where nothing saturates, both hold
/// for either side: the border box starts `margin-left` after the
/// exclusion's line-start and ends `margin-right` before its line-end.
pub proof fn lemma_border_box_within_exclusion(f: UnpositionedFloat, space: ExclusionsView)
    ensures
        ({
            let (pos, ex) = spec_position_float(f, space);
            &&& f.is_left ==> pos.bfc_offset.line_offset == ex.rect.start_offset.line_offset.spec_plus(
                f.margins.left,
            )
            &&& !f.is_left ==> pos.bfc_offset.line_offset == ex.rect.end_offset.line_offset.spec_minus(
                f.margins.right,
            ).spec_minus(f.inline_size)
            &&& pos.bfc_offset.block_offset == ex.rect.start_offset.block_offset.spec_plus(f.margins.top)
            &&& pos.exclusion_type == ex.exclusion_type
            &&& (-0x1000000 <= f.margins.left.raw <= 0x1000000 && -0x1000000 <= f.margins.right.raw <= 0x1000000
                && -0x1000000 <= f.inline_size.raw <= 0x1000000 && -0x1000000
                <= ex.rect.start_offset.line_offset.raw <= 0x1000000 && -0x1000000
                <= ex.rect.end_offset.line_offset.raw <= 0x1000000 && -0x1000000
                <= pos.bfc_offset.line_offset.raw <= 0x1000000 ==> {
                &&& pos.bfc_offset.line_offset.raw == ex.rect.start_offset.line_offset.raw + f.margins.left.raw
                &&& pos.bfc_offset.line_offset.raw + f.inline_size.raw + f.margins.right.raw
                    == ex.rect.end_offset.line_offset.raw
            })
        }),
{
}

/// The margin-box inline size of an unpositioned float:
/// `margin-left + border-box inline size + margin-right`.
pub fn compute_margin_box_inline_size(float: &UnpositionedFloat) -> (r: LayoutUnit)
    ensures
        r == spec_margin_box_inline_size(*float),
{
    float.margins.left.plus(float.inline_size).plus(float.margins.right)
}

/// Position a float within a block formatting context.
///
/// Returns the positioned float and the exclusion area covering its margin
/// box; the caller adds the exclusion to the exclusion space.
pub fn position_float(float: &UnpositionedFloat, exclusion_space: &ExclusionSpace) -> (r: (
    PositionedFloat,
    ExclusionArea,
))
    ensures
        r == spec_position_float(*float, exclusion_space@),
{
    let margin_inline_size = compute_margin_box_inline_size(float);
    let exclusion_type = if float.is_left {
        ExclusionType::Left
    } else {
        ExclusionType::Right
    };
    let opportunity = exclusion_space.find_layout_opportunity(
        &float.origin_bfc_offset,
        float.available_size,
        margin_inline_size,
    );
    let (line_offset, block_offset) = resolve_float_position(float, &opportunity);
    let bfc_offset = BfcOffset::new(line_offset, block_offset);
    let exclusion_rect = compute_exclusion_rect(float, &opportunity);
    let exclusion = ExclusionArea { rect: exclusion_rect, exclusion_type };
    let mut fragment = Fragment::new_box(
        float.node_id,
        PhysicalSize::new(float.inline_size, float.block_size),
    );
    fragment.margin = float.margins;
    let positioned = PositionedFloat { node_id: float.node_id, bfc_offset, fragment, exclusion_type };
    (positioned, exclusion)
}

/// The border-box line and block offsets of the float within the opportunity.
fn resolve_float_position(float: &UnpositionedFloat, opportunity: &LayoutOpportunity) -> (r: (
    LayoutUnit,
    LayoutUnit,
))
    ensures
        r.0 == spec_float_position(*float, *opportunity).line_offset,
        r.1 == spec_float_position(*float, *opportunity).block_offset,
{
    let opp_line_start = opportunity.rect.line_start_offset();
    let opp_line_end = opportunity.rect.line_end_offset();
    let opp_block_start = opportunity.rect.block_start_offset();
    let line_offset = if float.is_left {
        opp_line_start.plus(float.margins.left)
    } else {
        opp_line_end.minus(float.margins.right).minus(float.inline_size)
    };
    let block_offset = opp_block_start.plus(float.margins.top);
    (line_offset, block_offset)
}

/// The rectangle of the float's margin box within the opportunity.
fn compute_exclusion_rect(float: &UnpositionedFloat, opportunity: &LayoutOpportunity) -> (r: BfcRect)
    ensures
        r == spec_exclusion_rect(*float, *opportunity),
{
    let margin_inline_size = compute_margin_box_inline_size(float);
    let margin_block_size = float.margins.top.plus(float.block_size).plus(float.margins.bottom);
    let opp_block_start = opportunity.rect.block_start_offset();
    let (line_start, line_end) = if float.is_left {
        let start = opportunity.rect.line_start_offset();
        (start, start.plus(margin_inline_size))
    } else {
        let end = opportunity.rect.line_end_offset();
        (end.minus(margin_inline_size), end)
    };
    BfcRect::new(
        BfcOffset::new(line_start, opp_block_start),
        BfcOffset::new(line_end, opp_block_start.plus(margin_block_size)),
    )
}

} // verus!
