//! Decisions of normal-flow block layout: margin collapsing, auto inline
//! margins, clearance, float placement inputs, the exclusion space a child
//! inherits, placement of new formatting contexts beside floats, and the
//! snapping of fragment consumption to wrapped multicol rows.
use vstd::prelude::*;
use crate::geometry::{BfcOffset, BfcRect, BoxStrut, LayoutUnit, MarginStrut, clamp_raw};
use crate::constraint_space::ConstraintSpace;
use crate::css_sizing::LengthType;
use crate::exclusions::exclusion_space::{
    ExclusionArea, ExclusionSpace, ExclusionType, LayoutOpportunity, insert_by_start, start_of,
};

verus! {

// ── Margin collapsing ─────────────────────────────────────────────────
pub open spec fn spec_collapse_adjacent_block_margins(a: LayoutUnit, b: LayoutUnit) -> LayoutUnit {
    if a.raw >= 0 && b.raw >= 0 {
        a.spec_max_of(b)
    } else if a.raw <= 0 && b.raw <= 0 {
        a.spec_min_of(b)
    } else {
        a.spec_plus(b)
    }
}

/// Collapse two adjoining margins: the larger of two non-negative margins,
/// the more negative of two non-positive ones, and otherwise their sum.
pub fn collapse_adjacent_block_margins(a: LayoutUnit, b: LayoutUnit) -> (r: LayoutUnit)
    ensures
        r == spec_collapse_adjacent_block_margins(a, b),
{
    if a.raw >= 0 && b.raw >= 0 {
        a.max_of(b)
    } else if a.raw <= 0 && b.raw <= 0 {
        a.min_of(b)
    } else {
        a.plus(b)
    }
}

/// A strut with another strut's margins merged in: its positive margin,
/// and its negative margin when below zero; an empty strut merges nothing.
pub open spec fn spec_absorb_strut(strut: MarginStrut, other: MarginStrut) -> MarginStrut {
    if other.positive_margin.raw == 0 && other.negative_margin.raw == 0 {
        strut
    } else {
        let s1 = strut.spec_append_normal(other.positive_margin);
        if other.negative_margin.raw < 0 {
            s1.spec_append_normal(other.negative_margin)
        } else {
            s1
        }
    }
}

/// Merge the margins of `other` into `strut`.
fn absorb_strut(strut: &mut MarginStrut, other: &MarginStrut)
    ensures
        *final(strut) == spec_absorb_strut(*old(strut), *other),
{
    if !other.is_empty() {
        strut.append_normal(other.positive_margin);
        if other.negative_margin.raw < 0 {
            strut.append_normal(other.negative_margin);
        }
    }
}

pub open spec fn spec_collapsed_spanner_content_margin_height(start: MarginStrut, end: MarginStrut) -> LayoutUnit {
    let empty = MarginStrut { positive_margin: LayoutUnit { raw: 0 }, negative_margin: LayoutUnit { raw: 0 } };
    spec_absorb_strut(spec_absorb_strut(empty, start), end).spec_sum().spec_clamp_negative_to_zero()
}

/// The height a content box whose margins all collapse through occupies:
/// its start and end margin struts collapsed together, never negative.
pub fn collapsed_spanner_content_margin_height(start_margin_strut: &MarginStrut, end_margin_strut: &MarginStrut) -> (r: LayoutUnit)
    ensures
        r == spec_collapsed_spanner_content_margin_height(*start_margin_strut, *end_margin_strut),
{
    let mut strut = MarginStrut::new();
    absorb_strut(&mut strut, start_margin_strut);
    absorb_strut(&mut strut, end_margin_strut);
    strut.sum().clamp_negative_to_zero()
}

/// Collapsing two margins gives what a margin strut collecting them sums to.
pub proof fn lemma_collapse_matches_strut(a: LayoutUnit, b: LayoutUnit)
    ensures
        spec_collapse_adjacent_block_margins(a, b) == (MarginStrut {
            positive_margin: LayoutUnit { raw: 0 },
            negative_margin: LayoutUnit { raw: 0 },
        }).spec_append_normal(a).spec_append_normal(b).spec_sum(),
{
}

/// Margin collapsing is commutative, and zero is its neutral margin.
pub proof fn lemma_collapse_commutative_with_zero_neutral(a: LayoutUnit, b: LayoutUnit)
    ensures
        spec_collapse_adjacent_block_margins(a, b) == spec_collapse_adjacent_block_margins(b, a),
        spec_collapse_adjacent_block_margins(a, LayoutUnit { raw: 0 }) == a,
{
}

// ── Clearance ─────────────────────────────────────────────────────────
pub open spec fn spec_clearance_border_offset(
    block_offset: LayoutUnit,
    margin_strut: MarginStrut,
    child_top_margin: LayoutUnit,
    clearance_offset: LayoutUnit,
    content_edge: LayoutUnit,
) -> Option<LayoutUnit> {
    let hypothetical = block_offset.spec_plus(margin_strut.spec_append_normal(child_top_margin).spec_sum());
    let target = clearance_offset.spec_plus(content_edge);
    if target.raw > hypothetical.raw {
        Some(target)
    } else {
        None
    }
}

/// Clearance for a child with `clear`: where its border edge must move, if
/// the position it would take with its top margin collapsed into the
/// current strut lies above the clearance offset (given in content
/// coordinates, hence shifted by the content edge); `None` if no clearance
/// is needed.
pub fn clearance_border_offset(
    block_offset: LayoutUnit,
    margin_strut: &MarginStrut,
    child_top_margin: LayoutUnit,
    clearance_offset: LayoutUnit,
    content_edge: LayoutUnit,
) -> (r: Option<LayoutUnit>)
    ensures
        r == spec_clearance_border_offset(
            block_offset,
            *margin_strut,
            child_top_margin,
            clearance_offset,
            content_edge,
        ),
        r matches Some(t) ==> t.raw > block_offset.spec_plus(
            margin_strut.spec_append_normal(child_top_margin).spec_sum(),
        ).raw,
{
    let mut hyp_strut = *margin_strut;
    hyp_strut.append_normal(child_top_margin);
    let hypothetical = block_offset.plus(hyp_strut.sum());
    let clearance_target = clearance_offset.plus(content_edge);
    if clearance_target.raw > hypothetical.raw {
        Some(clearance_target)
    } else {
        None
    }
}

// ── Inline margins ────────────────────────────────────────────────────
pub open spec fn spec_non_auto_margin_inline(margin: BoxStrut, left_is_auto: bool, right_is_auto: bool) -> LayoutUnit {
    let ml = if left_is_auto {
        LayoutUnit { raw: 0 }
    } else {
        margin.left
    };
    let mr = if right_is_auto {
        LayoutUnit { raw: 0 }
    } else {
        margin.right
    };
    ml.spec_plus(mr)
}

/// The inline space left for a child's border box once its non-auto
/// inline margins are taken out, never negative (auto margins count as zero).
pub fn available_inline_without_margins(
    margin: &BoxStrut,
    margin_left_is_auto: bool,
    margin_right_is_auto: bool,
    available_inline: LayoutUnit,
) -> (r: LayoutUnit)
    ensures
        r == available_inline.spec_minus(
            spec_non_auto_margin_inline(*margin, margin_left_is_auto, margin_right_is_auto),
        ).spec_clamp_negative_to_zero(),
{
    let ml = if margin_left_is_auto {
        LayoutUnit::zero()
    } else {
        margin.left
    };
    let mr = if margin_right_is_auto {
        LayoutUnit::zero()
    } else {
        margin.right
    };
    available_inline.minus(ml.plus(mr)).clamp_negative_to_zero()
}

pub open spec fn spec_resolve_inline_margins(
    margin_left_is_auto: bool,
    margin_right_is_auto: bool,
    margin: BoxStrut,
    available_inline: LayoutUnit,
    border_box_inline: LayoutUnit,
    containing_block_is_rtl: bool,
) -> (LayoutUnit, LayoutUnit) {
    let remaining = available_inline.spec_minus(border_box_inline);
    if margin_left_is_auto && margin_right_is_auto {
        if remaining.raw > 0 {
            let half = LayoutUnit { raw: (remaining.raw / 2) as i32 };
            (half, remaining.spec_minus(half))
        } else if containing_block_is_rtl {
            (remaining, LayoutUnit { raw: 0 })
        } else {
            (LayoutUnit { raw: 0 }, remaining)
        }
    } else if margin_left_is_auto {
        (remaining.spec_minus(margin.right), margin.right)
    } else if margin_right_is_auto {
        (margin.left, remaining.spec_minus(margin.left))
    } else if containing_block_is_rtl {
        (remaining.spec_minus(margin.right), margin.right)
    } else {
        (margin.left, remaining.spec_minus(margin.left))
    }
}

/// The used left and right margins of a block in normal flow.
/// Two auto margins share the free space equally (the extra raw
/// unit goes right); with no free space they become zero and the end margin
/// of the containing block's direction takes the overflow. One auto margin
/// takes what the other leaves. With no auto margin the end margin (right
/// in LTR, left in RTL) is recomputed.
pub fn resolve_inline_margins(
    margin_left_is_auto: bool,
    margin_right_is_auto: bool,
    margin: &BoxStrut,
    available_inline: LayoutUnit,
    border_box_inline: LayoutUnit,
    containing_block_is_rtl: bool,
) -> (r: (LayoutUnit, LayoutUnit))
    ensures
        r == spec_resolve_inline_margins(
            margin_left_is_auto,
            margin_right_is_auto,
            *margin,
            available_inline,
            border_box_inline,
            containing_block_is_rtl,
        ),
{
    let remaining_space = available_inline.minus(border_box_inline);
    if margin_left_is_auto && margin_right_is_auto {
        if remaining_space.raw > 0 {
            let half = remaining_space.halve();
            (half, remaining_space.minus(half))
        } else if containing_block_is_rtl {
            (remaining_space, LayoutUnit::zero())
        } else {
            (LayoutUnit::zero(), remaining_space)
        }
    } else if margin_left_is_auto {
        let right = margin.right;
        (remaining_space.minus(right), right)
    } else if margin_right_is_auto {
        let left = margin.left;
        (left, remaining_space.minus(left))
    } else if containing_block_is_rtl {
        let right = margin.right;
        (remaining_space.minus(right), right)
    } else {
        let left = margin.left;
        (left, remaining_space.minus(left))
    }
}

/// The resolved margins and the border box fill the containing block
/// exactly, as long as no value lies near the ends of the
/// layout-unit range.
pub proof fn lemma_inline_margins_fill_containing_block(
    margin_left_is_auto: bool,
    margin_right_is_auto: bool,
    margin: BoxStrut,
    available_inline: LayoutUnit,
    border_box_inline: LayoutUnit,
    containing_block_is_rtl: bool,
)
    requires
        -0x10000000 <= available_inline.raw <= 0x10000000,
        -0x10000000 <= border_box_inline.raw <= 0x10000000,
        -0x10000000 <= margin.left.raw <= 0x10000000,
        -0x10000000 <= margin.right.raw <= 0x10000000,
    ensures
        ({
            let (l, r) = spec_resolve_inline_margins(
                margin_left_is_auto,
                margin_right_is_auto,
                margin,
                available_inline,
                border_box_inline,
                containing_block_is_rtl,
            );
            l.raw + border_box_inline.raw + r.raw == available_inline.raw
        }),
        margin_left_is_auto && margin_right_is_auto && available_inline.raw > border_box_inline.raw
            ==> ({
            let (l, r) = spec_resolve_inline_margins(
                margin_left_is_auto,
                margin_right_is_auto,
                margin,
                available_inline,
                border_box_inline,
                containing_block_is_rtl,
            );
            0 <= r.raw - l.raw <= 1
        }),
{
}

// ── Floats ────────────────────────────────────────────────────────────
pub open spec fn spec_uses_margin_reduced_inherited_exclusions(space: ConstraintSpace) -> bool {
    !space.is_new_formatting_context && space.exclusion_space is Some
        && space.available_inline_size != space.percentage_resolution_inline_size
}

/// Whether the space inherits exclusions from its formatting context while
/// its available inline size was reduced by the child's margins, so that
/// float queries must use the formatting context's own line range.
pub fn uses_margin_reduced_inherited_exclusions(space: &ConstraintSpace) -> (r: bool)
    ensures
        r == spec_uses_margin_reduced_inherited_exclusions(*space),
{
    !space.is_new_formatting_context && space.exclusion_space.is_some()
        && space.available_inline_size != space.percentage_resolution_inline_size
}

pub open spec fn spec_float_origin_and_available(space: ConstraintSpace, is_left: bool, child_available_inline: LayoutUnit) -> (LayoutUnit, LayoutUnit) {
    if spec_uses_margin_reduced_inherited_exclusions(space) {
        let inherited = space.bfc_offset.line_offset;
        if is_left {
            (
                LayoutUnit { raw: 0 },
                space.percentage_resolution_inline_size.spec_minus(inherited).spec_clamp_negative_to_zero(),
            )
        } else {
            (inherited.spec_negate(), inherited.spec_plus(child_available_inline))
        }
    } else {
        (LayoutUnit { raw: 0 }, child_available_inline)
    }
}

/// The line offset at which a float's search for space starts, and the
/// inline space it may use. Normally the container's own content box; with
/// margin-reduced inherited exclusions, a left float may use the formatting
/// context's line range from the container's line offset, and a right float
/// the range from the formatting context's line start to the container's end.
pub fn float_origin_and_available(space: &ConstraintSpace, is_left: bool, child_available_inline: LayoutUnit) -> (r: (LayoutUnit, LayoutUnit))
    ensures
        r == spec_float_origin_and_available(*space, is_left, child_available_inline),
{
    if uses_margin_reduced_inherited_exclusions(space) {
        let inherited_bfc_line_offset = space.bfc_offset.line_offset;
        let ancestor_bfc_inline_size = space.percentage_resolution_inline_size;
        if is_left {
            (
                LayoutUnit::zero(),
                ancestor_bfc_inline_size.minus(inherited_bfc_line_offset).clamp_negative_to_zero(),
            )
        } else {
            (inherited_bfc_line_offset.negate(), inherited_bfc_line_offset.plus(child_available_inline))
        }
    } else {
        (LayoutUnit::zero(), child_available_inline)
    }
}

// ── Exclusions inherited by a child ───────────────────────────────────
/// The exclusion space a block starts with: empty if it establishes a new
/// formatting context, else a copy of the one it inherits (empty if none).
pub fn initial_exclusion_space(space: &ConstraintSpace) -> (r: ExclusionSpace)
    ensures
        space.is_new_formatting_context || space.exclusion_space is None ==> r@.left
            == Seq::<ExclusionArea>::empty() && r@.right == Seq::<ExclusionArea>::empty(),
        !space.is_new_formatting_context && space.exclusion_space is Some ==> r@
            == space.exclusion_space->0@,
{
    if space.is_new_formatting_context {
        ExclusionSpace::new()
    } else {
        match &space.exclusion_space {
            Some(exclusions) => {
                let inner: &ExclusionSpace = exclusions;
                inner.clone()
            },
            None => ExclusionSpace::new(),
        }
    }
}

/// An exclusion moved into coordinates whose origin is `origin`.
pub open spec fn spec_translate_area(a: ExclusionArea, origin: BfcOffset) -> ExclusionArea {
    ExclusionArea {
        rect: BfcRect {
            start_offset: BfcOffset {
                line_offset: a.rect.start_offset.line_offset.spec_minus(origin.line_offset),
                block_offset: a.rect.start_offset.block_offset.spec_minus(origin.block_offset),
            },
            end_offset: BfcOffset {
                line_offset: a.rect.end_offset.line_offset.spec_minus(origin.line_offset),
                block_offset: a.rect.end_offset.block_offset.spec_minus(origin.block_offset),
            },
        },
        exclusion_type: a.exclusion_type,
    }
}

pub open spec fn spec_translate_all(s: Seq<ExclusionArea>, origin: BfcOffset) -> Seq<ExclusionArea> {
    s.map_values(|a: ExclusionArea| spec_translate_area(a, origin))
}

fn translate_area(a: &ExclusionArea, origin: &BfcOffset) -> (r: ExclusionArea)
    ensures
        r == spec_translate_area(*a, *origin),
{
    ExclusionArea {
        rect: BfcRect::new(
            BfcOffset::new(
                a.rect.start_offset.line_offset.minus(origin.line_offset),
                a.rect.start_offset.block_offset.minus(origin.block_offset),
            ),
            BfcOffset::new(
                a.rect.end_offset.line_offset.minus(origin.line_offset),
                a.rect.end_offset.block_offset.minus(origin.block_offset),
            ),
        ),
        exclusion_type: a.exclusion_type,
    }
}

/// The parent's exclusions as seen from a child whose content box starts at
/// `child_content_origin`: every exclusion shifted by minus the origin.
pub fn translate_exclusion_space(parent: &ExclusionSpace, child_content_origin: BfcOffset) -> (r: ExclusionSpace)
    ensures
        r@.left == spec_translate_all(parent@.left, child_content_origin),
        r@.right == spec_translate_all(parent@.right, child_content_origin),
{
    parent.check_well_formed();
    let all = parent.all_exclusions();
    let ghost nl = parent@.left.len();
    let mut translated = ExclusionSpace::new();
    let mut i: usize = 0;
    while i < all.len()
        invariant
            parent@.well_formed(),
            all@ == parent@.left + parent@.right,
            nl == parent@.left.len(),
            i <= all@.len(),
            i <= nl ==> translated@.left == spec_translate_all(parent@.left.take(i as int), child_content_origin)
                && translated@.right == Seq::<ExclusionArea>::empty(),
            i > nl ==> translated@.left == spec_translate_all(parent@.left, child_content_origin)
                && translated@.right == spec_translate_all(parent@.right.take(i - nl), child_content_origin),
        decreases all@.len() - i,
    {
        let t = translate_area(&all[i], &child_content_origin);
        translated.add(t);
        proof {
            if i < nl {
                assert(all@[i as int] == parent@.left[i as int]);
                let prev = spec_translate_all(parent@.left.take(i as int), child_content_origin);
                if i > 0 {
                    assert(prev.last() == spec_translate_area(parent@.left[i - 1], child_content_origin));
                    assert(start_of(parent@.left[i - 1]) <= start_of(parent@.left[i as int]));
                    assert(start_of(prev.last()) <= start_of(t));
                }
                assert(insert_by_start(prev, t) == prev.push(t));
                assert(parent@.left.take(i + 1) =~= parent@.left.take(i as int).push(parent@.left[i as int]));
                assert(t.exclusion_type == ExclusionType::Left);
            } else {
                assert(all@[i as int] == parent@.right[i - nl]);
                let prev = spec_translate_all(parent@.right.take(i - nl), child_content_origin);
                if i > nl {
                    assert(prev.last() == spec_translate_area(parent@.right[i - nl - 1], child_content_origin));
                    assert(start_of(parent@.right[i - nl - 1]) <= start_of(parent@.right[i - nl]));
                    assert(start_of(prev.last()) <= start_of(t));
                }
                assert(insert_by_start(prev, t) == prev.push(t));
                assert(parent@.right.take(i + 1 - nl) =~= parent@.right.take(i - nl).push(parent@.right[i - nl]));
                assert(t.exclusion_type == ExclusionType::Right);
                if i == nl {
                    assert(parent@.left.take(i as int) =~= parent@.left);
                }
            }
        }
        i = i + 1;
    }
    proof {
        if all@.len() == nl {
            assert(parent@.left.take(nl as int) =~= parent@.left);
            assert(parent@.right =~= Seq::<ExclusionArea>::empty());
        } else {
            assert(parent@.right.take(i - nl) =~= parent@.right);
        }
    }
    translated
}

/// Translating by a zero origin keeps every exclusion where it is.
pub proof fn lemma_translate_by_zero(s: Seq<ExclusionArea>)
    ensures
        spec_translate_all(
            s,
            BfcOffset { line_offset: LayoutUnit { raw: 0 }, block_offset: LayoutUnit { raw: 0 } },
        ) == s,
{
    assert(spec_translate_all(
        s,
        BfcOffset { line_offset: LayoutUnit { raw: 0 }, block_offset: LayoutUnit { raw: 0 } },
    ) =~= s);
}

pub open spec fn spec_estimate_child_content_origin(
    child_border: BoxStrut,
    child_padding: BoxStrut,
    child_margin: BoxStrut,
    parent_content_edge: LayoutUnit,
    block_offset: LayoutUnit,
    margin_strut: MarginStrut,
    start_margin_resolved: bool,
    parent_is_new_formatting_context: bool,
) -> BfcOffset {
    let projected = margin_strut.spec_append_normal(child_margin.top);
    let border_block_offset = if start_margin_resolved || parent_is_new_formatting_context
        || parent_content_edge.raw > 0 {
        block_offset.spec_plus(projected.spec_sum())
    } else {
        block_offset
    };
    BfcOffset {
        line_offset: child_margin.left.spec_plus(child_border.left).spec_plus(child_padding.left),
        block_offset: border_block_offset.spec_minus(parent_content_edge).spec_plus(
            child_border.top,
        ).spec_plus(child_padding.top),
    }
}

/// Where a child's content box is expected to start, relative to the
/// parent's content box, before the child is laid out: its border edge
/// follows the collapsed margins when the parent's start margin cannot
/// collapse through (it is resolved, or a new formatting context, or the
/// parent has block-start border or padding); otherwise it stays at the
/// current offset.
pub fn estimate_child_content_origin(
    child_border: &BoxStrut,
    child_padding: &BoxStrut,
    child_margin: BoxStrut,
    parent_content_edge: LayoutUnit,
    block_offset: LayoutUnit,
    margin_strut: MarginStrut,
    start_margin_resolved: bool,
    parent_space: &ConstraintSpace,
) -> (r: BfcOffset)
    ensures
        r == spec_estimate_child_content_origin(
            *child_border,
            *child_padding,
            child_margin,
            parent_content_edge,
            block_offset,
            margin_strut,
            start_margin_resolved,
            parent_space.is_new_formatting_context,
        ),
{
    let mut projected_strut = margin_strut;
    projected_strut.append_normal(child_margin.top);
    let border_block_offset = if start_margin_resolved || parent_space.is_new_formatting_context
        || parent_content_edge.raw > 0 {
        block_offset.plus(projected_strut.sum())
    } else {
        block_offset
    };
    BfcOffset::new(
        child_margin.left.plus(child_border.left).plus(child_padding.left),
        border_block_offset.minus(parent_content_edge).plus(child_border.top).plus(
            child_padding.top,
        ),
    )
}

// ── New formatting contexts beside floats ─────────────────────────────
pub open spec fn spec_new_fc_min_inline_size(
    border_padding_inline: LayoutUnit,
    margin_left: LayoutUnit,
    margin_right: LayoutUnit,
    explicit_width: Option<LayoutUnit>,
    is_border_box: bool,
) -> LayoutUnit {
    let zero = LayoutUnit { raw: 0 };
    let positive_margins = margin_left.spec_max_of(zero).spec_plus(margin_right.spec_max_of(zero));
    match explicit_width {
        None => {
            let single_negative_margin = (margin_left.raw < 0) != (margin_right.raw < 0);
            if single_negative_margin {
                border_padding_inline.spec_plus(
                    positive_margins.spec_max_of(
                        margin_left.spec_min_of(zero).spec_negate().spec_max_of(
                            margin_right.spec_min_of(zero).spec_negate(),
                        ),
                    ),
                )
            } else {
                border_padding_inline.spec_plus(positive_margins)
            }
        },
        Some(w) => if is_border_box {
            w
        } else {
            w.spec_plus(border_padding_inline)
        },
    }
}

// ── Intrinsic sizing keywords ─────────────────────────────────────────
/// A border-box size in the box's own sizing convention: unchanged for
/// `box-sizing: border-box`, else less border and padding, never negative.
pub open spec fn spec_to_box_sizing(v: LayoutUnit, border_padding: LayoutUnit, is_border_box: bool) -> LayoutUnit {
    if is_border_box {
        v
    } else {
        v.spec_minus(border_padding).spec_clamp_negative_to_zero()
    }
}

fn to_box_sizing(v: LayoutUnit, border_padding: LayoutUnit, is_border_box: bool) -> (r: LayoutUnit)
    ensures
        r == spec_to_box_sizing(v, border_padding, is_border_box),
{
    if is_border_box {
        v
    } else {
        v.minus(border_padding).clamp_negative_to_zero()
    }
}

pub open spec fn spec_resolve_intrinsic_inline(
    length_type: LengthType,
    intrinsic_min: LayoutUnit,
    intrinsic_max: LayoutUnit,
    available: LayoutUnit,
    border_padding: LayoutUnit,
    is_border_box: bool,
) -> LayoutUnit {
    let min_content = spec_to_box_sizing(intrinsic_min, border_padding, is_border_box);
    let max_content = spec_to_box_sizing(intrinsic_max, border_padding, is_border_box);
    let fill = spec_to_box_sizing(
        available.spec_plus(if is_border_box { border_padding } else { LayoutUnit { raw: 0 } }),
        border_padding,
        is_border_box,
    );
    match length_type {
        LengthType::MinContent => min_content,
        LengthType::MaxContent => max_content,
        LengthType::FitContent => fill.spec_clamp(min_content, max_content),
        _ => fill,
    }
}

/// The inline size that an intrinsic sizing keyword gives, in the box's
/// sizing convention, from its intrinsic minimum and maximum sizes
/// (border-box values, with any aspect-ratio transfer already applied):
/// `min-content` and `max-content` take those sizes, `fit-content` the
/// available space limited to them, and `stretch` (or any other value) the
/// available space.
pub fn resolve_intrinsic_inline(
    length_type: LengthType,
    intrinsic_min: LayoutUnit,
    intrinsic_max: LayoutUnit,
    available: LayoutUnit,
    border_padding: LayoutUnit,
    is_border_box: bool,
) -> (r: LayoutUnit)
    ensures
        r == spec_resolve_intrinsic_inline(
            length_type,
            intrinsic_min,
            intrinsic_max,
            available,
            border_padding,
            is_border_box,
        ),
{
    let min_content = to_box_sizing(intrinsic_min, border_padding, is_border_box);
    let max_content = to_box_sizing(intrinsic_max, border_padding, is_border_box);
    let extra = if is_border_box {
        border_padding
    } else {
        LayoutUnit::zero()
    };
    let fill = to_box_sizing(available.plus(extra), border_padding, is_border_box);
    match length_type {
        LengthType::MinContent => min_content,
        LengthType::MaxContent => max_content,
        LengthType::FitContent => fill.clamp(min_content, max_content),
        _ => fill,
    }
}

/// The block size that an intrinsic sizing keyword gives: for a block
/// container, `min-content`, `max-content` and `fit-content` heights are all
/// its laid-out content height, which already reflects margin collapsing.
pub fn resolve_intrinsic_block(intrinsic_block_size: LayoutUnit) -> (r: LayoutUnit)
    ensures
        r == intrinsic_block_size,
{
    intrinsic_block_size
}

/// The minimum inline space a child establishing a new formatting context
/// needs beside floats. With an automatic (or stretch) width the content may
/// shrink to zero, so it is the border and padding plus the positive
/// margins, or, when exactly one margin is negative, plus the larger of the
/// positive margins and that negative margin's magnitude. With an explicit
/// width (`explicit_width`, already resolved) it is the border-box width.
pub fn new_fc_min_inline_size(
    border_padding_inline: LayoutUnit,
    margin_left: LayoutUnit,
    margin_right: LayoutUnit,
    explicit_width: Option<LayoutUnit>,
    is_border_box: bool,
) -> (r: LayoutUnit)
    ensures
        r == spec_new_fc_min_inline_size(
            border_padding_inline,
            margin_left,
            margin_right,
            explicit_width,
            is_border_box,
        ),
{
    let zero = LayoutUnit::zero();
    let positive_margins = margin_left.max_of(zero).plus(margin_right.max_of(zero));
    match explicit_width {
        None => {
            let single_negative_margin = (margin_left.raw < 0) != (margin_right.raw < 0);
            if single_negative_margin {
                border_padding_inline.plus(
                    positive_margins.max_of(
                        margin_left.min_of(zero).negate().max_of(margin_right.min_of(zero).negate()),
                    ),
                )
            } else {
                border_padding_inline.plus(positive_margins)
            }
        },
        Some(w) => {
            if is_border_box {
                w
            } else {
                w.plus(border_padding_inline)
            }
        },
    }
}

pub open spec fn spec_new_fc_placement_for_opportunity(
    opportunity: LayoutOpportunity,
    margin: BoxStrut,
    container_inline_size: LayoutUnit,
) -> (LayoutUnit, LayoutUnit) {
    let start = opportunity.rect.start_offset.line_offset;
    let width = opportunity.rect.spec_inline_size();
    if start.raw == 0 && width == container_inline_size {
        (LayoutUnit { raw: 0 }, container_inline_size)
    } else {
        (
            start.spec_minus(margin.left),
            width.spec_plus(margin.left).spec_plus(margin.right).spec_clamp_negative_to_zero(),
        )
    }
}

/// Where a child establishing a new formatting context is placed within an
/// opportunity beside floats: its margin-box line offset and the inline
/// space it may fill. An opportunity covering the whole container leaves it
/// in place; otherwise its margins may extend out of the opportunity, so its
/// margin box starts one left margin before the opportunity and spans the
/// opportunity plus both margins (never negative).
pub fn new_fc_placement_for_opportunity(
    opportunity: &LayoutOpportunity,
    margin: BoxStrut,
    container_inline_size: LayoutUnit,
) -> (r: (LayoutUnit, LayoutUnit))
    ensures
        r == spec_new_fc_placement_for_opportunity(*opportunity, margin, container_inline_size),
{
    if opportunity.rect.line_start_offset().raw == 0 && opportunity.inline_size()
        == container_inline_size {
        return (LayoutUnit::zero(), container_inline_size);
    }
    let inline_offset = opportunity.rect.line_start_offset().minus(margin.left);
    let available = opportunity.inline_size().plus(margin.left).plus(margin.right).clamp_negative_to_zero();
    (inline_offset, available)
}


// ── Placing an in-flow child (margin collapsing) ──────────────────
/// The margin-collapsing state of a block while its in-flow children are placed.
#[derive(Clone, Copy, Debug, PartialEq, Eq, Structural)]
pub struct MarginCollapseState {
    /// Where the next child's margins start (border-box coordinates of the parent).
    pub block_offset: LayoutUnit,
    /// Margins collected since the last resolution.
    pub margin_strut: MarginStrut,
    /// Whether the parent's block-start margin has stopped collapsing through.
    pub start_margin_resolved: bool,
    /// The margins that collapse through the parent's block-start edge, once known.
    pub saved_start_strut: Option<MarginStrut>,
    /// The block size taken by the content so far.
    pub intrinsic_block_size: LayoutUnit,
}

/// What the parent learns about an in-flow child from laying it out.
#[derive(Clone, Copy, Debug, PartialEq, Eq, Structural)]
pub struct InflowChildMargins {
    /// The child's resolved top and bottom margins.
    pub margin_top: LayoutUnit,
    pub margin_bottom: LayoutUnit,
    /// Margins that collapsed through the child's block-start / block-end edge.
    pub start_margin_strut: MarginStrut,
    pub end_margin_strut: MarginStrut,
    /// Whether a float inside the child forced its offset to resolve.
    pub float_resolved_bfc: bool,
    /// Whether the child is empty and its margins collapse through it.
    pub is_self_collapsing: bool,
    /// The child's border-box block size.
    pub block_size: LayoutUnit,
}

/// Where an in-flow child goes.
#[derive(Clone, Copy, Debug, PartialEq, Eq, Structural)]
pub struct InflowPlacement {
    /// The block offset of the child's border box.
    pub border_offset: LayoutUnit,
    /// The collapsed-margin boundary just above the child.
    pub margin_boundary_offset: LayoutUnit,
    /// Whether earlier self-collapsing children now move to that boundary.
    pub flush_pending: bool,
}

/// The empty margin strut.
pub open spec fn empty_strut() -> MarginStrut {
    MarginStrut { positive_margin: LayoutUnit { raw: 0 }, negative_margin: LayoutUnit { raw: 0 } }
}

/// The state after the child's top margin and the margins propagated out of
/// it join the strut, and after a float inside it forced resolution.
pub open spec fn spec_collect_start_margins(
    state: MarginCollapseState,
    child: InflowChildMargins,
    separated: bool,
) -> MarginCollapseState {
    let strut = spec_absorb_strut(
        state.margin_strut.spec_append_normal(child.margin_top),
        child.start_margin_strut,
    );
    if child.float_resolved_bfc && !state.start_margin_resolved && !child.is_self_collapsing {
        if separated {
            MarginCollapseState {
                block_offset: state.block_offset.spec_plus(strut.spec_sum()),
                margin_strut: empty_strut(),
                start_margin_resolved: true,
                ..state
            }
        } else {
            MarginCollapseState {
                margin_strut: empty_strut(),
                start_margin_resolved: true,
                saved_start_strut: if state.saved_start_strut is None {
                    Some(strut)
                } else {
                    state.saved_start_strut
                },
                ..state
            }
        }
    } else {
        MarginCollapseState { margin_strut: strut, ..state }
    }
}

/// The state after an in-flow child is placed, and where it goes.
pub open spec fn spec_place_inflow_child(
    state: MarginCollapseState,
    child: InflowChildMargins,
    parent_is_new_formatting_context: bool,
    content_edge: LayoutUnit,
) -> (MarginCollapseState, InflowPlacement) {
    let separated = parent_is_new_formatting_context || content_edge.raw > 0;
    let s1 = spec_collect_start_margins(state, child, separated);
    // Resolve the strut if the start margin cannot collapse through.
    let resolves = s1.start_margin_resolved || separated;
    let s2 = if resolves {
        MarginCollapseState {
            block_offset: s1.block_offset.spec_plus(s1.margin_strut.spec_sum()),
            margin_strut: empty_strut(),
            start_margin_resolved: true,
            ..s1
        }
    } else {
        s1
    };
    let boundary = s2.block_offset;
    let after_height = s2.block_offset.spec_plus(child.block_size);
    let saved = if !s2.start_margin_resolved && s2.saved_start_strut is None {
        Some(s2.margin_strut)
    } else {
        s2.saved_start_strut
    };
    let s3 = if child.is_self_collapsing {
        let (offset, strut) = if resolves {
            (s1.block_offset, s1.margin_strut)
        } else {
            (after_height, s2.margin_strut)
        };
        MarginCollapseState {
            block_offset: offset,
            margin_strut: spec_absorb_strut(strut.spec_append_normal(child.margin_bottom), child.end_margin_strut),
            saved_start_strut: saved,
            ..s2
        }
    } else {
        MarginCollapseState {
            block_offset: after_height,
            margin_strut: spec_absorb_strut(empty_strut().spec_append_normal(child.margin_bottom), child.end_margin_strut),
            start_margin_resolved: true,
            saved_start_strut: if !s2.start_margin_resolved {
                Some(s2.margin_strut)
            } else {
                saved
            },
            ..s2
        }
    };
    (
        MarginCollapseState { intrinsic_block_size: s3.intrinsic_block_size.spec_max_of(s3.block_offset), ..s3 },
        InflowPlacement { border_offset: boundary, margin_boundary_offset: boundary, flush_pending: !child.is_self_collapsing },
    )
}

/// Place an in-flow block child and advance the margin-collapsing state.
///
/// The child's top margin, and the margins that collapse out through its
/// start edge, join the current strut. A float inside the child that forced
/// its offset to resolve ends the parent's start-margin collapsing (for a
/// child that is not self-collapsing). The strut is then resolved, moving
/// the offset down by the collapsed margin, unless the parent's start margin
/// still collapses through (no new formatting context, no block-start border
/// or padding). The child's border box sits at that offset. A
/// self-collapsing child undoes a resolution made for it and lets its
/// bottom margin join the same strut; any other child ends the start margin
/// collapsing, starts a new strut with its bottom margin (and the margins
/// collapsing out of its end), and moves earlier self-collapsing children to
/// the boundary above it.
pub fn place_inflow_child(
    state: &mut MarginCollapseState,
    child: &InflowChildMargins,
    parent_is_new_formatting_context: bool,
    content_edge: LayoutUnit,
) -> (r: InflowPlacement)
    ensures
        (*final(state), r) == spec_place_inflow_child(
            *old(state),
            *child,
            parent_is_new_formatting_context,
            content_edge,
        ),
{
    let separated = parent_is_new_formatting_context || content_edge.raw > 0;
    state.margin_strut.append_normal(child.margin_top);
    absorb_strut(&mut state.margin_strut, &child.start_margin_strut);
    if child.float_resolved_bfc && !state.start_margin_resolved && !child.is_self_collapsing {
        if separated {
            state.block_offset = state.block_offset.plus(state.margin_strut.sum());
            state.margin_strut = MarginStrut::new();
        } else {
            if state.saved_start_strut.is_none() {
                state.saved_start_strut = Some(state.margin_strut);
            }
            state.margin_strut = MarginStrut::new();
        }
        state.start_margin_resolved = true;
    }
    let pre_resolve_strut = state.margin_strut;
    let pre_resolve_offset = state.block_offset;
    let mut strut_resolved_this_child = false;
    if !state.start_margin_resolved {
        if separated {
            state.block_offset = state.block_offset.plus(state.margin_strut.sum());
            state.margin_strut = MarginStrut::new();
            state.start_margin_resolved = true;
            strut_resolved_this_child = true;
        }
    } else {
        state.block_offset = state.block_offset.plus(state.margin_strut.sum());
        state.margin_strut = MarginStrut::new();
        strut_resolved_this_child = true;
    }
    let margin_boundary_offset = state.block_offset;
    let border_offset = state.block_offset;
    state.block_offset = state.block_offset.plus(child.block_size);
    if !state.start_margin_resolved && state.saved_start_strut.is_none() {
        state.saved_start_strut = Some(state.margin_strut);
    }
    if child.is_self_collapsing {
        if strut_resolved_this_child {
            state.block_offset = pre_resolve_offset;
            state.margin_strut = pre_resolve_strut;
        }
        state.margin_strut.append_normal(child.margin_bottom);
        absorb_strut(&mut state.margin_strut, &child.end_margin_strut);
    } else {
        if !state.start_margin_resolved {
            state.saved_start_strut = Some(state.margin_strut);
        }
        state.start_margin_resolved = true;
        state.margin_strut = MarginStrut::new();
        state.margin_strut.append_normal(child.margin_bottom);
        absorb_strut(&mut state.margin_strut, &child.end_margin_strut);
    }
    state.intrinsic_block_size = state.intrinsic_block_size.max_of(state.block_offset);
    InflowPlacement {
        border_offset,
        margin_boundary_offset,
        flush_pending: !child.is_self_collapsing,
    }
}

/// After a child that is not self-collapsing, the parent's start margin no
/// longer collapses through, the strut holds just that child's bottom
/// margin (with the margins collapsing out of its end), the content size
/// covers the child, and the child sits at or below the previous offset
/// plus its collapsed margins' non-negative part when nothing saturates.
pub proof fn lemma_solid_child_ends_collapsing(
    state: MarginCollapseState,
    child: InflowChildMargins,
    parent_is_new_formatting_context: bool,
    content_edge: LayoutUnit,
)
    requires
        !child.is_self_collapsing,
    ensures
        ({
            let (s, p) = spec_place_inflow_child(state, child, parent_is_new_formatting_context, content_edge);
            &&& s.start_margin_resolved
            &&& s.margin_strut == spec_absorb_strut(empty_strut().spec_append_normal(child.margin_bottom), child.end_margin_strut)
            &&& s.block_offset == p.border_offset.spec_plus(child.block_size)
            &&& s.intrinsic_block_size.raw >= s.block_offset.raw
            &&& s.intrinsic_block_size.raw >= state.intrinsic_block_size.raw
            &&& p.flush_pending
        }),
{
}

/// A self-collapsing child under a parent whose start margin is already
/// resolved takes no space: the offset does not move, and its top and
/// bottom margins join the pending strut.
pub proof fn lemma_self_collapsing_child_keeps_strut(
    state: MarginCollapseState,
    child: InflowChildMargins,
    parent_is_new_formatting_context: bool,
    content_edge: LayoutUnit,
)
    requires
        child.is_self_collapsing,
        state.start_margin_resolved,
    ensures
        ({
            let (s, p) = spec_place_inflow_child(state, child, parent_is_new_formatting_context, content_edge);
            &&& s.block_offset == state.block_offset
            &&& s.margin_strut == spec_absorb_strut(
                spec_absorb_strut(state.margin_strut.spec_append_normal(child.margin_top), child.start_margin_strut)
                    .spec_append_normal(child.margin_bottom),
                child.end_margin_strut,
            )
            &&& s.start_margin_resolved
            &&& !p.flush_pending
        }),
{
}

/// Where the parent's block-start edge separates it from its children (it
/// establishes a new formatting context, or has block-start border or
/// padding), the first margins cannot collapse through it: placing a child
/// resolves the start margin, the child's border box sits below the
/// previous offset by the collapsed strut that its top margin (and the
/// margins collapsing out of its start) joined, and no strut is handed up
/// to the parent. With an empty strut and a non-negative top margin that is
/// just the top margin.
pub proof fn lemma_separated_parent_resolves_start_margin(
    state: MarginCollapseState,
    child: InflowChildMargins,
    parent_is_new_formatting_context: bool,
    content_edge: LayoutUnit,
)
    requires
        parent_is_new_formatting_context || content_edge.raw > 0,
    ensures
        ({
            let (s, p) = spec_place_inflow_child(state, child, parent_is_new_formatting_context, content_edge);
            let joined = spec_absorb_strut(state.margin_strut.spec_append_normal(child.margin_top), child.start_margin_strut);
            &&& s.start_margin_resolved
            &&& p.border_offset == state.block_offset.spec_plus(joined.spec_sum())
            &&& s.saved_start_strut == state.saved_start_strut
            &&& (state.margin_strut == empty_strut() && child.start_margin_strut == empty_strut()
                && child.margin_top.raw >= 0 && state.block_offset.raw + child.margin_top.raw <= i32::MAX
                && state.block_offset.raw + child.margin_top.raw >= i32::MIN ==> p.border_offset.raw
                == state.block_offset.raw + child.margin_top.raw)
        }),
{
    let joined = spec_absorb_strut(state.margin_strut.spec_append_normal(child.margin_top), child.start_margin_strut);
    assert(empty_strut().spec_sum().raw == 0);
    assert(state.block_offset.spec_plus(joined.spec_sum()).spec_plus(empty_strut().spec_sum())
        == state.block_offset.spec_plus(joined.spec_sum()));
}

/// Where nothing separates the parent from its first in-flow child (no new
/// formatting context, no block-start border or padding, start margin not
/// yet resolved, no float inside the child forcing resolution), the child's
/// top margin collapses through the parent: the child's border box sits at
/// the current offset, and the joined strut is handed up to the parent.
pub proof fn lemma_unseparated_first_margin_collapses_through(
    state: MarginCollapseState,
    child: InflowChildMargins,
    content_edge: LayoutUnit,
)
    requires
        content_edge.raw <= 0,
        !state.start_margin_resolved,
        !child.float_resolved_bfc,
        !child.is_self_collapsing,
    ensures
        ({
            let (s, p) = spec_place_inflow_child(state, child, false, content_edge);
            let joined = spec_absorb_strut(state.margin_strut.spec_append_normal(child.margin_top), child.start_margin_strut);
            &&& p.border_offset == state.block_offset
            &&& s.saved_start_strut == Some(joined)
            &&& s.start_margin_resolved
        }),
{
}

/// When exactly one inline margin is auto, the other keeps its specified
/// value, whatever the containing block's direction, and the result does
/// not depend on that direction. With no auto margin, the margin on the
/// start side (left in LTR, right in RTL) keeps its value.
pub proof fn lemma_specified_margin_kept(
    margin_left_is_auto: bool,
    margin_right_is_auto: bool,
    margin: BoxStrut,
    available_inline: LayoutUnit,
    border_box_inline: LayoutUnit,
    containing_block_is_rtl: bool,
)
    ensures
        !margin_left_is_auto && margin_right_is_auto ==> spec_resolve_inline_margins(
            margin_left_is_auto,
            margin_right_is_auto,
            margin,
            available_inline,
            border_box_inline,
            containing_block_is_rtl,
        ).0 == margin.left,
        margin_left_is_auto && !margin_right_is_auto ==> spec_resolve_inline_margins(
            margin_left_is_auto,
            margin_right_is_auto,
            margin,
            available_inline,
            border_box_inline,
            containing_block_is_rtl,
        ).1 == margin.right,
        margin_left_is_auto != margin_right_is_auto ==> spec_resolve_inline_margins(
            margin_left_is_auto,
            margin_right_is_auto,
            margin,
            available_inline,
            border_box_inline,
            true,
        ) == spec_resolve_inline_margins(
            margin_left_is_auto,
            margin_right_is_auto,
            margin,
            available_inline,
            border_box_inline,
            false,
        ),
        !margin_left_is_auto && !margin_right_is_auto && !containing_block_is_rtl ==> spec_resolve_inline_margins(
            margin_left_is_auto,
            margin_right_is_auto,
            margin,
            available_inline,
            border_box_inline,
            containing_block_is_rtl,
        ).0 == margin.left,
        !margin_left_is_auto && !margin_right_is_auto && containing_block_is_rtl ==> spec_resolve_inline_margins(
            margin_left_is_auto,
            margin_right_is_auto,
            margin,
            available_inline,
            border_box_inline,
            containing_block_is_rtl,
        ).1 == margin.right,
{
}

/// A new formatting context placed in an opportunity that is not the whole
/// container stays within the opportunity widened by its margins: it starts
/// its left margin before the opportunity, is as wide as the opportunity
/// plus both margins (never negative), and, when it has any width, ends its
/// right margin past the opportunity's line end. In an opportunity that is
/// the whole container (starting at zero, as wide as the container) it
/// spans the container. Stated where no value lies near the ends of the
/// layout-unit range.
pub proof fn lemma_new_fc_placement_within_opportunity(
    opportunity: LayoutOpportunity,
    margin: BoxStrut,
    container_inline_size: LayoutUnit,
)
    requires
        -0x10000000 <= opportunity.rect.start_offset.line_offset.raw <= 0x10000000,
        -0x10000000 <= opportunity.rect.end_offset.line_offset.raw <= 0x10000000,
        -0x10000000 <= margin.left.raw <= 0x10000000,
        -0x10000000 <= margin.right.raw <= 0x10000000,
    ensures
        ({
            let (offset, size) = spec_new_fc_placement_for_opportunity(opportunity, margin, container_inline_size);
            let start = opportunity.rect.start_offset.line_offset.raw;
            let end = opportunity.rect.end_offset.line_offset.raw;
            let whole = start == 0 && end - start == container_inline_size.raw;
            &&& whole ==> offset.raw == 0 && size == container_inline_size
            &&& !whole ==> offset.raw == start - margin.left.raw
            &&& !whole ==> size.raw >= 0 && size.raw <= (if end - start + margin.left.raw + margin.right.raw > 0 {
                end - start + margin.left.raw + margin.right.raw
            } else {
                0
            })
            &&& !whole && size.raw > 0 ==> offset.raw + size.raw == end + margin.right.raw
        }),
{
}

pub open spec fn spec_float_start_block_offset(
    block_offset: LayoutUnit,
    content_edge: LayoutUnit,
    clearance: Option<LayoutUnit>,
) -> LayoutUnit {
    let start = block_offset.spec_minus(content_edge);
    match clearance {
        Some(c) => start.spec_max_of(c),
        None => start,
    }
}

/// The block offset (relative to the content box) from which a float
/// searches for space: the current offset, moved below the floats it clears when it has
/// `clear`.
pub fn float_start_block_offset(
    block_offset: LayoutUnit,
    content_edge: LayoutUnit,
    clear_type: crate::exclusions::exclusion_space::ClearType,
    exclusion_space: &ExclusionSpace,
) -> (r: LayoutUnit)
    ensures
        r == spec_float_start_block_offset(
            block_offset,
            content_edge,
            if clear_type == crate::exclusions::exclusion_space::ClearType::NoClear {
                None
            } else {
                Some(exclusion_space@.clearance(clear_type))
            },
        ),
{
    let mut content_block_offset = block_offset.minus(content_edge);
    if !matches!(clear_type, crate::exclusions::exclusion_space::ClearType::NoClear) {
        let clearance = exclusion_space.clearance_offset(clear_type);
        if clearance.raw > content_block_offset.raw {
            content_block_offset = clearance;
        }
    }
    content_block_offset
}

// ── Finishing the block size ──────────────────────────────────────────
/// Whether the trailing margins are resolved inside the block rather than
/// collapsing through its end edge: there are trailing margins, and the
/// block establishes a new formatting context, has block-end border or
/// padding, a non-auto height, a block size from its aspect ratio, or a
/// positive min-height.
pub fn resolves_end_margin(
    margin_strut: &MarginStrut,
    is_new_formatting_context: bool,
    bottom_edge: LayoutUnit,
    has_non_auto_height: bool,
    has_aspect_ratio_block_size: bool,
    has_min_height: bool,
) -> (r: bool)
    ensures
        r == (!(margin_strut.positive_margin.raw == 0 && margin_strut.negative_margin.raw == 0)
            && (is_new_formatting_context || bottom_edge.raw > 0 || has_non_auto_height
            || has_aspect_ratio_block_size || has_min_height)),
{
    !margin_strut.is_empty() && (is_new_formatting_context || bottom_edge.raw > 0
        || has_non_auto_height || has_aspect_ratio_block_size || has_min_height)
}

pub open spec fn spec_include_float_bottom(
    intrinsic_block_size: LayoutUnit,
    is_new_formatting_context: bool,
    max_float_bottom: LayoutUnit,
    content_edge: LayoutUnit,
    bottom_edge: LayoutUnit,
) -> LayoutUnit {
    if is_new_formatting_context && max_float_bottom.raw > 0 {
        intrinsic_block_size.spec_max_of(max_float_bottom.spec_plus(content_edge).spec_plus(bottom_edge))
    } else {
        intrinsic_block_size
    }
}

/// The auto block size of a block, extended so that a formatting-context
/// root contains the bottom margin edge of its floats;
/// `max_float_bottom` is measured from the content box.
pub fn include_float_bottom(
    intrinsic_block_size: LayoutUnit,
    is_new_formatting_context: bool,
    max_float_bottom: LayoutUnit,
    content_edge: LayoutUnit,
    bottom_edge: LayoutUnit,
) -> (r: LayoutUnit)
    ensures
        r == spec_include_float_bottom(
            intrinsic_block_size,
            is_new_formatting_context,
            max_float_bottom,
            content_edge,
            bottom_edge,
        ),
        r.raw >= intrinsic_block_size.raw,
{
    if is_new_formatting_context && max_float_bottom.raw > 0 {
        let float_bottom_border_box = max_float_bottom.plus(content_edge).plus(bottom_edge);
        intrinsic_block_size.max_of(float_bottom_border_box)
    } else {
        intrinsic_block_size
    }
}

// ── Multicol row snapping ─────────────────────────────────────────────
/// Whether the snapping computation rounds `amount` up to a multiple of the
/// row stride (its last case).
pub open spec fn snap_rounds_up(amount: LayoutUnit, remaining: LayoutUnit, rows: Option<(LayoutUnit, LayoutUnit)>) -> bool {
    match rows {
        None => false,
        Some((row_height, row_gap)) => {
            let stride = clamp_raw(row_height.raw + row_gap.raw) as int;
            &&& amount.raw > 0
            &&& amount.raw < remaining.raw
            &&& row_height.raw > 0
            &&& row_gap.raw > 0
            &&& stride > row_height.raw
            &&& (amount.raw as int) % stride >= row_height.raw
        },
    }
}

pub open spec fn spec_snap_consumption(amount: LayoutUnit, remaining: LayoutUnit, rows: Option<(LayoutUnit, LayoutUnit)>) -> LayoutUnit {
    match rows {
        None => amount,
        Some((row_height, row_gap)) => {
            let stride = clamp_raw(row_height.raw + row_gap.raw) as int;
            if amount.raw <= 0 || amount.raw >= remaining.raw || row_height.raw <= 0 || row_gap.raw
                <= 0 || stride <= row_height.raw {
                amount
            } else {
                let remainder = (amount.raw as int) % stride;
                if remainder > 0 && remainder < row_height.raw && row_height.raw < amount.raw {
                    LayoutUnit { raw: (amount.raw - remainder) as i32 }.spec_min_of(remaining)
                } else if remainder < row_height.raw {
                    amount
                } else {
                    LayoutUnit {
                        raw: (((amount.raw + stride - 1) / stride) * stride) as i32,
                    }.spec_min_of(remaining)
                }
            }
        },
    }
}

/// Snap the block size consumed by a multicol fragment to its wrapped rows.
/// `rows` holds the row height and the (non-negative) row gap when the
/// columns wrap into rows of a specified height. An amount that ends inside
/// a row (past its first row) is cut back to the end of the last whole
/// stride; an amount that ends inside a gap is rounded up to the next
/// stride; the result never exceeds `remaining`. Amounts that are not
/// positive, or not less than `remaining`, are left alone.
pub fn snap_wrapped_multicol_fragment_consumption(
    amount: LayoutUnit,
    remaining: LayoutUnit,
    rows: Option<(LayoutUnit, LayoutUnit)>,
) -> (r: LayoutUnit)
    requires
        snap_rounds_up(amount, remaining, rows) ==> ({
            let (row_height, row_gap) = rows->0;
            amount.raw + clamp_raw(row_height.raw + row_gap.raw) <= i32::MAX
        }),
    ensures
        r == spec_snap_consumption(amount, remaining, rows),
{
    if amount.raw <= 0 || amount.raw >= remaining.raw {
        return amount;
    }
    let (row_height, row_gap) = match rows {
        Some(pair) => pair,
        None => {
            return amount;
        },
    };
    if row_height.raw <= 0 || row_gap.raw <= 0 {
        return amount;
    }
    let stride = row_height.plus(row_gap);
    if stride.raw <= row_height.raw {
        return amount;
    }
    let a: u32 = amount.raw as u32;
    let st: u32 = stride.raw as u32;
    let remainder: i32 = (a % st) as i32;
    if remainder > 0 && remainder < row_height.raw && row_height.raw < amount.raw {
        return LayoutUnit::from_raw(amount.raw - remainder).min_of(remaining);
    }
    if remainder < row_height.raw {
        return amount;
    }
    proof {
        assert(remainder as int == (amount.raw as int) % (stride.raw as int));
        assert(snap_rounds_up(amount, remaining, rows));
        assert(rows->0 == (row_height, row_gap));
    }
    let sum: i32 = amount.raw + stride.raw - 1;
    let q: i32 = sum / stride.raw;
    assert(q * stride.raw <= sum) by (nonlinear_arith)
        requires
            q == sum / stride.raw,
            stride.raw > 0,
            sum >= 0,
    ;
    assert(q >= 0) by (nonlinear_arith)
        requires
            q == sum / stride.raw,
            stride.raw > 0,
            sum >= 0,
    ;
    let snapped: i32 = q * stride.raw;
    LayoutUnit::from_raw(snapped).min_of(remaining)
}

} // verus!
