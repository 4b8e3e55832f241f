//! CSS sizing: sizing keywords, definite sizes, automatic sizes and
//! preferred-size resolution with min/max constraints.
//!
//! Lengths reach this module as a [`LengthValue`]: the kind of length and
//! its numeric value already converted to layout units (pixels for fixed
//! lengths and `fit-content(X)` limits, the resolved size for percentages).
use vstd::prelude::*;
use crate::geometry::{LayoutUnit, MinMaxSizes, indefinite_size, spec_indefinite};
use crate::constraint_space::ConstraintSpace;

verus! {

/// The kind of a CSS length value.
#[derive(Clone, Copy, Debug, PartialEq, Eq, Structural, Hash)]
pub enum LengthType {
    Auto,
    Fixed,
    Percent,
    MinContent,
    MaxContent,
    FitContent,
    Stretch,
    /// `none` (for `max-width` / `max-height`).
    NoneKeyword,
}

/// A CSS length with its value in layout units: the pixel value of a fixed
/// length or a `fit-content(X)` limit, or the size a percentage resolves to
/// against the containing block. Other kinds carry no value.
#[derive(Clone, Copy, Debug, PartialEq, Eq, Structural, Hash)]
pub struct LengthValue {
    pub length_type: LengthType,
    pub value: LayoutUnit,
}

/// A resolved CSS sizing keyword.
#[derive(Clone, Copy, Debug, PartialEq, Eq, Structural, Hash)]
pub enum SizingKeyword {
    /// `auto`.
    Auto,
    /// `min-content`.
    MinContent,
    /// `max-content`.
    MaxContent,
    /// `fit-content(X)`.
    FitContent(LayoutUnit),
    /// `stretch`.
    Stretch,
}

pub open spec fn spec_keyword_of(length: LengthValue) -> Option<SizingKeyword> {
    match length.length_type {
        LengthType::Auto => Some(SizingKeyword::Auto),
        LengthType::MinContent => Some(SizingKeyword::MinContent),
        LengthType::MaxContent => Some(SizingKeyword::MaxContent),
        LengthType::FitContent => Some(SizingKeyword::FitContent(length.value)),
        LengthType::Stretch => Some(SizingKeyword::Stretch),
        _ => None,
    }
}

impl SizingKeyword {
    /// The sizing keyword a length names; `None` for concrete values
    /// (fixed, percent) and `none`.
    pub fn from_length(length: &LengthValue) -> (r: Option<SizingKeyword>)
        ensures
            r == spec_keyword_of(*length),
    {
        match length.length_type {
            LengthType::Auto => Some(SizingKeyword::Auto),
            LengthType::MinContent => Some(SizingKeyword::MinContent),
            LengthType::MaxContent => Some(SizingKeyword::MaxContent),
            LengthType::FitContent => Some(SizingKeyword::FitContent(length.value)),
            LengthType::Stretch => Some(SizingKeyword::Stretch),
            LengthType::Fixed => None,
            LengthType::Percent => None,
            LengthType::NoneKeyword => None,
        }
    }
}

/// The stretch size: available space minus margins, never negative.
pub open spec fn spec_stretch(available_size: LayoutUnit, margins: LayoutUnit) -> LayoutUnit {
    available_size.spec_minus(margins).spec_clamp_negative_to_zero()
}

pub open spec fn spec_resolve_sizing_keyword(
    keyword: SizingKeyword,
    intrinsic: MinMaxSizes,
    available_size: LayoutUnit,
    margins: LayoutUnit,
) -> LayoutUnit {
    match keyword {
        SizingKeyword::MinContent => intrinsic.min,
        SizingKeyword::MaxContent => intrinsic.max,
        SizingKeyword::FitContent(limit) => limit.spec_clamp(intrinsic.min, intrinsic.max),
        SizingKeyword::Stretch => spec_stretch(available_size, margins),
        SizingKeyword::Auto => spec_stretch(available_size, margins),
    }
}

/// Resolve a sizing keyword: `min-content` and `max-content` give the
/// intrinsic sizes, `fit-content(X)` clamps X between them, `stretch` (and
/// `auto`, as in the inline axis) is the available size minus margins,
/// never negative.
pub fn resolve_sizing_keyword(
    keyword: SizingKeyword,
    intrinsic: &MinMaxSizes,
    available_size: LayoutUnit,
    margins: LayoutUnit,
) -> (r: LayoutUnit)
    ensures
        r == spec_resolve_sizing_keyword(keyword, *intrinsic, available_size, margins),
{
    match keyword {
        SizingKeyword::MinContent => intrinsic.min,
        SizingKeyword::MaxContent => intrinsic.max,
        SizingKeyword::FitContent(limit) => limit.clamp(intrinsic.min, intrinsic.max),
        SizingKeyword::Stretch => available_size.minus(margins).clamp_negative_to_zero(),
        SizingKeyword::Auto => available_size.minus(margins).clamp_negative_to_zero(),
    }
}

pub open spec fn spec_compute_definite_size(
    length: LengthValue,
    containing_block_size: LayoutUnit,
    space: ConstraintSpace,
    is_inline_axis: bool,
) -> Option<LayoutUnit> {
    let avail = if is_inline_axis {
        space.available_inline_size
    } else {
        space.available_block_size
    };
    match length.length_type {
        LengthType::Fixed => Some(length.value),
        LengthType::Percent => if containing_block_size == spec_indefinite() {
            None
        } else {
            Some(length.value)
        },
        LengthType::Stretch => {
            let stretching = if is_inline_axis {
                space.stretch_inline_size
            } else {
                space.stretch_block_size
            };
            if stretching && avail != spec_indefinite() {
                Some(avail)
            } else {
                None
            }
        },
        LengthType::Auto => {
            let fixed = if is_inline_axis {
                space.is_fixed_inline_size
            } else {
                space.is_fixed_block_size
            };
            if fixed && avail != spec_indefinite() {
                Some(avail)
            } else {
                None
            }
        },
        _ => None,
    }
}

/// Whether a length gives a definite size, and that size. Fixed lengths are
/// definite; percentages are when the containing block size is; `stretch`
/// is definite when the space stretches that axis, and `auto` when the
/// space fixes it, in both cases to a definite available size; intrinsic
/// keywords and `none` are not definite.
pub fn compute_definite_size(
    length: &LengthValue,
    containing_block_size: LayoutUnit,
    space: &ConstraintSpace,
    is_inline_axis: bool,
) -> (r: Option<LayoutUnit>)
    ensures
        r == spec_compute_definite_size(*length, containing_block_size, *space, is_inline_axis),
{
    match length.length_type {
        LengthType::Fixed => Some(length.value),
        LengthType::Percent => {
            if containing_block_size.is_indefinite() {
                None
            } else {
                Some(length.value)
            }
        },
        LengthType::Stretch => {
            let is_stretching = if is_inline_axis {
                space.stretch_inline_size
            } else {
                space.stretch_block_size
            };
            if is_stretching {
                let avail = if is_inline_axis {
                    space.available_inline_size
                } else {
                    space.available_block_size
                };
                if avail.is_indefinite() {
                    None
                } else {
                    Some(avail)
                }
            } else {
                None
            }
        },
        LengthType::Auto => {
            let is_fixed = if is_inline_axis {
                space.is_fixed_inline_size
            } else {
                space.is_fixed_block_size
            };
            if is_fixed {
                let avail = if is_inline_axis {
                    space.available_inline_size
                } else {
                    space.available_block_size
                };
                if avail.is_indefinite() {
                    None
                } else {
                    Some(avail)
                }
            } else {
                None
            }
        },
        LengthType::MinContent => None,
        LengthType::MaxContent => None,
        LengthType::FitContent => None,
        LengthType::NoneKeyword => None,
    }
}

pub open spec fn spec_compute_automatic_size(
    is_inline_axis: bool,
    intrinsic: MinMaxSizes,
    available_size: LayoutUnit,
    margins: LayoutUnit,
) -> LayoutUnit {
    if is_inline_axis {
        spec_stretch(available_size, margins)
    } else {
        intrinsic.max.spec_min_of(spec_stretch(available_size, margins)).spec_max_of(intrinsic.min)
    }
}

/// The automatic size in an axis: the stretch size in the inline axis; in
/// the block axis the fit-content size, max-content limited by the stretch
/// size but never below min-content.
pub fn compute_automatic_size(
    is_inline_axis: bool,
    intrinsic: &MinMaxSizes,
    available_size: LayoutUnit,
    margins: LayoutUnit,
) -> (r: LayoutUnit)
    ensures
        r == spec_compute_automatic_size(is_inline_axis, *intrinsic, available_size, margins),
{
    if is_inline_axis {
        available_size.minus(margins).clamp_negative_to_zero()
    } else {
        let stretch = available_size.minus(margins).clamp_negative_to_zero();
        intrinsic.max.min_of(stretch).max_of(intrinsic.min)
    }
}

pub open spec fn spec_resolve_size_value(
    length: LengthValue,
    containing_block_size: LayoutUnit,
    intrinsic: MinMaxSizes,
    available_size: LayoutUnit,
    margins: LayoutUnit,
) -> LayoutUnit {
    match length.length_type {
        LengthType::Fixed => length.value,
        LengthType::Percent => if containing_block_size == spec_indefinite() {
            spec_indefinite()
        } else {
            length.value
        },
        LengthType::MinContent => intrinsic.min,
        LengthType::MaxContent => intrinsic.max,
        LengthType::FitContent => length.value.spec_clamp(intrinsic.min, intrinsic.max),
        LengthType::Stretch => spec_stretch(available_size, margins),
        _ => spec_indefinite(),
    }
}

pub open spec fn spec_resolve_min_value(
    length: LengthValue,
    containing_block_size: LayoutUnit,
    intrinsic: MinMaxSizes,
) -> LayoutUnit {
    match length.length_type {
        LengthType::Fixed => length.value,
        LengthType::Percent => if containing_block_size == spec_indefinite() {
            LayoutUnit { raw: 0 }
        } else {
            length.value
        },
        LengthType::MinContent => intrinsic.min,
        LengthType::MaxContent => intrinsic.max,
        _ => LayoutUnit { raw: 0 },
    }
}

pub open spec fn spec_resolve_max_value(
    length: LengthValue,
    containing_block_size: LayoutUnit,
    intrinsic: MinMaxSizes,
) -> LayoutUnit {
    match length.length_type {
        LengthType::Fixed => length.value,
        LengthType::Percent => if containing_block_size == spec_indefinite() {
            LayoutUnit { raw: i32::MAX }
        } else {
            length.value
        },
        LengthType::MinContent => intrinsic.min,
        LengthType::MaxContent => intrinsic.max,
        _ => LayoutUnit { raw: i32::MAX },
    }
}

pub open spec fn spec_resolve_preferred_size(
    preferred: LengthValue,
    min_size: LengthValue,
    max_size: LengthValue,
    containing_block_size: LayoutUnit,
    intrinsic: MinMaxSizes,
    available_size: LayoutUnit,
    margins: LayoutUnit,
    other_axis_size: LayoutUnit,
    transferred_size: Option<LayoutUnit>,
    is_width: bool,
) -> LayoutUnit {
    let resolved = spec_resolve_size_value(
        preferred,
        containing_block_size,
        intrinsic,
        available_size,
        margins,
    );
    let resolved = if resolved == spec_indefinite() {
        match transferred_size {
            Some(t) => if other_axis_size != spec_indefinite() {
                t
            } else {
                spec_compute_automatic_size(is_width, intrinsic, available_size, margins)
            },
            None => spec_compute_automatic_size(is_width, intrinsic, available_size, margins),
        }
    } else {
        resolved
    };
    resolved.spec_min_of(spec_resolve_max_value(max_size, containing_block_size, intrinsic)).spec_max_of(
        spec_resolve_min_value(min_size, containing_block_size, intrinsic),
    )
}

/// Resolve the preferred size in one axis.
///
/// The preferred length is resolved first; if it is indefinite (auto, or a
/// percentage of an indefinite containing block), the size transferred
/// through the aspect ratio from a definite other axis is used, or else the
/// automatic size. The result is then clamped to `max(min, min(size, max))`:
/// where the minimum exceeds the maximum, the minimum wins. `transferred_size` is the other axis's
/// size carried through the aspect ratio, when the element has a usable one.
pub fn resolve_preferred_size(
    preferred: &LengthValue,
    min_size: &LengthValue,
    max_size: &LengthValue,
    containing_block_size: LayoutUnit,
    intrinsic: &MinMaxSizes,
    available_size: LayoutUnit,
    margins: LayoutUnit,
    other_axis_size: LayoutUnit,
    transferred_size: Option<LayoutUnit>,
    is_width: bool,
) -> (r: LayoutUnit)
    ensures
        r == spec_resolve_preferred_size(
            *preferred,
            *min_size,
            *max_size,
            containing_block_size,
            *intrinsic,
            available_size,
            margins,
            other_axis_size,
            transferred_size,
            is_width,
        ),
{
    let resolved = resolve_size_value(
        preferred,
        containing_block_size,
        intrinsic,
        available_size,
        margins,
    );
    let resolved = if resolved.is_indefinite() {
        match transferred_size {
            Some(t) => {
                if !other_axis_size.is_indefinite() {
                    t
                } else {
                    compute_automatic_size(is_width, intrinsic, available_size, margins)
                }
            },
            None => compute_automatic_size(is_width, intrinsic, available_size, margins),
        }
    } else {
        resolved
    };
    let resolved_min = resolve_min_value(min_size, containing_block_size, intrinsic);
    let resolved_max = resolve_max_value(max_size, containing_block_size, intrinsic);
    resolved.min_of(resolved_max).max_of(resolved_min)
}

/// A definite min or max size: a fixed length, or a percentage of a
/// definite containing block; its value is the size it gives.
pub open spec fn is_definite_limit(length: LengthValue, containing_block_size: LayoutUnit) -> bool {
    length.length_type == LengthType::Fixed || (length.length_type == LengthType::Percent
        && containing_block_size != spec_indefinite())
}

/// The preferred size obeys its limits. A definite minimum (fixed, or a
/// percentage of a definite containing block) is a floor. A definite
/// maximum is a ceiling, unless a definite minimum above it wins; with an
/// `auto` minimum it is a ceiling once at least zero. A preferred fixed size
/// between a definite minimum and maximum is kept as it is (but for the
/// value that stands for an indefinite size).
pub proof fn lemma_preferred_size_within_limits(
    preferred: LengthValue,
    min_size: LengthValue,
    max_size: LengthValue,
    containing_block_size: LayoutUnit,
    intrinsic: MinMaxSizes,
    available_size: LayoutUnit,
    margins: LayoutUnit,
    other_axis_size: LayoutUnit,
    transferred_size: Option<LayoutUnit>,
    is_width: bool,
)
    ensures
        ({
            let r = spec_resolve_preferred_size(
                preferred,
                min_size,
                max_size,
                containing_block_size,
                intrinsic,
                available_size,
                margins,
                other_axis_size,
                transferred_size,
                is_width,
            );
            &&& is_definite_limit(min_size, containing_block_size) ==> r.raw >= min_size.value.raw
            &&& is_definite_limit(max_size, containing_block_size) && is_definite_limit(min_size, containing_block_size)
                ==> r.raw <= max_size.value.raw || r == min_size.value
            &&& is_definite_limit(max_size, containing_block_size) && min_size.length_type == LengthType::Auto
                && max_size.value.raw >= 0 ==> r.raw <= max_size.value.raw
            &&& preferred.length_type == LengthType::Fixed && preferred.value != spec_indefinite()
                && is_definite_limit(min_size, containing_block_size)
                && is_definite_limit(max_size, containing_block_size) && min_size.value.raw <= preferred.value.raw
                && preferred.value.raw <= max_size.value.raw ==> r == preferred.value
        }),
{
}

/// A percentage maximum of an indefinite containing block bounds nothing:
/// the size is the one given with a maximum of `none`.
pub proof fn lemma_indefinite_percent_max_is_unbounded(
    preferred: LengthValue,
    min_size: LengthValue,
    max_value: LayoutUnit,
    none_value: LayoutUnit,
    intrinsic: MinMaxSizes,
    available_size: LayoutUnit,
    margins: LayoutUnit,
    other_axis_size: LayoutUnit,
    transferred_size: Option<LayoutUnit>,
    is_width: bool,
)
    ensures
        spec_resolve_preferred_size(
            preferred,
            min_size,
            LengthValue { length_type: LengthType::Percent, value: max_value },
            spec_indefinite(),
            intrinsic,
            available_size,
            margins,
            other_axis_size,
            transferred_size,
            is_width,
        ) == spec_resolve_preferred_size(
            preferred,
            min_size,
            LengthValue { length_type: LengthType::NoneKeyword, value: none_value },
            spec_indefinite(),
            intrinsic,
            available_size,
            margins,
            other_axis_size,
            transferred_size,
            is_width,
        ),
{
}

/// Resolve a preferred (not min/max) size value.
fn resolve_size_value(
    length: &LengthValue,
    containing_block_size: LayoutUnit,
    intrinsic: &MinMaxSizes,
    available_size: LayoutUnit,
    margins: LayoutUnit,
) -> (r: LayoutUnit)
    ensures
        r == spec_resolve_size_value(
            *length,
            containing_block_size,
            *intrinsic,
            available_size,
            margins,
        ),
{
    match length.length_type {
        LengthType::Fixed => length.value,
        LengthType::Percent => {
            if containing_block_size.is_indefinite() {
                indefinite_size()
            } else {
                length.value
            }
        },
        LengthType::MinContent => intrinsic.min,
        LengthType::MaxContent => intrinsic.max,
        LengthType::FitContent => length.value.clamp(intrinsic.min, intrinsic.max),
        LengthType::Stretch => available_size.minus(margins).clamp_negative_to_zero(),
        LengthType::Auto => indefinite_size(),
        LengthType::NoneKeyword => indefinite_size(),
    }
}

/// Resolve a min-size value; `auto` and `none` give zero.
fn resolve_min_value(length: &LengthValue, containing_block_size: LayoutUnit, intrinsic: &MinMaxSizes) -> (r: LayoutUnit)
    ensures
        r == spec_resolve_min_value(*length, containing_block_size, *intrinsic),
{
    match length.length_type {
        LengthType::Fixed => length.value,
        LengthType::Percent => {
            if containing_block_size.is_indefinite() {
                LayoutUnit::zero()
            } else {
                length.value
            }
        },
        LengthType::MinContent => intrinsic.min,
        LengthType::MaxContent => intrinsic.max,
        LengthType::Auto => LayoutUnit::zero(),
        LengthType::FitContent => LayoutUnit::zero(),
        LengthType::Stretch => LayoutUnit::zero(),
        LengthType::NoneKeyword => LayoutUnit::zero(),
    }
}

/// Resolve a max-size value; `none` (and other keywords) is unbounded.
fn resolve_max_value(length: &LengthValue, containing_block_size: LayoutUnit, intrinsic: &MinMaxSizes) -> (r: LayoutUnit)
    ensures
        r == spec_resolve_max_value(*length, containing_block_size, *intrinsic),
{
    match length.length_type {
        LengthType::Fixed => length.value,
        LengthType::Percent => {
            if containing_block_size.is_indefinite() {
                LayoutUnit::max_value()
            } else {
                length.value
            }
        },
        LengthType::MinContent => intrinsic.min,
        LengthType::MaxContent => intrinsic.max,
        LengthType::NoneKeyword => LayoutUnit::max_value(),
        LengthType::Auto => LayoutUnit::max_value(),
        LengthType::FitContent => LayoutUnit::max_value(),
        LengthType::Stretch => LayoutUnit::max_value(),
    }
}

} // verus!
