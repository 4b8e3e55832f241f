//! Geometry primitives used by block layout: fixed-point layout units,
//! offsets and rectangles in block-formatting-context coordinates, box
//! struts, margin struts and min/max size pairs.
//!
//! `LayoutUnit` is a 32-bit fixed-point number with 6 fractional bits
//! (1/64 px). All arithmetic saturates at the ends of the `i32` range,
//! so no operation can overflow.
use vstd::prelude::*;

verus! {

/// Raw fixed-point units per CSS pixel.
pub const FIXED_POINT_DENOMINATOR: i32 = 64;

/// Largest whole-pixel value that is representable without saturation.
pub const INT_MAX_FOR_LAYOUT_UNIT: i32 = 33554431;

/// Smallest whole-pixel value that is representable without saturation.
pub const INT_MIN_FOR_LAYOUT_UNIT: i32 = -33554432;

/// Clamp a mathematical integer into the range of a raw `i32` value.
pub open spec fn clamp_raw(x: int) -> i32 {
    if x > i32::MAX {
        i32::MAX
    } else if x < i32::MIN {
        i32::MIN
    } else {
        x as i32
    }
}

/// Halving that rounds toward zero, as integer division does in Rust.
pub open spec fn half_toward_zero(x: int) -> int {
    if x >= 0 {
        x / 2
    } else {
        -((-x) / 2)
    }
}

/// The larger of two integers.
pub open spec fn int_max(a: int, b: int) -> int {
    if a >= b {
        a
    } else {
        b
    }
}

/// The smaller of two integers.
pub open spec fn int_min(a: int, b: int) -> int {
    if a <= b {
        a
    } else {
        b
    }
}

/// A length in fixed-point layout units (1/64 px), with saturating arithmetic.
#[derive(Clone, Copy, Debug, PartialEq, Eq, Structural, PartialOrd, Ord, Hash)]
pub struct LayoutUnit {
    /// The value in 1/64 px.
    pub raw: i32,
}

/// The layout unit for a raw fixed-point value.
pub open spec fn lu_raw(raw: int) -> LayoutUnit {
    LayoutUnit { raw: clamp_raw(raw) }
}

/// The layout unit for a whole number of pixels, saturating out of range.
pub open spec fn spec_lu_from_int(v: int) -> LayoutUnit {
    if v > INT_MAX_FOR_LAYOUT_UNIT {
        LayoutUnit { raw: i32::MAX }
    } else if v < INT_MIN_FOR_LAYOUT_UNIT {
        LayoutUnit { raw: i32::MIN }
    } else {
        LayoutUnit { raw: (v * 64) as i32 }
    }
}

/// The sentinel meaning "no definite size" (-1 px).
pub open spec fn spec_indefinite() -> LayoutUnit {
    LayoutUnit { raw: -64i32 }
}

impl LayoutUnit {
    pub open spec fn spec_plus(self, other: LayoutUnit) -> LayoutUnit {
        lu_raw(self.raw + other.raw)
    }

    pub open spec fn spec_minus(self, other: LayoutUnit) -> LayoutUnit {
        lu_raw(self.raw - other.raw)
    }

    pub open spec fn spec_negate(self) -> LayoutUnit {
        lu_raw(-self.raw)
    }

    pub open spec fn spec_max_of(self, other: LayoutUnit) -> LayoutUnit {
        if self.raw >= other.raw {
            self
        } else {
            other
        }
    }

    pub open spec fn spec_min_of(self, other: LayoutUnit) -> LayoutUnit {
        if self.raw <= other.raw {
            self
        } else {
            other
        }
    }

    /// `self` limited to `[lo, hi]`; where `lo > hi` the lower bound wins.
    pub open spec fn spec_clamp(self, lo: LayoutUnit, hi: LayoutUnit) -> LayoutUnit {
        self.spec_min_of(hi).spec_max_of(lo)
    }

    pub open spec fn spec_clamp_negative_to_zero(self) -> LayoutUnit {
        if self.raw < 0 {
            LayoutUnit { raw: 0 }
        } else {
            self
        }
    }

    /// Zero.
    pub fn zero() -> (r: LayoutUnit)
        ensures
            r.raw == 0,
    {
        LayoutUnit { raw: 0 }
    }

    /// The largest representable value, used as "unbounded".
    pub fn max_value() -> (r: LayoutUnit)
        ensures
            r.raw == i32::MAX,
    {
        LayoutUnit { raw: i32::MAX }
    }

    /// The smallest representable value.
    pub fn min_value() -> (r: LayoutUnit)
        ensures
            r.raw == i32::MIN,
    {
        LayoutUnit { raw: i32::MIN }
    }

    /// The layout unit for a raw fixed-point value.
    pub fn from_raw(raw: i32) -> (r: LayoutUnit)
        ensures
            r.raw == raw,
    {
        LayoutUnit { raw }
    }

    /// The layout unit for a whole number of pixels (saturating).
    pub fn from_i32(v: i32) -> (r: LayoutUnit)
        ensures
            r == spec_lu_from_int(v as int),
    {
        if v > INT_MAX_FOR_LAYOUT_UNIT {
            LayoutUnit { raw: i32::MAX }
        } else if v < INT_MIN_FOR_LAYOUT_UNIT {
            LayoutUnit { raw: i32::MIN }
        } else {
            LayoutUnit { raw: v * 64 }
        }
    }

    /// Whole pixels, rounding toward zero.
    pub fn to_i32(self) -> (r: i32)
        ensures
            r as int == half_toward_zero_by_64(self.raw as int),
    {
        if self.raw >= 0 {
            self.raw / 64
        } else {
            let m: i64 = -(self.raw as i64);
            -((m / 64) as i32)
        }
    }

    /// Saturating addition.
    pub fn plus(self, other: LayoutUnit) -> (r: LayoutUnit)
        ensures
            r == self.spec_plus(other),
    {
        let s: i64 = self.raw as i64 + other.raw as i64;
        if s > i32::MAX as i64 {
            LayoutUnit { raw: i32::MAX }
        } else if s < i32::MIN as i64 {
            LayoutUnit { raw: i32::MIN }
        } else {
            LayoutUnit { raw: s as i32 }
        }
    }

    /// Saturating subtraction.
    pub fn minus(self, other: LayoutUnit) -> (r: LayoutUnit)
        ensures
            r == self.spec_minus(other),
    {
        let s: i64 = self.raw as i64 - other.raw as i64;
        if s > i32::MAX as i64 {
            LayoutUnit { raw: i32::MAX }
        } else if s < i32::MIN as i64 {
            LayoutUnit { raw: i32::MIN }
        } else {
            LayoutUnit { raw: s as i32 }
        }
    }

    /// Saturating negation.
    pub fn negate(self) -> (r: LayoutUnit)
        ensures
            r == self.spec_negate(),
    {
        if self.raw == i32::MIN {
            LayoutUnit { raw: i32::MAX }
        } else {
            LayoutUnit { raw: -self.raw }
        }
    }

    /// Half of the value, rounding toward zero.
    pub fn halve(self) -> (r: LayoutUnit)
        ensures
            r.raw == half_toward_zero(self.raw as int),
    {
        if self.raw >= 0 {
            LayoutUnit { raw: self.raw / 2 }
        } else {
            let m: i64 = -(self.raw as i64);
            LayoutUnit { raw: -((m / 2) as i32) }
        }
    }

    /// The larger of the two values.
    pub fn max_of(self, other: LayoutUnit) -> (r: LayoutUnit)
        ensures
            r == self.spec_max_of(other),
    {
        if self.raw >= other.raw {
            self
        } else {
            other
        }
    }

    /// The smaller of the two values.
    pub fn min_of(self, other: LayoutUnit) -> (r: LayoutUnit)
        ensures
            r == self.spec_min_of(other),
    {
        if self.raw <= other.raw {
            self
        } else {
            other
        }
    }

    /// `self` limited to `[lo, hi]`; where `lo > hi` the lower bound wins.
    pub fn clamp(self, lo: LayoutUnit, hi: LayoutUnit) -> (r: LayoutUnit)
        ensures
            r == self.spec_clamp(lo, hi),
    {
        self.min_of(hi).max_of(lo)
    }

    /// Negative values become zero.
    pub fn clamp_negative_to_zero(self) -> (r: LayoutUnit)
        ensures
            r == self.spec_clamp_negative_to_zero(),
    {
        if self.raw < 0 {
            LayoutUnit { raw: 0 }
        } else {
            self
        }
    }

    /// Whether this is the "no definite size" sentinel.
    pub fn is_indefinite(self) -> (r: bool)
        ensures
            r == (self == spec_indefinite()),
    {
        self.raw == -64
    }
}

/// Whole pixels of a raw value, rounding toward zero.
pub open spec fn half_toward_zero_by_64(x: int) -> int {
    if x >= 0 {
        x / 64
    } else {
        -((-x) / 64)
    }
}

/// The "no definite size" sentinel (-1 px).
pub fn indefinite_size() -> (r: LayoutUnit)
    ensures
        r == spec_indefinite(),
{
    LayoutUnit { raw: -64 }
}

/// An offset within a block formatting context.
#[derive(Clone, Copy, Debug, PartialEq, Eq, Structural, Hash)]
pub struct BfcOffset {
    pub line_offset: LayoutUnit,
    pub block_offset: LayoutUnit,
}

impl BfcOffset {
    pub fn new(line_offset: LayoutUnit, block_offset: LayoutUnit) -> (r: BfcOffset)
        ensures
            r.line_offset == line_offset,
            r.block_offset == block_offset,
    {
        BfcOffset { line_offset, block_offset }
    }

    pub fn zero() -> (r: BfcOffset)
        ensures
            r.line_offset.raw == 0,
            r.block_offset.raw == 0,
    {
        BfcOffset { line_offset: LayoutUnit { raw: 0 }, block_offset: LayoutUnit { raw: 0 } }
    }
}

/// A rectangle in block-formatting-context coordinates, given by its
/// start (line-left, block-start) and end (line-right, block-end) corners.
#[derive(Clone, Copy, Debug, PartialEq, Eq, Structural, Hash)]
pub struct BfcRect {
    pub start_offset: BfcOffset,
    pub end_offset: BfcOffset,
}

impl BfcRect {
    pub open spec fn spec_inline_size(self) -> LayoutUnit {
        self.end_offset.line_offset.spec_minus(self.start_offset.line_offset)
    }

    pub open spec fn spec_block_size(self) -> LayoutUnit {
        self.end_offset.block_offset.spec_minus(self.start_offset.block_offset)
    }

    pub fn new(start_offset: BfcOffset, end_offset: BfcOffset) -> (r: BfcRect)
        ensures
            r.start_offset == start_offset,
            r.end_offset == end_offset,
    {
        BfcRect { start_offset, end_offset }
    }

    pub fn line_start_offset(&self) -> (r: LayoutUnit)
        ensures
            r == self.start_offset.line_offset,
    {
        self.start_offset.line_offset
    }

    pub fn line_end_offset(&self) -> (r: LayoutUnit)
        ensures
            r == self.end_offset.line_offset,
    {
        self.end_offset.line_offset
    }

    pub fn block_start_offset(&self) -> (r: LayoutUnit)
        ensures
            r == self.start_offset.block_offset,
    {
        self.start_offset.block_offset
    }

    pub fn block_end_offset(&self) -> (r: LayoutUnit)
        ensures
            r == self.end_offset.block_offset,
    {
        self.end_offset.block_offset
    }

    /// Line-end minus line-start (saturating).
    pub fn inline_size(&self) -> (r: LayoutUnit)
        ensures
            r == self.spec_inline_size(),
    {
        self.end_offset.line_offset.minus(self.start_offset.line_offset)
    }

    /// Block-end minus block-start (saturating).
    pub fn block_size(&self) -> (r: LayoutUnit)
        ensures
            r == self.spec_block_size(),
    {
        self.end_offset.block_offset.minus(self.start_offset.block_offset)
    }
}

/// Widths of the four sides of a box (margins, borders or padding).
#[derive(Clone, Copy, Debug, PartialEq, Eq, Structural, Hash)]
pub struct BoxStrut {
    pub top: LayoutUnit,
    pub right: LayoutUnit,
    pub bottom: LayoutUnit,
    pub left: LayoutUnit,
}

impl BoxStrut {
    /// Sides in CSS order: top, right, bottom, left.
    pub fn new(top: LayoutUnit, right: LayoutUnit, bottom: LayoutUnit, left: LayoutUnit) -> (r:
        BoxStrut)
        ensures
            r.top == top,
            r.right == right,
            r.bottom == bottom,
            r.left == left,
    {
        BoxStrut { top, right, bottom, left }
    }

    pub fn zero() -> (r: BoxStrut)
        ensures
            r.top.raw == 0,
            r.right.raw == 0,
            r.bottom.raw == 0,
            r.left.raw == 0,
    {
        let z = LayoutUnit { raw: 0 };
        BoxStrut { top: z, right: z, bottom: z, left: z }
    }

    /// The same width on all four sides.
    pub fn all(v: LayoutUnit) -> (r: BoxStrut)
        ensures
            r.top == v,
            r.right == v,
            r.bottom == v,
            r.left == v,
    {
        BoxStrut { top: v, right: v, bottom: v, left: v }
    }

    /// Left plus right (saturating).
    pub fn inline_sum(&self) -> (r: LayoutUnit)
        ensures
            r == self.left.spec_plus(self.right),
    {
        self.left.plus(self.right)
    }

    /// Top plus bottom (saturating).
    pub fn block_sum(&self) -> (r: LayoutUnit)
        ensures
            r == self.top.spec_plus(self.bottom),
    {
        self.top.plus(self.bottom)
    }
}

/// A set of adjoining vertical margins being collapsed: the largest
/// positive margin and the most negative margin seen so far.
#[derive(Clone, Copy, Debug, PartialEq, Eq, Structural, Hash)]
pub struct MarginStrut {
    pub positive_margin: LayoutUnit,
    pub negative_margin: LayoutUnit,
}

impl MarginStrut {
    pub open spec fn spec_sum(self) -> LayoutUnit {
        self.positive_margin.spec_plus(self.negative_margin)
    }

    pub open spec fn spec_append_normal(self, value: LayoutUnit) -> MarginStrut {
        if value.raw < 0 {
            MarginStrut {
                negative_margin: self.negative_margin.spec_min_of(value),
                ..self
            }
        } else {
            MarginStrut {
                positive_margin: self.positive_margin.spec_max_of(value),
                ..self
            }
        }
    }

    /// An empty strut.
    pub fn new() -> (r: MarginStrut)
        ensures
            r.positive_margin.raw == 0,
            r.negative_margin.raw == 0,
    {
        MarginStrut { positive_margin: LayoutUnit { raw: 0 }, negative_margin: LayoutUnit { raw: 0 } }
    }

    /// Add a margin to the collapsing set.
    pub fn append_normal(&mut self, value: LayoutUnit)
        ensures
            *final(self) == old(self).spec_append_normal(value),
    {
        if value.raw < 0 {
            self.negative_margin = self.negative_margin.min_of(value);
        } else {
            self.positive_margin = self.positive_margin.max_of(value);
        }
    }

    /// The collapsed margin: largest positive plus most negative.
    pub fn sum(&self) -> (r: LayoutUnit)
        ensures
            r == self.spec_sum(),
    {
        self.positive_margin.plus(self.negative_margin)
    }

    /// Whether no margin has been collected.
    pub fn is_empty(&self) -> (r: bool)
        ensures
            r == (self.positive_margin.raw == 0 && self.negative_margin.raw == 0),
    {
        self.positive_margin.raw == 0 && self.negative_margin.raw == 0
    }
}

/// A pair of min-content and max-content sizes.
#[derive(Clone, Copy, Debug, PartialEq, Eq, Structural, Hash)]
pub struct MinMaxSizes {
    pub min: LayoutUnit,
    pub max: LayoutUnit,
}

impl MinMaxSizes {
    pub fn new(min: LayoutUnit, max: LayoutUnit) -> (r: MinMaxSizes)
        ensures
            r.min == min,
            r.max == max,
    {
        MinMaxSizes { min, max }
    }

    pub fn zero() -> (r: MinMaxSizes)
        ensures
            r.min.raw == 0,
            r.max.raw == 0,
    {
        MinMaxSizes { min: LayoutUnit { raw: 0 }, max: LayoutUnit { raw: 0 } }
    }
}

/// A width and height in physical coordinates.
#[derive(Clone, Copy, Debug, PartialEq, Eq, Structural, Hash)]
pub struct PhysicalSize {
    pub width: LayoutUnit,
    pub height: LayoutUnit,
}

impl PhysicalSize {
    pub fn new(width: LayoutUnit, height: LayoutUnit) -> (r: PhysicalSize)
        ensures
            r.width == width,
            r.height == height,
    {
        PhysicalSize { width, height }
    }
}

/// A position in physical coordinates, relative to a parent box.
#[derive(Clone, Copy, Debug, PartialEq, Eq, Structural, Hash)]
pub struct PhysicalOffset {
    pub left: LayoutUnit,
    pub top: LayoutUnit,
}

impl PhysicalOffset {
    pub fn new(left: LayoutUnit, top: LayoutUnit) -> (r: PhysicalOffset)
        ensures
            r.left == left,
            r.top == top,
    {
        PhysicalOffset { left, top }
    }
}

/// A rectangle in physical coordinates: its offset and size.
#[derive(Clone, Copy, Debug, PartialEq, Eq, Structural, Hash)]
pub struct PhysicalRect {
    pub offset: PhysicalOffset,
    pub size: PhysicalSize,
}

/// Identifies the DOM node that generated a box.
#[derive(Clone, Copy, Debug, PartialEq, Eq, Structural, Hash)]
pub struct NodeId {
    pub index: u32,
}

impl NodeId {
    /// The id that refers to no node.
    pub fn none() -> (r: NodeId)
        ensures
            r.index == u32::MAX,
    {
        NodeId { index: u32::MAX }
    }
}

} // verus!
