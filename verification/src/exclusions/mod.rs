//! Float exclusions within a block formatting context and float placement.
pub mod exclusion_space;
pub mod float_utils;
