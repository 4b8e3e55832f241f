pub mod geometry;
pub mod exclusions;
pub mod bfc_resolution;
pub mod constraint_space;
pub mod css_sizing;
pub mod block;
pub mod box_tree;
pub mod fragment_tree;
