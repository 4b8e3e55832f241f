use std::sync::Arc;

use lib::constraint_space::{ConstraintSpace, ConstraintSpaceBuilder};
use lib::exclusions::exclusion_space::ExclusionSpace;
use lib::geometry::{BfcOffset, LayoutUnit};

fn lu(v: i32) -> LayoutUnit {
    LayoutUnit::from_i32(v)
}

#[test]
fn root_space() {
    let s = ConstraintSpace::for_root(lu(800), lu(600));
    assert_eq!(s.available_inline_size, lu(800));
    assert_eq!(s.available_block_size, lu(600));
    assert_eq!(s.percentage_resolution_inline_size, lu(800));
    assert_eq!(s.percentage_resolution_block_size, lu(600));
    assert!(s.is_new_formatting_context);
    assert!(s.exclusion_space.is_none());
    assert!(!s.has_block_fragmentation());
}

#[test]
fn block_and_flex_child_spaces() {
    let b = ConstraintSpace::for_block_child(lu(300), lu(200), lu(400), lu(500), false);
    assert_eq!(b.available_inline_size, lu(300));
    assert_eq!(b.percentage_resolution_block_size, lu(500));
    assert!(!b.is_new_formatting_context);
    let f = ConstraintSpace::for_flex_child(lu(300), lu(200), lu(400), lu(500));
    assert!(f.is_new_formatting_context);
    assert!(!f.stretch_inline_size);
}

#[test]
fn builder_sets_fields() {
    let space = ConstraintSpaceBuilder::new()
        .set_available_size(lu(100), lu(50))
        .set_percentage_resolution_size(lu(120), lu(60))
        .set_bfc_offset(BfcOffset::new(lu(3), lu(4)))
        .set_floats_bfc_block_offset(Some(lu(9)))
        .set_exclusion_space(Some(Arc::new(ExclusionSpace::new())))
        .set_is_new_formatting_context(false)
        .set_is_fixed_inline_size(true)
        .set_is_fixed_block_size(true)
        .set_stretch_inline_size(true)
        .set_stretch_block_size(true)
        .set_is_initial_block_size_indefinite(true)
        .set_fragmentainer_block_size(lu(500))
        .set_block_offset_in_fragmentainer(lu(20))
        .set_is_resuming(true)
        .set_needs_first_baseline(true)
        .set_needs_last_baseline(true)
        .build();
    assert_eq!(space.available_inline_size, lu(100));
    assert_eq!(space.available_block_size, lu(50));
    assert_eq!(space.percentage_resolution_inline_size, lu(120));
    assert_eq!(space.bfc_offset, BfcOffset::new(lu(3), lu(4)));
    assert_eq!(space.floats_bfc_block_offset, Some(lu(9)));
    assert!(space.exclusion_space.is_some());
    assert!(!space.is_new_formatting_context);
    assert!(space.is_fixed_inline_size && space.is_fixed_block_size);
    assert!(space.stretch_inline_size && space.stretch_block_size);
    assert!(space.is_initial_block_size_indefinite);
    assert!(space.has_block_fragmentation());
    assert_eq!(space.block_offset_in_fragmentainer, lu(20));
    assert!(space.is_resuming && space.needs_first_baseline && space.needs_last_baseline);
}

#[test]
fn from_parent_inherits_but_clears_child_flags() {
    let parent = ConstraintSpaceBuilder::new()
        .set_available_size(lu(100), lu(50))
        .set_is_new_formatting_context(false)
        .set_stretch_inline_size(true)
        .set_needs_last_baseline(true)
        .set_fragmentainer_block_size(lu(300))
        .build();
    let child = ConstraintSpaceBuilder::from_parent(&parent).build();
    assert_eq!(child.available_inline_size, lu(100));
    assert!(!child.is_new_formatting_context);
    assert!(!child.stretch_inline_size);
    assert!(!child.needs_last_baseline);
    assert_eq!(child.fragmentainer_block_size, lu(300));
    let copy = parent.clone();
    assert!(copy.stretch_inline_size);
}

#[test]
fn inherited_space_shares_the_exclusion_space() {
    let mut exclusions = ExclusionSpace::new();
    exclusions.add(lib::exclusions::exclusion_space::ExclusionArea {
        rect: lib::geometry::BfcRect::new(BfcOffset::new(lu(0), lu(0)), BfcOffset::new(lu(50), lu(50))),
        exclusion_type: lib::exclusions::exclusion_space::ExclusionType::Left,
    });
    let parent = ConstraintSpaceBuilder::new().set_exclusion_space(Some(Arc::new(exclusions))).build();
    let child = ConstraintSpaceBuilder::from_parent(&parent).build();
    let shared = child.exclusion_space.expect("inherited exclusion space");
    assert_eq!(shared.num_exclusions(), 1);
    assert!(Arc::ptr_eq(&shared, parent.exclusion_space.as_ref().unwrap()));
}
