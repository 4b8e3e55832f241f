# openui-layout decisions, verified

The block-layout decisions of a CSS layout engine, written in Verus and
proved against their contracts.

- `src/geometry.rs`: layout units (1/64 px, saturating arithmetic), offsets,
  rectangles, struts and margin struts.
- `src/exclusions/`: the exclusion space of a block formatting context
  (float rectangles, layout opportunities, clearance) and float placement.
- `src/bfc_resolution.rs`: the state of a block formatting context's block
  offset and the floats waiting for it.
- `src/constraint_space.rs`: the constraint space handed from parent to
  child, and its builder.
- `src/css_sizing.rs`: sizing keywords, definite and automatic sizes,
  preferred sizes under min/max constraints.
- `src/block.rs`: margin collapsing, auto margins, clearance, new formatting
  contexts beside floats, intrinsic sizing keywords, multicol row snapping.
- `src/box_tree.rs`: the box tree with the computed style values that block
  layout reads, and the walks over it.
- `src/fragment_tree.rs`: laid-out fragments and the walks that block
  fragmentation makes over them.

`app/` holds what needs floating point: CSS lengths with `f32` values,
aspect ratios, and their conversion into layout units.

Run the tests with `cargo test`; the proofs are checked by Verus on
`src/lib.rs`.
