//! A verified midsection of a browser-style rendering pipeline.
//!
//! The crate turns a styled render-node tree plus solver-reported geometry
//! into a tree of absolutely positioned, box-modeled layout elements,
//! partitions the viewport into fixed-size tiles, and lowers the elements
//! overlapping each tile into backend-neutral paint commands in tile-local
//! coordinates. All geometry is carried in fixed-point coordinate units
//! ([`geom::PX`] units per pixel), so that sub-pixel border arithmetic
//! stays exact.
//!
//! The geometric constraint solver, text shaping, asset decoding and the
//! concrete rasterization backends are external collaborators: the crate
//! states the contracts it requires of them and verifies everything in
//! between.

pub mod boxmodel;
pub mod browser_state;
pub mod compositor;
pub mod geom;
pub mod layout;
pub mod painter;
pub mod style;
pub mod texture_store;
pub mod tiler;
