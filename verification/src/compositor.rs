//! The interface a rasterization backend implements: consume the paint
//! commands of a tile and produce drawn output. Exactly one concrete
//! backend is linked into a build; the pipeline itself never assumes
//! which one is active.

use vstd::prelude::*;

verus! {

/// A rasterization backend: given its configuration, compose the drawn
/// output for the current tile set.
pub trait Composable {
    type Config;

    type Return;

    fn compose(config: Self::Config) -> Self::Return;
}

} // verus!
