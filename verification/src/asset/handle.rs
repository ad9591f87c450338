//! Asset load states.
use vstd::prelude::*;

verus! {

/// Load state of an asset.
#[derive(Debug, Clone, Copy, PartialEq, Eq, Structural)]
pub enum AssetState {
    Unloaded,
    Loading,
    Loaded,
    Failed,
}

} // verus!
