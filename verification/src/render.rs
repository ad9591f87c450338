//! Rendering vocabulary shared with materials.
use vstd::prelude::*;

verus! {

/// How a material's alpha channel is used.
#[derive(Debug, Clone, Copy, PartialEq, Eq, Structural)]
pub enum AlphaMode {
    Opaque,
    /// Alpha test against a cutoff.
    Mask,
    AlphaBlend,
    PremultipliedAlpha,
}

} // verus!
