//! Timer vocabulary.
use vstd::prelude::*;

verus! {

/// How a timer behaves once its duration has elapsed.
#[derive(Debug, Clone, Copy, PartialEq, Eq, Structural)]
pub enum TimerMode {
    /// Fires once, then stops.
    Once,
    /// Fires every period.
    Repeating,
}

} // verus!
