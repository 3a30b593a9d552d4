//! The platform whose rules a decision follows.
use vstd::prelude::*;

verus! {

/// The two families of platforms that the rules tell apart.
#[derive(Clone, Copy, Debug, PartialEq, Eq, Structural)]
pub enum Platform {
    Windows,
    /// Every other platform.
    Unix,
}

} // verus!
