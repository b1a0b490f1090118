//! Plain data handed across the library boundary each frame.

use vstd::prelude::*;

verus! {

/// The directional input signals polled once per frame; how they were
/// sourced is the caller's business.
#[derive(Clone, Copy, Debug, PartialEq, Eq, Structural)]
pub struct KeysDown {
    pub up: bool,
    pub down: bool,
    pub left: bool,
    pub right: bool,
    pub w: bool,
    pub s: bool,
}

} // verus!
