//! Configuration values the library works from. The surrounding binary
//! reads its configuration file and hands these plain values in.

use vstd::prelude::*;

verus! {

/// Paths of the input-event device nodes.
pub struct BuckEventPaths {
    pub pointer: String,
}

/// The fixed viewport and the layout scale, in per mille.
pub struct UiConfig {
    pub width: u32,
    pub height: u32,
    pub scale_pm: u32,
}

} // verus!
