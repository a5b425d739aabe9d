pub mod block;
pub mod compact;
pub mod config_fmt;
pub mod json;
pub mod semantics;

use crate::config::IconMode;
use vstd::prelude::*;

verus! {

/// How text output is decorated.
#[derive(Debug, Clone, Copy, PartialEq, Eq, Structural)]
pub struct RenderOptions {
    pub color: bool,
    pub icons: IconMode,
    pub full: bool,
    pub light_theme: bool,
}

impl RenderOptions {
    /// No color, no icons, condensed values, dark theme.
    pub fn plain_for_tests() -> (r: RenderOptions)
        ensures
            r == (RenderOptions { color: false, icons: IconMode::Off, full: false, light_theme: false }),
    {
        RenderOptions { color: false, icons: IconMode::Off, full: false, light_theme: false }
    }
}

} // verus!
