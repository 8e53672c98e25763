//! The configuration of the engine's window.

use vstd::prelude::*;
use vstd::string::StringExecFns;

verus! {

/// The size of a window's drawing area, in logical pixels.
#[derive(Clone, Copy, Debug, PartialEq, Eq, Structural)]
pub struct Resolution {
    pub width: u32,
    pub height: u32,
}

/// How a window is run.
#[derive(Clone, Copy, Debug, PartialEq, Eq, Structural)]
pub enum WindowMode {
    /// The window is shown and runs the event loop until it is closed.
    Normal,
    /// The window is created hidden and no event loop is run.
    Test,
}

/// What a window is created with.
#[derive(Clone, Debug, PartialEq, Eq)]
pub struct WindowConfig {
    pub resolution: Resolution,
    pub title: String,
    pub resizable: bool,
    pub window_mode: WindowMode,
}

impl Default for WindowConfig {
    /// A resizable window of 1280 by 720 with the engine's name as its
    /// title, run in the normal mode.
    fn default() -> (config: Self)
        ensures
            config.resolution == (Resolution { width: 1280, height: 720 }),
            config.title@ == "Chronos Engine"@,
            config.resizable,
            config.window_mode == WindowMode::Normal,
    {
        Self {
            resolution: Resolution { width: 1280, height: 720 },
            title: String::from_str("Chronos Engine"),
            resizable: true,
            window_mode: WindowMode::Normal,
        }
    }
}

} // verus!
