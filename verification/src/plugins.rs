//! Configuration carried by the windowing plugins. The plugin build steps
//! themselves touch the platform event loop and live with the host
//! application; the configuration they read is plain data.

use vstd::prelude::*;

verus! {

/// Configuration for the windowing plugin.
pub struct WindowPlugin {
    /// Whether a close request from the platform shuts the window down.
    pub close_when_requested: bool,
}

impl Default for WindowPlugin {
    /// By default a close request is honoured.
    fn default() -> (d: Self)
        ensures
            d.close_when_requested,
    {
        WindowPlugin { close_when_requested: true }
    }
}

/// The plugin that owns the platform event loop.
#[derive(Default)]
pub struct WinitPlugin {}

} // verus!
