//! The windowing handle. Opening a window and pumping its event loop are
//! platform I/O and live with the host application; the handle itself is
//! plain data.

use vstd::prelude::*;

verus! {

/// A handle naming the application's window.
pub struct Window {}

impl Window {
    /// Creates the window handle.
    pub fn new() -> Self {
        Window {  }
    }
}

} // verus!
