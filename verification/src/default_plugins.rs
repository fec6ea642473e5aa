//! The default plugin selection an application starts from.

use vstd::prelude::*;

verus! {

/// The default group of plugins: the platform event-loop plugin.
#[derive(Default)]
pub struct DefaultPlugins {}

} // verus!
