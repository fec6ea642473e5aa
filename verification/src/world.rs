//! The world: owner of the component-identity registry. Scheduling and
//! resource storage sit above this core and are not part of it.

use vstd::prelude::*;

use crate::component::Components;

verus! {

/// A world owns the registry of component types known to it; per-type
/// storages are created lazily against the identities it hands out.
pub struct World {
    pub components: Components,
}

impl World {
    /// Creates a world with an empty component registry.
    pub fn new() -> (w: Self)
        ensures
            w.components.wf(),
            w.components.keys() == Seq::<u64>::empty(),
    {
        World { components: Components::new() }
    }

    /// Accepts a world-scoped resource. Resource storage is not part of
    /// this storage core; the value is dropped and the world is unchanged,
    /// which the contract states explicitly.
    pub fn insert_non_send_resource<R>(&mut self, resource: R)
        ensures
            *final(self) == *old(self),
    {
        let _ = resource;
    }
}

} // verus!
