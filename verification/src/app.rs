//! The application shell: a world plus a window handle. Running the event
//! loop is platform I/O and lives with the host application.

use vstd::prelude::*;

use crate::ecs;
use crate::window;

verus! {

/// An application: world state plus its window handle.
pub struct App {
    pub world: ecs::World,
    pub window: window::Window,
}

impl App {
    /// Creates an application with a fresh, empty world.
    pub fn new() -> (a: App)
        ensures
            a.world.archetype_count() == 0,
    {
        App { world: ecs::World::new(), window: window::Window::new() }
    }
}

} // verus!
