//! An archetype-keyed sketch of world state: numbered archetypes and
//! versioned entity handles. The exercised storage path lives in the
//! sparse-set and masked-storage modules; this layer only names things.

use vstd::prelude::*;

verus! {

/// World state keyed by archetype.
pub struct World {
    archetypes: Archetypes,
}

/// The archetypes known to a world, in creation order.
pub struct Archetypes {
    archetypes: Vec<Archetype>,
}

/// One archetype: a distinct combination of component types.
pub struct Archetype {
    id: ArchetypeIdentifier,
}

/// A dense number naming one archetype.
#[derive(Clone, Copy, PartialEq, Eq, Structural)]
pub struct ArchetypeIdentifier(u32);

/// A versioned entity handle: a storage slot index plus the generation at
/// which the slot was allocated.
pub struct Entity {
    generation: u32,
    index: u32,
}

impl Entity {
    /// Builds a handle from its slot index and generation stamp.
    pub fn new(index: u32, generation: u32) -> (e: Self)
        ensures
            e.spec_index() == index,
            e.spec_generation() == generation,
    {
        Entity { generation, index }
    }

    /// The storage slot this handle points at.
    pub closed spec fn spec_index(&self) -> u32 {
        self.index
    }

    /// The allocation generation of the slot.
    pub closed spec fn spec_generation(&self) -> u32 {
        self.generation
    }
}

impl World {
    /// The number of archetypes the world knows.
    pub closed spec fn archetype_count(&self) -> nat {
        self.archetypes.count()
    }

    /// Creates a world with no archetypes.
    pub fn new() -> (w: World)
        ensures
            w.archetype_count() == 0,
    {
        World { archetypes: Archetypes::new() }
    }
}

impl Archetypes {
    /// The number of archetypes registered.
    pub closed spec fn count(&self) -> nat {
        self.archetypes@.len()
    }

    /// Creates an empty archetype table.
    pub fn new() -> (a: Archetypes)
        ensures
            a.count() == 0,
    {
        Archetypes { archetypes: Vec::new() }
    }
}

impl ArchetypeIdentifier {
    /// Wraps a raw archetype number.
    pub fn new(id: u32) -> (a: ArchetypeIdentifier)
        ensures
            a.spec_index() == id,
    {
        ArchetypeIdentifier(id)
    }

    /// The raw archetype number.
    pub closed spec fn spec_index(self) -> u32 {
        self.0
    }

    /// The raw archetype number.
    pub fn index(self) -> (r: u32)
        ensures
            r == self.spec_index(),
    {
        self.0
    }
}

} // verus!
