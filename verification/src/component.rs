//! The component-identity registry: assigns a stable, densely numbered
//! identity to each component type on first registration, in order of first
//! registration, and attaches a human-readable descriptor to each identity.
//!
//! A component type is named by an opaque unsigned key chosen by the caller
//! (one distinct key per distinct type); the registry never reuses an
//! identity and never hands the same identity to two distinct keys.

use vstd::prelude::*;
use vstd::std_specs::vec::spec_vec_len;

verus! {

/// A stable integer naming a registered component type; identities are
/// assigned densely from zero in order of first registration.
#[derive(Debug, Clone, Copy, PartialEq, Eq, Hash, PartialOrd, Ord, Structural)]
pub struct ComponentId(usize);

impl ComponentId {
    /// The numeric value of this identity.
    pub closed spec fn value(self) -> int {
        self.0 as int
    }

    /// The position of this identity's storage slot.
    pub fn index(self) -> (r: usize)
        ensures
            r == self.value(),
    {
        self.0
    }
}

/// Static metadata attached to an identity at first registration;
/// immutable afterwards.
pub struct ComponentDescriptor {
    name: String,
}

impl ComponentDescriptor {
    /// The display name recorded for the component type.
    pub closed spec fn spec_name(&self) -> Seq<char> {
        self.name@
    }

    /// Builds a descriptor for a component type kept outside any send/sync
    /// bookkeeping, carrying the type's display name.
    pub fn new_non_send(name: String) -> (d: Self)
        ensures
            d.spec_name() == name@,
    {
        ComponentDescriptor { name }
    }

    /// The display name recorded for the component type.
    pub fn name(&self) -> (r: &String)
        ensures
            r@ == self.spec_name(),
    {
        &self.name
    }
}

/// One registered component type: its identity and its descriptor.
pub struct ComponentInfo {
    id: ComponentId,
    descriptor: ComponentDescriptor,
}

impl ComponentInfo {
    /// The identity this entry describes.
    pub closed spec fn spec_id(&self) -> ComponentId {
        self.id
    }

    /// The descriptor attached to the identity.
    pub closed spec fn spec_descriptor_name(&self) -> Seq<char> {
        self.descriptor.spec_name()
    }

    /// Creates a new registry entry.
    pub fn new(id: ComponentId, descriptor: ComponentDescriptor) -> (r: Self)
        ensures
            r.spec_id() == id,
            r.spec_descriptor_name() == descriptor.spec_name(),
    {
        ComponentInfo { id, descriptor }
    }
}

/// The registry of component types known to a world. Each distinct type
/// key is bound to one identity for the registry's whole lifetime.
pub struct Components {
    components: Vec<ComponentInfo>,
    resource_indices: Vec<u64>,
}

impl Components {
    /// The type keys registered so far, in order of first registration;
    /// the key at position `p` owns identity `p`.
    pub closed spec fn keys(&self) -> Seq<u64> {
        self.resource_indices@
    }

    /// Whether `key` has been registered.
    pub open spec fn registered(&self, key: u64) -> bool {
        self.keys().contains(key)
    }

    /// The identity bound to a registered key.
    pub closed spec fn identity(&self, key: u64) -> ComponentId {
        ComponentId(
            (choose|p: int|
                0 <= p < self.resource_indices@.len() && self.resource_indices@[p] == key) as usize,
        )
    }

    /// Whether `id` names a registered component type.
    pub open spec fn valid_id(&self, id: ComponentId) -> bool {
        0 <= id.value() < self.keys().len()
    }

    /// The display name attached to a registered identity.
    pub closed spec fn name_of(&self, id: ComponentId) -> Seq<char> {
        self.components@[id.value()].descriptor.spec_name()
    }

    /// Keys never repeat, identities are dense, and the entry at position
    /// `p` carries identity `p`.
    pub closed spec fn wf(&self) -> bool {
        &&& self.resource_indices@.no_duplicates()
        &&& self.components@.len() == self.resource_indices@.len()
        &&& forall|p: int|
            0 <= p < self.components@.len() ==> (#[trigger] self.components@[p]).id.0 == p
    }

    /// Creates an empty registry.
    pub fn new() -> (c: Self)
        ensures
            c.wf(),
            c.keys() == Seq::<u64>::empty(),
    {
        Components { components: Vec::new(), resource_indices: Vec::new() }
    }

    /// Registers the component type named by `key`, treating it as kept
    /// outside any send/sync bookkeeping, and returns its identity: the one
    /// already bound to `key` when `key` was seen before (the registry is
    /// then left untouched), else the next dense identity, bound to `key`
    /// from now on, with `name` recorded as its descriptor.
    pub fn init_non_send(&mut self, key: u64, name: String) -> (r: ComponentId)
        requires
            old(self).wf(),
        ensures
            final(self).wf(),
            final(self).registered(key),
            r == final(self).identity(key),
            final(self).valid_id(r),
            final(self).name_of(r) == (if old(self).registered(key) {
                old(self).name_of(old(self).identity(key))
            } else {
                name@
            }),
            old(self).registered(key) ==> *final(self) == *old(self) && r == old(self).identity(
                key,
            ),
            !old(self).registered(key) ==> final(self).keys() == old(self).keys().push(key)
                && r.value() == old(self).keys().len(),
            forall|id: ComponentId|
                old(self).valid_id(id) ==> final(self).valid_id(id) && final(self).name_of(id)
                    == old(self).name_of(id),
    {
        let descriptor = ComponentDescriptor::new_non_send(name);
        self.get_or_insert_resource_with(key, descriptor)
    }

    /// Looks the key up by linear scan; on a miss, binds it to the next
    /// dense identity and records the descriptor.
    fn get_or_insert_resource_with(&mut self, type_id: u64, descriptor: ComponentDescriptor) -> (r:
        ComponentId)
        requires
            old(self).wf(),
        ensures
            final(self).wf(),
            final(self).registered(type_id),
            r == final(self).identity(type_id),
            final(self).valid_id(r),
            final(self).name_of(r) == (if old(self).registered(type_id) {
                old(self).name_of(old(self).identity(type_id))
            } else {
                descriptor.spec_name()
            }),
            old(self).registered(type_id) ==> *final(self) == *old(self) && r == old(
                self,
            ).identity(type_id),
            !old(self).registered(type_id) ==> final(self).keys() == old(self).keys().push(
                type_id,
            ) && r.value() == old(self).keys().len(),
            forall|id: ComponentId|
                old(self).valid_id(id) ==> final(self).valid_id(id) && final(self).name_of(id)
                    == old(self).name_of(id),
    {
        let n = self.resource_indices.len();
        let mut p: usize = 0;
        while p < n
            invariant
                *self == *old(self),
                self.wf(),
                n == self.resource_indices@.len(),
                p <= n,
                forall|j: int| 0 <= j < p ==> self.resource_indices@[j] != type_id,
            decreases n - p,
        {
            if self.resource_indices[p] == type_id {
                proof {
                    let cp = choose|c: int|
                        0 <= c < self.resource_indices@.len() && self.resource_indices@[c]
                            == type_id;
                    assert(cp == p as int);
                }
                return ComponentId(p);
            }
            p = p + 1;
        }
        let index = self.resource_indices.len();
        self.resource_indices.push(type_id);
        self.components.push(ComponentInfo::new(ComponentId(index), descriptor));
        proof {
            assert(self.resource_indices@[index as int] == type_id);
            assert(self.resource_indices@.no_duplicates());
            let cp = choose|c: int|
                0 <= c < self.resource_indices@.len() && self.resource_indices@[c] == type_id;
            assert(cp == index as int);
        }
        ComponentId(index)
    }

    /// The descriptor attached to a registered identity.
    pub fn descriptor_of(&self, id: ComponentId) -> (d: &ComponentDescriptor)
        requires
            self.wf(),
            self.valid_id(id),
        ensures
            d.spec_name() == self.name_of(id),
    {
        &self.components[id.index()].descriptor
    }

    /// Two distinct registered keys are never bound to the same identity.
    pub proof fn lemma_distinct_identities(&self, k1: u64, k2: u64)
        requires
            self.wf(),
            self.registered(k1),
            self.registered(k2),
            k1 != k2,
        ensures
            self.identity(k1) != self.identity(k2),
    {
        broadcast use vstd::std_specs::vec::axiom_spec_len;

        assert(spec_vec_len(&self.resource_indices) == self.resource_indices@.len());
        let c1 = choose|p: int|
            0 <= p < self.resource_indices@.len() && self.resource_indices@[p] == k1;
        let c2 = choose|p: int|
            0 <= p < self.resource_indices@.len() && self.resource_indices@[p] == k2;
        assert(0 <= c1 < self.resource_indices@.len());
        assert(0 <= c2 < self.resource_indices@.len());
        assert(self.resource_indices@[c1] == k1);
        assert(self.resource_indices@[c2] == k2);
        assert(c1 != c2);
        assert(self.identity(k1) == ComponentId(c1 as usize));
        assert(self.identity(k2) == ComponentId(c2 as usize));
        assert(c1 as usize != c2 as usize);
    }
}

} // verus!
