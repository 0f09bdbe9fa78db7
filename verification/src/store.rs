//! The entity store: a sparse container mapping opaque entity identifiers to
//! component bundles.
//!
//! An identifier is the slot it was created in; destroying an entity empties
//! the slot and the identifier is never handed out again, so a stale
//! identifier is detected rather than aliased.  The store's view is the
//! sequence of slots, where a live slot holds the entity's bundle.

use vstd::prelude::*;

use crate::components::EntityRec;

verus! {

/// Opaque identifier of one entity in a [`Store`].
#[derive(Clone, Copy, PartialEq, Eq, Structural, Debug, Hash)]
pub struct EntityId(pub usize);

/// The error of an operation on an identifier no longer (or never) in the
/// store; callers recover locally and never surface it to the player.
#[derive(Clone, Copy, PartialEq, Eq, Structural, Debug)]
pub enum StoreError {
    EntityNotFound,
}

/// Sparse store of entities; see the module doc.
pub struct Store {
    slots: Vec<Option<EntityRec>>,
}

impl View for Store {
    type V = Seq<Option<EntityRec>>;

    closed spec fn view(&self) -> Seq<Option<EntityRec>> {
        self.slots@
    }
}

impl Store {
    /// An empty store.
    pub fn new() -> (s: Store)
        ensures
            s@ == Seq::<Option<EntityRec>>::empty(),
    {
        Store { slots: Vec::new() }
    }

    /// Creates an entity from a component bundle and returns its fresh
    /// identifier: the store grows by exactly that one live slot.
    pub fn create(&mut self, rec: EntityRec) -> (id: EntityId)
        ensures
            final(self)@ == old(self)@.push(Some(rec)),
            id.0 == old(self)@.len(),
    {
        let id = EntityId(self.slots.len());
        self.slots.push(Some(rec));
        id
    }

    /// Destroys the entity behind `id`, emptying its slot at once; a stale
    /// or foreign identifier leaves the store unchanged and reports
    /// [`StoreError::EntityNotFound`].
    pub fn destroy(&mut self, id: EntityId) -> (r: Result<(), StoreError>)
        ensures
            r is Ok <==> (id.0 < old(self)@.len() && old(self)@[id.0 as int] is Some),
            r is Ok ==> final(self)@ == old(self)@.update(id.0 as int, None::<EntityRec>),
            r is Err ==> final(self)@ == old(self)@,
    {
        if id.0 < self.slots.len() {
            if self.slots[id.0].is_some() {
                self.slots[id.0] = None;
                return Ok(());
            }
        }
        Err(StoreError::EntityNotFound)
    }

    /// Number of slots, live or empty.
    pub fn slot_count(&self) -> (n: usize)
        ensures
            n == self@.len(),
    {
        self.slots.len()
    }

    /// The bundle in slot `i`, or nothing for an empty slot.
    pub fn slot(&self, i: usize) -> (r: Option<EntityRec>)
        requires
            i < self@.len(),
        ensures
            r == self@[i as int],
    {
        self.slots[i]
    }

    /// Replaces the bundle of the live entity in slot `i`.
    pub fn set(&mut self, i: usize, rec: EntityRec)
        requires
            i < old(self)@.len(),
            old(self)@[i as int] is Some,
        ensures
            final(self)@ == old(self)@.update(i as int, Some(rec)),
    {
        self.slots[i] = Some(rec);
    }

    /// Empties slot `i`, removing whatever entity lived there.
    pub fn clear_slot(&mut self, i: usize)
        requires
            i < old(self)@.len(),
        ensures
            final(self)@ == old(self)@.update(i as int, None::<EntityRec>),
    {
        self.slots[i] = None;
    }
}

} // verus!
