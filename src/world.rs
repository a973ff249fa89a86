use vstd::prelude::*;
use crate::ecs::{Attributes, EntityId, Liquid, Position};

verus! {

/// The components one entity carries.
pub struct EntityRecord {
    pub position: Option<Position>,
    pub attributes: Option<Attributes>,
    pub liquid: Option<Liquid>,
}

/// The authoritative store of entities: `EntityId(i)` names the `i`-th
/// record.
pub struct World {
    pub entities: Vec<EntityRecord>,
}

impl World {
    pub fn new() -> (w: World)
        ensures
            w.entities@.len() == 0,
    {
        World { entities: Vec::new() }
    }

    /// Adds an entity and returns its handle.
    pub fn spawn(&mut self, record: EntityRecord) -> (id: EntityId)
        requires
            old(self).entities@.len() < u32::MAX,
        ensures
            id.0 == old(self).entities@.len(),
            final(self).entities@ == old(self).entities@.push(record),
    {
        let id = EntityId(self.entities.len() as u32);
        self.entities.push(record);
        id
    }

    /// Where the entity stands, if it exists and has a position.
    pub open spec fn position_of(&self, id: EntityId) -> Option<Position> {
        if id.0 < self.entities@.len() {
            self.entities@[id.0 as int].position
        } else {
            None
        }
    }

    /// The entity's attributes, if it exists and has them.
    pub open spec fn attributes_of(&self, id: EntityId) -> Option<Attributes> {
        if id.0 < self.entities@.len() {
            self.entities@[id.0 as int].attributes
        } else {
            None
        }
    }

    /// Where the entity stands, if it exists and has a position.
    pub fn position(&self, id: EntityId) -> (r: Option<Position>)
        ensures
            r == self.position_of(id),
    {
        if (id.0 as usize) < self.entities.len() {
            self.entities[id.0 as usize].position
        } else {
            None
        }
    }

    /// Moves an existing entity to `p`.
    pub fn set_position(&mut self, id: EntityId, p: Position)
        requires
            (id.0 as int) < old(self).entities@.len(),
        ensures
            final(self).entities@.len() == old(self).entities@.len(),
            forall|e: EntityId|
                #[trigger] final(self).position_of(e) == if e == id {
                    Some(p)
                } else {
                    old(self).position_of(e)
                },
            forall|i: int|
                0 <= i < final(self).entities@.len() ==> (#[trigger] final(self).entities@[i]).attributes
                    == old(self).entities@[i].attributes && final(self).entities@[i].liquid
                    == old(self).entities@[i].liquid,
    {
        let i = id.0 as usize;
        let mut record = self.entities.remove(i);
        record.position = Some(p);
        self.entities.insert(i, record);
    }

    /// The entity's attributes, if it exists and has them.
    pub fn attributes(&self, id: EntityId) -> (r: Option<&Attributes>)
        ensures
            (id.0 as int) < self.entities@.len() ==> r == match self.entities@[id.0 as int].attributes {
                Some(a) => Some(&a),
                None => None::<&Attributes>,
            },
            (id.0 as int) >= self.entities@.len() ==> r is None,
    {
        if (id.0 as usize) < self.entities.len() {
            match &self.entities[id.0 as usize].attributes {
                Some(a) => Some(a),
                None => None,
            }
        } else {
            None
        }
    }
}

} // verus!
