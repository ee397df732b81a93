use vstd::prelude::*;

verus! {

/// A wall made of copper.
#[derive(Clone, Debug)]
pub struct CopperWall {}

/// A drill that mines material and puts it into an inventory.
pub struct MechanicalDrill {
    target_inventory_entity_id: usize,
}

impl MechanicalDrill {
    /// The entity id of the inventory the drill fills.
    pub closed spec fn target(&self) -> usize {
        self.target_inventory_entity_id
    }

    /// A drill that puts what it mines into the inventory of the given entity. It does nothing
    /// until it is placed in the world.
    pub fn new(target_inventory_entity_id: usize) -> (r: MechanicalDrill)
        ensures
            r.target() == target_inventory_entity_id,
    {
        MechanicalDrill { target_inventory_entity_id }
    }

    /// The entity id of the inventory the drill fills.
    pub fn target_inventory_entity_id(&self) -> (r: usize)
        ensures
            r == self.target(),
    {
        self.target_inventory_entity_id
    }
}

/// Moves entity sprites by their velocity.
pub struct MovementSystem {}

} // verus!
