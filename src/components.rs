use crate::item::Item;
use vstd::prelude::*;

verus! {

/// The player input that concerns an entity.
#[derive(Clone, Debug, PartialEq, Eq, Structural)]
pub struct InputComponent {
    pub left_pressed: bool,
    pub right_pressed: bool,
    pub up_pressed: bool,
    pub down_pressed: bool,
}

impl InputComponent {
    /// No direction pressed.
    pub fn new() -> (r: InputComponent)
        ensures
            !r.left_pressed,
            !r.right_pressed,
            !r.up_pressed,
            !r.down_pressed,
    {
        InputComponent {
            left_pressed: false,
            right_pressed: false,
            up_pressed: false,
            down_pressed: false,
        }
    }
}

/// For entities that produce or carry items and hand them to entities with an inventory.
pub struct ItemSourceComponent {
    /// Entity ids of the inventories to hand items to, where possible.
    pub targets: [Option<usize>; 4],
    /// The item handed on.
    pub dump_item: Item,
    /// Whether to hand items on, from the next tick on.
    pub dump_enabled: bool,
    /// Whether a transfer succeeded on the previous tick.
    pub did_transfer: bool,
}

impl ItemSourceComponent {
    /// A source of `dump_item` for the given targets, not yet handing anything on.
    pub fn new(dump_item: Item, targets: [Option<usize>; 4]) -> (r: ItemSourceComponent)
        ensures
            r.targets == targets,
            r.dump_item == dump_item,
            !r.dump_enabled,
            !r.did_transfer,
    {
        ItemSourceComponent { targets, dump_item, dump_enabled: false, did_transfer: false }
    }
}

/// How many items a partial transfer moved.
pub struct InventoryPartialTransfer {
    amount: usize,
}

impl InventoryPartialTransfer {
    /// A partial transfer of `amount` items.
    pub fn new(amount: usize) -> (r: InventoryPartialTransfer)
        ensures
            r.amount() == amount,
    {
        InventoryPartialTransfer { amount }
    }

    pub closed spec fn amount(&self) -> usize {
        self.amount
    }

    /// Number of items the transfer moved.
    pub fn accepted(&self) -> (r: usize)
        ensures
            r == self.amount(),
    {
        self.amount
    }
}

/// The ways in which moving items in or out of an inventory can fail.
#[derive(Clone, Copy, Debug, PartialEq, Eq, Structural)]
pub enum InventoryError {
    /// Only this many items fit.
    PartialTransfer(usize),
    /// No item fits.
    Full,
    /// The inventory does not take this kind of item.
    RejectedItemType,
    /// The inventory holds fewer of the item than asked for.
    InsufficientItems,
}

} // verus!
