use crate::components::InventoryError;
use crate::content_cache::{map_get, map_insert, new_map, table_entries, HashTable};
use crate::item::{item_at, lemma_item_at, lemma_item_index, Item, ITEM_KINDS};
use vstd::prelude::*;

verus! {

/// The abstract state of an inventory.
pub struct InventoryView {
    /// The kinds of item accepted, or `None` for all kinds.
    pub whitelist: Option<Seq<Item>>,
    /// Room left, in items.
    pub free: nat,
    /// Quantity held of each kind that has an entry.
    pub contents: Map<Item, usize>,
}

/// Quantity held of `it` (zero without an entry).
pub open spec fn quantity(contents: Map<Item, usize>, it: Item) -> nat {
    if contents.contains_key(it) {
        contents[it] as nat
    } else {
        0
    }
}

/// Total quantity held of the first `k` kinds of item.
pub open spec fn held(contents: Map<Item, usize>, k: int) -> nat
    decreases k,
{
    if k <= 0 {
        0
    } else {
        held(contents, k - 1) + quantity(contents, item_at(k - 1))
    }
}

/// Total quantity held of every kind.
pub open spec fn total(contents: Map<Item, usize>) -> nat {
    held(contents, ITEM_KINDS as int)
}

/// The inventory accepts items of this kind.
pub open spec fn accepts(v: InventoryView, it: Item) -> bool {
    match v.whitelist {
        Some(w) => w.contains(it),
        None => true,
    }
}

proof fn lemma_held_insert(c: Map<Item, usize>, it: Item, q: usize, k: int)
    requires
        0 <= k <= ITEM_KINDS,
    ensures
        held(c.insert(it, q), k) + (if it.index() < k {
            quantity(c, it)
        } else {
            0
        }) == held(c, k) + (if it.index() < k {
            q as nat
        } else {
            0
        }),
    decreases k,
{
    if k > 0 {
        lemma_held_insert(c, it, q, k - 1);
        lemma_item_at(k - 1);
        lemma_item_index(it);
    }
}

proof fn lemma_quantity_le_held(c: Map<Item, usize>, it: Item, k: int)
    requires
        0 <= k <= ITEM_KINDS,
        it.index() < k,
    ensures
        quantity(c, it) <= held(c, k),
    decreases k,
{
    lemma_item_index(it);
    if it.index() < k - 1 {
        lemma_quantity_le_held(c, it, k - 1);
    }
}

/// An inventory of limited room that holds items by kind, optionally only some kinds.
pub struct InventoryComponent {
    item_whitelist: Option<Vec<Item>>,
    free: usize,
    contents: HashTable,
}

impl View for InventoryComponent {
    type V = InventoryView;

    closed spec fn view(&self) -> InventoryView {
        InventoryView {
            whitelist: match self.item_whitelist {
                Some(w) => Some(w@),
                None => None,
            },
            free: self.free as nat,
            contents: Map::new(
                |it: Item| table_entries(self.contents).contains_key(it.index()),
                |it: Item| table_entries(self.contents)[it.index()],
            ),
        }
    }
}

impl InventoryComponent {
    /// Everything the inventory holds, plus its free room, fits in a `usize`.
    pub open spec fn wf(&self) -> bool {
        total(self@.contents) + self@.free <= usize::MAX
    }

    /// An empty inventory with room for `cap` items, that accepts every kind.
    pub fn new(cap: usize) -> (r: InventoryComponent)
        ensures
            r.wf(),
            r@.whitelist is None,
            r@.free == cap,
            r@.contents == Map::<Item, usize>::empty(),
    {
        let r = InventoryComponent { item_whitelist: None, free: cap, contents: new_map() };
        assert(r@.contents =~= Map::<Item, usize>::empty());
        assert(held(r@.contents, ITEM_KINDS as int) == 0) by {
            reveal_with_fuel(held, 17);
        }
        r
    }

    /// An empty inventory with room for `cap` items, that accepts only the listed kinds.
    pub fn with_whitelist(cap: usize, items: Vec<Item>) -> (r: InventoryComponent)
        ensures
            r.wf(),
            r@.whitelist == Some(items@),
            r@.free == cap,
            r@.contents == Map::<Item, usize>::empty(),
    {
        let r = InventoryComponent { item_whitelist: Some(items), free: cap, contents: new_map() };
        assert(r@.contents =~= Map::<Item, usize>::empty());
        assert(held(r@.contents, ITEM_KINDS as int) == 0) by {
            reveal_with_fuel(held, 17);
        }
        r
    }

    /// The quantity held of an item, if it has an entry; nothing is removed.
    pub fn peek(&self, item: Item) -> (r: Option<usize>)
        ensures
            r is Some <==> self@.contents.contains_key(item),
            r is Some ==> r->0 == self@.contents[item],
    {
        map_get(&self.contents, item.to_index())
    }

    /// Room left, in items.
    pub fn free_space(&self) -> (r: usize)
        ensures
            r == self@.free,
    {
        self.free
    }

    fn whitelisted(&self, item: Item) -> (r: bool)
        ensures
            r == accepts(self@, item),
    {
        match &self.item_whitelist {
            None => true,
            Some(w) => {
                assert(self@.whitelist == Some(w@));
                let mut i: usize = 0;
                while i < w.len()
                    invariant
                        i <= w@.len(),
                        self@.whitelist == Some(w@),
                        forall|j: int| 0 <= j < i ==> w@[j] != item,
                    decreases w@.len() - i,
                {
                    if w[i] == item {
                        assert(w@[i as int] == item);
                        assert(w@.contains(item));
                        return true;
                    }
                    i = i + 1;
                }
                false
            },
        }
    }

    /// Adds `quantity` items of a kind.
    ///
    /// Fails, changing nothing, when there is not room for all of them (saying how many would
    /// fit, if any) or when the kind is not accepted.
    pub fn insert(&mut self, item: Item, quantity: usize) -> (r: Result<(), InventoryError>)
        requires
            old(self).wf(),
        ensures
            final(self).wf(),
            quantity > old(self)@.free ==> r == Err::<(), InventoryError>(
                if old(self)@.free > 0 {
                    InventoryError::PartialTransfer(old(self)@.free as usize)
                } else {
                    InventoryError::Full
                },
            ),
            quantity <= old(self)@.free && !accepts(old(self)@, item) ==> r == Err::<
                (),
                InventoryError,
            >(InventoryError::RejectedItemType),
            r is Err ==> final(self)@ == old(self)@,
            r is Ok <==> quantity <= old(self)@.free && accepts(old(self)@, item),
            r is Ok ==> final(self)@ == (InventoryView {
                free: (old(self)@.free - quantity) as nat,
                contents: old(self)@.contents.insert(
                    item,
                    (crate::inventory::quantity(old(self)@.contents, item) + quantity) as usize,
                ),
                ..old(self)@
            }),
    {
        if quantity > self.free {
            if self.free > 0 {
                return Err(InventoryError::PartialTransfer(self.free));
            }
            return Err(InventoryError::Full);
        }
        if !self.whitelisted(item) {
            return Err(InventoryError::RejectedItemType);
        }
        let ghost v0 = self@;
        let key = item.to_index();
        proof {
            lemma_item_index(item);
            lemma_quantity_le_held(v0.contents, item, ITEM_KINDS as int);
        }
        let new_quantity = match map_get(&self.contents, key) {
            Some(q) => q + quantity,
            None => quantity,
        };
        map_insert(&mut self.contents, key, new_quantity);
        self.free = self.free - quantity;
        proof {
            assert forall|it: Item| #[trigger] self@.contents.contains_key(it) == v0.contents.insert(
                item,
                new_quantity,
            ).contains_key(it) by {
                lemma_item_index(it);
                lemma_item_index(item);
            }
            assert(self@.contents =~= v0.contents.insert(item, new_quantity)) by {
                assert forall|it: Item| #[trigger] self@.contents.contains_key(it) implies self@.contents[it]
                    == v0.contents.insert(item, new_quantity)[it] by {
                    lemma_item_index(it);
                    lemma_item_index(item);
                }
            }
            lemma_held_insert(v0.contents, item, new_quantity, ITEM_KINDS as int);
        }
        Ok(())
    }

    /// Takes `quantity` items of a kind out.
    ///
    /// Fails, changing nothing, when the inventory holds fewer of them.
    pub fn retrieve(&mut self, item: Item, quantity: usize) -> (r: Result<(), InventoryError>)
        requires
            old(self).wf(),
        ensures
            final(self).wf(),
            r is Ok <==> old(self)@.contents.contains_key(item) && quantity
                <= old(self)@.contents[item],
            r is Err ==> r == Err::<(), InventoryError>(InventoryError::InsufficientItems)
                && final(self)@ == old(self)@,
            r is Ok ==> final(self)@ == (InventoryView {
                free: old(self)@.free + quantity as nat,
                contents: old(self)@.contents.insert(
                    item,
                    (old(self)@.contents[item] - quantity) as usize,
                ),
                ..old(self)@
            }),
    {
        let key = item.to_index();
        let contained = match map_get(&self.contents, key) {
            Some(q) => q,
            None => {
                return Err(InventoryError::InsufficientItems);
            },
        };
        if contained < quantity {
            return Err(InventoryError::InsufficientItems);
        }
        let ghost v0 = self@;
        proof {
            lemma_item_index(item);
            lemma_quantity_le_held(v0.contents, item, ITEM_KINDS as int);
        }
        map_insert(&mut self.contents, key, contained - quantity);
        self.free = self.free + quantity;
        proof {
            let target = v0.contents.insert(item, (contained - quantity) as usize);
            assert forall|it: Item| #[trigger] self@.contents.contains_key(it) == target.contains_key(
                it,
            ) by {
                lemma_item_index(it);
                lemma_item_index(item);
            }
            assert(self@.contents =~= target) by {
                assert forall|it: Item| #[trigger] self@.contents.contains_key(it) implies self@.contents[it]
                    == target[it] by {
                    lemma_item_index(it);
                    lemma_item_index(item);
                }
            }
            lemma_held_insert(v0.contents, item, (contained - quantity) as usize, ITEM_KINDS as int);
        }
        Ok(())
    }

    /// Whether `quantity` items of a kind would be accepted now.
    pub fn check_item_accept(&self, item: Item, quantity: usize) -> (r: bool)
        ensures
            r == (accepts(self@, item) && quantity <= self@.free),
    {
        if !self.whitelisted(item) {
            return false;
        }
        self.free >= quantity
    }
}

} // verus!
