use vstd::prelude::*;

verus! {

/// Something that can be held in an inventory, and that has a sprite.
#[derive(Clone, Copy, Debug, PartialEq, Eq, Hash, Structural)]
pub enum Item {
    Scrap,
    Copper,
    Lead,
    Graphite,
    Coal,
    Titanium,
    Thorium,
    Silicon,
    Plastanium,
    PhaseFabric,
    SurgeAlloy,
    SporePod,
    Sand,
    BlastCompound,
    Pyratite,
    Metaglass,
}

impl Item {
    /// Name of the resource that holds the item's sprite.
    pub open spec fn sprite_name(self) -> Seq<char> {
        match self {
            Item::Scrap => "item_scrapTiles"@,
            Item::Copper => "item_copperTiles"@,
            Item::Lead => "item_leadTiles"@,
            Item::Graphite => "item_graphiteTiles"@,
            Item::BlastCompound => "item_blast_compoundTiles"@,
            Item::Coal => "item_coalTiles"@,
            Item::Metaglass => "item_metaglassTiles"@,
            Item::PhaseFabric => "item_phase_fabricTiles"@,
            Item::Plastanium => "item_plastaniumTiles"@,
            Item::Pyratite => "item_pyratiteTiles"@,
            Item::Sand => "item_sandTiles"@,
            Item::Silicon => "item_siliconTiles"@,
            Item::SporePod => "item_spore_podTiles"@,
            Item::SurgeAlloy => "item_surge_alloyTiles"@,
            Item::Thorium => "item_thoriumTiles"@,
            Item::Titanium => "item_titaniumTiles"@,
        }
    }

    /// Name of the item as shown to the player.
    pub open spec fn display_name(self) -> Seq<char> {
        match self {
            Item::Scrap => "Scrap"@,
            Item::Copper => "Copper"@,
            Item::Lead => "Lead"@,
            Item::Graphite => "Graphite"@,
            Item::BlastCompound => "Blast Compound"@,
            Item::Coal => "Coal"@,
            Item::Metaglass => "Metaglass"@,
            Item::PhaseFabric => "Phase Fabric"@,
            Item::Plastanium => "Plastanium"@,
            Item::Pyratite => "Pyratite"@,
            Item::Sand => "Sand"@,
            Item::Silicon => "Silicon"@,
            Item::SporePod => "Spore Pod"@,
            Item::SurgeAlloy => "Surge Alloy"@,
            Item::Thorium => "Thorium"@,
            Item::Titanium => "Titanium"@,
        }
    }

    /// Returns the name of the resource that holds the item's sprite.
    pub fn to_sprite_name(self) -> (r: &'static str)
        ensures
            r@ == self.sprite_name(),
    {
        match self {
            Item::Scrap => "item_scrapTiles",
            Item::Copper => "item_copperTiles",
            Item::Lead => "item_leadTiles",
            Item::Graphite => "item_graphiteTiles",
            Item::BlastCompound => "item_blast_compoundTiles",
            Item::Coal => "item_coalTiles",
            Item::Metaglass => "item_metaglassTiles",
            Item::PhaseFabric => "item_phase_fabricTiles",
            Item::Plastanium => "item_plastaniumTiles",
            Item::Pyratite => "item_pyratiteTiles",
            Item::Sand => "item_sandTiles",
            Item::Silicon => "item_siliconTiles",
            Item::SporePod => "item_spore_podTiles",
            Item::SurgeAlloy => "item_surge_alloyTiles",
            Item::Thorium => "item_thoriumTiles",
            Item::Titanium => "item_titaniumTiles",
        }
    }

    /// Returns the name of the item as shown to the player.
    pub fn to_display_name(self) -> (r: &'static str)
        ensures
            r@ == self.display_name(),
    {
        match self {
            Item::Scrap => "Scrap",
            Item::Copper => "Copper",
            Item::Lead => "Lead",
            Item::Graphite => "Graphite",
            Item::BlastCompound => "Blast Compound",
            Item::Coal => "Coal",
            Item::Metaglass => "Metaglass",
            Item::PhaseFabric => "Phase Fabric",
            Item::Plastanium => "Plastanium",
            Item::Pyratite => "Pyratite",
            Item::Sand => "Sand",
            Item::Silicon => "Silicon",
            Item::SporePod => "Spore Pod",
            Item::SurgeAlloy => "Surge Alloy",
            Item::Thorium => "Thorium",
            Item::Titanium => "Titanium",
        }
    }
}


/// Number of kinds of item.
pub const ITEM_KINDS: u64 = 16;

impl Item {
    /// Position of the item in the list of kinds, from 0.
    pub open spec fn index(self) -> u64 {
        match self {
            Item::Scrap => 0,
            Item::Copper => 1,
            Item::Lead => 2,
            Item::Graphite => 3,
            Item::Coal => 4,
            Item::Titanium => 5,
            Item::Thorium => 6,
            Item::Silicon => 7,
            Item::Plastanium => 8,
            Item::PhaseFabric => 9,
            Item::SurgeAlloy => 10,
            Item::SporePod => 11,
            Item::Sand => 12,
            Item::BlastCompound => 13,
            Item::Pyratite => 14,
            Item::Metaglass => 15,
        }
    }

    /// Position of the item in the list of kinds, from 0.
    pub fn to_index(self) -> (r: u64)
        ensures
            r == self.index(),
    {
        match self {
            Item::Scrap => 0,
            Item::Copper => 1,
            Item::Lead => 2,
            Item::Graphite => 3,
            Item::Coal => 4,
            Item::Titanium => 5,
            Item::Thorium => 6,
            Item::Silicon => 7,
            Item::Plastanium => 8,
            Item::PhaseFabric => 9,
            Item::SurgeAlloy => 10,
            Item::SporePod => 11,
            Item::Sand => 12,
            Item::BlastCompound => 13,
            Item::Pyratite => 14,
            Item::Metaglass => 15,
        }
    }
}

/// The item at position `k` in the list of kinds.
pub open spec fn item_at(k: int) -> Item {
    if k == 0 {
        Item::Scrap
    } else if k == 1 {
        Item::Copper
    } else if k == 2 {
        Item::Lead
    } else if k == 3 {
        Item::Graphite
    } else if k == 4 {
        Item::Coal
    } else if k == 5 {
        Item::Titanium
    } else if k == 6 {
        Item::Thorium
    } else if k == 7 {
        Item::Silicon
    } else if k == 8 {
        Item::Plastanium
    } else if k == 9 {
        Item::PhaseFabric
    } else if k == 10 {
        Item::SurgeAlloy
    } else if k == 11 {
        Item::SporePod
    } else if k == 12 {
        Item::Sand
    } else if k == 13 {
        Item::BlastCompound
    } else if k == 14 {
        Item::Pyratite
    } else {
        Item::Metaglass
    }
}

pub proof fn lemma_item_index(it: Item)
    ensures
        it.index() < ITEM_KINDS,
        item_at(it.index() as int) == it,
{
}

pub proof fn lemma_item_at(k: int)
    requires
        0 <= k < ITEM_KINDS,
    ensures
        item_at(k).index() == k,
{
}

} // verus!
