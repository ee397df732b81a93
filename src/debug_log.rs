use vstd::prelude::*;

verus! {

/// The subsystems that debug output can be enabled for.
#[derive(Debug, PartialEq, Eq, Structural)]
pub enum Subsystems {
    Game,
    Main,
    Entity,
    HWSprite,
    InputSystem,
    InventorySystem,
    MovementSystem,
    BuilderSystem,
    Text,
    WorldMap,
    Menu,
}

impl Subsystems {
    /// The tag printed before a subsystem's debug output.
    pub open spec fn tag(&self) -> Seq<char> {
        match self {
            Subsystems::Game => "GAME"@,
            Subsystems::Main => "MAIN"@,
            Subsystems::Entity => "ENTITY"@,
            Subsystems::HWSprite => "HW SPRITE"@,
            Subsystems::InputSystem => "INPUT SYSTEM"@,
            Subsystems::InventorySystem => "INVENTORY SYSTEM"@,
            Subsystems::MovementSystem => "MOVEMENT SYSTEM"@,
            Subsystems::BuilderSystem => "BUILDER SYSTEM"@,
            Subsystems::Text => "TEXT"@,
            Subsystems::WorldMap => "MAP"@,
            Subsystems::Menu => "MENU"@,
        }
    }

    /// Returns the tag printed before the subsystem's debug output.
    pub fn to_str(&self) -> (r: &str)
        ensures
            r@ == self.tag(),
    {
        match self {
            Subsystems::Game => "GAME",
            Subsystems::Main => "MAIN",
            Subsystems::Entity => "ENTITY",
            Subsystems::HWSprite => "HW SPRITE",
            Subsystems::InputSystem => "INPUT SYSTEM",
            Subsystems::InventorySystem => "INVENTORY SYSTEM",
            Subsystems::MovementSystem => "MOVEMENT SYSTEM",
            Subsystems::BuilderSystem => "BUILDER SYSTEM",
            Subsystems::Text => "TEXT",
            Subsystems::WorldMap => "MAP",
            Subsystems::Menu => "MENU",
        }
    }
}

} // verus!
