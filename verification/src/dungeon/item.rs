//! The items that lie on the map or in an inventory.

use vstd::prelude::*;

verus! {

/// Something that a player can carry.
#[derive(Debug, Clone, Copy, PartialEq, Eq, Hash, Structural)]
pub enum Item {
    /// A sword.
    Sword,
    /// A potion.
    Potion,
}

impl Item {
    /// A sword.
    pub fn new_sword() -> (item: Self)
        ensures
            item == Item::Sword,
    {
        Self::Sword
    }

    /// A potion.
    pub fn new_potion() -> (item: Self)
        ensures
            item == Item::Potion,
    {
        Self::Potion
    }
}

} // verus!
