//! The player: a position on the map and an inventory.

use crate::dungeon::item::Item;
use vstd::prelude::*;

verus! {

/// The number of items up to which an inventory still takes one more.
pub const MAX_ITEMS: usize = 2;

/// A player of the game.
#[derive(Debug)]
pub struct Player {
    /// The column that the player stands in.
    pub x_pos: usize,
    /// The row that the player stands in.
    pub y_pos: usize,
    /// The items that the player carries, oldest first.
    pub inventory: Vec<Item>,
}

/// What a player is, as plain values.
pub struct PlayerView {
    /// The column that the player stands in.
    pub x_pos: int,
    /// The row that the player stands in.
    pub y_pos: int,
    /// The items that the player carries, oldest first.
    pub inventory: Seq<Item>,
}

/// The player one row up, or where it was in the first row.
pub open spec fn moved_up(player: PlayerView) -> PlayerView {
    if player.y_pos > 0 {
        PlayerView { y_pos: player.y_pos - 1, ..player }
    } else {
        player
    }
}

/// The player one row down.
pub open spec fn moved_down(player: PlayerView) -> PlayerView {
    PlayerView { y_pos: player.y_pos + 1, ..player }
}

/// The player one column to the left, or where it was in the first column.
pub open spec fn moved_left(player: PlayerView) -> PlayerView {
    if player.x_pos > 0 {
        PlayerView { x_pos: player.x_pos - 1, ..player }
    } else {
        player
    }
}

/// The player one column to the right.
pub open spec fn moved_right(player: PlayerView) -> PlayerView {
    PlayerView { x_pos: player.x_pos + 1, ..player }
}

/// The player with `item` added to the inventory, unless that is full.
pub open spec fn with_item(player: PlayerView, item: Item) -> PlayerView {
    if player.inventory.len() <= MAX_ITEMS {
        PlayerView { inventory: player.inventory.push(item), ..player }
    } else {
        player
    }
}

/// The player without the item at `position` of the inventory, and that
/// item; the player as it was, and nothing, if the inventory is shorter.
pub open spec fn without_item(player: PlayerView, position: int) -> (PlayerView, Option<Item>) {
    if 0 <= position < player.inventory.len() {
        (
            PlayerView { inventory: player.inventory.remove(position), ..player },
            Some(player.inventory[position]),
        )
    } else {
        (player, None)
    }
}

/// A copy of an inventory.
pub fn clone_items(items: &Vec<Item>) -> (copy: Vec<Item>)
    ensures
        copy@ == items@,
{
    let copy = items.clone();
    assert(copy@ =~= items@);
    copy
}

impl View for Player {
    type V = PlayerView;

    open spec fn view(&self) -> PlayerView {
        PlayerView {
            x_pos: self.x_pos as int,
            y_pos: self.y_pos as int,
            inventory: self.inventory@,
        }
    }
}

impl Player {
    /// A player at `(x_pos, y_pos)` who carries nothing.
    pub fn new(x_pos: usize, y_pos: usize) -> (player: Self)
        ensures
            player@ == (PlayerView {
                x_pos: x_pos as int,
                y_pos: y_pos as int,
                inventory: Seq::<Item>::empty(),
            }),
    {
        Self { x_pos, y_pos, inventory: Vec::new() }
    }

    /// A copy of the player.
    pub fn duplicate(&self) -> (copy: Player)
        ensures
            copy@ == self@,
    {
        Self { x_pos: self.x_pos, y_pos: self.y_pos, inventory: clone_items(&self.inventory) }
    }

    /// The player one row up, or where it is if it stands in the first row.
    pub fn move_up(&self) -> (player: Player)
        ensures
            player@ == moved_up(self@),
    {
        if self.y_pos > 0 {
            Self {
                y_pos: self.y_pos - 1,
                x_pos: self.x_pos,
                inventory: clone_items(&self.inventory),
            }
        } else {
            self.duplicate()
        }
    }

    /// The player one row down.
    pub fn move_down(&self) -> (player: Player)
        requires
            self.y_pos < usize::MAX,
        ensures
            player@ == moved_down(self@),
    {
        Self { y_pos: self.y_pos + 1, x_pos: self.x_pos, inventory: clone_items(&self.inventory) }
    }

    /// The player one column to the left, or where it is if it stands in
    /// the first column.
    pub fn move_left(&self) -> (player: Player)
        ensures
            player@ == moved_left(self@),
    {
        if self.x_pos > 0 {
            Self {
                x_pos: self.x_pos - 1,
                y_pos: self.y_pos,
                inventory: clone_items(&self.inventory),
            }
        } else {
            self.duplicate()
        }
    }

    /// The player one column to the right.
    pub fn move_right(&self) -> (player: Player)
        requires
            self.x_pos < usize::MAX,
        ensures
            player@ == moved_right(self@),
    {
        Self { x_pos: self.x_pos + 1, y_pos: self.y_pos, inventory: clone_items(&self.inventory) }
    }

    /// Adds `item` to the inventory, unless that is full.
    pub fn add_item(self, item: Item) -> (player: Player)
        ensures
            player@ == with_item(self@, item),
    {
        let inventory_len = self.inventory.len();
        if inventory_len <= MAX_ITEMS {
            let mut inventory = self.inventory;
            inventory.push(item);
            Player { inventory, x_pos: self.x_pos, y_pos: self.y_pos }
        } else {
            self
        }
    }

    /// Takes the item at `item_position` out of the inventory.
    pub fn remove_item(self, item_position: usize) -> (res: (Player, Option<Item>))
        ensures
            (res.0@, res.1) == without_item(self@, item_position as int),
    {
        let inventory_len = self.inventory.len();
        if item_position < inventory_len {
            let mut inventory = self.inventory;
            let item = inventory.remove(item_position);
            (Player { inventory, x_pos: self.x_pos, y_pos: self.y_pos }, Some(item))
        } else {
            (self, None)
        }
    }
}

} // verus!
