//! The player: an address, a position on the map, an inventory and gold.

use crate::dungeon::item::Item;
use crate::dungeon::player::clone_items;
use vstd::prelude::*;
use vstd::string::*;

verus! {

/// The number of items up to which an inventory still takes one more.
pub const MAX_ITEMS: usize = 2;

/// The gold that a new player holds.
pub const STARTING_GOLD: usize = 1000;

/// A player of the game.
#[derive(Debug)]
pub struct Player {
    /// The address that the player acts under.
    pub address: String,
    /// The column that the player stands in.
    pub x_pos: usize,
    /// The row that the player stands in.
    pub y_pos: usize,
    /// The items that the player carries, oldest first.
    pub inventory: Vec<Item>,
    /// The gold that the player holds.
    pub gold: usize,
}

/// What a player is, as plain values.
pub struct PlayerView {
    /// The address that the player acts under.
    pub address: Seq<char>,
    /// The column that the player stands in.
    pub x_pos: int,
    /// The row that the player stands in.
    pub y_pos: int,
    /// The items that the player carries, oldest first.
    pub inventory: Seq<Item>,
    /// The gold that the player holds.
    pub gold: int,
}

/// The player one row up, or where it was in the first row.
pub open spec fn moved_up(player: PlayerView) -> PlayerView {
    if player.y_pos > 0 {
        PlayerView { y_pos: player.y_pos - 1, ..player }
    } else {
        player
    }
}

/// The player one row down.
pub open spec fn moved_down(player: PlayerView) -> PlayerView {
    PlayerView { y_pos: player.y_pos + 1, ..player }
}

/// The player one column to the left, or where it was in the first column.
pub open spec fn moved_left(player: PlayerView) -> PlayerView {
    if player.x_pos > 0 {
        PlayerView { x_pos: player.x_pos - 1, ..player }
    } else {
        player
    }
}

/// The player one column to the right.
pub open spec fn moved_right(player: PlayerView) -> PlayerView {
    PlayerView { x_pos: player.x_pos + 1, ..player }
}

/// The player with `item` added to the inventory, unless that is full.
pub open spec fn with_item(player: PlayerView, item: Item) -> PlayerView {
    if player.inventory.len() <= MAX_ITEMS {
        PlayerView { inventory: player.inventory.push(item), ..player }
    } else {
        player
    }
}

/// The player without the item at `position` of the inventory, and that
/// item; the player as it was, and nothing, if the inventory is shorter.
pub open spec fn without_item(player: PlayerView, position: int) -> (PlayerView, Option<Item>) {
    if 0 <= position < player.inventory.len() {
        (
            PlayerView { inventory: player.inventory.remove(position), ..player },
            Some(player.inventory[position]),
        )
    } else {
        (player, None)
    }
}

impl View for Player {
    type V = PlayerView;

    open spec fn view(&self) -> PlayerView {
        PlayerView {
            address: self.address@,
            x_pos: self.x_pos as int,
            y_pos: self.y_pos as int,
            inventory: self.inventory@,
            gold: self.gold as int,
        }
    }
}

impl Player {
    /// A player at `(x_pos, y_pos)` who carries nothing and holds the gold
    /// that every player starts with.
    pub fn new(x_pos: usize, y_pos: usize, address: String) -> (player: Self)
        ensures
            player@ == (PlayerView {
                address: address@,
                x_pos: x_pos as int,
                y_pos: y_pos as int,
                inventory: Seq::<Item>::empty(),
                gold: STARTING_GOLD as int,
            }),
    {
        Self { address, x_pos, y_pos, inventory: Vec::new(), gold: STARTING_GOLD }
    }

    /// A copy of the player.
    pub fn duplicate(&self) -> (copy: Player)
        ensures
            copy@ == self@,
    {
        Self {
            address: self.address.clone(),
            x_pos: self.x_pos,
            y_pos: self.y_pos,
            inventory: clone_items(&self.inventory),
            gold: self.gold,
        }
    }

    /// The player one row up, or where it is if it stands in the first row.
    pub fn move_up(&self) -> (player: Player)
        ensures
            player@ == moved_up(self@),
    {
        let mut player = self.duplicate();
        if self.y_pos > 0 {
            player.y_pos = self.y_pos - 1;
        }
        player
    }

    /// The player one row down.
    pub fn move_down(&self) -> (player: Player)
        requires
            self.y_pos < usize::MAX,
        ensures
            player@ == moved_down(self@),
    {
        let mut player = self.duplicate();
        player.y_pos = self.y_pos + 1;
        player
    }

    /// The player one column to the left, or where it is if it stands in
    /// the first column.
    pub fn move_left(&self) -> (player: Player)
        ensures
            player@ == moved_left(self@),
    {
        let mut player = self.duplicate();
        if self.x_pos > 0 {
            player.x_pos = self.x_pos - 1;
        }
        player
    }

    /// The player one column to the right.
    pub fn move_right(&self) -> (player: Player)
        requires
            self.x_pos < usize::MAX,
        ensures
            player@ == moved_right(self@),
    {
        let mut player = self.duplicate();
        player.x_pos = self.x_pos + 1;
        player
    }

    /// Adds `item` to the inventory, unless that is full.
    pub fn add_item(self, item: Item) -> (player: Player)
        ensures
            player@ == with_item(self@, item),
    {
        let mut player = self;
        if player.inventory.len() <= MAX_ITEMS {
            player.inventory.push(item);
        }
        player
    }

    /// Takes the item at `item_position` out of the inventory.
    pub fn remove_item(self, item_position: usize) -> (res: (Player, Option<Item>))
        ensures
            (res.0@, res.1) == without_item(self@, item_position as int),
    {
        let mut player = self;
        if item_position < player.inventory.len() {
            let item = player.inventory.remove(item_position);
            (player, Some(item))
        } else {
            (player, None)
        }
    }

    /// Takes `amount` of gold from the player.
    pub fn remove_gold(self, amount: usize) -> (player: Player)
        requires
            amount <= self.gold,
        ensures
            player@ == (PlayerView { gold: self.gold - amount, ..self@ }),
    {
        let mut player = self;
        player.gold = player.gold - amount;
        player
    }

    /// Gives `amount` of gold to the player.
    pub fn add_gold(self, amount: usize) -> (player: Player)
        requires
            self.gold + amount <= usize::MAX,
        ensures
            player@ == (PlayerView { gold: self.gold + amount, ..self@ }),
    {
        let mut player = self;
        player.gold = player.gold + amount;
        player
    }
}

} // verus!
