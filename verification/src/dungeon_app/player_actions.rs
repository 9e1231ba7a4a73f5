//! The messages that the players of the market game send.

use crate::dungeon::item::Item;
use crate::dungeon::player_actions::{
    parse_msg, PlayerAction as Basic, PlayerMsg as BasicMsg,
};
use vstd::prelude::*;
use vstd::string::*;

verus! {

/// An action together with the public key of the player who takes it.
#[derive(Debug)]
pub struct PlayerMsg {
    /// The public key of the sender.
    pub public_key: String,
    /// What the sender does.
    pub action: PlayerAction,
}

/// What a player can do.
#[derive(Debug)]
pub enum PlayerAction {
    /// One column to the right.
    MoveRight,
    /// One column to the left.
    MoveLeft,
    /// One row up.
    MoveUp,
    /// One row down.
    MoveDown,
    /// Pick up what lies on the tile.
    PickUp,
    /// Drop the item at this place of the inventory.
    Drop(usize),
    /// Offer the item at this place of the inventory for this price.
    Sell(usize, usize),
    /// Buy this item from the player at this address.
    Buy(String, Item),
}

/// What an action is, as plain values.
pub enum ActionView {
    /// One column to the right.
    MoveRight,
    /// One column to the left.
    MoveLeft,
    /// One row up.
    MoveUp,
    /// One row down.
    MoveDown,
    /// Pick up what lies on the tile.
    PickUp,
    /// Drop the item at this place of the inventory.
    Drop(int),
    /// Offer the item at this place of the inventory for this price.
    Sell(int, int),
    /// Buy this item from the player at this address.
    Buy(Seq<char>, Item),
}

/// A move, a pick-up or a drop as an action of the market game.
pub open spec fn basic_action(action: Basic) -> ActionView {
    match action {
        Basic::MoveRight => ActionView::MoveRight,
        Basic::MoveLeft => ActionView::MoveLeft,
        Basic::MoveUp => ActionView::MoveUp,
        Basic::MoveDown => ActionView::MoveDown,
        Basic::PickUp => ActionView::PickUp,
        Basic::Drop(position) => ActionView::Drop(position as int),
    }
}

impl View for PlayerAction {
    type V = ActionView;

    open spec fn view(&self) -> ActionView {
        match *self {
            PlayerAction::MoveRight => ActionView::MoveRight,
            PlayerAction::MoveLeft => ActionView::MoveLeft,
            PlayerAction::MoveUp => ActionView::MoveUp,
            PlayerAction::MoveDown => ActionView::MoveDown,
            PlayerAction::PickUp => ActionView::PickUp,
            PlayerAction::Drop(position) => ActionView::Drop(position as int),
            PlayerAction::Sell(position, price) => ActionView::Sell(position as int, price as int),
            PlayerAction::Buy(address, item) => ActionView::Buy(address@, item),
        }
    }
}

impl PlayerAction {
    /// A copy of the action.
    pub fn duplicate(&self) -> (copy: PlayerAction)
        ensures
            copy@ == self@,
    {
        match self {
            PlayerAction::MoveRight => PlayerAction::MoveRight,
            PlayerAction::MoveLeft => PlayerAction::MoveLeft,
            PlayerAction::MoveUp => PlayerAction::MoveUp,
            PlayerAction::MoveDown => PlayerAction::MoveDown,
            PlayerAction::PickUp => PlayerAction::PickUp,
            PlayerAction::Drop(position) => PlayerAction::Drop(*position),
            PlayerAction::Sell(position, price) => PlayerAction::Sell(*position, *price),
            PlayerAction::Buy(address, item) => PlayerAction::Buy(address.clone(), *item),
        }
    }
}

impl PlayerMsg {
    /// Reads a message from its bytes. The messages that players can send
    /// are those of the game without a market: moves, pick-up and drop.
    pub fn try_from(data: Vec<u8>) -> (res: Result<PlayerMsg, ()>)
        ensures
            match parse_msg(data@) {
                Some((key, action)) => res is Ok && res->Ok_0.public_key@ == key
                    && res->Ok_0.action@ == basic_action(action),
                None => res is Err,
            },
    {
        match BasicMsg::try_from(data) {
            Ok(msg) => {
                let action = match msg.action {
                    Basic::MoveRight => PlayerAction::MoveRight,
                    Basic::MoveLeft => PlayerAction::MoveLeft,
                    Basic::MoveUp => PlayerAction::MoveUp,
                    Basic::MoveDown => PlayerAction::MoveDown,
                    Basic::PickUp => PlayerAction::PickUp,
                    Basic::Drop(position) => PlayerAction::Drop(position),
                };
                Ok(PlayerMsg { public_key: msg.public_key, action })
            },
            Err(_) => Err(()),
        }
    }
}

} // verus!
