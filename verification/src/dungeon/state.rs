//! The state of the game and how the actions of the player change it.

use crate::dungeon::item::Item;
use crate::dungeon::map::{
    can_enter, tile_at, with_item as map_with_item, without_item as map_without_item, TileMap,
    TileType, MAP_HEIGHT, MAP_WIDTH,
};
use crate::dungeon::player::{
    moved_down, moved_left, moved_right, moved_up, with_item as player_with_item,
    without_item as player_without_item, Player, PlayerView,
};
use crate::dungeon::player_actions::PlayerAction;
use vstd::prelude::*;

verus! {

/// The map and the player on it.
#[derive(Debug)]
pub struct State {
    /// The tiles of the dungeon.
    pub map: TileMap,
    /// The player, with position and inventory.
    pub player_position: Player,
}

/// What a state is, as plain values.
pub struct StateView {
    /// The tiles of the dungeon, row by row.
    pub map: Seq<TileType>,
    /// The player, with position and inventory.
    pub player: PlayerView,
}

/// The state after the player has picked up what lies on its tile. The item
/// leaves the map even if the inventory has no room for it.
pub open spec fn picked_up(state: StateView) -> StateView {
    match tile_at(state.map, state.player.x_pos, state.player.y_pos) {
        Some(TileType::Floor(Some(item))) => StateView {
            player: player_with_item(state.player, item),
            map: map_without_item(state.map, state.player.x_pos, state.player.y_pos),
        },
        _ => state,
    }
}

/// The state after the player has dropped the item at `position` of the
/// inventory, which it can only do on empty floor.
pub open spec fn dropped(state: StateView, position: int) -> StateView {
    match tile_at(state.map, state.player.x_pos, state.player.y_pos) {
        Some(TileType::Floor(None)) => match player_without_item(state.player, position).1 {
            Some(item) => StateView {
                player: player_without_item(state.player, position).0,
                map: map_with_item(state.map, state.player.x_pos, state.player.y_pos, item),
            },
            None => state,
        },
        _ => state,
    }
}

/// The state with the player at its new place, if that is a tile it can
/// enter, and the state as it was otherwise.
pub open spec fn player_updated(state: StateView, player: PlayerView) -> StateView {
    if can_enter(state.map, player.x_pos, player.y_pos) {
        StateView { player, ..state }
    } else {
        state
    }
}

/// The state that an action leads to.
pub open spec fn after_action(state: StateView, action: PlayerAction) -> StateView {
    match action {
        PlayerAction::MoveRight => player_updated(state, moved_right(state.player)),
        PlayerAction::MoveLeft => player_updated(state, moved_left(state.player)),
        PlayerAction::MoveUp => player_updated(state, moved_up(state.player)),
        PlayerAction::MoveDown => player_updated(state, moved_down(state.player)),
        PlayerAction::PickUp => picked_up(state),
        PlayerAction::Drop(position) => dropped(state, position as int),
    }
}

impl View for State {
    type V = StateView;

    open spec fn view(&self) -> StateView {
        StateView { map: self.map@, player: self.player_position@ }
    }
}

impl State {
    /// The state at the beginning of the game: a new map, with the player in
    /// the middle of it.
    pub fn new() -> (state: Self)
        ensures
            state@.player == (PlayerView {
                x_pos: MAP_WIDTH as int / 2,
                y_pos: MAP_HEIGHT as int / 2,
                inventory: Seq::<Item>::empty(),
            }),
            state@.map.len() == MAP_WIDTH * MAP_HEIGHT,
            forall|i: int|
                0 <= i < state@.map.len() ==> state@.map[i] == crate::dungeon::map::initial_tile(i),
    {
        Self { map: TileMap::new(), player_position: Player::new(MAP_WIDTH / 2, MAP_HEIGHT / 2) }
    }

    /// The player picks up what lies on its tile.
    pub fn pick_up(self) -> (state: State)
        ensures
            state@ == picked_up(self@),
    {
        let x_pos = self.player_position.x_pos;
        let y_pos = self.player_position.y_pos;
        let tile = self.map.get_tile(x_pos, y_pos);
        match tile {
            Some(TileType::Floor(Some(item))) => {
                let player_position = self.player_position.add_item(item);
                let map = self.map.remove_item(x_pos, y_pos);
                State { player_position, map }
            },
            _ => self,
        }
    }

    /// The player drops the item at `item_position` of its inventory.
    pub fn drop_item(self, item_position: usize) -> (state: State)
        ensures
            state@ == dropped(self@, item_position as int),
    {
        let x_pos = self.player_position.x_pos;
        let y_pos = self.player_position.y_pos;
        let tile = self.map.get_tile(x_pos, y_pos);
        match tile {
            Some(TileType::Floor(None)) => {
                let (player_position, item) = self.player_position.remove_item(item_position);
                match item {
                    Some(item) => {
                        let map = self.map.add_item(x_pos, y_pos, item);
                        State { player_position, map }
                    },
                    None => State { player_position, map: self.map },
                }
            },
            _ => self,
        }
    }

    /// Puts the player at its new place, if it can enter the tile there.
    pub fn update_player(self, player: Player) -> (state: State)
        ensures
            state@ == player_updated(self@, player@),
    {
        if self.map.can_enter_tile(player.x_pos, player.y_pos) {
            State { player_position: player, map: self.map }
        } else {
            self
        }
    }

    /// Applies one action of the player.
    pub fn transition(self, player_action: PlayerAction) -> (state: State)
        requires
            player_action is MoveRight ==> self.player_position.x_pos < usize::MAX,
            player_action is MoveDown ==> self.player_position.y_pos < usize::MAX,
        ensures
            state@ == after_action(self@, player_action),
    {
        match player_action {
            PlayerAction::MoveRight => {
                let player = self.player_position.move_right();
                self.update_player(player)
            },
            PlayerAction::MoveLeft => {
                let player = self.player_position.move_left();
                self.update_player(player)
            },
            PlayerAction::MoveUp => {
                let player = self.player_position.move_up();
                self.update_player(player)
            },
            PlayerAction::MoveDown => {
                let player = self.player_position.move_down();
                self.update_player(player)
            },
            PlayerAction::PickUp => self.pick_up(),
            PlayerAction::Drop(item_position) => self.drop_item(item_position),
        }
    }
}

} // verus!
