//! The state of the market game and how the actions of a player change it.

use crate::dungeon::item::Item;
use crate::dungeon::map::{
    can_enter, tile_at, with_item as map_with_item, without_item as map_without_item, TileMap,
    TileType, MAP_HEIGHT, MAP_WIDTH,
};
use crate::dungeon_app::map::walled_tile;
use crate::dungeon_app::market_place::{MarketPlace, Prices};
use crate::dungeon_app::player::{
    moved_down, moved_left, moved_right, moved_up, with_item as player_with_item,
    without_item as player_without_item, Player, PlayerView, MAX_ITEMS, STARTING_GOLD,
};
use crate::dungeon_app::player_actions::{ActionView, PlayerAction};
use vstd::prelude::*;
use vstd::string::*;

verus! {

/// The map, the player who acts, and the market.
#[derive(Debug)]
pub struct State {
    /// The tiles of the dungeon.
    pub map: TileMap,
    /// The player who acts.
    pub player: Player,
    /// The offers on the market.
    pub market_place: MarketPlace,
}

/// What a state is, as plain values.
pub struct StateView {
    /// The tiles of the dungeon, row by row.
    pub map: Seq<TileType>,
    /// The player who acts.
    pub player: PlayerView,
    /// The prices on the market, by seller and item.
    pub market: Prices,
}

/// The state after the player has picked up what lies on its tile. The item
/// leaves the map even if the inventory has no room for it.
pub open spec fn picked_up(state: StateView) -> StateView {
    match tile_at(state.map, state.player.x_pos, state.player.y_pos) {
        Some(TileType::Floor(Some(item))) => StateView {
            player: player_with_item(state.player, item),
            map: map_without_item(state.map, state.player.x_pos, state.player.y_pos),
            ..state
        },
        _ => state,
    }
}

/// The state after the player has dropped the item at `position` of the
/// inventory, which it can only do on empty floor.
pub open spec fn dropped(state: StateView, position: int) -> StateView {
    match tile_at(state.map, state.player.x_pos, state.player.y_pos) {
        Some(TileType::Floor(None)) => match player_without_item(state.player, position).1 {
            Some(item) => StateView {
                player: player_without_item(state.player, position).0,
                map: map_with_item(state.map, state.player.x_pos, state.player.y_pos, item),
                ..state
            },
            None => state,
        },
        _ => state,
    }
}

/// The state with the player at its new place, if that is a tile it can
/// enter, and the state as it was otherwise.
pub open spec fn player_updated(state: StateView, player: PlayerView) -> StateView {
    if can_enter(state.map, player.x_pos, player.y_pos) {
        StateView { player, ..state }
    } else {
        state
    }
}

/// The state after the player has put the item at `position` of its
/// inventory on the market, under `seller`, for `price`.
pub open spec fn sold(state: StateView, seller: Seq<char>, position: int, price: int) -> StateView {
    if 0 <= position < state.player.inventory.len() {
        StateView {
            player: PlayerView {
                inventory: state.player.inventory.remove(position),
                ..state.player
            },
            market: state.market.insert((seller, state.player.inventory[position]), price as usize),
            ..state
        }
    } else {
        state
    }
}

/// Whether the player of `state` buys `item` from `other`, offered under
/// `seller`: the two are different players, the inventory is not over its
/// limit, the item is on offer, and the player can pay the price.
pub open spec fn can_buy(state: StateView, seller: Seq<char>, item: Item, other: PlayerView) -> bool {
    &&& state.player.address != other.address
    &&& state.player.inventory.len() <= MAX_ITEMS
    &&& state.market.contains_key((seller, item))
    &&& state.player.gold >= state.market[(seller, item)]
}

/// The state and the other player after the purchase, if it takes place:
/// the offer leaves the market, the item joins the inventory, and the price
/// passes from the buyer to the other player.
pub open spec fn bought(state: StateView, seller: Seq<char>, item: Item, other: PlayerView) -> (
    StateView,
    PlayerView,
) {
    if can_buy(state, seller, item, other) {
        let price = state.market[(seller, item)];
        (
            StateView {
                player: PlayerView {
                    gold: state.player.gold - price,
                    ..player_with_item(state.player, item)
                },
                market: state.market.remove((seller, item)),
                ..state
            },
            PlayerView { gold: other.gold + price, ..other },
        )
    } else {
        (state, other)
    }
}

/// The state that an action leads to, with the other player of a purchase.
pub open spec fn after_action(
    state: StateView,
    other: Option<PlayerView>,
    action: ActionView,
    current: Seq<char>,
) -> (StateView, Option<PlayerView>) {
    match action {
        ActionView::MoveRight => (player_updated(state, moved_right(state.player)), None),
        ActionView::MoveLeft => (player_updated(state, moved_left(state.player)), None),
        ActionView::MoveUp => (player_updated(state, moved_up(state.player)), None),
        ActionView::MoveDown => (player_updated(state, moved_down(state.player)), None),
        ActionView::PickUp => (picked_up(state), None),
        ActionView::Drop(position) => (dropped(state, position), None),
        ActionView::Sell(position, price) => (sold(state, current, position, price), None),
        ActionView::Buy(seller, item) => match other {
            Some(other) => (
                bought(state, seller, item, other).0,
                Some(bought(state, seller, item, other).1),
            ),
            None => (state, None),
        },
    }
}

impl View for State {
    type V = StateView;

    open spec fn view(&self) -> StateView {
        StateView { map: self.map@, player: self.player@, market: self.market_place@ }
    }
}

impl State {
    /// The market of the state holds at most one offer for each seller and
    /// item.
    pub open spec fn wf(&self) -> bool {
        self.market_place.wf()
    }

    /// The state at the beginning of the game: the walled map, the player
    /// in the middle of it, and an empty market.
    pub fn new(player_address: String) -> (state: Self)
        ensures
            state.wf(),
            state@.player == (PlayerView {
                address: player_address@,
                x_pos: MAP_WIDTH as int / 2,
                y_pos: MAP_HEIGHT as int / 2,
                inventory: Seq::<Item>::empty(),
                gold: STARTING_GOLD as int,
            }),
            state@.market == Map::<(Seq<char>, Item), usize>::empty(),
            state@.map.len() == MAP_WIDTH * MAP_HEIGHT,
            forall|i: int| 0 <= i < state@.map.len() ==> state@.map[i] == walled_tile(i),
    {
        Self {
            map: TileMap::with_walls(),
            player: Player::new(MAP_WIDTH / 2, MAP_HEIGHT / 2, player_address),
            market_place: MarketPlace::new(),
        }
    }

    /// The player picks up what lies on its tile.
    pub fn pick_up(self) -> (state: State)
        ensures
            state@ == picked_up(self@),
            state.wf() == self.wf(),
    {
        let x_pos = self.player.x_pos;
        let y_pos = self.player.y_pos;
        let tile = self.map.get_tile(x_pos, y_pos);
        match tile {
            Some(TileType::Floor(Some(item))) => {
                let player = self.player.add_item(item);
                let map = self.map.remove_item(x_pos, y_pos);
                State { player, map, market_place: self.market_place }
            },
            _ => self,
        }
    }

    /// The player drops the item at `item_position` of its inventory.
    pub fn drop_item(self, item_position: usize) -> (state: State)
        ensures
            state@ == dropped(self@, item_position as int),
            state.wf() == self.wf(),
    {
        let x_pos = self.player.x_pos;
        let y_pos = self.player.y_pos;
        let tile = self.map.get_tile(x_pos, y_pos);
        match tile {
            Some(TileType::Floor(None)) => {
                let (player, item) = self.player.remove_item(item_position);
                match item {
                    Some(item) => {
                        let map = self.map.add_item(x_pos, y_pos, item);
                        State { player, map, market_place: self.market_place }
                    },
                    None => State { player, map: self.map, market_place: self.market_place },
                }
            },
            _ => self,
        }
    }

    /// The player offers the item at `item_id` of its inventory on the
    /// market, under `current_player_address`, for `price`.
    pub fn sell_item(self, current_player_address: &str, item_id: usize, price: usize) -> (state:
        State)
        requires
            self.wf(),
        ensures
            state.wf(),
            state@ == sold(self@, current_player_address@, item_id as int, price as int),
    {
        if item_id < self.player.inventory.len() {
            let mut market_place = self.market_place;
            let mut player = self.player;
            let item = player.inventory.remove(item_id);
            market_place.sell_item(current_player_address, item, price);
            State { player, market_place, map: self.map }
        } else {
            self
        }
    }

    /// The player buys `item`, offered under `player_address`, from
    /// `other_player`, who is handed back with the price added to its gold.
    pub fn buy_item(self, player_address: &str, item: Item, other_player: Player) -> (res: (
        State,
        Player,
    ))
        requires
            self.wf(),
            can_buy(self@, player_address@, item, other_player@) ==> other_player.gold
                + self@.market[(player_address@, item)] <= usize::MAX,
        ensures
            res.0.wf(),
            (res.0@, res.1@) == bought(self@, player_address@, item, other_player@),
    {
        if self.player.address == other_player.address {
            return (self, other_player);
        }
        let price = self.market_place.get_price(player_address, item);
        let inventory_len = self.player.inventory.len();
        if inventory_len > MAX_ITEMS {
            return (self, other_player);
        }
        let gold = self.player.gold;
        match price {
            None => (self, other_player),
            Some(price) => {
                if gold < price {
                    return (self, other_player);
                }
                let mut market_place = self.market_place;
                market_place.buy_item(player_address, item);
                let player = self.player;
                let player = player.add_item(item);
                let player = player.remove_gold(price);
                let other_player = other_player.add_gold(price);
                (State { player, market_place, map: self.map }, other_player)
            },
        }
    }

    /// Whether the action can be applied: a move stays within the numbers
    /// that the machine can count to, and the gold of a purchase does not
    /// grow beyond them.
    pub open spec fn applicable(&self, other_player: Option<Player>, player_action: PlayerAction) -> bool {
        &&& player_action is MoveRight ==> self.player.x_pos < usize::MAX
        &&& player_action is MoveDown ==> self.player.y_pos < usize::MAX
        &&& player_action is Buy && other_player is Some && can_buy(
            self@,
            player_action->Buy_0@,
            player_action->Buy_1,
            other_player->Some_0@,
        ) ==> other_player->Some_0.gold + self@.market[(
            player_action->Buy_0@,
            player_action->Buy_1,
        )] <= usize::MAX
    }

    /// Whether the action can be applied.
    pub fn can_apply(&self, other_player: &Option<Player>, player_action: &PlayerAction) -> (ok:
        bool)
        requires
            self.wf(),
        ensures
            ok == self.applicable(*other_player, *player_action),
    {
        match player_action {
            PlayerAction::MoveRight => self.player.x_pos < usize::MAX,
            PlayerAction::MoveDown => self.player.y_pos < usize::MAX,
            PlayerAction::Buy(player_address, item) => match other_player {
                Some(other) => {
                    if self.player.address == other.address || self.player.inventory.len()
                        > MAX_ITEMS {
                        return true;
                    }
                    match self.market_place.get_price(player_address.as_str(), *item) {
                        Some(price) => self.player.gold < price || price <= usize::MAX
                            - other.gold,
                        None => true,
                    }
                },
                None => true,
            },
            _ => true,
        }
    }

    /// Applies one action of the player.
    pub fn transition(
        self,
        other_player: Option<Player>,
        player_action: PlayerAction,
        current_player_address: &str,
    ) -> (res: (State, Option<Player>))
        requires
            self.wf(),
            self.applicable(other_player, player_action),
        ensures
            res.0.wf(),
            res.0@ == after_action(
                self@,
                match other_player {
                    Some(other) => Some(other@),
                    None => None,
                },
                player_action@,
                current_player_address@,
            ).0,
            match res.1 {
                Some(other) => Some(other@),
                None => None,
            } == after_action(
                self@,
                match other_player {
                    Some(other) => Some(other@),
                    None => None,
                },
                player_action@,
                current_player_address@,
            ).1,
    {
        match (other_player, player_action) {
            (_, PlayerAction::MoveRight) => {
                let player = self.player.move_right();
                (self.update_player(player), None)
            },
            (_, PlayerAction::MoveLeft) => {
                let player = self.player.move_left();
                (self.update_player(player), None)
            },
            (_, PlayerAction::MoveUp) => {
                let player = self.player.move_up();
                (self.update_player(player), None)
            },
            (_, PlayerAction::MoveDown) => {
                let player = self.player.move_down();
                (self.update_player(player), None)
            },
            (_, PlayerAction::PickUp) => (self.pick_up(), None),
            (_, PlayerAction::Drop(item_position)) => (self.drop_item(item_position), None),
            (_, PlayerAction::Sell(item_id, price)) => {
                let state = self.sell_item(current_player_address, item_id, price);
                (state, None)
            },
            (Some(other_player), PlayerAction::Buy(player_address, item)) => {
                let (state, player) = self.buy_item(player_address.as_str(), item, other_player);
                (state, Some(player))
            },
            (None, PlayerAction::Buy(_, _)) => (self, None),
        }
    }

    /// Puts the player at its new place, if it can enter the tile there.
    pub fn update_player(self, player: Player) -> (state: State)
        ensures
            state@ == player_updated(self@, player@),
            state.wf() == self.wf(),
    {
        if self.map.can_enter_tile(player.x_pos, player.y_pos) {
            State { player, map: self.map, market_place: self.market_place }
        } else {
            self
        }
    }
}

} // verus!
