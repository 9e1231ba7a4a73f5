//! The kernel of the dungeon game: every message of the inbox is an action
//! of the one player, applied to the state that the store holds.
//!
//! A message is the byte `0x01` followed by the number of the action: 1 to
//! 4 for up, down, left and right, 5 for the pick-up, and 6 with one more
//! byte, 0 or 1, for dropping the first or the second item.

use crate::bytes::be_bytes;
use crate::database::tree::{tree_read, tree_write, Tree};
use crate::database::Database;
use crate::dungeon::map::{initial_tile, TileMap, TileType, MAP_HEIGHT, MAP_WIDTH};
use crate::dungeon::player::{Player, PlayerView, MAX_ITEMS};
use crate::dungeon::player_actions::PlayerAction;
use crate::dungeon::state::{after_action, State, StateView};
use crate::dungeon::storage::{
    decode_items, decode_tiles, encode_items, encode_tiles, is_valid_address, item_bytes, items_of,
    lemma_items_of_len, lemma_tiles_of_len, map_key, map_path, number_at, player_inventory,
    player_key, player_path, player_x_pos, player_y_pos, read_number, tile_bytes, tiles_of,
    valid_address, write_number,
};
use crate::host::{
    path_text, read_window, value_type, write_window, HostError, NativeHost, RuntimeError,
    MAX_VALUE_SIZE,
};
use vstd::prelude::*;
use vstd::string::*;

verus! {

/// The address of the one player of the game.
pub const PLAYER_ADDRESS: &'static str = "tz1cBUPLRLzM77p5iQKTUxfDUp3vwPp9BKfQ";

/// The action that the bytes of a message spell.
pub open spec fn action_spelled(bytes: Seq<u8>) -> Option<PlayerAction> {
    if bytes == seq![0x01u8, 0x01u8] {
        Some(PlayerAction::MoveUp)
    } else if bytes == seq![0x01u8, 0x02u8] {
        Some(PlayerAction::MoveDown)
    } else if bytes == seq![0x01u8, 0x03u8] {
        Some(PlayerAction::MoveLeft)
    } else if bytes == seq![0x01u8, 0x04u8] {
        Some(PlayerAction::MoveRight)
    } else if bytes == seq![0x01u8, 0x05u8] {
        Some(PlayerAction::PickUp)
    } else if bytes == seq![0x01u8, 0x06u8, 0x00u8] {
        Some(PlayerAction::Drop(0))
    } else if bytes == seq![0x01u8, 0x06u8, 0x01u8] {
        Some(PlayerAction::Drop(1))
    } else {
        None
    }
}

/// The action that the bytes of a message spell.
pub fn parse_action(bytes: &[u8]) -> (action: Option<PlayerAction>)
    ensures
        action == action_spelled(bytes@),
{
    if bytes.len() == 2 && bytes[0] == 0x01 && 1 <= bytes[1] && bytes[1] <= 5 {
        assert(bytes@ =~= seq![0x01u8, bytes@[1]]);
        if bytes[1] == 1 {
            Some(PlayerAction::MoveUp)
        } else if bytes[1] == 2 {
            Some(PlayerAction::MoveDown)
        } else if bytes[1] == 3 {
            Some(PlayerAction::MoveLeft)
        } else if bytes[1] == 4 {
            Some(PlayerAction::MoveRight)
        } else {
            Some(PlayerAction::PickUp)
        }
    } else if bytes.len() == 3 && bytes[0] == 0x01 && bytes[1] == 0x06 && bytes[2] <= 1 {
        assert(bytes@ =~= seq![0x01u8, 0x06u8, bytes@[2]]);
        if bytes[2] == 0 {
            Some(PlayerAction::Drop(0))
        } else {
            Some(PlayerAction::Drop(1))
        }
    } else {
        proof {
            if bytes@.len() == 2 {
                assert(seq![0x01u8, 0x01u8][0] == 1 && seq![0x01u8, 0x01u8][1] == 1);
                assert(seq![0x01u8, 0x02u8][0] == 1 && seq![0x01u8, 0x02u8][1] == 2);
                assert(seq![0x01u8, 0x03u8][0] == 1 && seq![0x01u8, 0x03u8][1] == 3);
                assert(seq![0x01u8, 0x04u8][0] == 1 && seq![0x01u8, 0x04u8][1] == 4);
                assert(seq![0x01u8, 0x05u8][0] == 1 && seq![0x01u8, 0x05u8][1] == 5);
            }
            if bytes@.len() == 3 {
                let first = seq![0x01u8, 0x06u8, 0x00u8];
                let second = seq![0x01u8, 0x06u8, 0x01u8];
                assert(first[0] == 1 && first[1] == 6 && first[2] == 0);
                assert(second[0] == 1 && second[1] == 6 && second[2] == 1);
            }
        }
        None
    }
}

/// The player that the store holds under `address`: a new one in the middle
/// of the map while nothing is stored there, and else the one that the
/// stored fields spell, or the error of the first field that cannot be read.
pub open spec fn player_at(tree: Tree, address: Seq<char>) -> Result<PlayerView, RuntimeError> {
    let x_pos = number_at(tree, player_path(address, "/x_pos"@));
    let y_pos = number_at(tree, player_path(address, "/y_pos"@));
    let inventory = tree_read(tree, path_text(player_path(address, "/inventory"@)));
    if value_type(tree, path_text(player_path(address, ""@))) is None {
        Ok(
            PlayerView {
                x_pos: MAP_WIDTH as int / 2,
                y_pos: MAP_HEIGHT as int / 2,
                inventory: seq![],
            },
        )
    } else if x_pos is Err {
        Err(x_pos->Err_0)
    } else if y_pos is Err {
        Err(y_pos->Err_0)
    } else if inventory is None {
        Err(RuntimeError::HostErr(HostError::StoreNotANode))
    } else {
        Ok(
            PlayerView {
                x_pos: x_pos->Ok_0 as int,
                y_pos: y_pos->Ok_0 as int,
                inventory: items_of(read_window(inventory->Some_0, 0, MAX_ITEMS as int)),
            },
        )
    }
}

/// The map that the store holds: that of a new game while nothing is
/// stored, and else the tiles that the stored bytes stand for.
pub open spec fn map_at(tree: Tree) -> Result<Seq<TileType>, RuntimeError> {
    if value_type(tree, path_text(map_path())) is None {
        Ok(Seq::new((MAP_WIDTH * MAP_HEIGHT) as nat, |i: int| initial_tile(i)))
    } else {
        match tree_read(tree, path_text(map_path())) {
            None => Err(RuntimeError::HostErr(HostError::StoreNotANode)),
            Some(value) => Ok(tiles_of(read_window(value, 0, (MAP_WIDTH * MAP_HEIGHT) as int))),
        }
    }
}

/// The state that the store holds for the player at `address`, or the error
/// of what cannot be loaded: an address that cannot name a player, the
/// player, or the map.
pub open spec fn state_at(tree: Tree, address: Seq<char>) -> Result<StateView, RuntimeError> {
    let player = player_at(tree, address);
    let map = map_at(tree);
    if !valid_address(address) {
        Err(RuntimeError::HostErr(HostError::StoreInvalidKey))
    } else if player is Err {
        Err(player->Err_0)
    } else if map is Err {
        Err(map->Err_0)
    } else {
        Ok(StateView { map: map->Ok_0, player: player->Ok_0 })
    }
}

/// The tree after the state has been stored for the player at `address`:
/// column, row and inventory of the player, then the map.
pub open spec fn state_stored(tree: Tree, address: Seq<char>, state: StateView) -> Tree {
    let with_x = tree_write(
        tree,
        path_text(player_path(address, "/x_pos"@)),
        be_bytes(state.player.x_pos as nat, 8),
    );
    let with_y = tree_write(
        with_x,
        path_text(player_path(address, "/y_pos"@)),
        be_bytes(state.player.y_pos as nat, 8),
    );
    let with_inventory = tree_write(
        with_y,
        path_text(player_path(address, "/inventory"@)),
        item_bytes(state.player.inventory),
    );
    tree_write(with_inventory, path_text(map_path()), tile_bytes(state.map))
}

/// Loads the state of the game for the player at `player_address`.
pub fn load_state<D: Database>(host: &mut NativeHost<D>, player_address: &str) -> (res: Result<
    State,
    RuntimeError,
>)
    requires
        old(host).wf(),
    ensures
        final(host).wf(),
        final(host)@ == old(host)@,
        old(host).never_fails() ==> match res {
            Ok(state) => state_at(old(host).tree(), player_address@) == Ok::<
                StateView,
                RuntimeError,
            >(state@),
            Err(e) => state_at(old(host).tree(), player_address@) == Err::<
                StateView,
                RuntimeError,
            >(e),
        },
        res is Ok ==> state_at(old(host).tree(), player_address@) == Ok::<StateView, RuntimeError>(
            res->Ok_0@,
        ),
{
    if !is_valid_address(player_address) {
        return Err(RuntimeError::HostErr(HostError::StoreInvalidKey));
    }
    let player_exists = host.store_has(player_key(player_address).as_slice())?;
    let player_position = match player_exists {
        Some(_) => {
            let x_pos = read_number(host, player_x_pos(player_address).as_slice())?;
            let y_pos = read_number(host, player_y_pos(player_address).as_slice())?;
            let inventory_bytes = host.store_read(
                player_inventory(player_address).as_slice(),
                0,
                MAX_ITEMS,
            )?;
            Player { x_pos, y_pos, inventory: decode_items(inventory_bytes.as_slice()) }
        },
        None => Player::new(MAP_WIDTH / 2, MAP_HEIGHT / 2),
    };
    let path = map_key();
    let map_exists = host.store_has(path.as_slice())?;
    let map = match map_exists {
        None => {
            let map = TileMap::new();
            assert(map@ =~= Seq::new((MAP_WIDTH * MAP_HEIGHT) as nat, |i: int| initial_tile(i)));
            map
        },
        Some(_) => {
            let map_bytes = host.store_read(path.as_slice(), 0, MAP_WIDTH * MAP_HEIGHT)?;
            TileMap { tiles: decode_tiles(map_bytes.as_slice()) }
        },
    };
    Ok(State { map, player_position })
}

/// Stores the state of the game for the player at `player_address`.
pub fn update_state<D: Database>(host: &mut NativeHost<D>, player_address: &str, state: &State) -> (res:
    Result<(), RuntimeError>)
    requires
        old(host).wf(),
    ensures
        final(host).wf(),
        final(host).same_inbox(old(host)),
        !valid_address(player_address@) ==> res == Err::<(), RuntimeError>(
            RuntimeError::HostErr(HostError::StoreInvalidKey),
        ) && final(host).tree() == old(host).tree(),
        valid_address(player_address@) && old(host).never_fails() && state@.player.inventory.len()
            <= MAX_VALUE_SIZE && state@.map.len() <= MAX_VALUE_SIZE ==> res is Ok,
        res is Ok ==> final(host).tree() == state_stored(old(host).tree(), player_address@, state@),
{
    if !is_valid_address(player_address) {
        return Err(RuntimeError::HostErr(HostError::StoreInvalidKey));
    }
    let player = &state.player_position;
    write_number(host, player_x_pos(player_address).as_slice(), player.x_pos)?;
    write_number(host, player_y_pos(player_address).as_slice(), player.y_pos)?;
    let inventory = encode_items(&player.inventory);
    assert(write_window(inventory@, 0) =~= inventory@);
    host.store_write(player_inventory(player_address).as_slice(), inventory.as_slice(), 0)?;
    let tiles = encode_tiles(&state.map.tiles);
    assert(write_window(tiles@, 0) =~= tiles@);
    host.store_write(map_key().as_slice(), tiles.as_slice(), 0)?;
    Ok(())
}

/// Whether `action` can be applied to `state`: a move stays within the
/// numbers that the machine can count to.
pub open spec fn applicable(state: StateView, action: PlayerAction) -> bool {
    &&& action is MoveRight ==> state.player.x_pos < usize::MAX
    &&& action is MoveDown ==> state.player.y_pos < usize::MAX
}

/// A state that the store holds is held for an address that can name a
/// player, and has no more items in its inventory than are read back and no
/// more tiles than a map has.
pub proof fn lemma_loaded_state_fits(tree: Tree, address: Seq<char>)
    requires
        state_at(tree, address) is Ok,
    ensures
        valid_address(address),
        state_at(tree, address)->Ok_0.player.inventory.len() <= MAX_ITEMS,
        state_at(tree, address)->Ok_0.map.len() <= MAP_WIDTH * MAP_HEIGHT,
{
    let inventory = tree_read(tree, path_text(player_path(address, "/inventory"@)));
    if inventory is Some {
        lemma_items_of_len(read_window(inventory->Some_0, 0, MAX_ITEMS as int));
    }
    let map = tree_read(tree, path_text(map_path()));
    if map is Some {
        lemma_tiles_of_len(read_window(map->Some_0, 0, (MAP_WIDTH * MAP_HEIGHT) as int));
    }
}

/// An action adds at most one item to the inventory and leaves the map as
/// large as it was.
pub proof fn lemma_action_keeps_sizes(state: StateView, action: PlayerAction)
    ensures
        after_action(state, action).player.inventory.len() <= state.player.inventory.len() + 1,
        after_action(state, action).map.len() == state.map.len(),
{
}

/// Loads the state of the one player, applies the action that `payload`
/// spells, and stores the outcome; a payload that spells no action, or an
/// action that cannot be applied, has the state stored as it was loaded.
/// Hands back the error that kept the state from being loaded or stored.
/// Over a store that never fails this succeeds exactly where the store holds
/// a state that can be loaded, and fails with the error of loading it where
/// it does not.
pub fn handle_message<D: Database>(host: &mut NativeHost<D>, payload: &[u8]) -> (res: Result<
    (),
    RuntimeError,
>)
    requires
        old(host).wf(),
    ensures
        final(host).wf(),
        final(host).never_fails() == old(host).never_fails(),
        final(host).pending() == old(host).pending(),
        final(host).level() == old(host).level(),
        final(host).next_id() == old(host).next_id(),
        old(host).never_fails() && state_at(old(host).tree(), PLAYER_ADDRESS@) is Err ==> res
            is Err && final(host).tree() == old(host).tree(),
        old(host).never_fails() ==> match state_at(old(host).tree(), PLAYER_ADDRESS@) {
            Ok(_) => res is Ok,
            Err(error) => res == Err::<(), RuntimeError>(error),
        },
        res is Ok ==> state_at(old(host).tree(), PLAYER_ADDRESS@) is Ok && final(host).tree() == ({
            let state = state_at(old(host).tree(), PLAYER_ADDRESS@)->Ok_0;
            let next = match action_spelled(payload@) {
                Some(action) => if applicable(state, action) {
                    after_action(state, action)
                } else {
                    state
                },
                None => state,
            };
            state_stored(old(host).tree(), PLAYER_ADDRESS@, next)
        }),
{
    let state = match load_state(host, PLAYER_ADDRESS) {
        Ok(state) => state,
        Err(err) => {
            host.write_debug(error_text(err));
            return Err(err);
        },
    };
    proof {
        lemma_loaded_state_fits(old(host).tree(), PLAYER_ADDRESS@);
        if action_spelled(payload@) is Some {
            lemma_action_keeps_sizes(state@, action_spelled(payload@)->Some_0);
        }
    }
    let next_state = match parse_action(payload) {
        Some(player_action) => {
            host.write_debug("Message is deserialized");
            let fits = match player_action {
                PlayerAction::MoveRight => state.player_position.x_pos < usize::MAX,
                PlayerAction::MoveDown => state.player_position.y_pos < usize::MAX,
                _ => true,
            };
            if fits {
                host.write_debug("Calling transtion");
                state.transition(player_action)
            } else {
                state
            }
        },
        None => {
            host.write_debug("Message is NOT deserialized");
            state
        },
    };
    update_state(host, PLAYER_ADDRESS, &next_state)
}

/// The line that the kernel writes to the debug log for an error.
pub open spec fn error_line(error: RuntimeError) -> Seq<char> {
    match error {
        RuntimeError::PathNotFound => "Error PathNotFound"@,
        RuntimeError::DecodingError => "Error DecodingError"@,
        RuntimeError::HostErr(HostError::StoreInvalidKey) => "Error HostErr(StoreInvalidKey)"@,
        RuntimeError::HostErr(HostError::StoreValueSizeExceeded) => "Error HostErr(StoreValueSizeExceeded)"@,
        RuntimeError::HostErr(HostError::GenericInvalidAccess) => "Error HostErr(GenericInvalidAccess)"@,
        RuntimeError::HostErr(HostError::StoreNotANode) => "Error HostErr(StoreNotANode)"@,
        RuntimeError::HostErr(HostError::StoreInvalidSubkeyIndex) => "Error HostErr(StoreInvalidSubkeyIndex)"@,
    }
}

/// The line that the kernel writes to the debug log for an error.
pub fn error_text(error: RuntimeError) -> (text: &'static str)
    ensures
        text@ == error_line(error),
{
    match error {
        RuntimeError::PathNotFound => "Error PathNotFound",
        RuntimeError::DecodingError => "Error DecodingError",
        RuntimeError::HostErr(HostError::StoreInvalidKey) => "Error HostErr(StoreInvalidKey)",
        RuntimeError::HostErr(HostError::StoreValueSizeExceeded) => "Error HostErr(StoreValueSizeExceeded)",
        RuntimeError::HostErr(HostError::GenericInvalidAccess) => "Error HostErr(GenericInvalidAccess)",
        RuntimeError::HostErr(HostError::StoreNotANode) => "Error HostErr(StoreNotANode)",
        RuntimeError::HostErr(HostError::StoreInvalidSubkeyIndex) => "Error HostErr(StoreInvalidSubkeyIndex)",
    }
}

/// One round of the kernel: every message of the inbox is handled in turn,
/// until none is left.
pub fn entry<D: Database>(host: &mut NativeHost<D>)
    requires
        old(host).wf(),
    ensures
        final(host).wf(),
        final(host).never_fails() == old(host).never_fails(),
        final(host).pending().len() == 0,
        final(host).level() == old(host).level(),
        final(host).next_id() == old(host).next_id(),
{
    host.write_debug("Hello world");
    loop
        invariant
            host.wf(),
            host.never_fails() == old(host).never_fails(),
            host.level() == old(host).level(),
            host.next_id() == old(host).next_id(),
        ensures
            host.pending().len() == 0,
        decreases host.pending().len(),
    {
        let input = host.read_input();
        match input {
            Ok(Some(message)) => {
                let _ = handle_message(host, message.payload());
            },
            _ => {
                break ;
            },
        }
    }
}

} // verus!
