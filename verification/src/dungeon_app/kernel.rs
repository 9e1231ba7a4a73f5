//! The kernel of the market game: every message of the inbox is an action
//! of a player, applied to the state that the store holds for that player.

use crate::database::tree::Tree;
use crate::database::Database;
use crate::dungeon::player_actions::{parse_msg, PlayerAction as Basic};
use crate::dungeon_app::market_place::{distinct_offers, prices_of};
use crate::dungeon_app::player_actions::{basic_action, PlayerAction, PlayerMsg};
use crate::dungeon_app::state::{after_action, StateView};
use crate::dungeon_app::storage::{
    load_player, load_state, map_stored, market_stored, player_stored, state_at, update_player,
    update_state,
};
use crate::host::{NativeHost, RuntimeError};
use vstd::prelude::*;
use vstd::string::*;

verus! {

/// Whether a move stays within the numbers that the machine can count to.
pub open spec fn fits(state: StateView, action: Basic) -> bool {
    &&& action is MoveRight ==> state.player.x_pos < usize::MAX
    &&& action is MoveDown ==> state.player.y_pos < usize::MAX
}

/// The state that a message leads to: the one that its action makes of the
/// state as loaded, or the state as loaded where the action does not fit.
pub open spec fn next_state(state: StateView, address: Seq<char>, action: Basic) -> StateView {
    if fits(state, action) {
        after_action(state, None, basic_action(action), address).0
    } else {
        state
    }
}

/// Whether `tree` is `before` with `state` stored for the player at
/// `address`: the player, the map, and the offers of the market in some
/// order.
pub open spec fn holds_state(tree: Tree, before: Tree, address: Seq<char>, state: StateView) -> bool {
    exists|listed: Seq<((Seq<char>, crate::dungeon::item::Item), usize)>|
        distinct_offers(listed) && #[trigger] prices_of(listed) == state.market && tree
            == market_stored(
            map_stored(player_stored(before, address, state.player), state.map),
            listed,
        )
}

/// Applies the action that `payload` spells to the state of its sender and
/// stores the outcome. A message that cannot be read is a decoding error; a
/// state that cannot be loaded or stored hands back its error. An action
/// that does not fit has the state stored as it was loaded.
pub fn handle_message<D: Database>(host: &mut NativeHost<D>, payload: Vec<u8>) -> (res: Result<
    (),
    RuntimeError,
>)
    requires
        old(host).wf(),
    ensures
        final(host).wf(),
        final(host).never_fails() == old(host).never_fails(),
        final(host).pending() == old(host).pending(),
        final(host).level() == old(host).level(),
        final(host).next_id() == old(host).next_id(),
        parse_msg(payload@) is None ==> res == Err::<(), RuntimeError>(RuntimeError::DecodingError)
            && final(host)@ == old(host)@,
        parse_msg(payload@) is Some && old(host).never_fails() && state_at(
            old(host).tree(),
            parse_msg(payload@)->Some_0.0,
        ) is Err ==> res is Err && final(host).tree() == old(host).tree(),
        res is Ok ==> parse_msg(payload@) is Some && state_at(
            old(host).tree(),
            parse_msg(payload@)->Some_0.0,
        ) is Ok && holds_state(
            final(host).tree(),
            old(host).tree(),
            parse_msg(payload@)->Some_0.0,
            next_state(
                state_at(old(host).tree(), parse_msg(payload@)->Some_0.0)->Ok_0,
                parse_msg(payload@)->Some_0.0,
                parse_msg(payload@)->Some_0.1,
            ),
        ),
{
    let player_msg = match PlayerMsg::try_from(payload) {
        Ok(player_msg) => player_msg,
        Err(_) => { return Err(RuntimeError::DecodingError); },
    };
    host.write_debug("Message is deserialized");
    let PlayerMsg { public_key: player_address, action: player_action } = player_msg;
    let other_player = match &player_action {
        PlayerAction::Buy(player_address, _) => match load_player(host, player_address.as_str()) {
            Ok(player) => Some(player),
            Err(_) => None,
        },
        _ => None,
    };
    let state = load_state(host, player_address.as_str())?;
    let (next_state, player) = if state.can_apply(&other_player, &player_action) {
        host.write_debug("Calling transtion");
        state.transition(other_player, player_action.duplicate(), player_address.as_str())
    } else {
        (state, None)
    };
    update_state(host, player_address.as_str(), &next_state)?;
    proof {
        next_state.market_place.lemma_listed();
    }
    match player {
        None => {},
        Some(player) => match &player_action {
            PlayerAction::Buy(address, _) => {
                update_player(host, address.as_str(), &player)?;
            },
            _ => {},
        },
    }
    Ok(())
}

/// One round of the kernel: every message of the inbox is handled in turn,
/// until none is left.
pub fn entry<D: Database>(host: &mut NativeHost<D>)
    requires
        old(host).wf(),
    ensures
        final(host).wf(),
        final(host).never_fails() == old(host).never_fails(),
        final(host).pending().len() == 0,
        final(host).level() == old(host).level(),
        final(host).next_id() == old(host).next_id(),
{
    host.write_debug("Hello world");
    loop
        invariant
            host.wf(),
            host.never_fails() == old(host).never_fails(),
            host.level() == old(host).level(),
            host.next_id() == old(host).next_id(),
        ensures
            host.pending().len() == 0,
        decreases host.pending().len(),
    {
        let input = host.read_input();
        match input {
            Ok(Some(message)) => {
                let _ = handle_message(host, message.payload);
            },
            _ => {
                break ;
            },
        }
    }
}

} // verus!
