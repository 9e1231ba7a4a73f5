//! The messages that players send: who acts, and what they do.
//!
//! A message is the byte `0x01`, the sender's public key, a dash, and the
//! code of the action: `01`..`05` for the four moves and the pick-up, `0600`
//! and `0601` for dropping the first or the second item.

use crate::bytes::copy_range;
use crate::foreign::utf8_str;
use vstd::prelude::*;
use vstd::string::*;
use vstd::utf8::{decode_utf8, encode_utf8_decode_utf8, valid_utf8};

verus! {

/// An action together with the public key of the player who takes it.
#[derive(Debug)]
pub struct PlayerMsg {
    /// The public key of the sender.
    pub public_key: String,
    /// What the sender does.
    pub action: PlayerAction,
}

/// What a player can do.
#[derive(Debug, Clone, Copy, PartialEq, Eq, Structural)]
pub enum PlayerAction {
    /// One column to the right.
    MoveRight,
    /// One column to the left.
    MoveLeft,
    /// One row up.
    MoveUp,
    /// One row down.
    MoveDown,
    /// Pick up what lies on the tile.
    PickUp,
    /// Drop the item at this place of the inventory.
    Drop(usize),
}

/// The byte that separates the public key from the action.
pub const DASH: u8 = 0x2d;

/// The first place at or after `from` where `data` holds a dash, or the
/// length of `data` if there is none.
pub open spec fn dash_at(data: Seq<u8>, from: int) -> int
    decreases data.len() - from,
{
    if from >= data.len() {
        data.len() as int
    } else if data[from] == DASH {
        from
    } else {
        dash_at(data, from + 1)
    }
}

/// The action that a code stands for.
pub open spec fn action_of(code: Seq<u8>) -> Option<PlayerAction> {
    if code == seq![48u8, 49u8] {
        Some(PlayerAction::MoveUp)
    } else if code == seq![48u8, 50u8] {
        Some(PlayerAction::MoveDown)
    } else if code == seq![48u8, 51u8] {
        Some(PlayerAction::MoveLeft)
    } else if code == seq![48u8, 52u8] {
        Some(PlayerAction::MoveRight)
    } else if code == seq![48u8, 53u8] {
        Some(PlayerAction::PickUp)
    } else if code == seq![48u8, 54u8, 48u8, 48u8] {
        Some(PlayerAction::Drop(0))
    } else if code == seq![48u8, 54u8, 48u8, 49u8] {
        Some(PlayerAction::Drop(1))
    } else {
        None
    }
}

/// The sender and the action that a message spells, if it is well formed:
/// it begins with `0x01`, holds a dash, the bytes in front of the first dash
/// are UTF-8, and those between the first dash and the second, or the end,
/// are the code of an action.
pub open spec fn parse_msg(data: Seq<u8>) -> Option<(Seq<char>, PlayerAction)> {
    let key_end = dash_at(data, 1);
    let code_end = dash_at(data, key_end + 1);
    if data.len() == 0 || data[0] != 1 || key_end >= data.len() {
        None
    } else if action_of(data.subrange(key_end + 1, code_end)) is None {
        None
    } else if !valid_utf8(data.subrange(1, key_end)) {
        None
    } else {
        Some(
            (
                decode_utf8(data.subrange(1, key_end)),
                action_of(data.subrange(key_end + 1, code_end))->Some_0,
            ),
        )
    }
}

/// Where the next dash stands.
pub proof fn lemma_dash_at_range(data: Seq<u8>, from: int)
    requires
        0 <= from <= data.len(),
    ensures
        from <= dash_at(data, from) <= data.len(),
    decreases data.len() - from,
{
    if from < data.len() && data[from] != DASH {
        lemma_dash_at_range(data, from + 1);
    }
}

/// The first place at or after `from` where `data` holds a dash.
pub fn find_dash(data: &[u8], from: usize) -> (at: usize)
    requires
        from <= data@.len(),
    ensures
        at == dash_at(data@, from as int),
        from <= at <= data@.len(),
{
    let mut at: usize = from;
    while at < data.len() && data[at] != DASH
        invariant
            from <= at <= data@.len(),
            dash_at(data@, at as int) == dash_at(data@, from as int),
        decreases data@.len() - at,
    {
        at += 1;
    }
    at
}

/// The action that `code` stands for.
pub fn decode_action(code: &[u8]) -> (action: Option<PlayerAction>)
    ensures
        action == action_of(code@),
{
    if code.len() == 2 && code[0] == 48 {
        let found = if code[1] == 49 {
            Some(PlayerAction::MoveUp)
        } else if code[1] == 50 {
            Some(PlayerAction::MoveDown)
        } else if code[1] == 51 {
            Some(PlayerAction::MoveLeft)
        } else if code[1] == 52 {
            Some(PlayerAction::MoveRight)
        } else if code[1] == 53 {
            Some(PlayerAction::PickUp)
        } else {
            None
        };
        proof {
            assert(code@ =~= seq![48u8, code@[1]]);
            if found is None {
                assert(seq![48u8, 49u8][1] == 49);
                assert(seq![48u8, 50u8][1] == 50);
                assert(seq![48u8, 51u8][1] == 51);
                assert(seq![48u8, 52u8][1] == 52);
                assert(seq![48u8, 53u8][1] == 53);
            }
        }
        found
    } else if code.len() == 4 && code[0] == 48 && code[1] == 54 && code[2] == 48 {
        let found = if code[3] == 48 {
            Some(PlayerAction::Drop(0))
        } else if code[3] == 49 {
            Some(PlayerAction::Drop(1))
        } else {
            None
        };
        proof {
            assert(code@ =~= seq![48u8, 54u8, 48u8, code@[3]]);
            if found is None {
                assert(seq![48u8, 54u8, 48u8, 48u8][3] == 48);
                assert(seq![48u8, 54u8, 48u8, 49u8][3] == 49);
            }
        }
        found
    } else {
        proof {
            if code@.len() == 2 {
                assert(seq![48u8, 49u8][0] == 48);
                assert(seq![48u8, 50u8][0] == 48);
                assert(seq![48u8, 51u8][0] == 48);
                assert(seq![48u8, 52u8][0] == 48);
                assert(seq![48u8, 53u8][0] == 48);
            }
            if code@.len() == 4 {
                let a = seq![48u8, 54u8, 48u8, 48u8];
                let b = seq![48u8, 54u8, 48u8, 49u8];
                assert(a[0] == 48 && a[1] == 54 && a[2] == 48);
                assert(b[0] == 48 && b[1] == 54 && b[2] == 48);
            }
        }
        None
    }
}

impl PlayerMsg {
    /// Reads a message from its bytes.
    pub fn try_from(data: Vec<u8>) -> (res: Result<PlayerMsg, ()>)
        ensures
            match parse_msg(data@) {
                Some((key, action)) => res is Ok && res->Ok_0.public_key@ == key
                    && res->Ok_0.action == action,
                None => res is Err,
            },
    {
        if data.len() == 0 || data[0] != 0x01 {
            return Err(());
        }
        let key_end = find_dash(data.as_slice(), 1);
        if key_end >= data.len() {
            return Err(());
        }
        let code_end = find_dash(data.as_slice(), key_end + 1);
        let code = copy_range(data.as_slice(), key_end + 1, code_end);
        let action = match decode_action(code.as_slice()) {
            Some(action) => action,
            None => { return Err(()); },
        };
        let key = copy_range(data.as_slice(), 1, key_end);
        match utf8_str(key.as_slice()) {
            Some(text) => {
                proof {
                    encode_utf8_decode_utf8(text@);
                }
                Ok(PlayerMsg { public_key: String::from_str(text), action })
            },
            None => Err(()),
        }
    }
}

} // verus!
