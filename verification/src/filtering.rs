//! The filter of the kernel that listens only to the external messages
//! meant for it: those that begin with its magic byte.

use vstd::prelude::*;
use vstd::slice::slice_subrange;

verus! {

/// The byte that an external message begins with if it is meant for the
/// filtering kernel.
pub const MAGIC_BYTE: u8 = 0x1a;

/// What the kernel reads of an external message: what follows the magic
/// byte, and nothing if the message does not begin with it.
pub open spec fn filtered(payload: Seq<u8>) -> Option<Seq<u8>> {
    if payload.len() > 0 && payload[0] == MAGIC_BYTE {
        Some(payload.skip(1))
    } else {
        None
    }
}

/// What follows the magic byte in an external message that begins with it.
pub fn filter_external(payload: &[u8]) -> (data: Option<&[u8]>)
    ensures
        match data {
            Some(rest) => filtered(payload@) == Some(rest@),
            None => filtered(payload@) is None,
        },
{
    if payload.len() > 0 && payload[0] == MAGIC_BYTE {
        let rest = slice_subrange(payload, 1, payload.len());
        assert(rest@ =~= payload@.skip(1));
        Some(rest)
    } else {
        None
    }
}

} // verus!
