//! What is sent to the rollup node when a level closes: the batch as a JSON
//! array of hexadecimal strings. Sending it is left to the caller.

use crate::database::path::strings_view;
use crate::foreign::{hex_encode, hex_text, json_of_strings, json_string_list};
use crate::sequencer::payloads_view;
use vstd::prelude::*;

verus! {

/// What to do with a batch.
#[derive(Debug)]
pub enum Injection {
    /// The batch is empty: nothing is sent.
    Nothing,
    /// The body of the request that injects the batch.
    Body(String),
    /// The batch could not be written as JSON.
    Unencodable,
}

/// The payloads of a batch, each in hexadecimal.
pub open spec fn hex_batch(batch: Seq<Seq<u8>>) -> Seq<Seq<char>> {
    batch.map_values(|payload: Seq<u8>| hex_text(payload))
}

/// The status with which the rollup node accepts an injection.
pub const INJECTED: u16 = 200;

/// Writes every payload of the batch in hexadecimal.
pub fn encode_batch(batch: &Vec<Vec<u8>>) -> (encoded: Vec<String>)
    ensures
        strings_view(encoded@) == hex_batch(payloads_view(batch@)),
{
    let mut encoded: Vec<String> = Vec::new();
    let mut i: usize = 0;
    while i < batch.len()
        invariant
            i <= batch.len(),
            strings_view(encoded@) == hex_batch(payloads_view(batch@)).take(i as int),
        decreases batch.len() - i,
    {
        let text = hex_encode(batch[i].as_slice());
        proof {
            let done = strings_view(encoded@);
            assert(strings_view(encoded@.push(text)) =~= done.push(text@));
            assert(hex_batch(payloads_view(batch@)).take(i + 1) =~= hex_batch(
                payloads_view(batch@),
            ).take(i as int).push(text@));
        }
        encoded.push(text);
        i += 1;
    }
    assert(hex_batch(payloads_view(batch@)).take(batch@.len() as int) =~= hex_batch(
        payloads_view(batch@),
    ));
    encoded
}

/// Decides what to send for a batch: nothing for an empty one, and else the
/// JSON array of its payloads in hexadecimal.
pub fn plan_injection(batch: &Vec<Vec<u8>>) -> (plan: Injection)
    ensures
        batch@.len() == 0 ==> plan is Nothing,
        batch@.len() > 0 ==> match json_of_strings(hex_batch(payloads_view(batch@))) {
            Some(json) => plan is Body && plan->Body_0@ == json,
            None => plan is Unencodable,
        },
{
    if batch.len() == 0 {
        return Injection::Nothing;
    }
    let encoded = encode_batch(batch);
    match json_string_list(&encoded) {
        Some(json) => Injection::Body(json),
        None => Injection::Unencodable,
    }
}

/// Whether the rollup node took the batch: it did if it answered `INJECTED`.
pub fn injection_result(status: u16) -> (res: Result<(), ()>)
    ensures
        res is Ok <==> status == INJECTED,
{
    if status == INJECTED {
        Ok(())
    } else {
        Err(())
    }
}

} // verus!
