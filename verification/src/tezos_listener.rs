//! The chain-head listener: turns the frames of the head stream into entries
//! of the node's queue. Reading the stream and decoding its frames is left
//! to the caller.

use crate::node::{QueueContent, TezosHeader};
use vstd::prelude::*;

verus! {

/// The listener to the chain's head stream.
#[derive(Debug)]
pub struct TezosListener {}

impl TezosListener {
    /// What a frame puts on the node's queue: the header that it decoded to,
    /// and nothing for a frame that is malformed.
    pub fn on_frame(decoded: Option<TezosHeader>) -> (entry: Option<QueueContent>)
        ensures
            match decoded {
                Some(header) => entry == Some(QueueContent::TezosHeader(header)),
                None => entry is None,
            },
    {
        match decoded {
            Some(header) => Some(QueueContent::TezosHeader(header)),
            None => None,
        }
    }
}

} // verus!
