//! The sequencer: turns raw operations into addressed inbox messages and
//! gathers them into the batch of the open chain level.

use crate::host::{Message, MessageView};
use crate::node::TezosHeader;
use vstd::prelude::*;

verus! {

/// The index that the first operation of a level is given.
pub const FIRST_INDEX: u32 = 0;

/// The views of a list of payloads.
pub open spec fn payloads_view(batch: Seq<Vec<u8>>) -> Seq<Seq<u8>> {
    batch.map_values(|payload: Vec<u8>| payload@)
}

/// The current chain level and the operations received since it began.
pub struct Sequencer {
    tezos_level: u32,
    batch: Vec<Vec<u8>>,
}

impl Sequencer {
    /// The chain level that the sequencer last heard of.
    pub closed spec fn level(&self) -> u32 {
        self.tezos_level
    }

    /// The payloads of the open level, in the order of their arrival.
    pub closed spec fn batch(&self) -> Seq<Seq<u8>> {
        payloads_view(self.batch@)
    }

    /// The index that the next operation will be given.
    pub open spec fn next_index(&self) -> int {
        FIRST_INDEX + self.batch().len()
    }

    /// A sequencer at level 0 with an empty batch.
    pub fn new() -> (sequencer: Self)
        ensures
            sequencer.level() == 0,
            sequencer.batch() == Seq::<Seq<u8>>::empty(),
    {
        let sequencer = Sequencer { tezos_level: 0, batch: Vec::new() };
        assert(sequencer.batch() =~= Seq::<Seq<u8>>::empty());
        sequencer
    }

    /// Whether the open level can take one more operation.
    pub fn has_room(&self) -> (room: bool)
        ensures
            room == (self.next_index() <= u32::MAX),
    {
        self.batch.len() <= (u32::MAX - FIRST_INDEX) as usize
    }

    /// Adds the operation to the batch of the open level and addresses it:
    /// at the current level, with the next free index.
    pub fn on_operation(&mut self, payload: Vec<u8>) -> (message: Message)
        requires
            old(self).next_index() <= u32::MAX,
        ensures
            message@ == (MessageView {
                level: old(self).level(),
                id: old(self).next_index() as u32,
                payload: payload@,
            }),
            final(self).batch() == old(self).batch().push(payload@),
            final(self).next_index() == old(self).next_index() + 1,
            final(self).level() == old(self).level(),
    {
        let ghost before = self.batch();
        let index = FIRST_INDEX + self.batch.len() as u32;
        let copy = payload.clone();
        assert(copy@ =~= payload@);
        let message = Message::new(self.tezos_level, index, copy);
        self.batch.push(payload);
        assert(self.batch() =~= before.push(payload@));
        message
    }

    /// Moves on to the level of `header`: hands out the batch gathered so
    /// far and starts an empty one.
    pub fn on_tezos_header(&mut self, header: &TezosHeader) -> (drained: Vec<Vec<u8>>)
        ensures
            payloads_view(drained@) == old(self).batch(),
            final(self).batch() == Seq::<Seq<u8>>::empty(),
            final(self).level() == header.level,
            final(self).next_index() == FIRST_INDEX,
    {
        self.tezos_level = header.level;
        let mut drained: Vec<Vec<u8>> = Vec::new();
        std::mem::swap(&mut self.batch, &mut drained);
        assert(self.batch() =~= Seq::<Seq<u8>>::empty());
        drained
    }
}

} // verus!
