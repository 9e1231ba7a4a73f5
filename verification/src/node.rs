//! The node: one owner of sequencer and executor that applies operations and
//! chain headers in the order in which it is handed them.

use crate::database::path::strings_view;
use crate::database::tree::{tree_read, tree_subkeys};
use crate::database::{bytes_view, Database};
use crate::host::{HostView, MessageView, NativeHost, RuntimeError};
use crate::kernel::Kernel;
use crate::low_latency::LowLatency;
use crate::sequencer::{payloads_view, Sequencer, FIRST_INDEX};
use vstd::prelude::*;

verus! {

/// A block header as the chain's head stream announces it.
#[derive(Debug)]
pub struct TezosHeader {
    /// The hash of the block.
    pub hash: String,
    /// The level of the block.
    pub level: u32,
    /// The hash of the block before it.
    pub predecessor: String,
}

/// What the node's queue carries.
#[derive(Debug)]
pub enum QueueContent {
    /// The bytes of an operation to sequence and apply.
    Message(Vec<u8>),
    /// A header that closes the open level.
    TezosHeader(TezosHeader),
}

/// What the node did with one entry of its queue.
#[derive(Debug)]
pub enum Dispatched {
    /// An operation was sequenced and run; the kernel's failure, if any.
    Operation(Result<(), RuntimeError>),
    /// A header closed the level; the batch that is ready to be injected.
    Header(Vec<Vec<u8>>),
}

/// The sequencer and the executor, applied to in one total order.
pub struct Node<K: Kernel<D>, D: Database> {
    sequencer: Sequencer,
    low_latency: LowLatency<K, D>,
}

impl<K: Kernel<D>, D: Database> Node<K, D> {
    /// The chain level that the node last heard of.
    pub closed spec fn level(&self) -> u32 {
        self.sequencer.level()
    }

    /// The payloads of the open level, in the order of their arrival.
    pub closed spec fn batch(&self) -> Seq<Seq<u8>> {
        self.sequencer.batch()
    }

    /// What the host of the executor holds.
    pub closed spec fn host(&self) -> HostView {
        self.low_latency.host()
    }

    /// The store behind the node is consistent.
    pub closed spec fn wf(&self) -> bool {
        self.low_latency.wf()
    }

    /// Whether the open level can take one more operation.
    pub open spec fn has_room(&self) -> bool {
        FIRST_INDEX + self.batch().len() <= u32::MAX
    }

    /// A node over `db`: level 0, an empty batch, an empty inbox.
    pub fn new(db: D) -> (node: Self)
        requires
            db.wf(),
        ensures
            node.wf(),
            node.level() == 0,
            node.batch() == Seq::<Seq<u8>>::empty(),
            node.host().tree == db.tree(),
            node.host().never_fails == db.never_fails(),
            node.host().pending == Seq::<MessageView>::empty(),
    {
        Node { sequencer: Sequencer::new(), low_latency: LowLatency::new(NativeHost::new(db)) }
    }

    /// The store behind the node, to read from.
    pub fn database(&self) -> (db: &D)
        ensures
            db.tree() == self.host().tree,
            db.wf() == self.wf(),
            db.never_fails() == self.host().never_fails,
    {
        self.low_latency.native_host().database()
    }

    /// Whether the open level can take one more operation.
    pub fn can_accept(&self) -> (room: bool)
        ensures
            room == self.has_room(),
    {
        self.sequencer.has_room()
    }

    /// Closes the open level at `header`: the batch gathered so far is handed
    /// out for injection, the executor is told of the boundary, and the next
    /// level starts empty.
    pub fn on_tezos_header(&mut self, header: &TezosHeader) -> (batch: Vec<Vec<u8>>)
        ensures
            payloads_view(batch@) == old(self).batch(),
            final(self).batch() == Seq::<Seq<u8>>::empty(),
            final(self).level() == header.level,
            final(self).host() == old(self).host(),
            final(self).wf() == old(self).wf(),
    {
        let batch = self.sequencer.on_tezos_header(header);
        self.low_latency.on_tezos_header(header);
        batch
    }

    /// Sequences one operation and applies it: the payload joins the batch
    /// and, addressed at the open level with the next index, is run through
    /// the kernel.
    pub fn on_operation(&mut self, msg: Vec<u8>) -> (res: Result<(), RuntimeError>)
        requires
            old(self).wf(),
            old(self).has_room(),
        ensures
            final(self).wf(),
            final(self).level() == old(self).level(),
            final(self).batch() == old(self).batch().push(msg@),
            final(self).host().never_fails == old(self).host().never_fails,
            K::round(
                HostView {
                    pending: old(self).host().pending.push(
                        MessageView {
                            level: old(self).level(),
                            id: (FIRST_INDEX + old(self).batch().len()) as u32,
                            payload: msg@,
                        },
                    ),
                    ..old(self).host()
                },
                final(self).host(),
                res,
            ),
    {
        let message = self.sequencer.on_operation(msg);
        self.low_latency.on_operation(message)
    }

    /// Applies one entry of the queue.
    pub fn dispatch(&mut self, content: QueueContent) -> (done: Dispatched)
        requires
            old(self).wf(),
            content is Message ==> old(self).has_room(),
        ensures
            final(self).wf(),
            match content {
                QueueContent::Message(msg) => {
                    &&& done is Operation
                    &&& final(self).level() == old(self).level()
                    &&& final(self).batch() == old(self).batch().push(msg@)
                    &&& K::round(
                        HostView {
                            pending: old(self).host().pending.push(
                                MessageView {
                                    level: old(self).level(),
                                    id: (FIRST_INDEX + old(self).batch().len()) as u32,
                                    payload: msg@,
                                },
                            ),
                            ..old(self).host()
                        },
                        final(self).host(),
                        done->Operation_0,
                    )
                },
                QueueContent::TezosHeader(header) => {
                    &&& done is Header
                    &&& payloads_view(done->Header_0@) == old(self).batch()
                    &&& final(self).batch() == Seq::<Seq<u8>>::empty()
                    &&& final(self).level() == header.level
                    &&& final(self).host() == old(self).host()
                },
            },
    {
        match content {
            QueueContent::Message(msg) => Dispatched::Operation(self.on_operation(msg)),
            QueueContent::TezosHeader(header) => Dispatched::Header(self.on_tezos_header(&header)),
        }
    }

    /// The value stored at `path`, if there is one and the store can tell.
    pub fn get_state(&self, path: &str) -> (state: Option<Vec<u8>>)
        requires
            self.wf(),
        ensures
            state is Some ==> bytes_view(state) == tree_read(self.host().tree, path@),
            self.host().never_fails ==> bytes_view(state) == tree_read(self.host().tree, path@),
    {
        match self.low_latency.native_host().database().read(path) {
            Ok(Some(value)) => Some(value),
            _ => None,
        }
    }

    /// The child segments of `path`, unless the store fails.
    pub fn get_subkeys(&self, path: &str) -> (subkeys: Option<Vec<String>>)
        requires
            self.wf(),
        ensures
            self.host().never_fails ==> subkeys is Some,
            subkeys is Some ==> strings_view(subkeys->Some_0@) == tree_subkeys(
                self.host().tree,
                path@,
            ),
    {
        match self.low_latency.native_host().database().get_subkeys(path) {
            Ok(value) => Some(value),
            _ => None,
        }
    }
}

} // verus!
