//! The low-latency executor: applies one operation to the host adapter at
//! once, ahead of the chain's settlement.

use crate::database::Database;
use crate::host::{HostView, Message, NativeHost, RuntimeError};
use crate::kernel::Kernel;
use crate::node::TezosHeader;
use std::marker::PhantomData;
use vstd::prelude::*;

verus! {

/// A host adapter together with the kernel that runs against it.
pub struct LowLatency<K: Kernel<D>, D: Database> {
    host: NativeHost<D>,
    _marker: PhantomData<K>,
}

impl<K: Kernel<D>, D: Database> LowLatency<K, D> {
    /// What the executor's host holds.
    pub closed spec fn host(&self) -> HostView {
        self.host@
    }

    /// The store behind the executor's host is consistent.
    pub closed spec fn wf(&self) -> bool {
        self.host.wf()
    }

    /// An executor that runs the kernel against `host`.
    pub fn new(host: NativeHost<D>) -> (executor: Self)
        requires
            host.wf(),
        ensures
            executor.wf(),
            executor.host() == host@,
    {
        LowLatency { host, _marker: PhantomData }
    }

    /// The executor's host, to read from.
    pub fn native_host(&self) -> (host: &NativeHost<D>)
        ensures
            host@ == self.host(),
            host.wf() == self.wf(),
    {
        &self.host
    }

    /// Puts the message into the inbox and runs one round of the kernel,
    /// whose failure, if any, is handed back.
    pub fn on_operation(&mut self, op: Message) -> (res: Result<(), RuntimeError>)
        requires
            old(self).wf(),
        ensures
            final(self).wf(),
            final(self).host().never_fails == old(self).host().never_fails,
            K::round(
                HostView { pending: old(self).host().pending.push(op@), ..old(self).host() },
                final(self).host(),
                res,
            ),
    {
        self.host.add_message(op);
        K::entry(&mut self.host)
    }

    /// Marks the boundary between two levels. Nothing is stored for it.
    pub fn on_tezos_header(&mut self, _header: &TezosHeader)
        ensures
            final(self).host() == old(self).host(),
            final(self).wf() == old(self).wf(),
    {
    }
}

} // verus!
