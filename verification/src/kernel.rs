//! Kernels: the state-transition logic that the executor drives, and the
//! counter kernel that serves as the example of one.

use crate::bytes::{
    be_bytes, be_value, lemma_be_bytes_len, lemma_be_round_trip, lemma_pow256_8, u64_from_be_bytes,
    u64_to_be_bytes,
};
use crate::database::tree::{tree_read, tree_write, Tree};
use crate::database::Database;
use crate::host::{
    path_text, read_window, write_window, HostError, HostView, MessageView, NativeHost,
    RuntimeError,
};
use vstd::prelude::*;
use vstd::string::*;
use vstd::utf8::{encode_utf8_decode_utf8, encode_utf8_valid_utf8, valid_utf8};

verus! {

/// State-transition logic that runs against the host adapter.
pub trait Kernel<D: Database> {
    /// What one round of the kernel makes of the host.
    spec fn round(before: HostView, after: HostView, res: Result<(), RuntimeError>) -> bool;

    /// Runs one round: the kernel reads the inbox until it is told that
    /// nothing is left, and reports the first failure that stops it.
    fn entry(host: &mut NativeHost<D>) -> (res: Result<(), RuntimeError>)
        requires
            old(host).wf(),
        ensures
            final(host).wf(),
            final(host).never_fails() == old(host).never_fails(),
            Self::round(old(host)@, final(host)@, res),
    ;
}

/// The kernel that counts the messages it receives.
pub struct DummyKernel;

/// The number of messages received so far.
#[derive(Debug)]
pub struct Counter {
    inner: u64,
}

/// The path at which the counter kernel keeps its counter.
pub open spec fn counter_path() -> Seq<char> {
    "/counter"@
}

/// The number that the tree holds as the counter: what the first eight
/// bytes of the stored value spell, 0 while nothing is stored.
pub open spec fn counter_value(tree: Tree) -> nat {
    match tree_read(tree, counter_path()) {
        Some(value) => be_value(read_window(value, 0, 8)),
        None => 0,
    }
}

/// Whether the counter can be advanced: what is stored, if anything, has the
/// eight bytes of a counter, and the number is not the largest there is.
pub open spec fn counter_can_step(tree: Tree) -> bool {
    &&& match tree_read(tree, counter_path()) {
        Some(value) => value.len() >= 8,
        None => true,
    }
    &&& counter_value(tree) < u64::MAX
}

/// The tree after the counter has been advanced by one.
pub open spec fn counter_step(tree: Tree) -> Tree {
    tree_write(tree, counter_path(), be_bytes(counter_value(tree) + 1, 8))
}

/// How many of `n` messages the kernel can count before it has to stop.
pub open spec fn counter_progress(tree: Tree, n: nat) -> nat
    decreases n,
{
    if n == 0 || !counter_can_step(tree) {
        0
    } else {
        1 + counter_progress(counter_step(tree), (n - 1) as nat)
    }
}

/// The tree after the counter has been advanced `n` times.
pub open spec fn counter_run(tree: Tree, n: nat) -> Tree
    decreases n,
{
    if n == 0 {
        tree
    } else {
        counter_run(counter_step(tree), (n - 1) as nat)
    }
}

/// What the counter kernel writes to the debug log in a round that counts
/// `counted` messages.
pub open spec fn counter_log(counted: nat) -> Seq<Seq<char>>
    decreases counted,
{
    if counted == 0 {
        seq!["Hello kernel!"@]
    } else {
        counter_log((counted - 1) as nat).push("A message has been received"@)
    }
}

impl View for Counter {
    type V = u64;

    closed spec fn view(&self) -> u64 {
        self.inner
    }
}

impl Default for Counter {
    fn default() -> (counter: Counter)
        ensures
            counter@ == 0,
    {
        Counter { inner: 0 }
    }
}

impl Counter {
    /// The number counted.
    pub fn value(&self) -> (value: u64)
        ensures
            value == self@,
    {
        self.inner
    }

    /// The counter advanced by one.
    pub fn increment(self) -> (next: Counter)
        requires
            self@ < u64::MAX,
        ensures
            next@ == self@ + 1,
    {
        Counter { inner: self.inner + 1 }
    }
}

/// The bytes of the counter's path.
fn counter_path_bytes() -> (path: &'static [u8])
    ensures
        valid_utf8(path@),
        path_text(path@) == counter_path(),
{
    proof {
        encode_utf8_valid_utf8("/counter"@);
        encode_utf8_decode_utf8("/counter"@);
    }
    "/counter".as_bytes()
}

/// Stores the counter as eight big-endian bytes.
pub fn write_counter<D: Database>(host: &mut NativeHost<D>, counter: &Counter) -> (res: Result<
    (),
    RuntimeError,
>)
    requires
        old(host).wf(),
    ensures
        final(host).wf(),
        final(host).same_inbox(old(host)),
        match res {
            Ok(_) => final(host).tree() == tree_write(
                old(host).tree(),
                counter_path(),
                be_bytes(counter@ as nat, 8),
            ),
            Err(e) => e == RuntimeError::HostErr(HostError::GenericInvalidAccess)
                && !old(host).never_fails(),
        },
{
    let src = u64_to_be_bytes(counter.inner);
    assert(write_window(src@, 0) =~= src@);
    host.store_write(counter_path_bytes(), src.as_slice(), 0)
}

/// The counter that the store holds, if it holds one. Stored bytes that are
/// too few for a counter are a decoding error.
pub fn read_counter<D: Database>(host: &mut NativeHost<D>) -> (res: Result<
    Option<Counter>,
    RuntimeError,
>)
    requires
        old(host).wf(),
    ensures
        final(host)@ == old(host)@,
        final(host).wf(),
        match res {
            Ok(None) => tree_read(old(host).tree(), counter_path()) is None,
            Ok(Some(counter)) => tree_read(old(host).tree(), counter_path()) is Some && tree_read(
                old(host).tree(),
                counter_path(),
            )->Some_0.len() >= 8 && counter@ == counter_value(old(host).tree()),
            Err(RuntimeError::DecodingError) => tree_read(old(host).tree(), counter_path()) is Some
                && tree_read(old(host).tree(), counter_path())->Some_0.len() < 8,
            Err(e) => e == RuntimeError::HostErr(HostError::GenericInvalidAccess)
                && !old(host).never_fails(),
        },
{
    match host.store_read(counter_path_bytes(), 0, 8) {
        Err(RuntimeError::HostErr(HostError::StoreNotANode)) => Ok(None),
        Err(RuntimeError::PathNotFound) => Ok(None),
        Err(err) => Err(err),
        Ok(bytes) => {
            if bytes.len() != 8 {
                return Err(RuntimeError::DecodingError);
            }
            let inner = u64_from_be_bytes(bytes.as_slice());
            Ok(Some(Counter { inner }))
        },
    }
}

/// What a round of the counter kernel makes of a host whose store never
/// fails: it counts the pending messages one by one until none is left or
/// the counter cannot be advanced, and leaves the store of any other host
/// consistent.
pub open spec fn counter_round(
    before: HostView,
    after: HostView,
    res: Result<(), RuntimeError>,
) -> bool {
    let pending = before.pending.len();
    let counted = counter_progress(before.tree, pending);
    &&& after.level == before.level
    &&& after.next_id == before.next_id
    &&& before.never_fails ==> {
        &&& after.tree == counter_run(before.tree, counted)
        &&& res is Ok <==> counted == pending
        &&& res is Ok ==> after.pending.len() == 0 && after.debug_log == before.debug_log
            + counter_log(counted).push("End of the inbox"@)
        &&& res is Err ==> res == Err::<(), RuntimeError>(RuntimeError::DecodingError)
            && after.pending == before.pending.skip(counted + 1 as int) && after.debug_log
            == before.debug_log + counter_log(counted + 1)
    }
}

/// One round of the counter kernel: every message of the inbox advances the
/// counter at `/counter` by one.
pub fn entry<D: Database>(host: &mut NativeHost<D>) -> (res: Result<(), RuntimeError>)
    requires
        old(host).wf(),
    ensures
        final(host).wf(),
        final(host).never_fails() == old(host).never_fails(),
        counter_round(old(host)@, final(host)@, res),
{
    let ghost start = host.tree();
    let ghost inbox = host.pending();
    let ghost log = host.debug_log();
    host.write_debug("Hello kernel!");
    let ghost mut counted: nat = 0;
    assert(log.push("Hello kernel!"@) =~= log + counter_log(0));
    assert(inbox.skip(0) =~= inbox);
    loop
        invariant
            host.wf(),
            host.never_fails() == old(host).never_fails(),
            host.level() == old(host).level(),
            host.next_id() == old(host).next_id(),
            start == old(host).tree(),
            inbox == old(host).pending(),
            log == old(host).debug_log(),
            counted <= inbox.len(),
            host.pending() == inbox.skip(counted as int),
            host.debug_log() == log + counter_log(counted),
            host.tree() == counter_run(start, counted),
            counter_progress(start, inbox.len()) == counted + counter_progress(
                host.tree(),
                (inbox.len() - counted) as nat,
            ),
        decreases inbox.len() - counted,
    {
        let ghost tree = host.tree();
        let ghost logged = host.debug_log();
        let input = host.read_input();
        match input {
            Ok(Some(_)) => {
                host.write_debug("A message has been received");
                proof {
                    assert(inbox.skip(counted as int).drop_first() =~= inbox.skip(counted + 1 as int));
                    assert(logged.push("A message has been received"@) =~= log + counter_log(
                        counted + 1,
                    ));
                }
                let counter = match read_counter(host) {
                    Ok(Some(counter)) => counter,
                    Ok(None) => Counter::default(),
                    Err(e) => {
                        return Err(e);
                    },
                };
                if counter.inner == u64::MAX {
                    return Err(RuntimeError::DecodingError);
                }
                let counter = counter.increment();
                match write_counter(host, &counter) {
                    Ok(_) => {},
                    Err(e) => {
                        return Err(e);
                    },
                }
                proof {
                    assert(counter_can_step(tree));
                    assert(host.tree() == counter_step(tree));
                    lemma_run_step(start, counted);
                    counted = counted + 1;
                }
            },
            Ok(None) => {
                host.write_debug("End of the inbox");
                proof {
                    assert(logged.push("End of the inbox"@) =~= log + counter_log(counted).push(
                        "End of the inbox"@,
                    ));
                }
                return Ok(());
            },
            Err(e) => {
                host.write_debug("Error ");
                return Err(e);
            },
        }
    }
}

/// Advancing the counter once more extends a run by one step.
pub proof fn lemma_run_step(tree: Tree, n: nat)
    ensures
        counter_run(tree, n + 1) == counter_step(counter_run(tree, n)),
    decreases n,
{
    if n > 0 {
        lemma_run_step(counter_step(tree), (n - 1) as nat);
    } else {
        reveal_with_fuel(counter_run, 2);
    }
}

/// Whether what the tree holds as the counter, if anything, has the eight
/// bytes of a counter.
pub open spec fn counter_readable(tree: Tree) -> bool {
    match tree_read(tree, counter_path()) {
        Some(value) => value.len() >= 8,
        None => true,
    }
}

/// Advancing the counter stores the next number, which can be read back.
pub proof fn law_counter_step(tree: Tree)
    requires
        counter_can_step(tree),
    ensures
        counter_value(counter_step(tree)) == counter_value(tree) + 1,
        counter_readable(counter_step(tree)),
{
    let next = counter_value(tree) + 1;
    lemma_pow256_8();
    lemma_be_bytes_len(next as nat, 8);
    lemma_be_round_trip(next as nat, 8);
    assert(read_window(be_bytes(next as nat, 8), 0, 8) =~= be_bytes(next as nat, 8));
}

/// Counting `n` messages, where the counter has room for them, succeeds for
/// each and leaves the counter larger by `n`.
pub proof fn law_counter_run(tree: Tree, n: nat)
    requires
        counter_readable(tree),
        counter_value(tree) + n <= u64::MAX,
    ensures
        counter_progress(tree, n) == n,
        counter_value(counter_run(tree, n)) == counter_value(tree) + n,
        counter_readable(counter_run(tree, n)),
    decreases n,
{
    if n > 0 {
        law_counter_step(tree);
        law_counter_run(counter_step(tree), (n - 1) as nat);
    }
}

/// Serialized application: when operations are handed to the counter kernel
/// one after another, each in a round of its own over a store that never
/// fails, every round succeeds and the store reflects all of them in the
/// order in which they came: after the `i`-th the counter has advanced by
/// `i`.
pub proof fn law_serialized_application(
    hosts: Seq<HostView>,
    messages: Seq<MessageView>,
    results: Seq<Result<(), RuntimeError>>,
    i: int,
)
    requires
        hosts.len() == messages.len() + 1,
        results.len() == messages.len(),
        hosts[0].pending.len() == 0,
        counter_readable(hosts[0].tree),
        counter_value(hosts[0].tree) + messages.len() <= u64::MAX,
        forall|k: int| 0 <= k < hosts.len() ==> (#[trigger] hosts[k]).never_fails,
        forall|k: int|
            0 <= k < messages.len() ==> counter_round(
                HostView { pending: hosts[k].pending.push(messages[k]), ..hosts[k] },
                hosts[k + 1],
                #[trigger] results[k],
            ),
        0 <= i <= messages.len(),
    ensures
        hosts[i].pending.len() == 0,
        hosts[i].tree == counter_run(hosts[0].tree, i as nat),
        counter_value(hosts[i].tree) == counter_value(hosts[0].tree) + i,
        i > 0 ==> results[i - 1] is Ok,
    decreases i,
{
    law_counter_run(hosts[0].tree, i as nat);
    if i > 0 {
        law_serialized_application(hosts, messages, results, i - 1);
        let before = hosts[i - 1];
        law_counter_run(hosts[0].tree, (i - 1) as nat);
        law_counter_step(before.tree);
        let fed = HostView { pending: before.pending.push(messages[i - 1]), ..before };
        assert(counter_round(fed, hosts[i - 1 + 1], results[i - 1]));
        assert(fed.pending.len() == 1);
        reveal_with_fuel(counter_progress, 2);
        reveal_with_fuel(counter_run, 2);
        assert(counter_progress(before.tree, 1) == 1);
        lemma_run_step(hosts[0].tree, (i - 1) as nat);
    }
}

impl<D: Database> Kernel<D> for DummyKernel {
    open spec fn round(before: HostView, after: HostView, res: Result<(), RuntimeError>) -> bool {
        counter_round(before, after, res)
    }

    fn entry(host: &mut NativeHost<D>) -> (res: Result<(), RuntimeError>) {
        self::entry(host)
    }
}

} // verus!
