//! The counter kernel as a rollup runs it: of the messages in the inbox
//! only the external ones that begin with the byte `0x88` advance the
//! counter at `/counter`.

use crate::bytes::{be_bytes, u64_from_be_bytes, u64_to_be_bytes};
use crate::database::tree::{tree_read, tree_write, Tree};
use crate::database::Database;
use crate::host::{
    path_text, read_window, write_window, HostError, HostView, MessageView, NativeHost,
    RuntimeError,
};
use crate::kernel::{
    counter_can_step, counter_path, counter_step, counter_value, Kernel,
};
use vstd::prelude::*;
use vstd::string::*;
use vstd::utf8::{encode_utf8_decode_utf8, encode_utf8_valid_utf8, valid_utf8};

verus! {

/// The kernel that counts the messages addressed to it.
pub struct CounterKernel;

/// The byte that marks a message as external.
pub const EXTERNAL_TAG: u8 = 0x01;

/// The byte that an external message begins with if it asks the kernel to
/// count.
pub const COUNT_BYTE: u8 = 0x88;

/// Whether a message asks the kernel to count.
pub open spec fn asks_to_count(payload: Seq<u8>) -> bool {
    payload.len() >= 2 && payload[0] == EXTERNAL_TAG && payload[1] == COUNT_BYTE
}

/// How many of the messages the kernel can handle before it has to stop: a
/// message that does not ask to count is passed over, one that does needs a
/// counter that can be advanced.
pub open spec fn handled(tree: Tree, messages: Seq<MessageView>) -> nat
    decreases messages.len(),
{
    if messages.len() == 0 {
        0
    } else if !asks_to_count(messages[0].payload) {
        1 + handled(tree, messages.drop_first())
    } else if counter_can_step(tree) {
        1 + handled(counter_step(tree), messages.drop_first())
    } else {
        0
    }
}

/// The tree after the kernel has handled the messages, each of which it
/// can handle.
pub open spec fn counted(tree: Tree, messages: Seq<MessageView>) -> Tree
    decreases messages.len(),
{
    if messages.len() == 0 {
        tree
    } else if asks_to_count(messages[0].payload) {
        counted(counter_step(tree), messages.drop_first())
    } else {
        counted(tree, messages.drop_first())
    }
}

/// What a round of the kernel makes of a host whose store never fails: it
/// handles the pending messages in turn until none is left or the counter
/// cannot be advanced.
pub open spec fn count_round(before: HostView, after: HostView, res: Result<(), RuntimeError>) -> bool {
    let done = handled(before.tree, before.pending);
    &&& after.level == before.level
    &&& after.next_id == before.next_id
    &&& after.debug_log == before.debug_log
    &&& before.never_fails ==> {
        &&& after.tree == counted(before.tree, before.pending.take(done as int))
        &&& res is Ok <==> done == before.pending.len()
        &&& res is Ok ==> after.pending.len() == 0
        &&& res is Err ==> res == Err::<(), RuntimeError>(RuntimeError::DecodingError)
            && after.pending == before.pending.skip(done + 1 as int)
    }
}

/// The bytes of the counter's path.
fn counter_path_bytes() -> (path: &'static [u8])
    ensures
        valid_utf8(path@),
        path_text(path@) == counter_path(),
{
    proof {
        encode_utf8_valid_utf8("/counter"@);
        encode_utf8_decode_utf8("/counter"@);
    }
    "/counter".as_bytes()
}

/// The counter that the store holds, 0 where it holds none or cannot tell.
/// Stored bytes that are too few for a counter are a decoding error.
pub fn read_counter<D: Database>(host: &mut NativeHost<D>) -> (res: Result<u64, RuntimeError>)
    requires
        old(host).wf(),
    ensures
        final(host).wf(),
        final(host)@ == old(host)@,
        match res {
            Ok(counter) => counter == counter_value(old(host).tree()) || (counter == 0
                && !old(host).never_fails()),
            Err(e) => e == RuntimeError::DecodingError && tree_read(
                old(host).tree(),
                counter_path(),
            ) is Some && tree_read(old(host).tree(), counter_path())->Some_0.len() < 8,
        },
        res is Ok && old(host).never_fails() ==> (tree_read(old(host).tree(), counter_path())
            matches Some(value) ==> value.len() >= 8),
{
    match host.store_read(counter_path_bytes(), 0, 8) {
        Ok(bytes) => {
            if bytes.len() != 8 {
                return Err(RuntimeError::DecodingError);
            }
            Ok(u64_from_be_bytes(bytes.as_slice()))
        },
        Err(_) => Ok(0),
    }
}

/// Stores the counter as eight big-endian bytes and hands it back.
pub fn write_counter<D: Database>(host: &mut NativeHost<D>, counter: u64) -> (res: Result<
    u64,
    RuntimeError,
>)
    requires
        old(host).wf(),
    ensures
        final(host).wf(),
        final(host).same_inbox(old(host)),
        match res {
            Ok(written) => written == counter && final(host).tree() == tree_write(
                old(host).tree(),
                counter_path(),
                be_bytes(counter as nat, 8),
            ),
            Err(e) => e == RuntimeError::HostErr(HostError::GenericInvalidAccess)
                && !old(host).never_fails(),
        },
{
    let src = u64_to_be_bytes(counter);
    assert(write_window(src@, 0) =~= src@);
    match host.store_write(counter_path_bytes(), src.as_slice(), 0) {
        Ok(_) => Ok(counter),
        Err(e) => Err(e),
    }
}

/// One round of the kernel.
pub fn entry<D: Database>(host: &mut NativeHost<D>) -> (res: Result<(), RuntimeError>)
    requires
        old(host).wf(),
    ensures
        final(host).wf(),
        final(host).never_fails() == old(host).never_fails(),
        count_round(old(host)@, final(host)@, res),
{
    let ghost start = host.tree();
    let ghost inbox = host.pending();
    let ghost mut done: nat = 0;
    assert(inbox.take(0) =~= Seq::<MessageView>::empty());
    assert(inbox.skip(0) =~= inbox);
    loop
        invariant
            host.wf(),
            host.never_fails() == old(host).never_fails(),
            host.level() == old(host).level(),
            host.next_id() == old(host).next_id(),
            host.debug_log() == old(host).debug_log(),
            start == old(host).tree(),
            inbox == old(host).pending(),
            done <= inbox.len(),
            host.pending() == inbox.skip(done as int),
            host.never_fails() ==> host.tree() == counted(start, inbox.take(done as int)),
            host.never_fails() ==> handled(start, inbox) == done + handled(
                host.tree(),
                inbox.skip(done as int),
            ),
        decreases inbox.len() - done,
    {
        let ghost tree = host.tree();
        let ghost rest = inbox.skip(done as int);
        match host.read_input() {
            Ok(Some(message)) => {
                proof {
                    assert(rest.drop_first() =~= inbox.skip(done + 1 as int));
                    assert(rest[0] == inbox[done as int]);
                    assert(message@ == inbox[done as int]);
                }
                let payload = message.payload();
                if payload.len() >= 2 && payload[0] == EXTERNAL_TAG && payload[1] == COUNT_BYTE {
                    let counter = read_counter(host)?;
                    if counter == u64::MAX {
                        return Err(RuntimeError::DecodingError);
                    }
                    let next_counter = counter + 1;
                    match write_counter(host, next_counter) {
                        Ok(_) => {},
                        Err(e) => {
                            return Err(e);
                        },
                    }
                }
                proof {
                    if host.never_fails() {
                        lemma_counted_push(start, inbox.take(done as int), inbox[done as int]);
                        assert(inbox.take(done + 1 as int) =~= inbox.take(done as int).push(
                            inbox[done as int],
                        ));
                    }
                    done = done + 1;
                }
            },
            Ok(None) | Err(_) => {
                proof {
                    assert(inbox.take(inbox.len() as int) =~= inbox);
                }
                return Ok(());
            },
        }
    }
}

/// Handling one more message goes on from where the messages before it
/// have brought the tree.
pub proof fn lemma_counted_push(tree: Tree, messages: Seq<MessageView>, next: MessageView)
    ensures
        counted(tree, messages.push(next)) == if asks_to_count(next.payload) {
            counter_step(counted(tree, messages))
        } else {
            counted(tree, messages)
        },
    decreases messages.len(),
{
    let all = messages.push(next);
    if messages.len() == 0 {
        assert(all.drop_first() =~= messages);
        reveal_with_fuel(counted, 2);
    } else {
        assert(all.drop_first() =~= messages.drop_first().push(next));
        assert(all[0] == messages[0]);
        if asks_to_count(messages[0].payload) {
            lemma_counted_push(counter_step(tree), messages.drop_first(), next);
        } else {
            lemma_counted_push(tree, messages.drop_first(), next);
        }
    }
}

impl<D: Database> Kernel<D> for CounterKernel {
    open spec fn round(before: HostView, after: HostView, res: Result<(), RuntimeError>) -> bool {
        count_round(before, after, res)
    }

    fn entry(host: &mut NativeHost<D>) -> (res: Result<(), RuntimeError>) {
        self::entry(host)
    }
}

} // verus!
