//! The host adapter: the storage tree and an inbox queue, offered in the
//! shape that a kernel expects of its host.

use crate::database::path::strings_view;
use crate::database::tree::{
    tree_copy, tree_delete, tree_read, tree_subkeys, tree_write, Tree,
};
use crate::database::Database;
use crate::foreign::{is_storage_path, utf8_str, valid_storage_path};
use std::collections::VecDeque;
use vstd::prelude::*;
use vstd::string::*;
use vstd::utf8::{decode_utf8, encode_utf8, encode_utf8_decode_utf8, valid_utf8};

verus! {

/// The errors of the host functions that the adapter can report.
#[derive(Debug, Clone, Copy, PartialEq, Eq, Structural)]
pub enum HostError {
    /// The store key cannot be parsed.
    StoreInvalidKey,
    /// The value to write exceeds the size that the host can represent.
    StoreValueSizeExceeded,
    /// The store failed for a reason of its own.
    GenericInvalidAccess,
    /// Nothing is stored under the key.
    StoreNotANode,
    /// No child stands at the index, or the child's name is no storage path.
    StoreInvalidSubkeyIndex,
}

/// What a kernel is told when a host capability fails.
#[derive(Debug, Clone, Copy, PartialEq, Eq, Structural)]
pub enum RuntimeError {
    /// The key to read from or delete does not exist.
    PathNotFound,
    /// An error of a host function.
    HostErr(HostError),
    /// Stored bytes could not be decoded.
    DecodingError,
}

/// Whether a path holds a value, is a prefix of further paths, or both.
#[derive(Debug, Clone, Copy, PartialEq, Eq, Structural)]
pub enum ValueType {
    /// The path has a value and no children.
    Value,
    /// The path has children and no value.
    Subtree,
    /// The path has both a value and children.
    ValueWithSubtree,
}

/// One inbox entry: a payload addressed by chain level and position in it.
#[derive(Debug)]
pub struct Message {
    /// The inbox level of the message.
    pub level: u32,
    /// The index of the message within its level.
    pub id: u32,
    /// The bytes of the message.
    pub payload: Vec<u8>,
}

/// What a message holds.
pub struct MessageView {
    /// The inbox level of the message.
    pub level: u32,
    /// The index of the message within its level.
    pub id: u32,
    /// The bytes of the message.
    pub payload: Seq<u8>,
}

impl View for Message {
    type V = MessageView;

    open spec fn view(&self) -> MessageView {
        MessageView { level: self.level, id: self.id, payload: self.payload@ }
    }
}

impl Message {
    /// An inbox entry for `payload` at `(level, id)`.
    pub fn new(level: u32, id: u32, payload: Vec<u8>) -> (message: Message)
        ensures
            message@ == (MessageView { level, id, payload: payload@ }),
    {
        Message { level, id, payload }
    }

    /// The bytes of the message.
    pub fn payload(&self) -> (payload: &[u8])
        ensures
            payload@ == self@.payload,
    {
        self.payload.as_slice()
    }
}

/// What the messages of a queue hold.
pub open spec fn messages_view(queue: Seq<Message>) -> Seq<MessageView> {
    queue.map_values(|message: Message| message@)
}

/// The largest size of a value that the host can represent.
pub const MAX_VALUE_SIZE: usize = 0x7fff_ffff;

/// Accepts `data` if its length fits the host's signed 32-bit size, and
/// reports `StoreValueSizeExceeded` otherwise.
pub fn check_data_size(data: &[u8]) -> (res: Result<&[u8], RuntimeError>)
    ensures
        data@.len() <= MAX_VALUE_SIZE ==> res is Ok && res->Ok_0@ == data@,
        data@.len() > MAX_VALUE_SIZE ==> res == Err::<&[u8], RuntimeError>(
            RuntimeError::HostErr(HostError::StoreValueSizeExceeded),
        ),
{
    if data.len() > MAX_VALUE_SIZE {
        Err(RuntimeError::HostErr(HostError::StoreValueSizeExceeded))
    } else {
        Ok(data)
    }
}

/// The string that the bytes of a path spell.
pub open spec fn path_text(path: Seq<u8>) -> Seq<char> {
    decode_utf8(path)
}

/// The part of `value` that a read from `offset` of at most `max` bytes sees.
pub open spec fn read_window(value: Seq<u8>, offset: int, max: int) -> Seq<u8> {
    if offset >= value.len() {
        seq![]
    } else if value.len() - offset > max {
        value.subrange(offset, offset + max)
    } else {
        value.skip(offset)
    }
}

/// The part of `src` that a write at `offset` stores.
pub open spec fn write_window(src: Seq<u8>, offset: int) -> Seq<u8> {
    if offset >= src.len() {
        seq![]
    } else {
        src.skip(offset)
    }
}

/// What the tree holds at `path`: nothing, a value, children, or both.
pub open spec fn value_type(tree: Tree, path: Seq<char>) -> Option<ValueType> {
    if !tree.contains_key(path) {
        None
    } else if tree[path].value is Some {
        if tree[path].children.len() == 0 {
            Some(ValueType::Value)
        } else {
            Some(ValueType::ValueWithSubtree)
        }
    } else if tree[path].children.len() == 0 {
        None
    } else {
        Some(ValueType::Subtree)
    }
}

/// The string that path bytes spell, or the error for a key that is no
/// UTF-8.
pub fn path_str(path: &[u8]) -> (res: Result<&str, RuntimeError>)
    ensures
        valid_utf8(path@) ==> res is Ok && res->Ok_0@ == path_text(path@),
        !valid_utf8(path@) ==> res == Err::<&str, RuntimeError>(
            RuntimeError::HostErr(HostError::StoreInvalidKey),
        ),
{
    match utf8_str(path) {
        Some(text) => {
            proof {
                encode_utf8_decode_utf8(text@);
            }
            Ok(text)
        },
        None => Err(RuntimeError::HostErr(HostError::StoreInvalidKey)),
    }
}

/// The bytes of `data` from `offset` on, at most `max` of them.
pub fn copy_window(data: &[u8], offset: usize, max: usize) -> (window: Vec<u8>)
    ensures
        window@ == read_window(data@, offset as int, max as int),
{
    let mut window: Vec<u8> = Vec::new();
    if offset >= data.len() {
        return window;
    }
    let available = data.len() - offset;
    let count = if available > max { max } else { available };
    let mut i: usize = 0;
    while i < count
        invariant
            i <= count,
            offset + count <= data.len(),
            window@ == data@.subrange(offset as int, offset + i),
        decreases count - i,
    {
        window.push(data[offset + i]);
        assert(window@ =~= data@.subrange(offset as int, offset + i + 1));
        i += 1;
    }
    assert(window@ =~= read_window(data@, offset as int, max as int));
    window
}

/// A store with an inbox: what a kernel runs against.
pub struct NativeHost<D: Database> {
    inputs: VecDeque<Message>,
    level: u32,
    id: u32,
    debug: Vec<String>,
    db: D,
}

/// What a host holds, apart from how its store keeps its records.
pub struct HostView {
    /// The nodes of the store behind the host.
    pub tree: Tree,
    /// The messages that wait to be read, oldest first.
    pub pending: Seq<MessageView>,
    /// The level that the host assigns to the payloads it is handed.
    pub level: u32,
    /// The index that the host assigns to the next payload it is handed.
    pub next_id: u32,
    /// The debug messages written so far, oldest first.
    pub debug_log: Seq<Seq<char>>,
    /// Whether the store behind the host can never report an error.
    pub never_fails: bool,
}

/// Something that inbox payloads can be handed to.
pub trait AddInput {
    /// The payloads that wait to be read, oldest first.
    spec fn queued(&self) -> Seq<Seq<u8>>;

    /// Whether one more payload can be given an index.
    spec fn has_room(&self) -> bool;

    /// Appends `input` to the queue.
    fn add_input(&mut self, input: Vec<u8>)
        requires
            old(self).has_room(),
        ensures
            final(self).queued() == old(self).queued().push(input@),
    ;
}

impl<D: Database> View for NativeHost<D> {
    type V = HostView;

    closed spec fn view(&self) -> HostView {
        HostView {
            tree: self.db.tree(),
            pending: messages_view(self.inputs@),
            level: self.level,
            next_id: self.id,
            debug_log: strings_view(self.debug@),
            never_fails: self.db.never_fails(),
        }
    }
}

impl<D: Database> NativeHost<D> {
    /// The nodes of the store behind the host.
    pub open spec fn tree(&self) -> Tree {
        self@.tree
    }

    /// The messages that wait to be read, oldest first.
    pub open spec fn pending(&self) -> Seq<MessageView> {
        self@.pending
    }

    /// The level that the host assigns to the payloads it is handed.
    pub open spec fn level(&self) -> u32 {
        self@.level
    }

    /// The index that the host assigns to the next payload it is handed.
    pub open spec fn next_id(&self) -> u32 {
        self@.next_id
    }

    /// The debug messages written so far, oldest first.
    pub open spec fn debug_log(&self) -> Seq<Seq<char>> {
        self@.debug_log
    }

    /// The store behind the host is consistent.
    pub closed spec fn wf(&self) -> bool {
        self.db.wf()
    }

    /// Whether the store behind the host can never report an error.
    pub open spec fn never_fails(&self) -> bool {
        self@.never_fails
    }

    /// Whether nothing but the store differs between `self` and `other`.
    pub open spec fn same_inbox(&self, other: &Self) -> bool {
        &&& self.pending() == other.pending()
        &&& self.level() == other.level()
        &&& self.next_id() == other.next_id()
        &&& self.debug_log() == other.debug_log()
        &&& self.never_fails() == other.never_fails()
    }

    /// A host over `db` with an empty inbox, at level 0.
    pub fn new(db: D) -> (host: Self)
        requires
            db.wf(),
        ensures
            host.wf(),
            host.tree() == db.tree(),
            host.never_fails() == db.never_fails(),
            host.pending() == Seq::<MessageView>::empty(),
            host.level() == 0,
            host.next_id() == 0,
            host.debug_log() == Seq::<Seq<char>>::empty(),
    {
        let host = NativeHost { inputs: VecDeque::new(), level: 0, id: 0, debug: Vec::new(), db };
        assert(host.pending() =~= Seq::<MessageView>::empty());
        assert(host.debug_log() =~= Seq::<Seq<char>>::empty());
        host
    }

    /// The store behind the host.
    pub fn database(&self) -> (db: &D)
        ensures
            db.tree() == self.tree(),
            db.wf() == self.wf(),
            db.never_fails() == self.never_fails(),
    {
        &self.db
    }

    /// Whether the host can give one more payload an index.
    pub fn can_add_input(&self) -> (room: bool)
        ensures
            room == (self.next_id() < u32::MAX),
    {
        self.id < u32::MAX
    }

    /// Appends a message, addressed as it is, to the inbox.
    pub fn add_message(&mut self, message: Message)
        requires
            old(self).wf(),
        ensures
            final(self).wf(),
            final(self).pending() == old(self).pending().push(message@),
            final(self).tree() == old(self).tree(),
            final(self).level() == old(self).level(),
            final(self).next_id() == old(self).next_id(),
            final(self).debug_log() == old(self).debug_log(),
            final(self).never_fails() == old(self).never_fails(),
    {
        let ghost before = self.pending();
        self.inputs.push_back(message);
        assert(self.pending() =~= before.push(message@));
    }

    /// Records `msg` in the debug log. Nothing else changes.
    pub fn write_debug(&mut self, msg: &str)
        requires
            old(self).wf(),
        ensures
            final(self).wf(),
            final(self).debug_log() == old(self).debug_log().push(msg@),
            final(self).tree() == old(self).tree(),
            final(self).pending() == old(self).pending(),
            final(self).level() == old(self).level(),
            final(self).next_id() == old(self).next_id(),
            final(self).never_fails() == old(self).never_fails(),
    {
        let ghost before = self.debug_log();
        self.debug.push(String::from_str(msg));
        assert(self.debug_log() =~= before.push(msg@));
    }

    /// The oldest message of the inbox, which leaves the queue, or nothing
    /// once the inbox is empty.
    pub fn read_input(&mut self) -> (res: Result<Option<Message>, RuntimeError>)
        requires
            old(self).wf(),
        ensures
            final(self).wf(),
            res is Ok,
            old(self).pending().len() == 0 ==> res->Ok_0 is None && final(self).pending()
                == old(self).pending(),
            old(self).pending().len() > 0 ==> res->Ok_0 is Some && res->Ok_0->Some_0@
                == old(self).pending()[0] && final(self).pending() == old(self).pending().drop_first(),
            final(self).tree() == old(self).tree(),
            final(self).level() == old(self).level(),
            final(self).next_id() == old(self).next_id(),
            final(self).debug_log() == old(self).debug_log(),
            final(self).never_fails() == old(self).never_fails(),
    {
        let ghost before = self.pending();
        let next = self.inputs.pop_front();
        proof {
            if before.len() > 0 {
                assert(self.pending() =~= before.drop_first());
            } else {
                assert(self.pending() =~= before);
            }
        }
        Ok(next)
    }

    /// What the store holds at `path`: a value, a subtree, both, or nothing.
    pub fn store_has(&self, path: &[u8]) -> (res: Result<Option<ValueType>, RuntimeError>)
        requires
            self.wf(),
        ensures
            !valid_utf8(path@) ==> res == Err::<Option<ValueType>, RuntimeError>(
                RuntimeError::HostErr(HostError::StoreInvalidKey),
            ),
            valid_utf8(path@) ==> match res {
                Ok(found) => found == value_type(self.tree(), path_text(path@)),
                Err(e) => e == RuntimeError::HostErr(HostError::GenericInvalidAccess)
                    && !self.never_fails(),
            },
    {
        let key = path_str(path)?;
        match self.db.read_node(key) {
            Err(_) => Err(RuntimeError::HostErr(HostError::GenericInvalidAccess)),
            Ok(None) => Ok(None),
            Ok(Some(node)) => {
                let childless = node.children().len() == 0;
                let found = match (node.value(), childless) {
                    (None, true) => None,
                    (None, false) => Some(ValueType::Subtree),
                    (Some(_), true) => Some(ValueType::Value),
                    (Some(_), false) => Some(ValueType::ValueWithSubtree),
                };
                Ok(found)
            },
        }
    }

    /// The value at `path` from `from_offset` on, cut to `max_bytes`.
    pub fn store_read(&self, path: &[u8], from_offset: usize, max_bytes: usize) -> (res: Result<
        Vec<u8>,
        RuntimeError,
    >)
        requires
            self.wf(),
        ensures
            !valid_utf8(path@) ==> res == Err::<Vec<u8>, RuntimeError>(
                RuntimeError::HostErr(HostError::StoreInvalidKey),
            ),
            valid_utf8(path@) ==> match res {
                Ok(bytes) => tree_read(self.tree(), path_text(path@)) is Some && bytes@
                    == read_window(
                    tree_read(self.tree(), path_text(path@))->Some_0,
                    from_offset as int,
                    max_bytes as int,
                ),
                Err(RuntimeError::HostErr(HostError::StoreNotANode)) => tree_read(
                    self.tree(),
                    path_text(path@),
                ) is None,
                Err(e) => e == RuntimeError::HostErr(HostError::GenericInvalidAccess)
                    && !self.never_fails(),
            },
    {
        let key = path_str(path)?;
        match self.db.read(key) {
            Ok(Some(value)) => Ok(copy_window(value.as_slice(), from_offset, max_bytes)),
            Err(_) => Err(RuntimeError::HostErr(HostError::GenericInvalidAccess)),
            Ok(None) => Err(RuntimeError::HostErr(HostError::StoreNotANode)),
        }
    }

    /// Stores at `path` the bytes of `src` from `at_offset` on, unless `src`
    /// is larger than the host can represent.
    pub fn store_write(&mut self, path: &[u8], src: &[u8], at_offset: usize) -> (res: Result<
        (),
        RuntimeError,
    >)
        requires
            old(self).wf(),
        ensures
            final(self).wf(),
            final(self).same_inbox(old(self)),
            !valid_utf8(path@) ==> res == Err::<(), RuntimeError>(
                RuntimeError::HostErr(HostError::StoreInvalidKey),
            ) && final(self).tree() == old(self).tree(),
            valid_utf8(path@) && src@.len() > MAX_VALUE_SIZE ==> res == Err::<(), RuntimeError>(
                RuntimeError::HostErr(HostError::StoreValueSizeExceeded),
            ) && final(self).tree() == old(self).tree(),
            valid_utf8(path@) && src@.len() <= MAX_VALUE_SIZE ==> match res {
                Ok(_) => final(self).tree() == tree_write(
                    old(self).tree(),
                    path_text(path@),
                    write_window(src@, at_offset as int),
                ),
                Err(e) => e == RuntimeError::HostErr(HostError::GenericInvalidAccess)
                    && !old(self).never_fails(),
            },
    {
        let key = path_str(path)?;
        let src = check_data_size(src)?;
        let data = copy_window(src, at_offset, src.len());
        assert(data@ =~= write_window(src@, at_offset as int));
        match self.db.write(key, data.as_slice()) {
            Ok(_) => Ok(()),
            Err(_) => Err(RuntimeError::HostErr(HostError::GenericInvalidAccess)),
        }
    }

    /// Removes the node at `path` and everything below it.
    pub fn store_delete(&mut self, path: &[u8]) -> (res: Result<(), RuntimeError>)
        requires
            old(self).wf(),
        ensures
            final(self).wf(),
            final(self).same_inbox(old(self)),
            !valid_utf8(path@) ==> res == Err::<(), RuntimeError>(
                RuntimeError::HostErr(HostError::StoreInvalidKey),
            ) && final(self).tree() == old(self).tree(),
            valid_utf8(path@) ==> match res {
                Ok(_) => final(self).tree() == tree_delete(old(self).tree(), path_text(path@)),
                Err(e) => e == RuntimeError::HostErr(HostError::GenericInvalidAccess)
                    && !old(self).never_fails(),
            },
    {
        let key = path_str(path)?;
        match self.db.delete(key) {
            Ok(_) => Ok(()),
            Err(_) => Err(RuntimeError::HostErr(HostError::GenericInvalidAccess)),
        }
    }

    /// The number of children of the node at `prefix`.
    pub fn store_count_subkeys(&self, prefix: &[u8]) -> (res: Result<i64, RuntimeError>)
        requires
            self.wf(),
        ensures
            !valid_utf8(prefix@) ==> res == Err::<i64, RuntimeError>(
                RuntimeError::HostErr(HostError::StoreInvalidKey),
            ),
            valid_utf8(prefix@) ==> match res {
                Ok(count) => self.tree().contains_key(path_text(prefix@)) && count
                    == self.tree()[path_text(prefix@)].children.len(),
                Err(RuntimeError::HostErr(HostError::StoreNotANode)) => !self.tree().contains_key(
                    path_text(prefix@),
                ),
                Err(e) => e == RuntimeError::HostErr(HostError::GenericInvalidAccess) && (
                !self.never_fails() || self.tree()[path_text(prefix@)].children.len() > i64::MAX),
            },
    {
        let key = path_str(prefix)?;
        match self.db.read_node(key) {
            Err(_) => Err(RuntimeError::HostErr(HostError::GenericInvalidAccess)),
            Ok(None) => Err(RuntimeError::HostErr(HostError::StoreNotANode)),
            Ok(Some(node)) => {
                let count = node.children().len();
                if count as u64 > i64::MAX as u64 {
                    Err(RuntimeError::HostErr(HostError::GenericInvalidAccess))
                } else {
                    Ok(count as i64)
                }
            },
        }
    }

    /// The child at `index` of the node at `prefix`, provided that its name
    /// is itself a storage path.
    pub fn store_get_subkey(&self, prefix: &[u8], index: i64) -> (res: Result<
        String,
        RuntimeError,
    >)
        requires
            self.wf(),
        ensures
            !valid_utf8(prefix@) ==> res == Err::<String, RuntimeError>(
                RuntimeError::HostErr(HostError::StoreInvalidKey),
            ),
            valid_utf8(prefix@) ==> match res {
                Ok(child) => {
                    &&& self.tree().contains_key(path_text(prefix@))
                    &&& 0 <= index < self.tree()[path_text(prefix@)].children.len()
                    &&& child@ == self.tree()[path_text(prefix@)].children[index as int]
                    &&& valid_storage_path(encode_utf8(child@))
                },
                Err(RuntimeError::HostErr(HostError::StoreNotANode)) => index >= 0
                    && !self.tree().contains_key(path_text(prefix@)),
                Err(RuntimeError::HostErr(HostError::StoreInvalidSubkeyIndex)) => {
                    let children = tree_subkeys(self.tree(), path_text(prefix@));
                    ||| index < 0
                    ||| index > usize::MAX
                    ||| self.tree().contains_key(path_text(prefix@)) && (index >= children.len()
                        || !valid_storage_path(encode_utf8(children[index as int])))
                },
                Err(e) => e == RuntimeError::HostErr(HostError::GenericInvalidAccess)
                    && !self.never_fails(),
            },
    {
        let key = path_str(prefix)?;
        let node = match self.db.read_node(key) {
            Err(_) => { return Err(RuntimeError::HostErr(HostError::GenericInvalidAccess)); },
            Ok(node) => node,
        };
        if index < 0 || index as u64 > usize::MAX as u64 {
            return Err(RuntimeError::HostErr(HostError::StoreInvalidSubkeyIndex));
        }
        let index = index as usize;
        match node {
            None => Err(RuntimeError::HostErr(HostError::StoreNotANode)),
            Some(node) => {
                let children = node.children();
                if index < children.len() {
                    let child = children[index].clone();
                    if is_storage_path(child.as_str().as_bytes()) {
                        Ok(child)
                    } else {
                        Err(RuntimeError::HostErr(HostError::StoreInvalidSubkeyIndex))
                    }
                } else {
                    Err(RuntimeError::HostErr(HostError::StoreInvalidSubkeyIndex))
                }
            },
        }
    }

    /// Places a duplicate of the subtree at `from_path` under `to_path`.
    pub fn store_copy(&mut self, from_path: &[u8], to_path: &[u8]) -> (res: Result<
        (),
        RuntimeError,
    >)
        requires
            old(self).wf(),
        ensures
            final(self).wf(),
            final(self).same_inbox(old(self)),
            !valid_utf8(from_path@) || !valid_utf8(to_path@) ==> res == Err::<(), RuntimeError>(
                RuntimeError::HostErr(HostError::StoreInvalidKey),
            ) && final(self).tree() == old(self).tree(),
            valid_utf8(from_path@) && valid_utf8(to_path@) ==> match res {
                Ok(_) => final(self).tree() == tree_copy(
                    old(self).tree(),
                    path_text(from_path@),
                    path_text(to_path@),
                ),
                Err(e) => e == RuntimeError::HostErr(HostError::GenericInvalidAccess)
                    && !old(self).never_fails(),
            },
    {
        let from = path_str(from_path)?;
        let to = path_str(to_path)?;
        match self.db.copy(from, to) {
            Ok(_) => Ok(()),
            Err(_) => Err(RuntimeError::HostErr(HostError::GenericInvalidAccess)),
        }
    }

    /// Moves the subtree at `from_path` to `to_path`: a copy, then the
    /// deletion of the source.
    pub fn store_move(&mut self, from_path: &[u8], to_path: &[u8]) -> (res: Result<
        (),
        RuntimeError,
    >)
        requires
            old(self).wf(),
        ensures
            final(self).wf(),
            final(self).same_inbox(old(self)),
            !valid_utf8(from_path@) || !valid_utf8(to_path@) ==> res == Err::<(), RuntimeError>(
                RuntimeError::HostErr(HostError::StoreInvalidKey),
            ) && final(self).tree() == old(self).tree(),
            valid_utf8(from_path@) && valid_utf8(to_path@) ==> match res {
                Ok(_) => final(self).tree() == tree_delete(
                    tree_copy(old(self).tree(), path_text(from_path@), path_text(to_path@)),
                    path_text(from_path@),
                ),
                Err(e) => e == RuntimeError::HostErr(HostError::GenericInvalidAccess)
                    && !old(self).never_fails(),
            },
    {
        self.store_copy(from_path, to_path)?;
        self.store_delete(from_path)?;
        Ok(())
    }

    /// The size of the value at `path`, 0 if there is none.
    pub fn store_value_size(&self, path: &[u8]) -> (res: Result<usize, RuntimeError>)
        requires
            self.wf(),
        ensures
            !valid_utf8(path@) ==> res == Err::<usize, RuntimeError>(
                RuntimeError::HostErr(HostError::StoreInvalidKey),
            ),
            valid_utf8(path@) ==> match res {
                Ok(size) => size == match tree_read(self.tree(), path_text(path@)) {
                    Some(value) => value.len(),
                    None => 0,
                },
                Err(e) => e == RuntimeError::HostErr(HostError::GenericInvalidAccess)
                    && !self.never_fails(),
            },
    {
        let key = path_str(path)?;
        match self.db.read(key) {
            Err(_) => Err(RuntimeError::HostErr(HostError::GenericInvalidAccess)),
            Ok(Some(value)) => Ok(value.len()),
            Ok(None) => Ok(0),
        }
    }
}

impl<D: Database> AddInput for NativeHost<D> {
    open spec fn queued(&self) -> Seq<Seq<u8>> {
        self.pending().map_values(|message: MessageView| message.payload)
    }

    open spec fn has_room(&self) -> bool {
        self.next_id() < u32::MAX
    }

    /// Appends `input` to the inbox, addressed at the host's level and next
    /// index.
    fn add_input(&mut self, input: Vec<u8>)
        ensures
            final(self).pending() == old(self).pending().push(
                MessageView { level: old(self).level(), id: old(self).next_id(), payload: input@ },
            ),
            final(self).next_id() == old(self).next_id() + 1,
            final(self).level() == old(self).level(),
            final(self).tree() == old(self).tree(),
            final(self).wf() == old(self).wf(),
            final(self).debug_log() == old(self).debug_log(),
            final(self).never_fails() == old(self).never_fails(),
    {
        let ghost before = self.pending();
        let message = Message::new(self.level, self.id, input);
        self.id += 1;
        self.inputs.push_back(message);
        assert(self.pending() =~= before.push(message@));
        assert(self.queued() =~= before.map_values(|message: MessageView| message.payload).push(
            input@,
        ));
    }
}

} // verus!
