//! The path-addressed storage tree: its records, its errors, and the
//! interface that every store behind the host adapter offers.

pub mod laws;
pub mod memory;
pub mod path;
pub mod tree;

use crate::database::path::strings_view;
use crate::database::tree::{
    tree_copy, tree_delete, tree_read, tree_subkeys, tree_wf, tree_write, NodeView, Tree,
};
use vstd::prelude::*;

verus! {

/// Why a store could not carry out an operation.
#[derive(Debug, Clone, Copy, PartialEq, Eq, Structural)]
pub enum DatabaseError {
    /// A stored record could not be encoded or decoded.
    EncodingError,
    /// The underlying persistence failed.
    IO,
}

/// One record of the tree: the node stored under one path.
#[derive(Debug)]
pub struct Node {
    key: String,
    value: Option<Vec<u8>>,
    children: Vec<String>,
}

/// The bytes of an optional value.
pub open spec fn bytes_view(value: Option<Vec<u8>>) -> Option<Seq<u8>> {
    match value {
        Some(bytes) => Some(bytes@),
        None => None,
    }
}

impl View for Node {
    type V = NodeView;

    closed spec fn view(&self) -> NodeView {
        NodeView {
            key: self.key@,
            value: bytes_view(self.value),
            children: strings_view(self.children@),
        }
    }
}

/// A copy of a list of strings.
pub fn clone_strings(list: &[String]) -> (copy: Vec<String>)
    ensures
        strings_view(copy@) == strings_view(list@),
{
    let mut copy: Vec<String> = Vec::new();
    let mut i: usize = 0;
    while i < list.len()
        invariant
            i <= list.len(),
            strings_view(copy@) == strings_view(list@).take(i as int),
        decreases list.len() - i,
    {
        let item = list[i].clone();
        proof {
            let done = strings_view(copy@);
            assert(strings_view(copy@.push(item)) =~= done.push(item@));
            assert(strings_view(list@)[i as int] == item@);
            assert(strings_view(list@).take(i + 1) =~= strings_view(list@).take(i as int).push(
                item@,
            ));
        }
        copy.push(item);
        i += 1;
    }
    assert(strings_view(list@).take(list@.len() as int) =~= strings_view(list@));
    copy
}

/// Whether `list` holds `item`.
pub fn contains_string(list: &[String], item: &String) -> (found: bool)
    ensures
        found == strings_view(list@).contains(item@),
{
    let mut i: usize = 0;
    while i < list.len()
        invariant
            i <= list.len(),
            forall|j: int| 0 <= j < i ==> strings_view(list@)[j] != item@,
        decreases list.len() - i,
    {
        if list[i] == *item {
            assert(strings_view(list@)[i as int] == item@);
            return true;
        }
        i += 1;
    }
    false
}

/// Whether `list` holds some item twice.
pub fn has_duplicates(list: &[String]) -> (twice: bool)
    ensures
        twice == !strings_view(list@).no_duplicates(),
{
    let mut i: usize = 0;
    while i < list.len()
        invariant
            i <= list.len(),
            forall|a: int, b: int|
                0 <= a < b < i ==> strings_view(list@)[a] != strings_view(list@)[b],
        decreases list.len() - i,
    {
        let mut j: usize = 0;
        while j < i
            invariant
                j <= i < list.len(),
                forall|a: int| 0 <= a < j ==> strings_view(list@)[a] != strings_view(list@)[i as int],
            decreases i - j,
        {
            if list[j] == list[i] {
                assert(strings_view(list@)[j as int] == strings_view(list@)[i as int]);
                return true;
            }
            j += 1;
        }
        i += 1;
    }
    false
}

/// A copy of an optional value.
pub fn clone_value(value: &Option<Vec<u8>>) -> (copy: Option<Vec<u8>>)
    ensures
        bytes_view(copy) == bytes_view(*value),
{
    match value {
        Some(bytes) => {
            let copy = bytes.clone();
            assert(copy@ =~= bytes@);
            Some(copy)
        },
        None => None,
    }
}

impl Node {
    /// A record for `key` with the given value and child segments.
    pub fn new(key: String, value: Option<Vec<u8>>, children: Vec<String>) -> (node: Node)
        ensures
            node@ == (NodeView {
                key: key@,
                value: bytes_view(value),
                children: strings_view(children@),
            }),
    {
        Node { key, value, children }
    }

    /// The full path that the node is stored under.
    pub fn key(&self) -> (key: &String)
        ensures
            key@ == self@.key,
    {
        &self.key
    }

    /// The segments of the node's immediate children, in insertion order.
    pub fn children(&self) -> (children: &[String])
        ensures
            strings_view(children@) == self@.children,
    {
        self.children.as_slice()
    }

    /// The node's value, absent for a node that only holds children.
    pub fn value(&self) -> (value: &Option<Vec<u8>>)
        ensures
            bytes_view(*value) == self@.value,
    {
        &self.value
    }

    /// A copy of the record.
    pub fn duplicate(&self) -> (copy: Node)
        ensures
            copy@ == self@,
    {
        Node {
            key: self.key.clone(),
            value: clone_value(&self.value),
            children: clone_strings(self.children.as_slice()),
        }
    }
}

/// A store that acts as a tree of nodes addressed by slash-delimited paths.
///
/// Each operation either succeeds, and then changes the tree exactly as
/// stated, or reports an error; after an error the tree may hold whatever
/// part of the operation was carried out before the failure.
pub trait Database: Sized {
    /// The nodes that the store holds, by path.
    spec fn tree(&self) -> Tree;

    /// The store's internal consistency.
    spec fn wf(&self) -> bool;

    /// Whether the store can never report an error. A store that persists its
    /// records elsewhere cannot promise this; one held in memory can.
    spec fn never_fails(&self) -> bool;

    /// In a consistent store every node is keyed by its own path and lists
    /// no child twice.
    proof fn wf_tree(&self)
        requires
            self.wf(),
        ensures
            tree_wf(self.tree()),
    ;

    /// Stores `data` at `path`, creating every ancestor that is missing and
    /// recording in each the segment that leads on towards `path`.
    fn write<'a>(&mut self, path: &str, data: &'a [u8]) -> (res: Result<&'a [u8], DatabaseError>)
        requires
            old(self).wf(),
        ensures
            final(self).wf(),
            final(self).never_fails() == old(self).never_fails(),
            old(self).never_fails() ==> res is Ok,
            res is Ok ==> final(self).tree() == tree_write(old(self).tree(), path@, data@),
            res is Ok ==> res->Ok_0@ == data@,
    ;

    /// The value stored at `path`, if the node exists and holds one.
    fn read(&self, path: &str) -> (res: Result<Option<Vec<u8>>, DatabaseError>)
        requires
            self.wf(),
        ensures
            self.never_fails() ==> res is Ok,
            res is Ok ==> bytes_view(res->Ok_0) == tree_read(self.tree(), path@),
    ;

    /// The segments of the immediate children of `path`, none if the node is
    /// absent.
    fn get_subkeys(&self, path: &str) -> (res: Result<Vec<String>, DatabaseError>)
        requires
            self.wf(),
        ensures
            self.never_fails() ==> res is Ok,
            res is Ok ==> strings_view(res->Ok_0@) == tree_subkeys(self.tree(), path@),
    ;

    /// Removes the node at `path` and every node below it.
    fn delete(&mut self, path: &str) -> (res: Result<(), DatabaseError>)
        requires
            old(self).wf(),
        ensures
            final(self).wf(),
            final(self).never_fails() == old(self).never_fails(),
            old(self).never_fails() ==> res is Ok,
            res is Ok ==> final(self).tree() == tree_delete(old(self).tree(), path@),
    ;

    /// The whole record stored at `path`, if there is one.
    fn read_node(&self, path: &str) -> (res: Result<Option<Node>, DatabaseError>)
        requires
            self.wf(),
        ensures
            self.never_fails() ==> res is Ok,
            res is Ok ==> (res->Ok_0 is Some <==> self.tree().contains_key(path@)),
            res is Ok && res->Ok_0 is Some ==> res->Ok_0->Some_0@ == self.tree()[path@],
    ;

    /// Places a duplicate of the subtree at `from` under `to`, in place of
    /// whatever was stored there.
    fn copy(&mut self, from: &str, to: &str) -> (res: Result<(), DatabaseError>)
        requires
            old(self).wf(),
        ensures
            final(self).wf(),
            final(self).never_fails() == old(self).never_fails(),
            old(self).never_fails() ==> res is Ok,
            res is Ok ==> final(self).tree() == tree_copy(old(self).tree(), from@, to@),
    ;
}

} // verus!
