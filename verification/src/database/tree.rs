//! The storage tree as a mathematical object: a map from paths to nodes, and
//! what each operation of the store makes of it.

use crate::database::path::{ancestor_links, dir_prefix, in_subtree};
use vstd::prelude::*;

verus! {

/// What a node holds.
pub struct NodeView {
    /// The full path of the node.
    pub key: Seq<char>,
    /// The value, absent for a node that only holds children.
    pub value: Option<Seq<u8>>,
    /// The segments of the immediate children, in insertion order.
    pub children: Seq<Seq<char>>,
}

/// The nodes of a store, by path.
pub type Tree = Map<Seq<char>, NodeView>;

/// Every node is keyed by its own path and lists no child twice.
pub open spec fn tree_wf(tree: Tree) -> bool {
    forall|key: Seq<char>| #[trigger]
        tree.contains_key(key) ==> tree[key].key == key && tree[key].children.no_duplicates()
}

/// The value at `path`, if the node exists and holds one.
pub open spec fn tree_read(tree: Tree, path: Seq<char>) -> Option<Seq<u8>> {
    if tree.contains_key(path) {
        tree[path].value
    } else {
        None
    }
}

/// The child segments of `path`, none for an absent node.
pub open spec fn tree_subkeys(tree: Tree, path: Seq<char>) -> Seq<Seq<char>> {
    if tree.contains_key(path) {
        tree[path].children
    } else {
        seq![]
    }
}

/// The tree in which `parent` exists and lists `segment` as a child: appended
/// if it was not listed yet, with the node created if it was absent.
pub open spec fn tree_add_subkey(tree: Tree, parent: Seq<char>, segment: Seq<char>) -> Tree {
    if !tree.contains_key(parent) {
        tree.insert(parent, NodeView { key: parent, value: None, children: seq![segment] })
    } else if tree[parent].children.contains(segment) {
        tree
    } else {
        tree.insert(
            parent,
            NodeView { children: tree[parent].children.push(segment), ..tree[parent] },
        )
    }
}

/// The tree after recording each `(ancestor, segment)` link in turn.
pub open spec fn tree_link(tree: Tree, links: Seq<(Seq<char>, Seq<char>)>) -> Tree
    decreases links.len(),
{
    if links.len() == 0 {
        tree
    } else {
        tree_link(tree_add_subkey(tree, links[0].0, links[0].1), links.drop_first())
    }
}

/// The tree in which the node at `path` holds `data`; its children stay as
/// they were.
pub open spec fn tree_set_value(tree: Tree, path: Seq<char>, data: Seq<u8>) -> Tree {
    tree.insert(
        path,
        NodeView { key: path, value: Some(data), children: tree_subkeys(tree, path) },
    )
}

/// The tree after a write: the ancestors of `path` linked from the root down,
/// then the value stored at `path`.
pub open spec fn tree_write(tree: Tree, path: Seq<char>, data: Seq<u8>) -> Tree {
    tree_set_value(tree_link(tree, ancestor_links(path)), path, data)
}

/// The tree without the node at `path` and without any node below it.
pub open spec fn tree_delete(tree: Tree, path: Seq<char>) -> Tree {
    tree.remove_keys(Set::new(|key: Seq<char>| in_subtree(path, key)))
}

/// Whether the store holds any node at or below `path`.
pub open spec fn tree_has_subtree(tree: Tree, path: Seq<char>) -> bool {
    exists|key: Seq<char>| #[trigger] tree.contains_key(key) && in_subtree(path, key)
}

/// The key in the subtree of `from` whose copy lands at `dest` when that
/// subtree is placed at `to`, if the store holds such a key. The node at
/// `from` itself always lands at `to`.
pub open spec fn copy_source(tree: Tree, from: Seq<char>, to: Seq<char>, dest: Seq<char>) -> Option<
    Seq<char>,
> {
    let below = dir_prefix(from) + dest.skip(dir_prefix(to).len() as int);
    if dest == to && tree.contains_key(from) {
        Some(from)
    } else if dir_prefix(to).is_prefix_of(dest) && below != from && tree.contains_key(below) {
        Some(below)
    } else {
        None
    }
}

/// The tree after a copy. Nothing changes if no node is stored at or below
/// `from`. Otherwise the subtree at `to` is cleared, the ancestors of `to`
/// are linked as for a write, and every node of the old tree at or below
/// `from` is duplicated, value and children, at the matching path under `to`.
pub open spec fn tree_copy(tree: Tree, from: Seq<char>, to: Seq<char>) -> Tree {
    if !tree_has_subtree(tree, from) {
        tree
    } else {
        let base = tree_link(tree_delete(tree, to), ancestor_links(to));
        Map::new(
            |dest: Seq<char>| base.contains_key(dest) || copy_source(tree, from, to, dest) is Some,
            |dest: Seq<char>|
                match copy_source(tree, from, to, dest) {
                    Some(source) => NodeView {
                        key: dest,
                        value: tree[source].value,
                        children: tree[source].children,
                    },
                    None => base[dest],
                },
        )
    }
}

} // verus!
