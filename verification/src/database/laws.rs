//! What holds of the storage tree whatever it contains: reading back what
//! was written, the ancestors that a write leaves behind, child lists that
//! never repeat a segment, and deletion that takes the whole subtree along.

use crate::database::path::{
    ancestor_links, child_path, dir_prefix, in_subtree, lemma_links_chain, lemma_links_clean,
    lemma_links_end_rooted, lemma_links_last, lemma_links_len, lemma_prefix_join,
    lemma_prefix_split, lemma_rebase_child, lemma_rebase_clean, lemma_segments_clean, links_end,
    links_from, path_clean, rebase, root_path, rooted, segment_clean, segments,
};
use crate::database::tree::{
    copy_source, tree_add_subkey, tree_copy, tree_delete, tree_has_subtree, tree_link, tree_read,
    tree_subkeys, tree_wf, tree_write, Tree,
};
use vstd::prelude::*;

verus! {

/// Whether `parent` exists in the tree and lists `segment` among its children.
pub open spec fn lists_child(tree: Tree, parent: Seq<char>, segment: Seq<char>) -> bool {
    tree.contains_key(parent) && tree[parent].children.contains(segment)
}

/// Recording a link keeps every child that was listed and lists the new one.
pub proof fn lemma_add_subkey_lists(
    tree: Tree,
    parent: Seq<char>,
    segment: Seq<char>,
    other: Seq<char>,
    listed: Seq<char>,
)
    ensures
        lists_child(tree_add_subkey(tree, parent, segment), parent, segment),
        lists_child(tree, other, listed) ==> lists_child(
            tree_add_subkey(tree, parent, segment),
            other,
            listed,
        ),
{
    let after = tree_add_subkey(tree, parent, segment);
    if !tree.contains_key(parent) {
        assert(seq![segment][0] == segment);
    } else if !tree[parent].children.contains(segment) {
        let children = tree[parent].children;
        assert(children.push(segment)[children.len() as int] == segment);
        if lists_child(tree, other, listed) && other == parent {
            let i = choose|i: int| 0 <= i < children.len() && children[i] == listed;
            assert(children.push(segment)[i] == listed);
        }
    }
}

/// Recording a chain of links keeps every child that was listed.
pub proof fn lemma_link_keeps(
    tree: Tree,
    links: Seq<(Seq<char>, Seq<char>)>,
    other: Seq<char>,
    listed: Seq<char>,
)
    requires
        lists_child(tree, other, listed),
    ensures
        lists_child(tree_link(tree, links), other, listed),
    decreases links.len(),
{
    if links.len() > 0 {
        lemma_add_subkey_lists(tree, links[0].0, links[0].1, other, listed);
        lemma_link_keeps(tree_add_subkey(tree, links[0].0, links[0].1), links.drop_first(), other, listed);
    }
}

/// After a chain of links has been recorded, each ancestor in it lists the
/// segment that it was paired with.
pub proof fn lemma_link_lists(tree: Tree, links: Seq<(Seq<char>, Seq<char>)>, i: int)
    requires
        0 <= i < links.len(),
    ensures
        lists_child(tree_link(tree, links), links[i].0, links[i].1),
    decreases links.len(),
{
    let next = tree_add_subkey(tree, links[0].0, links[0].1);
    if i == 0 {
        lemma_add_subkey_lists(tree, links[0].0, links[0].1, links[0].0, links[0].1);
        lemma_link_keeps(next, links.drop_first(), links[0].0, links[0].1);
    } else {
        lemma_link_lists(next, links.drop_first(), i - 1);
    }
}

/// Recording links that are all present already changes nothing.
pub proof fn lemma_link_present(tree: Tree, links: Seq<(Seq<char>, Seq<char>)>)
    requires
        forall|i: int| 0 <= i < links.len() ==> lists_child(tree, (#[trigger] links[i]).0, links[i].1),
    ensures
        tree_link(tree, links) == tree,
    decreases links.len(),
{
    if links.len() > 0 {
        assert(lists_child(tree, links[0].0, links[0].1));
        assert forall|i: int| 0 <= i < links.drop_first().len() implies lists_child(
            tree,
            (#[trigger] links.drop_first()[i]).0,
            links.drop_first()[i].1,
        ) by {
            assert(links.drop_first()[i] == links[i + 1]);
        }
        lemma_link_present(tree, links.drop_first());
    }
}

/// Recording a link keeps a well-formed tree well-formed.
pub proof fn lemma_add_subkey_wf(tree: Tree, parent: Seq<char>, segment: Seq<char>)
    requires
        tree_wf(tree),
    ensures
        tree_wf(tree_add_subkey(tree, parent, segment)),
{
    let after = tree_add_subkey(tree, parent, segment);
    if !tree.contains_key(parent) {
        assert(seq![segment].no_duplicates());
    } else if !tree[parent].children.contains(segment) {
        let children = tree[parent].children;
        assert(tree.contains_key(parent));
        assert(children.no_duplicates());
        assert(children.push(segment).no_duplicates());
    }
    assert forall|key: Seq<char>| #[trigger] after.contains_key(key) implies after[key].key == key
        && after[key].children.no_duplicates() by {
        if key != parent {
            assert(tree.contains_key(key));
        } else if tree.contains_key(parent) {
            assert(tree[parent].key == parent);
        }
    }
}

/// Recording a chain of links keeps a well-formed tree well-formed.
pub proof fn lemma_link_wf(tree: Tree, links: Seq<(Seq<char>, Seq<char>)>)
    requires
        tree_wf(tree),
    ensures
        tree_wf(tree_link(tree, links)),
    decreases links.len(),
{
    if links.len() > 0 {
        lemma_add_subkey_wf(tree, links[0].0, links[0].1);
        lemma_link_wf(tree_add_subkey(tree, links[0].0, links[0].1), links.drop_first());
    }
}

/// Round trip: a read that follows a write to the same path yields the bytes
/// that were written.
pub proof fn law_read_after_write(tree: Tree, path: Seq<char>, data: Seq<u8>)
    ensures
        tree_read(tree_write(tree, path, data), path) == Some(data),
{
}

/// A write to one path leaves the value at every other path as it was,
/// unless the other path is an ancestor that the write had to create.
pub proof fn law_write_keeps_other_values(
    tree: Tree,
    path: Seq<char>,
    data: Seq<u8>,
    other: Seq<char>,
)
    requires
        other != path,
        tree.contains_key(other),
    ensures
        tree_read(tree_write(tree, path, data), other) == tree_read(tree, other),
{
    lemma_link_value(tree, ancestor_links(path), other);
}

/// Recording links never touches the value of a node that exists.
pub proof fn lemma_link_value(tree: Tree, links: Seq<(Seq<char>, Seq<char>)>, other: Seq<char>)
    requires
        tree.contains_key(other),
    ensures
        tree_link(tree, links).contains_key(other),
        tree_link(tree, links)[other].value == tree[other].value,
    decreases links.len(),
{
    if links.len() > 0 {
        lemma_link_value(tree_add_subkey(tree, links[0].0, links[0].1), links.drop_first(), other);
    }
}

/// Ancestor materialization: after a write, every ancestor of the written
/// path, from the root down to its parent, exists and lists the segment that
/// leads on towards the path.
pub proof fn law_write_links_ancestors(tree: Tree, path: Seq<char>, data: Seq<u8>, i: int)
    requires
        0 <= i < ancestor_links(path).len(),
    ensures
        tree_write(tree, path, data).contains_key(ancestor_links(path)[i].0),
        tree_subkeys(tree_write(tree, path, data), ancestor_links(path)[i].0).contains(
            ancestor_links(path)[i].1,
        ),
{
    let links = ancestor_links(path);
    lemma_link_lists(tree, links, i);
    let linked = tree_link(tree, links);
    if links[i].0 == path {
        assert(tree_subkeys(linked, path) == linked[path].children);
    }
}

/// A write never changes the children of the node that it writes to.
pub proof fn law_write_keeps_children(tree: Tree, path: Seq<char>, data: Seq<u8>)
    ensures
        tree_subkeys(tree_write(tree, path, data), path) == tree_subkeys(
            tree_link(tree, ancestor_links(path)),
            path,
        ),
{
}

/// No duplicate children: a write keeps every child list free of repeats.
pub proof fn law_write_keeps_wf(tree: Tree, path: Seq<char>, data: Seq<u8>)
    requires
        tree_wf(tree),
    ensures
        tree_wf(tree_write(tree, path, data)),
{
    let linked = tree_link(tree, ancestor_links(path));
    lemma_link_wf(tree, ancestor_links(path));
    let after = tree_write(tree, path, data);
    assert forall|key: Seq<char>| #[trigger] after.contains_key(key) implies after[key].key == key
        && after[key].children.no_duplicates() by {
        if key != path {
            assert(linked.contains_key(key));
        } else if linked.contains_key(path) {
            assert(linked[path].children.no_duplicates());
        } else {
            assert(Seq::<Seq<char>>::empty().no_duplicates());
        }
    }
}

/// No duplicate children: after a write to a well-formed tree, each
/// ancestor of the written path lists the segment that leads on towards it
/// exactly once.
pub proof fn law_write_lists_child_once(tree: Tree, path: Seq<char>, data: Seq<u8>, i: int)
    requires
        tree_wf(tree),
        0 <= i < ancestor_links(path).len(),
    ensures
        tree_subkeys(tree_write(tree, path, data), ancestor_links(path)[i].0).contains(
            ancestor_links(path)[i].1,
        ),
        tree_subkeys(tree_write(tree, path, data), ancestor_links(path)[i].0).no_duplicates(),
{
    law_write_links_ancestors(tree, path, data, i);
    law_write_keeps_wf(tree, path, data);
}

/// No duplicate children: a second write to the same path leaves every
/// child list exactly as the first write left it.
pub proof fn law_rewrite_keeps_child_lists(
    tree: Tree,
    path: Seq<char>,
    first: Seq<u8>,
    second: Seq<u8>,
    key: Seq<char>,
)
    ensures
        tree_subkeys(tree_write(tree_write(tree, path, first), path, second), key) == tree_subkeys(
            tree_write(tree, path, first),
            key,
        ),
{
    let once = tree_write(tree, path, first);
    let links = ancestor_links(path);
    assert forall|i: int| 0 <= i < links.len() implies lists_child(
        once,
        (#[trigger] links[i]).0,
        links[i].1,
    ) by {
        law_write_links_ancestors(tree, path, first, i);
    }
    lemma_link_present(once, links);
}

/// Cascading delete: once a path is deleted, neither it nor any path below
/// it holds a value or lists a child.
pub proof fn law_delete_clears_subtree(tree: Tree, path: Seq<char>, key: Seq<char>)
    requires
        in_subtree(path, key),
    ensures
        !tree_delete(tree, path).contains_key(key),
        tree_read(tree_delete(tree, path), key) is None,
        tree_subkeys(tree_delete(tree, path), key) == Seq::<Seq<char>>::empty(),
{
}

/// A delete leaves every node outside the deleted subtree untouched.
pub proof fn law_delete_keeps_rest(tree: Tree, path: Seq<char>, key: Seq<char>)
    requires
        !in_subtree(path, key),
    ensures
        tree_delete(tree, path).contains_key(key) == tree.contains_key(key),
        tree_read(tree_delete(tree, path), key) == tree_read(tree, key),
        tree_subkeys(tree_delete(tree, path), key) == tree_subkeys(tree, key),
{
}

/// Deleting a path that holds no node, and has none below it, changes nothing.
pub proof fn law_delete_absent(tree: Tree, path: Seq<char>)
    requires
        forall|key: Seq<char>| in_subtree(path, key) ==> !tree.contains_key(key),
    ensures
        tree_delete(tree, path) == tree,
{
    assert(tree_delete(tree, path) =~= tree);
}

/// A child lies in the subtree of its parent, and so does everything below
/// the child.
pub proof fn law_child_in_subtree(parent: Seq<char>, segment: Seq<char>, key: Seq<char>)
    requires
        in_subtree(child_path(parent, segment), key),
    ensures
        in_subtree(parent, child_path(parent, segment)),
        in_subtree(parent, key),
{
    let prefix = dir_prefix(parent);
    let child = child_path(parent, segment);
    assert(child.subrange(0, prefix.len() as int) =~= prefix);
    if key != child {
        let below = dir_prefix(child);
        assert(below.subrange(0, prefix.len() as int) =~= prefix);
        assert(key.subrange(0, prefix.len() as int) =~= key.subrange(0, below.len() as int).subrange(
            0,
            prefix.len() as int,
        ));
    }
}

/// A delete keeps a well-formed tree well-formed.
pub proof fn law_delete_keeps_wf(tree: Tree, path: Seq<char>)
    requires
        tree_wf(tree),
    ensures
        tree_wf(tree_delete(tree, path)),
{
    let after = tree_delete(tree, path);
    assert forall|key: Seq<char>| #[trigger] after.contains_key(key) implies after[key].key == key
        && after[key].children.no_duplicates() by {
        assert(tree.contains_key(key));
    }
}

/// A copy duplicates value and children of every node at or below the
/// source at the matching path under the destination. Where the source is
/// copied to the root, the node of the source itself takes the root, and
/// not a node stored under the source's path with a separator behind it.
pub proof fn law_copy_duplicates(tree: Tree, from: Seq<char>, to: Seq<char>, key: Seq<char>)
    requires
        tree.contains_key(key),
        in_subtree(from, key),
        key != from ==> !(rebase(from, to, key) == to && tree.contains_key(from)),
    ensures
        tree_copy(tree, from, to).contains_key(rebase(from, to, key)),
        tree_copy(tree, from, to)[rebase(from, to, key)].key == rebase(from, to, key),
        tree_copy(tree, from, to)[rebase(from, to, key)].value == tree[key].value,
        tree_copy(tree, from, to)[rebase(from, to, key)].children == tree[key].children,
{
    let dest = rebase(from, to, key);
    assert(tree_has_subtree(tree, from));
    if key != from {
        let tail = key.skip(dir_prefix(from).len() as int);
        lemma_prefix_join(dir_prefix(to), tail);
        lemma_prefix_split(dir_prefix(from), key);
        assert(copy_source(tree, from, to, dest) == Some(key));
    }
}

/// A copy of a path that holds no node, and has none below it, changes
/// nothing.
pub proof fn law_copy_absent(tree: Tree, from: Seq<char>, to: Seq<char>)
    requires
        forall|key: Seq<char>| in_subtree(from, key) ==> !tree.contains_key(key),
    ensures
        tree_copy(tree, from, to) == tree,
{
}

/// Whether some node of the tree lists `key` as its child: `key` is the
/// path of a child of a stored node that lists the child's segment.
pub open spec fn has_parent(tree: Tree, key: Seq<char>) -> bool {
    exists|parent: Seq<char>, segment: Seq<char>|
        key == child_path(parent, segment) && #[trigger] lists_child(tree, parent, segment)
}

/// Every node stored under an absolute path below the root has a stored
/// parent that lists it, and so, link by link, every ancestor up to the root.
pub open spec fn tree_linked(tree: Tree) -> bool {
    forall|key: Seq<char>| #[trigger] tree.contains_key(key) && rooted(key) ==> has_parent(tree, key)
}

/// The nodes of a tree after links have been recorded are those it had and
/// the ancestors of the links.
pub proof fn lemma_link_domain(tree: Tree, links: Seq<(Seq<char>, Seq<char>)>, key: Seq<char>)
    requires
        tree_link(tree, links).contains_key(key),
        !tree.contains_key(key),
    ensures
        exists|i: int| 0 <= i < links.len() && (#[trigger] links[i]).0 == key,
    decreases links.len(),
{
    if links.len() > 0 {
        let next = tree_add_subkey(tree, links[0].0, links[0].1);
        if key != links[0].0 {
            lemma_link_domain(next, links.drop_first(), key);
            let i = choose|i: int|
                0 <= i < links.drop_first().len() && (#[trigger] links.drop_first()[i]).0 == key;
            assert(links[i + 1].0 == key);
        } else {
            assert(links[0].0 == key);
        }
    }
}

/// What lies at or below a node lies at or below every node that the node
/// lies at or below.
pub proof fn lemma_subtree_child(root: Seq<char>, parent: Seq<char>, segment: Seq<char>)
    requires
        in_subtree(root, parent),
    ensures
        in_subtree(root, child_path(parent, segment)),
{
    let prefix = dir_prefix(root);
    let child = child_path(parent, segment);
    if parent == root {
        lemma_prefix_join(prefix, segment);
    } else {
        assert(child.subrange(0, prefix.len() as int) =~= parent.subrange(0, prefix.len() as int));
    }
}

/// The invariant holds of the empty tree.
pub proof fn law_empty_tree_sound()
    ensures
        tree_sound(Map::<Seq<char>, crate::database::tree::NodeView>::empty()),
{
}

/// Ancestor invariant: a write keeps every node that is stored under an
/// absolute path linked to a stored parent, the written node included.
pub proof fn law_write_keeps_linked(tree: Tree, path: Seq<char>, data: Seq<u8>)
    requires
        tree_linked(tree),
    ensures
        tree_linked(tree_write(tree, path, data)),
{
    let links = ancestor_links(path);
    let linked = tree_link(tree, links);
    let after = tree_write(tree, path, data);
    assert forall|key: Seq<char>| #[trigger] after.contains_key(key) && rooted(key) implies has_parent(
        after,
        key,
    ) by {
        if tree.contains_key(key) {
            let (parent, segment) = choose|parent: Seq<char>, segment: Seq<char>|
                key == child_path(parent, segment) && #[trigger] lists_child(tree, parent, segment);
            lemma_link_keeps(tree, links, parent, segment);
            assert(lists_child(after, parent, segment));
        } else if linked.contains_key(key) {
            lemma_link_domain(tree, links, key);
            let i = choose|i: int| 0 <= i < links.len() && (#[trigger] links[i]).0 == key;
            assert(path != root_path());
            lemma_links_len(root_path(), segments(path));
            if i == 0 {
                assert(links[0].0 == root_path());
            } else {
                lemma_links_chain(root_path(), segments(path), i);
                lemma_link_lists(tree, links, i - 1);
                assert(lists_child(after, links[i - 1].0, links[i - 1].1));
            }
        } else {
            assert(key == path);
            lemma_links_end_rooted(path);
            lemma_links_last(root_path(), segments(path));
            lemma_link_lists(tree, links, links.len() - 1);
            assert(lists_child(after, links.last().0, links.last().1));
        }
    }
}

/// Ancestor invariant: a delete keeps every remaining node that is stored
/// under an absolute path linked to a stored parent.
pub proof fn law_delete_keeps_linked(tree: Tree, path: Seq<char>)
    requires
        tree_linked(tree),
    ensures
        tree_linked(tree_delete(tree, path)),
{
    let after = tree_delete(tree, path);
    assert forall|key: Seq<char>| #[trigger] after.contains_key(key) && rooted(key) implies has_parent(
        after,
        key,
    ) by {
        assert(tree.contains_key(key));
        let (parent, segment) = choose|parent: Seq<char>, segment: Seq<char>|
            key == child_path(parent, segment) && #[trigger] lists_child(tree, parent, segment);
        if in_subtree(path, parent) {
            lemma_subtree_child(path, parent, segment);
        }
        assert(lists_child(after, parent, segment));
    }
}

/// Every node is stored under a clean path and lists only clean segments.
pub open spec fn tree_clean(tree: Tree) -> bool {
    forall|key: Seq<char>| #[trigger]
        tree.contains_key(key) ==> path_clean(key) && forall|j: int|
            0 <= j < tree[key].children.len() ==> segment_clean(#[trigger] tree[key].children[j])
}

/// The invariant of a tree that only clean paths have been written to:
/// its nodes are keyed by their own clean paths, list clean segments, none
/// twice, and each but the root is listed by its stored parent.
pub open spec fn tree_sound(tree: Tree) -> bool {
    tree_wf(tree) && tree_clean(tree) && tree_linked(tree)
}

/// Whether every link pairs a clean path with a clean segment.
pub open spec fn links_clean(links: Seq<(Seq<char>, Seq<char>)>) -> bool {
    forall|i: int|
        0 <= i < links.len() ==> path_clean((#[trigger] links[i]).0) && segment_clean(links[i].1)
}

/// The links to the ancestors of a clean path are clean.
pub proof fn lemma_ancestor_links_clean(path: Seq<char>)
    requires
        path_clean(path),
    ensures
        links_clean(ancestor_links(path)),
        forall|i: int|
            0 <= i < ancestor_links(path).len() ==> (#[trigger] ancestor_links(path)[i]).0.len()
                < path.len(),
{
    if path != root_path() {
        let segs = segments(path);
        lemma_segments_clean(path);
        lemma_links_end_rooted(path);
        lemma_links_len(root_path(), segs);
        assert forall|i: int| 0 <= i < ancestor_links(path).len() implies path_clean(
            (#[trigger] ancestor_links(path)[i]).0,
        ) && segment_clean(ancestor_links(path)[i].1) && ancestor_links(path)[i].0.len()
            < path.len() by {
            lemma_links_clean(root_path(), segs, i);
        }
    }
}

/// Recording clean links keeps a clean tree clean.
pub proof fn lemma_link_clean(tree: Tree, links: Seq<(Seq<char>, Seq<char>)>)
    requires
        tree_clean(tree),
        links_clean(links),
    ensures
        tree_clean(tree_link(tree, links)),
    decreases links.len(),
{
    if links.len() > 0 {
        let parent = links[0].0;
        let segment = links[0].1;
        let next = tree_add_subkey(tree, parent, segment);
        assert(path_clean(parent) && segment_clean(segment));
        assert forall|key: Seq<char>| #[trigger] next.contains_key(key) implies path_clean(key)
            && forall|j: int|
            0 <= j < next[key].children.len() ==> segment_clean(#[trigger] next[key].children[j]) by {
            if key != parent {
                assert(tree.contains_key(key));
            } else if tree.contains_key(parent) {
                let children = tree[parent].children;
                assert forall|j: int| 0 <= j < next[key].children.len() implies segment_clean(
                    #[trigger] next[key].children[j],
                ) by {
                    if j < children.len() {
                        assert(segment_clean(children[j]));
                    }
                }
            }
        }
        assert forall|i: int| 0 <= i < links.drop_first().len() implies path_clean(
            (#[trigger] links.drop_first()[i]).0,
        ) && segment_clean(links.drop_first()[i].1) by {
            assert(links.drop_first()[i] == links[i + 1]);
        }
        lemma_link_clean(next, links.drop_first());
    }
}

/// A write to a clean path keeps the invariant.
pub proof fn law_write_keeps_sound(tree: Tree, path: Seq<char>, data: Seq<u8>)
    requires
        tree_sound(tree),
        path_clean(path),
    ensures
        tree_sound(tree_write(tree, path, data)),
{
    law_write_keeps_wf(tree, path, data);
    law_write_keeps_linked(tree, path, data);
    lemma_ancestor_links_clean(path);
    lemma_link_clean(tree, ancestor_links(path));
    let linked = tree_link(tree, ancestor_links(path));
    let after = tree_write(tree, path, data);
    assert forall|key: Seq<char>| #[trigger] after.contains_key(key) implies path_clean(key)
        && forall|j: int|
        0 <= j < after[key].children.len() ==> segment_clean(#[trigger] after[key].children[j]) by {
        if key != path {
            assert(linked.contains_key(key));
        } else if linked.contains_key(path) {
            assert(after[path].children == linked[path].children);
        }
    }
}

/// A delete keeps the invariant.
pub proof fn law_delete_keeps_sound(tree: Tree, path: Seq<char>)
    requires
        tree_sound(tree),
    ensures
        tree_sound(tree_delete(tree, path)),
{
    law_delete_keeps_wf(tree, path);
    law_delete_keeps_linked(tree, path);
    let after = tree_delete(tree, path);
    assert forall|key: Seq<char>| #[trigger] after.contains_key(key) implies path_clean(key)
        && forall|j: int|
        0 <= j < after[key].children.len() ==> segment_clean(#[trigger] after[key].children[j]) by {
        assert(tree.contains_key(key));
    }
}

/// The node that a copy places at `dest`, where it is not the one of the
/// source itself, comes from a node below the source whose copy lands at
/// `dest`.
pub proof fn lemma_copy_source_below(tree: Tree, from: Seq<char>, to: Seq<char>, dest: Seq<char>)
    requires
        copy_source(tree, from, to, dest) is Some,
        copy_source(tree, from, to, dest)->Some_0 != from,
    ensures
        tree.contains_key(copy_source(tree, from, to, dest)->Some_0),
        dir_prefix(from).is_prefix_of(copy_source(tree, from, to, dest)->Some_0),
        dest == rebase(from, to, copy_source(tree, from, to, dest)->Some_0),
{
    let tail = dest.skip(dir_prefix(to).len() as int);
    lemma_prefix_join(dir_prefix(from), tail);
    lemma_prefix_split(dir_prefix(to), dest);
}

/// A copy places nothing at a path outside the subtree of its destination.
pub proof fn lemma_copy_source_outside(tree: Tree, from: Seq<char>, to: Seq<char>, dest: Seq<char>)
    requires
        !in_subtree(to, dest) || dest.len() < to.len(),
    ensures
        copy_source(tree, from, to, dest) is None,
{
}

/// A copy between clean paths keeps the invariant.
pub proof fn law_copy_keeps_sound(tree: Tree, from: Seq<char>, to: Seq<char>)
    requires
        tree_sound(tree),
        path_clean(from),
        path_clean(to),
    ensures
        tree_sound(tree_copy(tree, from, to)),
{
    if tree_has_subtree(tree, from) {
        let cleared = tree_delete(tree, to);
        let links = ancestor_links(to);
        let base = tree_link(cleared, links);
        let after = tree_copy(tree, from, to);
        law_delete_keeps_sound(tree, to);
        lemma_link_wf(cleared, links);
        lemma_ancestor_links_clean(to);
        lemma_link_clean(cleared, links);
        assert forall|key: Seq<char>| #[trigger] after.contains_key(key) implies after[key].key
            == key && after[key].children.no_duplicates() && path_clean(key) && (forall|j: int|
            0 <= j < after[key].children.len() ==> segment_clean(#[trigger] after[key].children[j]))
            && (rooted(key) ==> has_parent(after, key)) by {
            let source = copy_source(tree, from, to, key);
            if source is Some && source->Some_0 == from {
                assert(tree.contains_key(from));
                if rooted(key) {
                    lemma_copy_parent_of_destination(tree, from, to);
                }
            } else if source is Some {
                let k = source->Some_0;
                lemma_copy_source_below(tree, from, to, key);
                assert(tree.contains_key(k));
                lemma_rebase_clean(from, to, k);
                assert(rooted(k));
                let (parent, segment) = choose|parent: Seq<char>, segment: Seq<char>|
                    k == child_path(parent, segment) && #[trigger] lists_child(
                        tree,
                        parent,
                        segment,
                    );
                assert(tree.contains_key(parent));
                let at = choose|j: int|
                    0 <= j < tree[parent].children.len() && tree[parent].children[j] == segment;
                assert(segment_clean(tree[parent].children[at]));
                lemma_rebase_child(from, to, parent, segment);
                if parent != from {
                    lemma_rebase_clean(from, to, parent);
                }
                law_copy_duplicates(tree, from, to, parent);
                assert(lists_child(after, rebase(from, to, parent), segment));
            } else {
                assert(base.contains_key(key));
                if rooted(key) {
                    if cleared.contains_key(key) {
                        let (parent, segment) = choose|parent: Seq<char>, segment: Seq<char>|
                            key == child_path(parent, segment) && #[trigger] lists_child(
                                cleared,
                                parent,
                                segment,
                            );
                        lemma_link_keeps(cleared, links, parent, segment);
                        lemma_copy_source_outside(tree, from, to, parent);
                        assert(lists_child(after, parent, segment));
                    } else {
                        lemma_link_domain(cleared, links, key);
                        let i = choose|i: int| 0 <= i < links.len() && (#[trigger] links[i]).0 == key;
                        lemma_links_len(root_path(), segments(to));
                        if i == 0 {
                            assert(links[0].0 == root_path());
                        } else {
                            lemma_links_chain(root_path(), segments(to), i);
                            lemma_link_lists(cleared, links, i - 1);
                            assert(links[i - 1].0.len() < to.len());
                            lemma_copy_source_outside(tree, from, to, links[i - 1].0);
                            assert(lists_child(after, links[i - 1].0, links[i - 1].1));
                        }
                    }
                }
            }
        }
    }
}

/// After a copy to an absolute path below the root, the destination is
/// listed by its parent.
pub proof fn lemma_copy_parent_of_destination(tree: Tree, from: Seq<char>, to: Seq<char>)
    requires
        tree_has_subtree(tree, from),
        path_clean(to),
        rooted(to),
    ensures
        has_parent(tree_copy(tree, from, to), to),
{
    let cleared = tree_delete(tree, to);
    let links = ancestor_links(to);
    let after = tree_copy(tree, from, to);
    lemma_ancestor_links_clean(to);
    lemma_links_end_rooted(to);
    lemma_links_last(root_path(), segments(to));
    lemma_link_lists(cleared, links, links.len() - 1);
    assert(links.last().0.len() < to.len());
    lemma_copy_source_outside(tree, from, to, links.last().0);
    assert(lists_child(after, links.last().0, links.last().1));
}

} // verus!
