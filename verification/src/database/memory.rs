//! A store that keeps its records in memory, one per path.

use crate::database::path::{
    ancestor_links, dir_prefix, dir_prefix_chars, get_all_subkeys, in_subtree, lemma_prefix_join,
    lemma_prefix_split, links_view, rebase_below, starts_with, strings_view, to_chars,
};
use crate::database::tree::{
    copy_source, tree_add_subkey, tree_copy, tree_delete, tree_has_subtree, tree_link,
    tree_subkeys, NodeView, Tree,
};
use crate::database::{
    clone_strings, clone_value, contains_string, has_duplicates, Database, DatabaseError, Node,
};
use vstd::prelude::*;
use vstd::slice::slice_to_vec;
use vstd::string::*;

verus! {

/// The storage tree, held as a flat list of records with distinct keys.
pub struct PathTree {
    nodes: Vec<Node>,
}

/// What the records hold.
pub open spec fn record_views(nodes: Seq<Node>) -> Seq<NodeView> {
    nodes.map_values(|node: Node| node@)
}

/// No two records share a key.
pub open spec fn distinct_keys(records: Seq<NodeView>) -> bool {
    forall|i: int, j: int|
        0 <= i < j < records.len() ==> (#[trigger] records[i]).key != (#[trigger] records[j]).key
}

/// Whether some record is stored under `key`.
pub open spec fn has_key(records: Seq<NodeView>, key: Seq<char>) -> bool {
    exists|i: int| 0 <= i < records.len() && (#[trigger] records[i]).key == key
}

/// The index of the record stored under `key`.
pub open spec fn position(records: Seq<NodeView>, key: Seq<char>) -> int {
    choose|i: int| 0 <= i < records.len() && (#[trigger] records[i]).key == key
}

/// The records as a map from key to node.
pub open spec fn as_tree(records: Seq<NodeView>) -> Tree {
    Map::new(|key: Seq<char>| has_key(records, key), |key: Seq<char>| records[position(records, key)])
}

/// With distinct keys, the tree holds each record under its key.
proof fn lemma_record_at(records: Seq<NodeView>, i: int)
    requires
        distinct_keys(records),
        0 <= i < records.len(),
    ensures
        as_tree(records).contains_key(records[i].key),
        as_tree(records)[records[i].key] == records[i],
{
    let key = records[i].key;
    assert(has_key(records, key));
    let p = position(records, key);
    assert(p == i) by {
        if p < i {
            assert(records[p].key != records[i].key);
        } else if i < p {
            assert(records[i].key != records[p].key);
        }
    }
}

/// A record appended under a new key is a node inserted into the tree.
proof fn lemma_tree_push(records: Seq<NodeView>, node: NodeView)
    requires
        distinct_keys(records),
        !has_key(records, node.key),
    ensures
        distinct_keys(records.push(node)),
        as_tree(records.push(node)) == as_tree(records).insert(node.key, node),
{
    let after = records.push(node);
    assert forall|i: int, j: int| 0 <= i < j < after.len() implies (#[trigger] after[i]).key != (
    #[trigger] after[j]).key by {
        if j == records.len() {
            assert(records[i].key != node.key);
        } else {
            assert(records[i].key != records[j].key);
        }
    }
    assert forall|key: Seq<char>|
        as_tree(after).contains_key(key) == as_tree(records).insert(node.key, node).contains_key(
            key,
        ) by {
        if has_key(after, key) {
            let p = position(after, key);
            if p < records.len() {
                assert(records[p].key == key);
            }
        }
        if has_key(records, key) {
            let p = position(records, key);
            assert(after[p].key == key);
        }
        if key == node.key {
            assert(after[records.len() as int].key == key);
        }
    }
    assert forall|key: Seq<char>| as_tree(after).contains_key(key) implies as_tree(after)[key]
        == as_tree(records).insert(node.key, node)[key] by {
        let p = position(after, key);
        lemma_record_at(after, p);
        if p < records.len() {
            lemma_record_at(records, p);
        }
    }
    assert(as_tree(after) =~= as_tree(records).insert(node.key, node));
}

/// A record replaced by one of the same key is a node replaced in the tree.
proof fn lemma_tree_update(records: Seq<NodeView>, i: int, node: NodeView)
    requires
        distinct_keys(records),
        0 <= i < records.len(),
        records[i].key == node.key,
    ensures
        distinct_keys(records.update(i, node)),
        as_tree(records.update(i, node)) == as_tree(records).insert(node.key, node),
{
    let after = records.update(i, node);
    assert forall|a: int, b: int| 0 <= a < b < after.len() implies (#[trigger] after[a]).key != (
    #[trigger] after[b]).key by {
        assert(records[a].key != records[b].key);
    }
    assert forall|key: Seq<char>|
        as_tree(after).contains_key(key) == as_tree(records).insert(node.key, node).contains_key(
            key,
        ) by {
        if has_key(after, key) {
            let p = position(after, key);
            assert(records[p].key == key);
        }
        if has_key(records, key) {
            let p = position(records, key);
            assert(after[p].key == key);
        }
        if key == node.key {
            assert(after[i].key == key);
        }
    }
    assert forall|key: Seq<char>| as_tree(after).contains_key(key) implies as_tree(after)[key]
        == as_tree(records).insert(node.key, node)[key] by {
        let p = position(after, key);
        lemma_record_at(after, p);
        lemma_record_at(records, p);
    }
    assert(as_tree(after) =~= as_tree(records).insert(node.key, node));
}

/// A record taken out of the list is a node removed from the tree.
proof fn lemma_tree_remove(records: Seq<NodeView>, i: int)
    requires
        distinct_keys(records),
        0 <= i < records.len(),
    ensures
        distinct_keys(records.remove(i)),
        as_tree(records.remove(i)) == as_tree(records).remove(records[i].key),
{
    let after = records.remove(i);
    assert forall|a: int, b: int| 0 <= a < b < after.len() implies (#[trigger] after[a]).key != (
    #[trigger] after[b]).key by {
        let a0 = if a < i { a } else { a + 1 };
        let b0 = if b < i { b } else { b + 1 };
        assert(records[a0].key != records[b0].key);
    }
    assert forall|key: Seq<char>|
        as_tree(after).contains_key(key) == as_tree(records).remove(records[i].key).contains_key(
            key,
        ) by {
        if has_key(after, key) {
            let p = position(after, key);
            let p0 = if p < i { p } else { p + 1 };
            assert(records[p0].key == key);
            if p0 < i {
                assert(records[p0].key != records[i].key);
            } else {
                assert(records[i].key != records[p0].key);
            }
        }
        if has_key(records, key) && key != records[i].key {
            let p = position(records, key);
            let shifted = if p < i { p } else { p - 1 };
            assert(after[shifted].key == key);
        }
    }
    assert forall|key: Seq<char>| as_tree(after).contains_key(key) implies as_tree(after)[key]
        == as_tree(records).remove(records[i].key)[key] by {
        let p = position(after, key);
        let p0 = if p < i { p } else { p + 1 };
        lemma_record_at(after, p);
        lemma_record_at(records, p0);
    }
    assert(as_tree(after) =~= as_tree(records).remove(records[i].key));
}

/// Whether `copy` duplicates, under `to`, the node that `tree` holds at
/// `source`, a key strictly below `from`.
pub open spec fn is_copy_of(
    tree: Tree,
    from: Seq<char>,
    to: Seq<char>,
    source: Seq<char>,
    copy: NodeView,
) -> bool {
    &&& tree.contains_key(source)
    &&& source != from
    &&& dir_prefix(from).is_prefix_of(source)
    &&& copy.key == dir_prefix(to) + source.skip(dir_prefix(from).len() as int)
    &&& copy.value == tree[source].value
    &&& copy.children == tree[source].children
}

/// Duplicates of distinct sources land on distinct keys.
proof fn lemma_copies_distinct(
    tree: Tree,
    from: Seq<char>,
    to: Seq<char>,
    sources: Seq<Seq<char>>,
    copies: Seq<NodeView>,
)
    requires
        sources.len() == copies.len(),
        sources.no_duplicates(),
        forall|j: int|
            0 <= j < copies.len() ==> is_copy_of(tree, from, to, sources[j], #[trigger] copies[j]),
    ensures
        distinct_keys(copies),
{
    assert forall|a: int, b: int| 0 <= a < b < copies.len() implies (#[trigger] copies[a]).key != (
    #[trigger] copies[b]).key by {
        if copies[a].key == copies[b].key {
            let n = dir_prefix(from).len() as int;
            lemma_prefix_join(dir_prefix(to), sources[a].skip(n));
            lemma_prefix_join(dir_prefix(to), sources[b].skip(n));
            lemma_prefix_split(dir_prefix(from), sources[a]);
            lemma_prefix_split(dir_prefix(from), sources[b]);
            assert(sources[a] == sources[b]);
        }
    }
}

/// The duplicates of everything below `from`, laid over the cleared and
/// linked destination and topped with the duplicate of `from` itself, are
/// what a copy leaves.
proof fn lemma_copy_result(
    before: Tree,
    from: Seq<char>,
    to: Seq<char>,
    sources: Seq<Seq<char>>,
    copies: Seq<NodeView>,
    result: Tree,
)
    requires
        sources.len() == copies.len(),
        sources.no_duplicates(),
        forall|j: int|
            0 <= j < copies.len() ==> is_copy_of(before, from, to, sources[j], #[trigger] copies[j]),
        forall|key: Seq<char>|
            before.contains_key(key) && key != from && dir_prefix(from).is_prefix_of(key)
                ==> sources.contains(key),
        before.contains_key(from) || copies.len() > 0,
        ({
            let base = tree_link(tree_delete(before, to), ancestor_links(to));
            let merged = base.union_prefer_right(as_tree(copies));
            result == if before.contains_key(from) {
                merged.insert(
                    to,
                    NodeView {
                        key: to,
                        value: before[from].value,
                        children: before[from].children,
                    },
                )
            } else {
                merged
            }
        }),
    ensures
        result == tree_copy(before, from, to),
{
    lemma_copies_distinct(before, from, to, sources, copies);
    let base = tree_link(tree_delete(before, to), ancestor_links(to));
    let n = dir_prefix(from).len() as int;
    let expected = tree_copy(before, from, to);
    if before.contains_key(from) {
        assert(before.contains_key(from) && in_subtree(from, from));
    } else {
        assert(is_copy_of(before, from, to, sources[0], copies[0]));
        assert(before.contains_key(sources[0]) && in_subtree(from, sources[0]));
    }
    assert(tree_has_subtree(before, from));
    assert forall|dest: Seq<char>|
        #![trigger result.contains_key(dest)]
        #![trigger expected.contains_key(dest)]
        #![trigger result[dest]]
        #![trigger expected[dest]]
        result.contains_key(dest) == expected.contains_key(dest) && (result.contains_key(dest)
            ==> result[dest] == expected[dest]) by {
        let source = copy_source(before, from, to, dest);
        let below = dir_prefix(from) + dest.skip(dir_prefix(to).len() as int);
        if has_key(copies, dest) {
            let j = position(copies, dest);
            lemma_record_at(copies, j);
            assert(is_copy_of(before, from, to, sources[j], copies[j]));
            lemma_prefix_join(dir_prefix(to), sources[j].skip(n));
            lemma_prefix_split(dir_prefix(from), sources[j]);
            assert(below == sources[j]);
        }
        if source is Some && source->Some_0 != from {
            assert(sources.contains(below));
            let j = choose|j: int| 0 <= j < sources.len() && sources[j] == below;
            assert(is_copy_of(before, from, to, sources[j], copies[j]));
            lemma_prefix_join(dir_prefix(from), dest.skip(dir_prefix(to).len() as int));
            lemma_prefix_split(dir_prefix(to), dest);
            assert(copies[j].key == dest);
            lemma_record_at(copies, j);
        }
    }
    assert(result =~= expected);
}

impl PathTree {
    /// What the records hold, in the order in which they are kept.
    pub closed spec fn records(&self) -> Seq<NodeView> {
        record_views(self.nodes@)
    }

    /// The records keep distinct keys, and none lists a child twice.
    pub closed spec fn consistent(&self) -> bool {
        &&& distinct_keys(self.records())
        &&& forall|i: int|
            0 <= i < self.records().len() ==> (#[trigger] self.records()[i]).children.no_duplicates()
    }

    /// An empty tree.
    pub fn new() -> (store: PathTree)
        ensures
            store.wf(),
            store.tree() == Map::<Seq<char>, NodeView>::empty(),
    {
        let store = PathTree { nodes: Vec::new() };
        assert(store.tree() =~= Map::<Seq<char>, NodeView>::empty());
        store
    }

    /// The tree that holds exactly `nodes`, provided that no two of them
    /// share a key and none lists a child twice.
    pub fn restore(nodes: Vec<Node>) -> (restored: Option<PathTree>)
        ensures
            match restored {
                Some(store) => store.wf() && store.records() == record_views(nodes@),
                None => !distinct_keys(record_views(nodes@)) || exists|i: int|
                    0 <= i < nodes@.len() && !(#[trigger] record_views(
                        nodes@,
                    )[i]).children.no_duplicates(),
            },
    {
        let mut i: usize = 0;
        while i < nodes.len()
            invariant
                i <= nodes@.len(),
                distinct_keys(record_views(nodes@).take(i as int)),
                forall|k: int|
                    0 <= k < i ==> (#[trigger] record_views(nodes@)[k]).children.no_duplicates(),
            decreases nodes.len() - i,
        {
            let ghost views = record_views(nodes@);
            if has_duplicates(nodes[i].children()) {
                assert(!views[i as int].children.no_duplicates());
                return None;
            }
            let mut j: usize = 0;
            while j < i
                invariant
                    j <= i < nodes@.len(),
                    views == record_views(nodes@),
                    forall|k: int| 0 <= k < j ==> (#[trigger] views[k]).key != views[i as int].key,
                decreases i - j,
            {
                if *nodes[j].key() == *nodes[i].key() {
                    assert(views[j as int].key == views[i as int].key);
                    return None;
                }
                j += 1;
            }
            proof {
                assert forall|a: int, b: int| 0 <= a < b < i + 1 implies (#[trigger] views.take(
                    i + 1,
                )[a]).key != (#[trigger] views.take(i + 1)[b]).key by {
                    if b < i {
                        assert(views.take(i as int)[a].key != views.take(i as int)[b].key);
                    }
                }
            }
            i += 1;
        }
        assert(record_views(nodes@).take(nodes@.len() as int) =~= record_views(nodes@));
        Some(PathTree { nodes })
    }

    /// A copy of every record, in the order in which the tree keeps them.
    pub fn export(&self) -> (nodes: Vec<Node>)
        ensures
            record_views(nodes@) == self.records(),
    {
        let mut nodes: Vec<Node> = Vec::new();
        let mut i: usize = 0;
        while i < self.nodes.len()
            invariant
                i <= self.nodes@.len(),
                record_views(nodes@) == self.records().take(i as int),
            decreases self.nodes.len() - i,
        {
            let copy = self.nodes[i].duplicate();
            proof {
                let done = record_views(nodes@);
                assert(record_views(nodes@.push(copy)) =~= done.push(copy@));
                assert(self.records().take(i + 1) =~= self.records().take(i as int).push(copy@));
            }
            nodes.push(copy);
            i += 1;
        }
        assert(self.records().take(self.nodes@.len() as int) =~= self.records());
        nodes
    }

    /// The number of records.
    pub fn len(&self) -> (n: usize)
        ensures
            n == self.records().len(),
    {
        self.nodes.len()
    }

    /// The index of the record stored under `key`.
    fn find(&self, key: &str) -> (found: Option<usize>)
        requires
            self.wf(),
        ensures
            match found {
                Some(i) => i < self.records().len() && self.records()[i as int].key == key@
                    && self.tree().contains_key(key@) && self.tree()[key@]
                    == self.records()[i as int] && self.records()[i as int] == self.nodes[i as int]@,
                None => !self.tree().contains_key(key@),
            },
    {
        let wanted = String::from_str(key);
        let mut i: usize = 0;
        while i < self.nodes.len()
            invariant
                i <= self.nodes.len(),
                self.wf(),
                wanted@ == key@,
                forall|j: int| 0 <= j < i ==> (#[trigger] self.records()[j]).key != key@,
            decreases self.nodes.len() - i,
        {
            if *self.nodes[i].key() == wanted {
                proof {
                    lemma_record_at(self.records(), i as int);
                }
                return Some(i);
            }
            i += 1;
        }
        assert(!has_key(self.records(), key@));
        None
    }

    /// Stores `node` under its key, in place of the record that was there.
    fn upsert(&mut self, node: Node)
        requires
            old(self).wf(),
            node@.children.no_duplicates(),
        ensures
            final(self).wf(),
            final(self).tree() == old(self).tree().insert(node@.key, node@),
    {
        let ghost before = self.records();
        let ghost view = node@;
        match self.find(node.key().as_str()) {
            Some(i) => {
                self.nodes.set(i, node);
                proof {
                    assert(self.records() =~= before.update(i as int, view));
                    lemma_tree_update(before, i as int, view);
                }
            },
            None => {
                self.nodes.push(node);
                proof {
                    assert(self.records() =~= before.push(view));
                    lemma_tree_push(before, view);
                }
            },
        }
    }

    /// Makes sure that the node at `path` exists and lists `subkey` among
    /// its children.
    pub fn add_subkey(&mut self, path: &str, subkey: &str)
        requires
            old(self).wf(),
        ensures
            final(self).wf(),
            final(self).tree() == tree_add_subkey(old(self).tree(), path@, subkey@),
    {
        let segment = String::from_str(subkey);
        match self.find(path) {
            None => {
                let mut children: Vec<String> = Vec::new();
                children.push(segment);
                assert(strings_view(children@) =~= seq![subkey@]);
                self.upsert(Node::new(String::from_str(path), None, children));
            },
            Some(i) => {
                if !contains_string(self.nodes[i].children(), &segment) {
                    let mut children = clone_strings(self.nodes[i].children());
                    let value = clone_value(self.nodes[i].value());
                    let ghost listed = strings_view(children@);
                    children.push(segment);
                    assert(strings_view(children@) =~= listed.push(subkey@));
                    self.upsert(Node::new(String::from_str(path), value, children));
                }
            },
        }
    }
}

impl PathTree {
    /// Links every ancestor of `path`, from the root down, to the segment
    /// that leads on towards `path`.
    fn link_ancestors(&mut self, path: &str)
        requires
            old(self).wf(),
        ensures
            final(self).wf(),
            final(self).tree() == tree_link(old(self).tree(), ancestor_links(path@)),
    {
        let ghost before = self.tree();
        let links = get_all_subkeys(path);
        let mut i: usize = 0;
        assert(links_view(links@).skip(0) =~= links_view(links@));
        while i < links.len()
            invariant
                i <= links.len(),
                self.wf(),
                links_view(links@) == ancestor_links(path@),
                tree_link(self.tree(), links_view(links@).skip(i as int)) == tree_link(
                    before,
                    ancestor_links(path@),
                ),
            decreases links.len() - i,
        {
            proof {
                let rest = links_view(links@).skip(i as int);
                assert(rest[0] == (links@[i as int].0@, links@[i as int].1@));
                assert(rest.drop_first() =~= links_view(links@).skip(i + 1));
            }
            self.add_subkey(links[i].0.as_str(), links[i].1.as_str());
            i += 1;
        }
    }

    /// A duplicate, keyed for its place under `to`, of every record strictly
    /// below `from`, together with the keys that the duplicates were made of.
    fn copies_below(&self, from: &str, to: &str) -> (found: (Vec<Node>, Ghost<Seq<Seq<char>>>))
        requires
            self.wf(),
        ensures
            found.1@.len() == found.0@.len(),
            found.1@.no_duplicates(),
            forall|j: int|
                0 <= j < found.0@.len() ==> is_copy_of(
                    self.tree(),
                    from@,
                    to@,
                    found.1@[j],
                    #[trigger] record_views(found.0@)[j],
                ),
            forall|j: int|
                0 <= j < found.0@.len() ==> (#[trigger] record_views(
                    found.0@,
                )[j]).children.no_duplicates(),
            forall|key: Seq<char>|
                self.tree().contains_key(key) && key != from@ && dir_prefix(from@).is_prefix_of(key)
                    ==> found.1@.contains(key),
    {
        let source_root = String::from_str(from);
        let prefix = dir_prefix_chars(from);
        let mut copies: Vec<Node> = Vec::new();
        let ghost mut sources: Seq<Seq<char>> = Seq::empty();
        let mut i: usize = 0;
        while i < self.nodes.len()
            invariant
                i <= self.nodes.len(),
                self.wf(),
                source_root@ == from@,
                prefix@ == dir_prefix(from@),
                sources.len() == copies@.len(),
                sources.no_duplicates(),
                forall|j: int|
                    0 <= j < sources.len() ==> has_key(
                        self.records().take(i as int),
                        #[trigger] sources[j],
                    ),
                forall|j: int|
                    0 <= j < copies@.len() ==> is_copy_of(
                        self.tree(),
                        from@,
                        to@,
                        sources[j],
                        #[trigger] record_views(copies@)[j],
                    ),
                forall|j: int|
                    0 <= j < copies@.len() ==> (#[trigger] record_views(
                        copies@,
                    )[j]).children.no_duplicates(),
                forall|m: int|
                    0 <= m < i && (#[trigger] self.records()[m]).key != from@ && dir_prefix(
                        from@,
                    ).is_prefix_of(self.records()[m].key) ==> sources.contains(self.records()[m].key),
            decreases self.nodes.len() - i,
        {
            let key = self.nodes[i].key();
            let key_chars = to_chars(key.as_str());
            if *key != source_root && starts_with(&key_chars, &prefix) {
                let moved = rebase_below(prefix.len(), to, key.as_str());
                let copy = Node::new(
                    moved,
                    clone_value(self.nodes[i].value()),
                    clone_strings(self.nodes[i].children()),
                );
                proof {
                    lemma_record_at(self.records(), i as int);
                    let views = record_views(copies@);
                    assert(record_views(copies@.push(copy)) =~= views.push(copy@));
                    assert forall|j: int| 0 <= j < sources.len() implies sources[j] != key@ by {
                        let m = position(self.records().take(i as int), sources[j]);
                        assert(self.records().take(i as int)[m] == self.records()[m]);
                        assert(self.records()[m].key != self.records()[i as int].key);
                    }
                    let ghost grown = sources.push(key@);
                    assert(has_key(self.records().take(i + 1), key@)) by {
                        assert(self.records().take(i + 1)[i as int].key == key@);
                    }
                    assert forall|m: int|
                        0 <= m < i + 1 && (#[trigger] self.records()[m]).key != from@ && dir_prefix(
                            from@,
                        ).is_prefix_of(self.records()[m].key) implies grown.contains(
                        self.records()[m].key,
                    ) by {
                        if m < i {
                            let j = choose|j: int|
                                0 <= j < sources.len() && sources[j] == self.records()[m].key;
                            assert(grown[j] == self.records()[m].key);
                        } else {
                            assert(grown[sources.len() as int] == key@);
                        }
                    }
                    sources = grown;
                }
                copies.push(copy);
            }
            proof {
                assert forall|j: int| 0 <= j < sources.len() implies has_key(
                    self.records().take(i + 1),
                    #[trigger] sources[j],
                ) by {
                    if !has_key(self.records().take(i + 1), sources[j]) {
                        let m = position(self.records().take(i as int), sources[j]);
                        assert(self.records().take(i + 1)[m].key == sources[j]);
                    }
                }
            }
            i += 1;
        }
        proof {
            assert forall|key: Seq<char>|
                self.tree().contains_key(key) && key != from@ && dir_prefix(from@).is_prefix_of(
                    key,
                ) implies sources.contains(key) by {
                let m = position(self.records(), key);
                assert(self.records()[m].key == key);
            }
        }
        (copies, Ghost(sources))
    }
}

impl Database for PathTree {
    closed spec fn tree(&self) -> Tree {
        as_tree(self.records())
    }

    closed spec fn wf(&self) -> bool {
        self.consistent()
    }

    open spec fn never_fails(&self) -> bool {
        true
    }

    proof fn wf_tree(&self) {
        assert forall|key: Seq<char>| #[trigger] self.tree().contains_key(key) implies self.tree()[key].key
            == key && self.tree()[key].children.no_duplicates() by {
            let p = position(self.records(), key);
            lemma_record_at(self.records(), p);
        }
    }

    fn write<'a>(&mut self, path: &str, data: &'a [u8]) -> (res: Result<&'a [u8], DatabaseError>)
    {
        self.link_ancestors(path);
        let children = match self.find(path) {
            Some(i) => clone_strings(self.nodes[i].children()),
            None => Vec::new(),
        };
        proof {
            self.wf_tree();
            assert(strings_view(children@) =~= tree_subkeys(self.tree(), path@));
        }
        self.upsert(Node::new(String::from_str(path), Some(slice_to_vec(data)), children));
        Ok(data)
    }

    fn read(&self, path: &str) -> (res: Result<Option<Vec<u8>>, DatabaseError>)
    {
        match self.find(path) {
            Some(i) => Ok(clone_value(self.nodes[i].value())),
            None => Ok(None),
        }
    }

    fn get_subkeys(&self, path: &str) -> (res: Result<Vec<String>, DatabaseError>)
    {
        match self.find(path) {
            Some(i) => Ok(clone_strings(self.nodes[i].children())),
            None => {
                let none: Vec<String> = Vec::new();
                assert(strings_view(none@) =~= tree_subkeys(self.tree(), path@));
                Ok(none)
            },
        }
    }

    fn delete(&mut self, path: &str) -> (res: Result<(), DatabaseError>)
    {
        let ghost before = self.tree();
        let root = String::from_str(path);
        let prefix = dir_prefix_chars(path);
        let mut i: usize = 0;
        while i < self.nodes.len()
            invariant
                i <= self.nodes.len(),
                self.wf(),
                root@ == path@,
                prefix@ == dir_prefix(path@),
                forall|key: Seq<char>| #[trigger]
                    self.tree().contains_key(key) ==> before.contains_key(key) && before[key]
                        == self.tree()[key],
                forall|key: Seq<char>|
                    before.contains_key(key) && !in_subtree(path@, key)
                        ==> #[trigger] self.tree().contains_key(key),
                forall|j: int| 0 <= j < i ==> !in_subtree(path@, (#[trigger] self.records()[j]).key),
            decreases self.nodes.len() - i,
        {
            let key_chars = to_chars(self.nodes[i].key().as_str());
            if *self.nodes[i].key() == root || starts_with(&key_chars, &prefix) {
                let ghost records = self.records();
                let ghost current = self.tree();
                assert(in_subtree(path@, records[i as int].key));
                let _ = self.nodes.remove(i);
                proof {
                    assert(self.records() =~= records.remove(i as int));
                    lemma_tree_remove(records, i as int);
                    assert(self.tree() == current.remove(records[i as int].key));
                    assert forall|j: int| 0 <= j < self.records().len() implies (
                    #[trigger] self.records()[j]).children.no_duplicates() by {
                        let j0 = if j < i { j } else { j + 1 };
                        assert(records[j0].children.no_duplicates());
                    }
                }
            } else {
                i += 1;
            }
        }
        proof {
            assert forall|key: Seq<char>| #[trigger] self.tree().contains_key(key) implies !in_subtree(
                path@,
                key,
            ) by {
                let p = position(self.records(), key);
                assert(self.records()[p].key == key);
            }
            assert(self.tree() =~= tree_delete(before, path@));
        }
        Ok(())
    }

    fn read_node(&self, path: &str) -> (res: Result<Option<Node>, DatabaseError>)
    {
        match self.find(path) {
            Some(i) => Ok(Some(self.nodes[i].duplicate())),
            None => Ok(None),
        }
    }

    fn copy(&mut self, from: &str, to: &str) -> (res: Result<(), DatabaseError>)
    {
        let ghost before = self.tree();
        let (copies, Ghost(sources)) = self.copies_below(from, to);
        let top = match self.find(from) {
            Some(i) => Some(
                Node::new(
                    String::from_str(to),
                    clone_value(self.nodes[i].value()),
                    clone_strings(self.nodes[i].children()),
                ),
            ),
            None => None,
        };
        if copies.len() == 0 && top.is_none() {
            proof {
                assert forall|key: Seq<char>| #[trigger] before.contains_key(key) implies !in_subtree(
                    from@,
                    key,
                ) by {
                    if key != from@ && dir_prefix(from@).is_prefix_of(key) {
                        assert(sources.contains(key));
                    }
                }
            }
            return Ok(());
        }
        proof {
            self.wf_tree();
            lemma_copies_distinct(before, from@, to@, sources, record_views(copies@));
        }
        let _ = self.delete(to);
        self.link_ancestors(to);
        let ghost base = self.tree();
        let mut i: usize = 0;
        assert(base.union_prefer_right(as_tree(record_views(copies@).take(0))) =~= base);
        while i < copies.len()
            invariant
                i <= copies.len(),
                self.wf(),
                distinct_keys(record_views(copies@)),
                forall|j: int|
                    0 <= j < copies@.len() ==> (#[trigger] record_views(
                        copies@,
                    )[j]).children.no_duplicates(),
                self.tree() == base.union_prefer_right(
                    as_tree(record_views(copies@).take(i as int)),
                ),
            decreases copies.len() - i,
        {
            let copy = copies[i].duplicate();
            proof {
                let views = record_views(copies@);
                let done = views.take(i as int);
                assert(views.take(i + 1) =~= done.push(views[i as int]));
                assert(!has_key(done, views[i as int].key)) by {
                    if has_key(done, views[i as int].key) {
                        let p = position(done, views[i as int].key);
                        assert(views[p].key != views[i as int].key);
                    }
                }
                assert(distinct_keys(done));
                lemma_tree_push(done, views[i as int]);
                assert(base.union_prefer_right(as_tree(done)).insert(
                    views[i as int].key,
                    views[i as int],
                ) =~= base.union_prefer_right(as_tree(done).insert(views[i as int].key, views[i as int])));
            }
            self.upsert(copy);
            i += 1;
        }
        assert(record_views(copies@).take(copies@.len() as int) =~= record_views(copies@));
        match top {
            Some(node) => {
                self.upsert(node);
            },
            None => {},
        }
        proof {
            lemma_copy_result(before, from@, to@, sources, record_views(copies@), self.tree());
        }
        Ok(())
    }
}

} // verus!
