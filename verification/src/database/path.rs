//! Slash-delimited storage paths: how a path string decomposes into the chain
//! of ancestors that must exist for it, and which stored keys lie below it.

use vstd::prelude::*;
use vstd::string::*;

verus! {

/// The path of the root node, `"/"`.
pub open spec fn root_path() -> Seq<char> {
    seq!['/']
}

/// The prefix shared by every path strictly below `path`: the path followed
/// by a separator, except for the root, which already ends with one.
pub open spec fn dir_prefix(path: Seq<char>) -> Seq<char> {
    if path == root_path() {
        path
    } else {
        path.push('/')
    }
}

/// The path of the child named `segment` directly below `parent`.
pub open spec fn child_path(parent: Seq<char>, segment: Seq<char>) -> Seq<char> {
    dir_prefix(parent) + segment
}

/// The pieces of `s[start..]` between separators, where the piece that began
/// at `start` has been scanned up to `i` without meeting a separator.
pub open spec fn pieces_from(s: Seq<char>, start: int, i: int) -> Seq<Seq<char>>
    decreases s.len() - i,
{
    if i >= s.len() {
        seq![s.subrange(start, s.len() as int)]
    } else if s[i] == '/' {
        seq![s.subrange(start, i)] + pieces_from(s, i + 1, i + 1)
    } else {
        pieces_from(s, start, i + 1)
    }
}

/// The segments of a path: what stands between its separators, without the
/// piece in front of the first separator (empty for an absolute path).
pub open spec fn segments(path: Seq<char>) -> Seq<Seq<char>> {
    pieces_from(path, 0, 0).drop_first()
}

/// The chain of `(ancestor, segment)` pairs met when walking down from
/// `prefix` through `segs`: each ancestor with the segment that leads on.
pub open spec fn links_from(prefix: Seq<char>, segs: Seq<Seq<char>>) -> Seq<(Seq<char>, Seq<char>)>
    decreases segs.len(),
{
    if segs.len() == 0 {
        seq![]
    } else {
        seq![(prefix, segs[0])] + links_from(child_path(prefix, segs[0]), segs.drop_first())
    }
}

/// Every ancestor of `path`, from the root down to its parent, paired with
/// the segment that the ancestor must list as a child. The root has no
/// ancestor.
pub open spec fn ancestor_links(path: Seq<char>) -> Seq<(Seq<char>, Seq<char>)> {
    if path == root_path() {
        seq![]
    } else {
        links_from(root_path(), segments(path))
    }
}

/// Whether `path` is an absolute path below the root: it begins with one
/// separator and something else follows.
pub open spec fn rooted(path: Seq<char>) -> bool {
    path.len() >= 2 && path[0] == '/' && path[1] != '/'
}

/// The path that walking down from `prefix` through `segs` ends at.
pub open spec fn links_end(prefix: Seq<char>, segs: Seq<Seq<char>>) -> Seq<char>
    decreases segs.len(),
{
    if segs.len() == 0 {
        prefix
    } else {
        links_end(child_path(prefix, segs[0]), segs.drop_first())
    }
}

/// The pieces put together again, with a separator between each two.
pub open spec fn joined(pieces: Seq<Seq<char>>) -> Seq<char>
    decreases pieces.len(),
{
    if pieces.len() == 0 {
        seq![]
    } else if pieces.len() == 1 {
        pieces[0]
    } else {
        pieces[0] + seq!['/'] + joined(pieces.drop_first())
    }
}

/// Splitting loses nothing: the pieces from `start` on, joined, are what
/// stands in the string from `start` on.
pub proof fn lemma_pieces_joined(s: Seq<char>, start: int, i: int)
    requires
        0 <= start <= i <= s.len(),
    ensures
        pieces_from(s, start, i).len() >= 1,
        joined(pieces_from(s, start, i)) == s.subrange(start, s.len() as int),
    decreases s.len() - i,
{
    if i >= s.len() {
    } else if s[i] == '/' {
        lemma_pieces_joined(s, i + 1, i + 1);
        let rest = pieces_from(s, i + 1, i + 1);
        let all = seq![s.subrange(start, i)] + rest;
        assert(all.drop_first() =~= rest);
        assert(all[0] == s.subrange(start, i));
        assert(s.subrange(start, i) + seq!['/'] + s.subrange(i + 1, s.len() as int) =~= s.subrange(
            start,
            s.len() as int,
        ));
    } else {
        lemma_pieces_joined(s, start, i + 1);
    }
}

/// The first piece reaches at least as far as the scan has come.
pub proof fn lemma_first_piece(s: Seq<char>, start: int, i: int)
    requires
        0 <= start <= i <= s.len(),
    ensures
        pieces_from(s, start, i).len() >= 1,
        pieces_from(s, start, i)[0].len() >= i - start,
    decreases s.len() - i,
{
    if i < s.len() && s[i] != '/' {
        lemma_first_piece(s, start, i + 1);
    }
}

/// Walking down from a path other than the root through segments ends at
/// the path with the joined segments behind a separator.
pub proof fn lemma_links_end_joined(prefix: Seq<char>, segs: Seq<Seq<char>>)
    requires
        segs.len() >= 1,
        prefix.len() >= 2,
    ensures
        links_end(prefix, segs) == prefix + seq!['/'] + joined(segs),
    decreases segs.len(),
{
    let next = child_path(prefix, segs[0]);
    let rest = segs.drop_first();
    assert(prefix != root_path());
    assert(next =~= prefix + seq!['/'] + segs[0]);
    assert(links_end(prefix, segs) == links_end(next, rest));
    if segs.len() == 1 {
        assert(rest.len() == 0);
        assert(links_end(next, rest) == next);
        assert(joined(segs) == segs[0]);
    } else {
        lemma_links_end_joined(next, rest);
        assert(joined(segs) == segs[0] + seq!['/'] + joined(rest));
        assert(next + seq!['/'] + joined(rest) =~= prefix + seq!['/'] + (segs[0] + seq!['/']
            + joined(rest)));
    }
}

/// Walking down from the root through the segments of an absolute path ends
/// at that path.
pub proof fn lemma_links_end_rooted(path: Seq<char>)
    requires
        rooted(path),
    ensures
        segments(path).len() >= 1,
        links_end(root_path(), segments(path)) == path,
{
    let pieces = pieces_from(path, 0, 0);
    let rest = pieces_from(path, 1, 1);
    lemma_pieces_joined(path, 1, 1);
    assert(pieces =~= seq![path.subrange(0, 0)] + rest);
    let segs = segments(path);
    assert(segs =~= rest);
    assert(joined(segs) == path.subrange(1, path.len() as int));
    let first = child_path(root_path(), segs[0]);
    assert(first =~= seq!['/'] + segs[0]);
    // The first segment is not empty: the path does not go on with a separator.
    assert(segs[0].len() >= 1) by {
        assert(pieces_from(path, 1, 1) == pieces_from(path, 1, 2));
        lemma_first_piece(path, 1, 2);
    }
    let tail = segs.drop_first();
    assert(path =~= seq!['/'] + path.subrange(1, path.len() as int));
    assert(links_end(root_path(), segs) == links_end(first, tail));
    if segs.len() == 1 {
        assert(tail.len() == 0);
        assert(links_end(first, tail) == first);
        assert(joined(segs) == segs[0]);
        assert(first =~= path);
    } else {
        lemma_links_end_joined(first, tail);
        assert(joined(segs) == segs[0] + seq!['/'] + joined(tail));
        assert(first + seq!['/'] + joined(tail) =~= seq!['/'] + (segs[0] + seq!['/'] + joined(tail)));
    }
}

/// The chain of links that leads down from `prefix` through `segs` ends
/// with the link to the path that the walk ends at.
pub proof fn lemma_links_last(prefix: Seq<char>, segs: Seq<Seq<char>>)
    requires
        segs.len() >= 1,
    ensures
        links_from(prefix, segs).len() == segs.len(),
        links_end(prefix, segs) == child_path(
            links_from(prefix, segs).last().0,
            links_from(prefix, segs).last().1,
        ),
    decreases segs.len(),
{
    let next = child_path(prefix, segs[0]);
    let tail = links_from(next, segs.drop_first());
    let all = links_from(prefix, segs);
    lemma_links_len(next, segs.drop_first());
    assert(all == seq![(prefix, segs[0])] + tail);
    if segs.len() > 1 {
        lemma_links_last(next, segs.drop_first());
        assert(all.last() == tail.last());
        assert(links_end(prefix, segs) == links_end(next, segs.drop_first()));
    } else {
        assert(segs.drop_first().len() == 0);
        assert(tail.len() == 0);
        assert(all.last() == (prefix, segs[0]));
        assert(links_end(next, segs.drop_first()) == next);
    }
}

/// A chain has one link for each segment.
pub proof fn lemma_links_len(prefix: Seq<char>, segs: Seq<Seq<char>>)
    ensures
        links_from(prefix, segs).len() == segs.len(),
    decreases segs.len(),
{
    if segs.len() > 0 {
        lemma_links_len(child_path(prefix, segs[0]), segs.drop_first());
    }
}

/// In a chain of links that starts at the root, every ancestor but the root
/// is the child that the link before it leads to.
pub proof fn lemma_links_chain(prefix: Seq<char>, segs: Seq<Seq<char>>, i: int)
    requires
        1 <= i < segs.len(),
    ensures
        links_from(prefix, segs).len() == segs.len(),
        links_from(prefix, segs)[i].0 == child_path(
            links_from(prefix, segs)[i - 1].0,
            links_from(prefix, segs)[i - 1].1,
        ),
    decreases segs.len(),
{
    let next = child_path(prefix, segs[0]);
    let tail = links_from(next, segs.drop_first());
    lemma_links_len(next, segs.drop_first());
    if i == 1 {
        assert(tail[0].0 == next);
    } else {
        lemma_links_chain(next, segs.drop_first(), i - 1);
    }
}

/// Whether `segment` can name a child: it is not empty and holds no
/// separator.
pub open spec fn segment_clean(segment: Seq<char>) -> bool {
    segment.len() > 0 && forall|i: int| 0 <= i < segment.len() ==> segment[i] != '/'
}

/// Whether `path` is the root or an absolute path without an empty step:
/// it begins with a separator, does not end with one, and never has two in
/// a row.
pub open spec fn path_clean(path: Seq<char>) -> bool {
    path == root_path() || (rooted(path) && path.last() != '/' && forall|i: int|
        0 < i < path.len() ==> !(path[i - 1] == '/' && #[trigger] path[i] == '/'))
}

/// The pieces of a string that has no empty step are clean segments.
pub proof fn lemma_pieces_clean(s: Seq<char>, start: int, i: int)
    requires
        0 <= start <= i <= s.len(),
        start < s.len(),
        s.last() != '/',
        forall|k: int| 0 < k < s.len() ==> !(s[k - 1] == '/' && #[trigger] s[k] == '/'),
        start == i ==> s[start] != '/',
        forall|k: int| start <= k < i ==> s[k] != '/',
    ensures
        forall|j: int|
            0 <= j < pieces_from(s, start, i).len() ==> segment_clean(
                #[trigger] pieces_from(s, start, i)[j],
            ),
    decreases s.len() - i,
{
    if i >= s.len() {
        let piece = s.subrange(start, s.len() as int);
        assert forall|k: int| 0 <= k < piece.len() implies piece[k] != '/' by {
            assert(piece[k] == s[start + k]);
        }
        assert(segment_clean(piece));
        assert(pieces_from(s, start, i) =~= seq![piece]);
    } else if s[i] == '/' {
        assert(i + 1 < s.len());
        assert(!(s[i + 1 - 1] == '/' && s[i + 1] == '/'));
        lemma_pieces_clean(s, i + 1, i + 1);
        let piece = s.subrange(start, i);
        assert forall|k: int| 0 <= k < piece.len() implies piece[k] != '/' by {
            assert(piece[k] == s[start + k]);
        }
        assert(segment_clean(piece));
        let rest = pieces_from(s, i + 1, i + 1);
        let all = seq![piece] + rest;
        assert(pieces_from(s, start, i) == all);
        assert forall|j: int| 0 <= j < all.len() implies segment_clean(#[trigger] all[j]) by {
            if j > 0 {
                assert(all[j] == rest[j - 1]);
            } else {
                assert(all[0] == piece);
            }
        }
    } else {
        lemma_pieces_clean(s, start, i + 1);
        assert(pieces_from(s, start, i) == pieces_from(s, start, i + 1));
    }
}

/// The segments of a clean path below the root are clean.
pub proof fn lemma_segments_clean(path: Seq<char>)
    requires
        path_clean(path),
        path != root_path(),
    ensures
        forall|j: int| 0 <= j < segments(path).len() ==> segment_clean(#[trigger] segments(path)[j]),
{
    let rest = pieces_from(path, 1, 1);
    assert(pieces_from(path, 0, 0) =~= seq![path.subrange(0, 0)] + rest);
    assert(segments(path) =~= rest);
    lemma_pieces_clean(path, 1, 1);
}

/// The child of a clean path under a clean segment has a clean path, which
/// is longer than that of its parent.
pub proof fn lemma_child_clean(parent: Seq<char>, segment: Seq<char>)
    requires
        path_clean(parent),
        segment_clean(segment),
    ensures
        path_clean(child_path(parent, segment)),
        child_path(parent, segment).len() > parent.len(),
        child_path(parent, segment) != root_path(),
{
    let child = child_path(parent, segment);
    let prefix = dir_prefix(parent);
    assert(child.last() == segment.last());
    assert forall|i: int| 0 < i < child.len() implies !(child[i - 1] == '/' && #[trigger] child[i]
        == '/') by {
        if i >= prefix.len() {
            assert(child[i] == segment[i - prefix.len()]);
        } else if parent != root_path() && i < parent.len() {
            assert(child[i] == parent[i] && child[i - 1] == parent[i - 1]);
        } else if parent != root_path() {
            assert(child[i - 1] == parent.last());
        }
    }
    assert(child[1] != '/') by {
        if parent == root_path() {
            assert(child[1] == segment[0]);
        } else {
            assert(child[1] == parent[1]);
        }
    }
}

/// A chain of links from a clean path through clean segments passes only
/// clean paths, each shorter than the path at which the chain ends, which is
/// clean too.
pub proof fn lemma_links_clean(prefix: Seq<char>, segs: Seq<Seq<char>>, i: int)
    requires
        path_clean(prefix),
        forall|j: int| 0 <= j < segs.len() ==> segment_clean(#[trigger] segs[j]),
        0 <= i < segs.len(),
    ensures
        links_from(prefix, segs).len() == segs.len(),
        path_clean(links_from(prefix, segs)[i].0),
        links_from(prefix, segs)[i].1 == segs[i],
        links_from(prefix, segs)[i].0.len() < links_end(prefix, segs).len(),
        path_clean(links_end(prefix, segs)),
    decreases segs.len(),
{
    let next = child_path(prefix, segs[0]);
    let rest = segs.drop_first();
    lemma_child_clean(prefix, segs[0]);
    lemma_links_len(next, rest);
    assert forall|j: int| 0 <= j < rest.len() implies segment_clean(#[trigger] rest[j]) by {
        assert(rest[j] == segs[j + 1]);
    }
    assert(links_end(prefix, segs) == links_end(next, rest));
    if rest.len() == 0 {
        assert(links_end(next, rest) == next);
    } else {
        lemma_links_clean(next, rest, 0);
        if i > 0 {
            lemma_links_clean(next, rest, i - 1);
        }
    }
}

/// A node below `from` that is the child of a clean path under a clean
/// segment has its parent at or below `from`, and its copy under `to` is
/// the child, under the same segment, of the copy of its parent.
pub proof fn lemma_rebase_child(
    from: Seq<char>,
    to: Seq<char>,
    parent: Seq<char>,
    segment: Seq<char>,
)
    requires
        path_clean(from),
        path_clean(to),
        path_clean(parent),
        segment_clean(segment),
        child_path(parent, segment) != from,
        dir_prefix(from).is_prefix_of(child_path(parent, segment)),
    ensures
        in_subtree(from, parent),
        rebase(from, to, child_path(parent, segment)) == child_path(
            rebase(from, to, parent),
            segment,
        ),
        rebase(from, to, parent) != root_path() || parent == from,
{
    let key = child_path(parent, segment);
    let n = dir_prefix(from).len() as int;
    let m = dir_prefix(parent).len() as int;
    // The prefix of `from` ends with a separator, and the last one of the key
    // is the one in front of the segment.
    assert(n <= m) by {
        if n > m {
            assert(key[n - 1] == dir_prefix(from)[n - 1]);
            assert(key[n - 1] == segment[n - 1 - m]);
        }
    }
    if parent != from {
        assert(dir_prefix(from).is_prefix_of(parent)) by {
            if n == m {
                assert(dir_prefix(from) =~= key.subrange(0, n));
                assert(dir_prefix(parent) =~= key.subrange(0, m));
                if from == root_path() {
                    assert(parent.push('/').len() == 1);
                } else if parent == root_path() {
                    assert(from.push('/').len() == 1);
                } else {
                    assert(from =~= from.push('/').drop_last());
                    assert(parent =~= parent.push('/').drop_last());
                }
            } else {
                assert(parent != root_path());
                assert(parent.subrange(0, n) =~= key.subrange(0, n));
            }
        }
        assert(parent != root_path());
        let moved = rebase(from, to, parent);
        assert(n < parent.len()) by {
            if n == parent.len() {
                assert(parent.last() == dir_prefix(from)[n - 1]);
            }
        }
        assert(moved.len() >= 2);
        assert(moved != root_path());
        assert(child_path(moved, segment) =~= dir_prefix(to) + key.skip(n));
    } else {
        assert(key.skip(n) =~= segment);
    }
}

/// The copy under a clean path of a clean path below a clean source is
/// clean, and never the destination itself.
pub proof fn lemma_rebase_clean(from: Seq<char>, to: Seq<char>, key: Seq<char>)
    requires
        path_clean(from),
        path_clean(to),
        path_clean(key),
        key != from,
        dir_prefix(from).is_prefix_of(key),
    ensures
        path_clean(dir_prefix(to) + key.skip(dir_prefix(from).len() as int)),
        dir_prefix(to) + key.skip(dir_prefix(from).len() as int) != to,
        dir_prefix(to) + key.skip(dir_prefix(from).len() as int) != root_path(),
        dir_prefix(from).len() < key.len(),
{
    let n = dir_prefix(from).len() as int;
    let head = dir_prefix(to);
    let tail = key.skip(n);
    let moved = head + tail;
    assert(key.subrange(0, n) =~= dir_prefix(from));
    assert(key[n - 1] == dir_prefix(from)[n - 1]);
    assert(key[n - 1] == '/');
    assert(key != root_path());
    assert(n < key.len());
    assert(!(key[n - 1] == '/' && key[n] == '/'));
    assert(tail[0] == key[n]);
    assert(moved.last() == key.last());
    assert(moved[1] != '/') by {
        if to == root_path() {
            assert(moved[1] == tail[0]);
        } else {
            assert(moved[1] == to[1]);
        }
    }
    assert forall|i: int| 0 < i < moved.len() implies !(moved[i - 1] == '/' && #[trigger] moved[i]
        == '/') by {
        if i > head.len() {
            assert(moved[i] == key[n + i - head.len()]);
            assert(moved[i - 1] == key[n + i - head.len() - 1]);
            assert(!(key[n + i - head.len() - 1] == '/' && key[n + i - head.len()] == '/'));
        } else if i == head.len() {
            assert(moved[i] == tail[0]);
        } else if to != root_path() && i < to.len() {
            assert(moved[i] == to[i] && moved[i - 1] == to[i - 1]);
        } else if to != root_path() {
            assert(moved[i - 1] == to.last());
        }
    }
}

/// Whether `key` is `root` itself or lies below it.
pub open spec fn in_subtree(root: Seq<char>, key: Seq<char>) -> bool {
    key == root || dir_prefix(root).is_prefix_of(key)
}

/// Where the node stored at `key`, in the subtree of `from`, lands when that
/// subtree is placed at `to`.
pub open spec fn rebase(from: Seq<char>, to: Seq<char>, key: Seq<char>) -> Seq<char> {
    if key == from {
        to
    } else {
        dir_prefix(to) + key.skip(dir_prefix(from).len() as int)
    }
}

/// What stands behind a prefix determines the whole.
pub proof fn lemma_prefix_split(prefix: Seq<char>, whole: Seq<char>)
    requires
        prefix.is_prefix_of(whole),
    ensures
        prefix + whole.skip(prefix.len() as int) == whole,
        (prefix + whole.skip(prefix.len() as int)).skip(prefix.len() as int) == whole.skip(
            prefix.len() as int,
        ),
{
    assert(prefix + whole.skip(prefix.len() as int) =~= whole);
}

/// What was appended to a prefix can be read back behind it.
pub proof fn lemma_prefix_join(prefix: Seq<char>, tail: Seq<char>)
    ensures
        prefix.is_prefix_of(prefix + tail),
        (prefix + tail).skip(prefix.len() as int) == tail,
{
    assert((prefix + tail).subrange(0, prefix.len() as int) =~= prefix);
    assert((prefix + tail).skip(prefix.len() as int) =~= tail);
}

/// The views of a list of strings.
pub open spec fn strings_view(v: Seq<String>) -> Seq<Seq<char>> {
    v.map_values(|s: String| s@)
}

/// The views of a list of string pairs.
pub open spec fn links_view(v: Seq<(String, String)>) -> Seq<(Seq<char>, Seq<char>)> {
    v.map_values(|l: (String, String)| (l.0@, l.1@))
}

/// The characters of a string, one by one.
pub fn to_chars(s: &str) -> (chars: Vec<char>)
    ensures
        chars@ == s@,
{
    let mut chars: Vec<char> = Vec::new();
    for c in it: s.chars()
        invariant
            it.seq() == s@,
            chars@ == s@.take(it.index() as int),
    {
        assert(s@.take(it.index() + 1) =~= s@.take(it.index() as int).push(c));
        chars.push(c);
    }
    assert(s@.take(s@.len() as int) =~= s@);
    chars
}

/// Whether `path` is the root path.
pub fn is_root(path: &str) -> (b: bool)
    ensures
        b == (path@ == root_path()),
{
    let b = path.unicode_len() == 1 && path.get_char(0) == '/';
    assert(b ==> path@ =~= root_path());
    b
}

/// The path of the child `segment` of `parent`.
pub fn join_child(parent: &str, segment: &str) -> (child: String)
    ensures
        child@ == child_path(parent@, segment@),
{
    let mut child = String::from_str(parent);
    if !is_root(parent) {
        proof {
            reveal_strlit("/");
        }
        child.append("/");
        assert(child@ =~= parent@.push('/'));
    }
    child.append(segment);
    child
}

/// Splits a path at its separators and drops what stands before the first.
pub fn split_segments(path: &str) -> (segs: Vec<String>)
    ensures
        strings_view(segs@) == segments(path@),
{
    let chars = to_chars(path);
    let n = chars.len();
    let mut pieces: Vec<String> = Vec::new();
    let mut start: usize = 0;
    let mut i: usize = 0;
    while i < n
        invariant
            chars@ == path@,
            n == chars@.len(),
            start <= i <= n,
            strings_view(pieces@) + pieces_from(path@, start as int, i as int) == pieces_from(
                path@,
                0,
                0,
            ),
        decreases n - i,
    {
        if chars[i] == '/' {
            let piece = String::from_str(path.substring_char(start, i));
            proof {
                let done = strings_view(pieces@);
                let rest = pieces_from(path@, i + 1, i + 1);
                assert(strings_view(pieces@.push(piece)) =~= done.push(piece@));
                assert(done.push(piece@) + rest =~= done + (seq![piece@] + rest));
            }
            pieces.push(piece);
            start = i + 1;
        }
        i += 1;
    }
    let last = String::from_str(path.substring_char(start, n));
    proof {
        let done = strings_view(pieces@);
        assert(strings_view(pieces@.push(last)) =~= done.push(last@));
        assert(done.push(last@) =~= done + seq![last@]);
    }
    pieces.push(last);
    let _ = pieces.remove(0);
    assert(strings_view(pieces@) =~= segments(path@));
    pieces
}

/// The ancestors that a write to `path` touches, from the root downwards,
/// each with the child segment to record in it.
///
/// For `"/a/b/c"` these are `("/", "a")`, `("/a", "b")` and `("/a/b", "c")`.
pub fn get_all_subkeys(path: &str) -> (links: Vec<(String, String)>)
    ensures
        links_view(links@) == ancestor_links(path@),
{
    let mut links: Vec<(String, String)> = Vec::new();
    if is_root(path) {
        assert(links_view(links@) =~= ancestor_links(path@));
        return links;
    }
    let segs = split_segments(path);
    proof {
        reveal_strlit("/");
    }
    let mut prefix = String::from_str("/");
    assert(prefix@ =~= root_path());
    assert(segments(path@).skip(0) =~= segments(path@));
    assert(links_view(links@) + ancestor_links(path@) =~= ancestor_links(path@));
    let mut i: usize = 0;
    while i < segs.len()
        invariant
            i <= segs.len(),
            strings_view(segs@) == segments(path@),
            links_view(links@) + links_from(prefix@, segments(path@).skip(i as int))
                == ancestor_links(path@),
        decreases segs.len() - i,
    {
        let segment = segs[i].clone();
        let next = join_child(prefix.as_str(), segment.as_str());
        proof {
            let done = links_view(links@);
            let rest = segments(path@).skip(i as int);
            assert(rest[0] == segment@);
            assert(rest.drop_first() =~= segments(path@).skip(i + 1));
            let tail = links_from(next@, rest.drop_first());
            assert(links_view(links@.push((prefix, segment))) =~= done.push((prefix@, segment@)));
            assert(done.push((prefix@, segment@)) + tail =~= done + (seq![(prefix@, segment@)]
                + tail));
        }
        links.push((prefix, segment));
        prefix = next;
        i += 1;
    }
    assert(links_view(links@) + seq![] =~= links_view(links@));
    links
}

/// Whether `prefix` stands at the start of `chars`.
pub fn starts_with(chars: &Vec<char>, prefix: &Vec<char>) -> (b: bool)
    ensures
        b == prefix@.is_prefix_of(chars@),
{
    if prefix.len() > chars.len() {
        return false;
    }
    let mut i: usize = 0;
    while i < prefix.len()
        invariant
            i <= prefix.len() <= chars.len(),
            forall|j: int| 0 <= j < i ==> prefix@[j] == chars@[j],
        decreases prefix.len() - i,
    {
        if prefix[i] != chars[i] {
            assert(prefix@[i as int] != chars@.subrange(0, prefix@.len() as int)[i as int]);
            return false;
        }
        i += 1;
    }
    assert(prefix@ =~= chars@.subrange(0, prefix@.len() as int));
    true
}

/// The characters of the prefix that every path below `path` begins with.
pub fn dir_prefix_chars(path: &str) -> (prefix: Vec<char>)
    ensures
        prefix@ == dir_prefix(path@),
{
    let mut prefix = to_chars(path);
    if !is_root(path) {
        prefix.push('/');
    }
    prefix
}

/// The key under `to` that takes the copy of `key`, a key strictly below a
/// source whose prefix has `from_prefix_len` characters.
pub fn rebase_below(from_prefix_len: usize, to: &str, key: &str) -> (moved: String)
    requires
        from_prefix_len <= key@.len(),
    ensures
        moved@ == dir_prefix(to@) + key@.skip(from_prefix_len as int),
{
    let n = key.unicode_len();
    let tail = key.substring_char(from_prefix_len, n);
    let mut moved = String::from_str(to);
    if !is_root(to) {
        proof {
            reveal_strlit("/");
        }
        moved.append("/");
        assert(moved@ =~= to@.push('/'));
    }
    moved.append(tail);
    assert(key@.skip(from_prefix_len as int) =~= key@.subrange(from_prefix_len as int, n as int));
    moved
}

} // verus!
