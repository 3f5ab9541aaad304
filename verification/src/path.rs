//! Paths as byte strings: the segments of a request path, the candidate path
//! they name under a root directory, containment of one path in another, and
//! the file name's extension.

use vstd::prelude::*;
use vstd::string::*;

verus! {

/// The byte that separates the segments of a path, `/`.
pub const SEPARATOR: u8 = 0x2f;

/// The byte that sets a file name's extension off, `.`.
pub const DOT: u8 = 0x2e;

/// The pieces of `text` that the byte `mark` delimits, empty ones included. A
/// text without `mark` is one piece; each `mark` ends a piece and begins the
/// next.
pub open spec fn pieces(text: Seq<u8>, mark: u8) -> Seq<Seq<u8>>
    decreases text.len(),
{
    if text.len() == 0 {
        seq![Seq::<u8>::empty()]
    } else {
        let before = pieces(text.drop_last(), mark);
        if text.last() == mark {
            before.push(Seq::<u8>::empty())
        } else {
            before.drop_last().push(before.last().push(text.last()))
        }
    }
}

/// The segments of `text`: its pieces between separators.
pub open spec fn segments(text: Seq<u8>) -> Seq<Seq<u8>> {
    pieces(text, SEPARATOR)
}

/// What a list of byte strings holds: the view of each, in order.
pub open spec fn views(parts: Seq<Vec<u8>>) -> Seq<Seq<u8>> {
    Seq::new(parts.len(), |i: int| parts[i]@)
}

/// `parts` with `mark` between each two neighbours.
pub open spec fn joined(parts: Seq<Seq<u8>>, mark: u8) -> Seq<u8>
    decreases parts.len(),
{
    if parts.len() == 0 {
        Seq::<u8>::empty()
    } else if parts.len() == 1 {
        parts[0]
    } else {
        joined(parts.drop_last(), mark).push(mark) + parts.last()
    }
}

/// Splitting loses nothing and cuts at every mark: there is at least one
/// piece, no piece holds `mark`, and the pieces joined by `mark` are `text`.
pub proof fn lemma_pieces(text: Seq<u8>, mark: u8)
    ensures
        pieces(text, mark).len() >= 1,
        forall|i: int, j: int|
            0 <= i < pieces(text, mark).len() && 0 <= j < pieces(text, mark)[i].len()
                ==> pieces(text, mark)[i][j] != mark,
        joined(pieces(text, mark), mark) == text,
        pieces(text, mark).last().len() <= text.len(),
    decreases text.len(),
{
    if text.len() > 0 {
        let shorter = text.drop_last();
        lemma_pieces(shorter, mark);
        let before = pieces(shorter, mark);
        let now = pieces(text, mark);
        if text.last() == mark {
            assert(now.drop_last() == before);
            assert(now.last() == Seq::<u8>::empty());
            assert(joined(now, mark) == joined(before, mark).push(mark) + Seq::<u8>::empty());
            assert(joined(now, mark) == shorter.push(mark));
        } else {
            let grown = before.last().push(text.last());
            assert(now == before.drop_last().push(grown));
            if before.len() == 1 {
                assert(joined(before, mark) == before[0]);
                assert(joined(now, mark) == grown);
            } else {
                assert(now.drop_last() == before.drop_last());
                assert(joined(before, mark) == joined(before.drop_last(), mark).push(mark)
                    + before.last());
                assert(joined(now, mark) == joined(before.drop_last(), mark).push(mark) + grown);
                assert(joined(now, mark) == joined(before, mark).push(text.last()));
            }
        }
        assert(shorter.push(text.last()) == text);
    }
}

/// Text without a mark, added to the end of `text`, only lengthens the last
/// piece.
pub proof fn lemma_pieces_extended(text: Seq<u8>, tail: Seq<u8>, mark: u8)
    requires
        forall|j: int| 0 <= j < tail.len() ==> tail[j] != mark,
    ensures
        pieces(text, mark).len() >= 1,
        pieces(text + tail, mark) == pieces(text, mark).drop_last().push(
            pieces(text, mark).last() + tail,
        ),
    decreases tail.len(),
{
    lemma_pieces(text, mark);
    let parts = pieces(text, mark);
    if tail.len() == 0 {
        assert(text + tail == text);
        assert(parts.last() + tail == parts.last());
        assert(parts.drop_last().push(parts.last()) == parts);
    } else {
        let shorter = tail.drop_last();
        lemma_pieces_extended(text, shorter, mark);
        assert((text + tail).drop_last() == text + shorter);
        assert((text + tail).last() == tail.last());
        let before = pieces(text + shorter, mark);
        assert(before.drop_last() == parts.drop_last());
        assert(before.last().push(tail.last()) == parts.last() + tail);
    }
}

/// Splits `text` at each `mark`.
pub fn split(text: &[u8], mark: u8) -> (parts: Vec<Vec<u8>>)
    ensures
        views(parts@) == pieces(text@, mark),
        parts.len() >= 1,
{
    let mut parts: Vec<Vec<u8>> = Vec::new();
    let mut current: Vec<u8> = Vec::new();
    let mut i: usize = 0;
    while i < text.len()
        invariant
            i <= text.len(),
            views(parts@).push(current@) == pieces(text@.take(i as int), mark),
        decreases text.len() - i,
    {
        let ghost done = text@.take(i as int);
        let ghost next = text@.take(i + 1);
        let ghost before = views(parts@);
        assert(next.drop_last() == done);
        assert(next.last() == text@[i as int]);
        if text[i] == mark {
            parts.push(current);
            current = Vec::new();
            assert(views(parts@) == pieces(done, mark));
        } else {
            current.push(text[i]);
            assert(pieces(done, mark).drop_last() == before);
        }
        i += 1;
    }
    assert(text@.take(i as int) == text@);
    let ghost before = views(parts@);
    parts.push(current);
    assert(views(parts@) == before.push(current@));
    parts
}

/// Splits `text` at each separator.
pub fn split_segments(text: &[u8]) -> (parts: Vec<Vec<u8>>)
    ensures
        views(parts@) == segments(text@),
        parts.len() >= 1,
{
    split(text, SEPARATOR)
}

/// `path` after one more segment: the segment follows a separator, which is
/// added unless `path` is empty or ends in one already.
pub open spec fn pushed(path: Seq<u8>, segment: Seq<u8>) -> Seq<u8> {
    if path.len() > 0 && path.last() != SEPARATOR {
        path.push(SEPARATOR) + segment
    } else {
        path + segment
    }
}

/// `path` after each of `parts` has been pushed onto it, first to last.
pub open spec fn appended(path: Seq<u8>, parts: Seq<Seq<u8>>) -> Seq<u8>
    decreases parts.len(),
{
    if parts.len() == 0 {
        path
    } else {
        pushed(appended(path, parts.drop_last()), parts.last())
    }
}

/// The path that the request path `url` names under `root`: every segment of
/// `url`, as it stands, pushed onto `root`.
pub open spec fn candidate(root: Seq<u8>, url: Seq<u8>) -> Seq<u8> {
    appended(root, segments(url))
}

/// Appends `bytes` to `out`.
pub(crate) fn push_bytes(out: &mut Vec<u8>, bytes: &[u8])
    ensures
        final(out)@ == old(out)@ + bytes@,
{
    let ghost start = out@;
    let mut i: usize = 0;
    while i < bytes.len()
        invariant
            i <= bytes.len(),
            out@ == start + bytes@.take(i as int),
        decreases bytes.len() - i,
    {
        out.push(bytes[i]);
        assert(bytes@.take(i + 1) == bytes@.take(i as int).push(bytes@[i as int]));
        i += 1;
    }
    assert(bytes@.take(i as int) == bytes@);
}

/// A copy of `bytes`.
pub(crate) fn copy_bytes(bytes: &[u8]) -> (out: Vec<u8>)
    ensures
        out@ == bytes@,
{
    let mut out: Vec<u8> = Vec::new();
    push_bytes(&mut out, bytes);
    out
}

/// Pushes `segment` onto `path`.
pub fn push_segment(path: &mut Vec<u8>, segment: &[u8])
    ensures
        final(path)@ == pushed(old(path)@, segment@),
{
    let n = path.len();
    if n > 0 && path[n - 1] != SEPARATOR {
        path.push(SEPARATOR);
    }
    push_bytes(path, segment);
}

/// Builds the path that `url` names under `root`, without looking at what the
/// segments hold: an empty segment, `.` and `..` are pushed like any other.
pub fn candidate_path(root: &[u8], url: &[u8]) -> (path: Vec<u8>)
    ensures
        path@ == candidate(root@, url@),
{
    let parts = split_segments(url);
    let mut path = copy_bytes(root);
    let mut i: usize = 0;
    while i < parts.len()
        invariant
            i <= parts.len(),
            path@ == appended(root@, views(parts@).take(i as int)),
        decreases parts.len() - i,
    {
        assert(views(parts@).take(i + 1).drop_last() == views(parts@).take(i as int));
        push_segment(&mut path, parts[i].as_slice());
        i += 1;
    }
    assert(views(parts@).take(i as int) == views(parts@));
    path
}

/// `parts` without its empty members, the others in their order.
pub open spec fn without_empty(parts: Seq<Seq<u8>>) -> Seq<Seq<u8>>
    decreases parts.len(),
{
    if parts.len() == 0 {
        parts
    } else if parts.last().len() == 0 {
        without_empty(parts.drop_last())
    } else {
        without_empty(parts.drop_last()).push(parts.last())
    }
}

/// The components of `path`: its segments that are not empty. Repeated
/// separators and a separator at either end add no component.
pub open spec fn components(path: Seq<u8>) -> Seq<Seq<u8>> {
    without_empty(segments(path))
}

/// Whether `path` starts at the root of the file system.
pub open spec fn is_absolute(path: Seq<u8>) -> bool {
    path.len() > 0 && path[0] == SEPARATOR
}

/// Whether `path` is `root` or lies under it: both start in the same place,
/// and the components of `root` are the first components of `path`, each one
/// whole.
pub open spec fn within(root: Seq<u8>, path: Seq<u8>) -> bool {
    &&& is_absolute(root) == is_absolute(path)
    &&& components(root).is_prefix_of(components(path))
}

/// The components of `path`, in order.
pub fn path_components(path: &[u8]) -> (parts: Vec<Vec<u8>>)
    ensures
        views(parts@) == components(path@),
{
    let all = split_segments(path);
    let mut parts: Vec<Vec<u8>> = Vec::new();
    let mut i: usize = 0;
    while i < all.len()
        invariant
            i <= all.len(),
            views(parts@) == without_empty(views(all@).take(i as int)),
        decreases all.len() - i,
    {
        assert(views(all@).take(i + 1).drop_last() == views(all@).take(i as int));
        if all[i].len() > 0 {
            let ghost before = views(parts@);
            let part = copy_bytes(all[i].as_slice());
            parts.push(part);
            assert(views(parts@) == before.push(all@[i as int]@));
        }
        i += 1;
    }
    assert(views(all@).take(i as int) == views(all@));
    parts
}

/// Whether `a` and `b` hold the same bytes.
pub fn same_bytes(a: &[u8], b: &[u8]) -> (same: bool)
    ensures
        same == (a@ == b@),
{
    if a.len() != b.len() {
        return false;
    }
    let mut i: usize = 0;
    while i < a.len()
        invariant
            i <= a.len(),
            a.len() == b.len(),
            a@.take(i as int) == b@.take(i as int),
        decreases a.len() - i,
    {
        if a[i] != b[i] {
            return false;
        }
        assert(a@.take(i + 1) == a@.take(i as int).push(a@[i as int]));
        assert(b@.take(i + 1) == b@.take(i as int).push(b@[i as int]));
        i += 1;
    }
    assert(a@.take(i as int) == a@);
    assert(b@.take(i as int) == b@);
    true
}

/// Decides containment: whether `path` is `root` or lies under it.
pub fn is_within(root: &[u8], path: &[u8]) -> (inside: bool)
    ensures
        inside == within(root@, path@),
{
    let root_absolute = root.len() > 0 && root[0] == SEPARATOR;
    let path_absolute = path.len() > 0 && path[0] == SEPARATOR;
    if root_absolute != path_absolute {
        return false;
    }
    let outer = path_components(root);
    let inner = path_components(path);
    if outer.len() > inner.len() {
        return false;
    }
    let mut i: usize = 0;
    while i < outer.len()
        invariant
            i <= outer.len() <= inner.len(),
            is_absolute(root@) == is_absolute(path@),
            views(outer@) == components(root@),
            views(inner@) == components(path@),
            views(outer@).take(i as int) == views(inner@).take(i as int),
        decreases outer.len() - i,
    {
        if !same_bytes(outer[i].as_slice(), inner[i].as_slice()) {
            proof {
                let prefix = views(inner@).subrange(0, outer.len() as int);
                assert(views(outer@)[i as int] != prefix[i as int]);
                assert(views(outer@) != prefix);
            }
            return false;
        }
        assert(views(outer@).take(i + 1) == views(outer@).take(i as int).push(
            views(outer@)[i as int],
        ));
        assert(views(inner@).take(i + 1) == views(inner@).take(i as int).push(
            views(inner@)[i as int],
        ));
        i += 1;
    }
    assert(views(outer@).take(i as int) == views(outer@));
    true
}

/// The name of the document that stands for a directory.
pub open spec fn index_name() -> Seq<u8> {
    "index.html".spec_bytes()
}

/// The bytes of the index document's name, one by one.
pub proof fn lemma_index_name()
    ensures
        index_name() == seq![0x69u8, 0x6e, 0x64, 0x65, 0x78, 0x2e, 0x68, 0x74, 0x6d, 0x6c],
{
    reveal_strlit("index.html");
    is_ascii_spec_bytes("index.html");
    assert(is_ascii("index.html"));
}

/// The path of the index document of `directory`.
pub open spec fn index_path(directory: Seq<u8>) -> Seq<u8> {
    pushed(directory, index_name())
}

/// Joins the index document's name to `directory`.
pub fn index_document(directory: &[u8]) -> (path: Vec<u8>)
    ensures
        path@ == index_path(directory@),
{
    let mut path = copy_bytes(directory);
    push_segment(&mut path, "index.html".as_bytes());
    path
}

/// A name pushed onto a path becomes its last component and its file name,
/// and leaves the path as absolute or relative as it was.
pub proof fn lemma_pushed_name(path: Seq<u8>, name: Seq<u8>)
    requires
        name.len() > 0,
        forall|j: int| 0 <= j < name.len() ==> name[j] != SEPARATOR,
    ensures
        components(pushed(path, name)) == components(path).push(name),
        segments(pushed(path, name)).last() == name,
        is_absolute(pushed(path, name)) == is_absolute(path),
{
    if path.len() > 0 && path.last() != SEPARATOR {
        let ended = path.push(SEPARATOR);
        assert(ended.drop_last() == path);
        lemma_pieces_extended(ended, name, SEPARATOR);
        let parts = segments(ended);
        assert(parts == segments(path).push(Seq::<u8>::empty()));
        assert(parts.drop_last() == segments(path));
        assert(parts.last() + name == name);
        let all = segments(path).push(name);
        assert(segments(pushed(path, name)) == all);
        assert(all.drop_last() == segments(path));
        assert(pushed(path, name)[0] == path[0]);
    } else {
        lemma_pieces_extended(path, name, SEPARATOR);
        let parts = segments(path);
        if path.len() > 0 {
            assert(parts == segments(path.drop_last()).push(Seq::<u8>::empty()));
        }
        assert(parts.last().len() == 0);
        assert(parts.last() + name == name);
        let all = parts.drop_last().push(name);
        assert(segments(pushed(path, name)) == all);
        assert(all.drop_last() == parts.drop_last());
        if path.len() > 0 {
            assert(pushed(path, name)[0] == path[0]);
        } else {
            assert(path + name == name);
        }
    }
}

/// The index document of a directory lies within whatever the directory
/// lies within.
pub proof fn law_index_stays_within(root: Seq<u8>, directory: Seq<u8>)
    requires
        within(root, directory),
    ensures
        within(root, index_path(directory)),
{
    lemma_index_name();
    lemma_pushed_name(directory, index_name());
    let outer = components(root);
    let inner = components(directory);
    assert(inner.push(index_name()).subrange(0, outer.len() as int) == inner.subrange(
        0,
        outer.len() as int,
    ));
}

/// The file name of `path`: what follows its last separator, or all of it.
pub open spec fn file_name(path: Seq<u8>) -> Seq<u8> {
    segments(path).last()
}

/// The extension of the file that `path` names: what follows the last dot of
/// the file name. There is none where the name has no dot, where its only dot
/// is its first byte, and for the name `..`.
pub open spec fn extension(path: Seq<u8>) -> Option<Seq<u8>> {
    let name = file_name(path);
    let tail = pieces(name, DOT).last();
    if pieces(name, DOT).len() < 2 || name == seq![DOT, DOT] || name.len() == tail.len() + 1 {
        None
    } else {
        Some(tail)
    }
}

/// The index document of any directory has the extension `html`.
pub proof fn lemma_index_extension(directory: Seq<u8>)
    ensures
        extension(index_path(directory)) == Some("html".spec_bytes()),
{
    lemma_index_name();
    lemma_pushed_name(directory, index_name());
    reveal_strlit("html");
    is_ascii_spec_bytes("html");
    assert(is_ascii("html"));
    let stem = seq![0x69u8, 0x6e, 0x64, 0x65, 0x78];
    let tail = seq![0x68u8, 0x74, 0x6d, 0x6c];
    assert("html".spec_bytes() == tail);
    let none = Seq::<u8>::empty();
    lemma_pieces_extended(none, stem, DOT);
    assert(none + stem == stem);
    assert(pieces(none, DOT) == seq![none]);
    assert(pieces(stem, DOT) == seq![stem]);
    let dotted = stem.push(DOT);
    assert(dotted.drop_last() == stem);
    assert(pieces(dotted, DOT) == seq![stem, none]);
    lemma_pieces_extended(dotted, tail, DOT);
    assert(dotted + tail == index_name());
    assert(none + tail == tail);
    assert(pieces(index_name(), DOT) == seq![stem, tail]);
    assert(index_name() != seq![DOT, DOT]);
}

/// Finds the extension of the file that `path` names.
pub fn file_extension(path: &[u8]) -> (found: Option<Vec<u8>>)
    ensures
        match found {
            Some(bytes) => extension(path@) == Some(bytes@),
            None => extension(path@) is None,
        },
{
    let mut names = split_segments(path);
    let name = names.pop().unwrap();
    assert(name@ == file_name(path@));
    let mut parts = split(name.as_slice(), DOT);
    let count = parts.len();
    let tail = parts.pop().unwrap();
    assert(tail@ == pieces(name@, DOT).last());
    let dots_only = name.len() == 2 && name[0] == DOT && name[1] == DOT;
    proof {
        let dots = seq![DOT, DOT];
        assert(dots.len() == 2 && dots[0] == DOT && dots[1] == DOT);
        if dots_only {
            assert(name@ =~= dots);
        }
    }
    if count < 2 || dots_only || (name.len() > 0 && name.len() - 1 == tail.len()) {
        None
    } else {
        Some(tail)
    }
}

} // verus!
