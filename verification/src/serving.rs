//! What a request is owed, stated over a file system at one moment, and the
//! laws that hold of it. The handler, driven by such a file system, arrives
//! at exactly this response.

use vstd::prelude::*;
use vstd::string::*;
use vstd::utf8::{encode_utf8_decode_utf8, encode_utf8_valid_utf8};
use crate::handler::{
    next, start, ActionView, EntryKind, EventView, FileStat, HandlerView, RequestView, StageView,
};
use crate::mime::{mime_of, mime_table};
use crate::path::{
    candidate, extension, index_path, law_index_stays_within, lemma_index_extension, within,
};
use crate::response::{
    cache_control, content_type, etag_header, full, header_value, not_found, not_modified,
    BodyView, HeaderView, ResponseView,
};
use crate::validator::{etag_of, law_etag_distinguishes, seed_of};

verus! {

/// A file system at one moment, as far as serving reads it.
pub struct FileSystem {
    /// The paths that can be canonicalized, each with its canonical form.
    pub canonical: Map<Seq<u8>, Seq<u8>>,
    /// The paths of which it can be told what they name.
    pub stats: Map<Seq<u8>, FileStat>,
    /// The paths that can be opened for reading.
    pub readable: Set<Seq<u8>>,
}

impl FileSystem {
    /// The canonical form of `path`, if it has one.
    pub open spec fn canonicalize(self, path: Seq<u8>) -> Option<Seq<u8>> {
        if self.canonical.dom().contains(path) {
            Some(self.canonical[path])
        } else {
            None
        }
    }

    /// What `path` names, if that can be told.
    pub open spec fn stat(self, path: Seq<u8>) -> Option<FileStat> {
        if self.stats.dom().contains(path) {
            Some(self.stats[path])
        } else {
            None
        }
    }

    /// The regular file at `path`: when it was last modified, if that can be
    /// read; nothing where `path` names no regular file.
    pub open spec fn regular_file(self, path: Seq<u8>) -> Option<Option<u64>> {
        match self.stat(path) {
            Some(stat) => if stat.kind is File {
                Some(stat.modified)
            } else {
                None
            },
            None => None,
        }
    }

    /// What comes of `action` on this file system.
    pub open spec fn answer(self, action: ActionView) -> EventView {
        match action {
            ActionView::Canonicalize(path) => EventView::Canonical(self.canonicalize(path)),
            ActionView::Stat(path) => EventView::Stat(self.stat(path)),
            ActionView::Open(path) => EventView::Opened(self.readable.contains(path)),
            ActionView::Respond(_) => EventView::Opened(false),
        }
    }
}

/// The canonical path that the request path `url` names within `root`:
/// `root` has a canonical form, the candidate under it has one too, and that
/// one is the canonical root or lies under it.
pub open spec fn contained(fs: FileSystem, root: Seq<u8>, url: Seq<u8>) -> Option<Seq<u8>> {
    match fs.canonicalize(root) {
        Some(base) => match fs.canonicalize(candidate(base, url)) {
            Some(path) => if within(base, path) {
                Some(path)
            } else {
                None
            },
            None => None,
        },
        None => None,
    }
}

/// The path of the file that stands for the request path `url`: the
/// contained path itself where it names a regular file, its index document
/// where it names a directory.
pub open spec fn resolved(fs: FileSystem, root: Seq<u8>, url: Seq<u8>) -> Option<Seq<u8>> {
    match contained(fs, root, url) {
        Some(path) => match fs.stat(path) {
            Some(stat) => match stat.kind {
                EntryKind::File => Some(path),
                EntryKind::Directory => Some(index_path(path)),
                EntryKind::Other => None,
            },
            None => None,
        },
        None => None,
    }
}

/// The validator of the file that stands for `url`, the clock standing at
/// `nanos`: nothing where no regular file does.
pub open spec fn current_etag(fs: FileSystem, root: Seq<u8>, url: Seq<u8>, nanos: u64) -> Option<
    Seq<char>,
> {
    match resolved(fs, root, url) {
        Some(path) => match fs.regular_file(path) {
            Some(modified) => Some(etag_of(seed_of(modified, nanos))),
            None => None,
        },
        None => None,
    }
}

/// The response that `request` is owed by the root directory `root` on the
/// file system `fs`, the clock standing at `nanos` nanoseconds past the
/// second.
pub open spec fn served(fs: FileSystem, root: Seq<u8>, request: RequestView, nanos: u64)
    -> ResponseView {
    match resolved(fs, root, request.url) {
        Some(path) => match fs.regular_file(path) {
            Some(modified) => {
                let etag = etag_of(seed_of(modified, nanos));
                if request.if_none_match == Some(etag) {
                    not_modified(etag)
                } else if fs.readable.contains(path) {
                    full(etag, mime_of(extension(path)), path)
                } else {
                    not_found()
                }
            },
            None => not_found(),
        },
        None => not_found(),
    }
}

/// How many more events a request at `stage` can take before it is done.
pub open spec fn remaining(stage: StageView) -> nat {
    match stage {
        StageView::Root => 5,
        StageView::Candidate { .. } => 4,
        StageView::Entry { .. } => 3,
        StageView::Document { .. } => 2,
        StageView::Body { .. } => 1,
        StageView::Done => 0,
    }
}

/// The response at which `handler` arrives when `action` and every action
/// after it is performed on `fs`.
pub open spec fn driven(fs: FileSystem, handler: HandlerView, action: ActionView, nanos: u64)
    -> ResponseView
    decreases remaining(handler.stage), (if action is Respond { 0nat } else { 1nat }),
{
    match action {
        ActionView::Respond(response) => response,
        _ => {
            let (later, then) = next(handler, fs.answer(action), nanos);
            driven(fs, later, then, nanos)
        },
    }
}

/// The handler computes what is owed: begun for `request` under `root` and
/// driven by `fs`, it ends in the response `served`.
pub proof fn lemma_handler_serves(fs: FileSystem, root: Seq<u8>, request: RequestView, nanos: u64)
    ensures
        driven(fs, start(root, request).0, start(root, request).1, nanos) == served(
            fs,
            root,
            request,
            nanos,
        ),
{
    reveal_with_fuel(driven, 7);
}

/// The actions that `handler` asks for, `action` first, when each is
/// performed on `fs`; the response that ends the exchange is the last.
pub open spec fn asked(fs: FileSystem, handler: HandlerView, action: ActionView, nanos: u64)
    -> Seq<ActionView>
    decreases remaining(handler.stage), (if action is Respond { 0nat } else { 1nat }),
{
    match action {
        ActionView::Respond(_) => seq![action],
        _ => {
            let (later, then) = next(handler, fs.answer(action), nanos);
            seq![action] + asked(fs, later, then, nanos)
        },
    }
}

/// Whether `action` examines or opens what `path` names.
pub open spec fn touches(action: ActionView, path: Seq<u8>) -> bool {
    action == ActionView::Stat(path) || action == ActionView::Open(path)
}

/// Nothing outside the root is examined or opened on the way to a response:
/// every path that the handler asks to examine or to open is the canonical
/// root or lies under it.
pub proof fn law_nothing_outside_is_touched(
    fs: FileSystem,
    root: Seq<u8>,
    request: RequestView,
    nanos: u64,
    i: int,
    path: Seq<u8>,
)
    requires
        0 <= i < asked(fs, start(root, request).0, start(root, request).1, nanos).len(),
        touches(asked(fs, start(root, request).0, start(root, request).1, nanos)[i], path),
    ensures
        fs.canonicalize(root) matches Some(base) && within(base, path),
{
    reveal_with_fuel(asked, 7);
    if let Some(base) = fs.canonicalize(root) {
        if let Some(found) = fs.canonicalize(candidate(base, request.url)) {
            if within(base, found) {
                law_index_stays_within(base, found);
            }
        }
    }
}

/// A file that the client still holds is not opened: no action on the way to
/// the response that nothing changed opens a file.
pub proof fn law_current_file_is_not_opened(
    fs: FileSystem,
    root: Seq<u8>,
    request: RequestView,
    nanos: u64,
    i: int,
)
    requires
        served(fs, root, request, nanos).status == 304,
        0 <= i < asked(fs, start(root, request).0, start(root, request).1, nanos).len(),
    ensures
        !(asked(fs, start(root, request).0, start(root, request).1, nanos)[i] is Open),
{
    reveal_with_fuel(asked, 7);
}

/// The validator that a response carries, if it carries one.
pub open spec fn etag_sent(response: ResponseView) -> Option<Seq<char>> {
    header_value(response.headers, "ETag"@)
}

/// The names of the three headers differ, so a lookup finds in each response
/// what its builder put there.
pub proof fn lemma_headers(etag: Seq<char>, mime: Seq<char>, path: Seq<u8>)
    ensures
        header_value(not_found().headers, "ETag"@) is None,
        header_value(not_found().headers, "Content-Type"@) is None,
        header_value(not_found().headers, "Cache-Control"@) is None,
        header_value(not_modified(etag).headers, "ETag"@) == Some(etag),
        header_value(not_modified(etag).headers, "Content-Type"@) is None,
        header_value(not_modified(etag).headers, "Cache-Control"@) == Some(
            "public, max-age=3600"@,
        ),
        header_value(full(etag, mime, path).headers, "ETag"@) == Some(etag),
        header_value(full(etag, mime, path).headers, "Content-Type"@) == Some(mime),
        header_value(full(etag, mime, path).headers, "Cache-Control"@) == Some(
            "public, max-age=3600"@,
        ),
{
    reveal_strlit("ETag");
    reveal_strlit("Content-Type");
    reveal_strlit("Cache-Control");
    assert("Cache-Control"@.len() == 13 && "Content-Type"@.len() == 12 && "ETag"@.len() == 4);
    let short = not_modified(etag).headers;
    let one = short.drop_first();
    assert(one =~= seq![etag_header(etag)]);
    assert(one.drop_first() =~= Seq::<HeaderView>::empty());
    assert(header_value(one.drop_first(), "Content-Type"@) is None);
    assert(header_value(one, "Content-Type"@) is None);
    assert(header_value(one, "ETag"@) == Some(etag));
    assert(header_value(one, "Cache-Control"@) is None);
    assert(short[0] == cache_control());
    let long = full(etag, mime, path).headers;
    let two = long.drop_first();
    assert(two =~= seq![content_type(mime), etag_header(etag)]);
    assert(two.drop_first() =~= one);
    assert(header_value(two, "Content-Type"@) == Some(mime));
    assert(header_value(two, "ETag"@) == Some(etag));
    assert(long[0] == cache_control());
}

/// Only three responses are ever owed: the file with status 200, the notice
/// that nothing changed with status 304, and not found with status 404.
pub proof fn law_three_outcomes(fs: FileSystem, root: Seq<u8>, request: RequestView, nanos: u64)
    ensures
        ({
            let response = served(fs, root, request, nanos);
            ||| response == not_found()
            ||| exists|etag: Seq<char>| response == not_modified(etag)
            ||| exists|etag: Seq<char>, mime: Seq<char>, path: Seq<u8>|
                response == full(etag, mime, path)
        }),
{
}

/// Containment: a request whose candidate path, once canonical, is neither
/// the canonical root nor under it is not found, whatever the path names and
/// however its `..` segments and links led there.
pub proof fn law_escape_is_not_found(
    fs: FileSystem,
    root: Seq<u8>,
    request: RequestView,
    nanos: u64,
)
    requires
        fs.canonicalize(root) matches Some(base) && fs.canonicalize(
            candidate(base, request.url),
        ) matches Some(path) && !within(base, path),
    ensures
        served(fs, root, request, nanos) == not_found(),
{
}

/// Nothing but what the request path names within the root is served: the
/// body of a response is the file at the contained canonical path, or the
/// index document of the directory there.
pub proof fn law_body_is_contained(
    fs: FileSystem,
    root: Seq<u8>,
    request: RequestView,
    nanos: u64,
)
    ensures
        served(fs, root, request, nanos).body matches BodyView::File(file) ==> {
            &&& fs.canonicalize(root) matches Some(base)
            &&& contained(fs, root, request.url) matches Some(path)
            &&& within(base, path)
            &&& file == path || file == index_path(path)
        },
{
}

/// What is served lies within the root: the path of the file that a response
/// carries is the canonical root or lies under it, component by component.
pub proof fn law_served_within_root(
    fs: FileSystem,
    root: Seq<u8>,
    request: RequestView,
    nanos: u64,
)
    ensures
        served(fs, root, request, nanos).body matches BodyView::File(file) ==> fs.canonicalize(
            root,
        ) matches Some(base) && within(base, file),
{
    if let BodyView::File(file) = served(fs, root, request, nanos).body {
        let base = fs.canonicalize(root)->0;
        let path = contained(fs, root, request.url)->0;
        law_index_stays_within(base, path);
    }
}

/// A file that has been modified is sent anew: a client that presents the
/// validator of an earlier modification time is not told that nothing
/// changed.
pub proof fn law_changed_file_is_sent(
    fs: FileSystem,
    root: Seq<u8>,
    request: RequestView,
    before: u64,
    nanos: u64,
)
    requires
        request.if_none_match == Some(etag_of(before)),
        resolved(fs, root, request.url) matches Some(path) && fs.regular_file(path) matches Some(
            Some(now),
        ) && now != before && fs.readable.contains(path),
    ensures
        served(fs, root, request, nanos).status == 200,
        etag_sent(served(fs, root, request, nanos)) != request.if_none_match,
{
    let path = resolved(fs, root, request.url)->0;
    let now = fs.regular_file(path)->0->0;
    law_etag_distinguishes(now, before);
    lemma_headers(etag_of(now), mime_of(extension(path)), path);
}

/// A served index document has the content type that the table gives for
/// the extension `html`.
pub proof fn law_index_is_html(fs: FileSystem, root: Seq<u8>, request: RequestView, nanos: u64)
    requires
        contained(fs, root, request.url) matches Some(directory) && fs.stat(
            directory,
        ) matches Some(stat) && stat.kind is Directory,
        served(fs, root, request, nanos).status == 200,
    ensures
        header_value(served(fs, root, request, nanos).headers, "Content-Type"@) == Some(
            mime_table("html"@),
        ),
{
    let directory = contained(fs, root, request.url)->0;
    let path = index_path(directory);
    lemma_index_extension(directory);
    encode_utf8_valid_utf8("html"@);
    encode_utf8_decode_utf8("html"@);
    let modified = fs.regular_file(path)->0;
    lemma_headers(etag_of(seed_of(modified, nanos)), mime_of(extension(path)), path);
}

/// Revalidation: a client that presents the validator of an earlier
/// response, while the file's validator is still that one, is told that
/// nothing changed: status 304, no body and no content type.
pub proof fn law_revalidation(
    fs: FileSystem,
    root: Seq<u8>,
    first: RequestView,
    earlier: u64,
    later: u64,
)
    requires
        etag_sent(served(fs, root, first, earlier)) is Some,
        current_etag(fs, root, first.url, later) == etag_sent(served(fs, root, first, earlier)),
    ensures
        ({
            let etag = etag_sent(served(fs, root, first, earlier))->0;
            let again = RequestView { url: first.url, if_none_match: Some(etag) };
            let response = served(fs, root, again, later);
            &&& response == not_modified(etag)
            &&& response.status == 304
            &&& response.body is Empty
            &&& header_value(response.headers, "Content-Type"@) is None
            &&& etag_sent(response) == Some(etag)
        }),
{
    let etag = etag_sent(served(fs, root, first, earlier))->0;
    lemma_headers(etag, Seq::empty(), Seq::empty());
}

/// Every validator sent is the current one of the file that stands for the
/// request path.
pub proof fn law_etag_is_current(fs: FileSystem, root: Seq<u8>, request: RequestView, nanos: u64)
    ensures
        etag_sent(served(fs, root, request, nanos)) matches Some(etag) ==> current_etag(
            fs,
            root,
            request.url,
            nanos,
        ) == Some(etag),
{
    let response = served(fs, root, request, nanos);
    if let Some(etag) = current_etag(fs, root, request.url, nanos) {
        let path = resolved(fs, root, request.url)->0;
        lemma_headers(etag, mime_of(extension(path)), path);
    } else {
        lemma_headers(Seq::empty(), Seq::empty(), Seq::empty());
    }
}

/// Determinism of the validator: while the file that stands for a request
/// path keeps a modification time that can be read, every response that
/// carries a validator carries the same one, whenever it is asked for and
/// whatever the client presents.
pub proof fn law_etag_is_stable(
    fs: FileSystem,
    root: Seq<u8>,
    one: RequestView,
    other: RequestView,
    earlier: u64,
    later: u64,
)
    requires
        one.url == other.url,
        resolved(fs, root, one.url) matches Some(path) && fs.regular_file(path) matches Some(
            Some(_),
        ),
    ensures
        current_etag(fs, root, one.url, earlier) == current_etag(fs, root, one.url, later),
        etag_sent(served(fs, root, one, earlier)) is Some && etag_sent(
            served(fs, root, other, later),
        ) is Some ==> etag_sent(served(fs, root, one, earlier)) == etag_sent(
            served(fs, root, other, later),
        ),
{
    law_etag_is_current(fs, root, one, earlier);
    law_etag_is_current(fs, root, other, later);
}

/// A directory with an index document is served by that document: unless
/// the client presents its current validator, the response has status 200
/// and the document as body.
pub proof fn law_directory_with_index(
    fs: FileSystem,
    root: Seq<u8>,
    request: RequestView,
    nanos: u64,
)
    requires
        contained(fs, root, request.url) matches Some(directory) && {
            &&& fs.stat(directory) matches Some(stat) && stat.kind is Directory
            &&& fs.regular_file(index_path(directory)) is Some
            &&& fs.readable.contains(index_path(directory))
        },
        request.if_none_match != current_etag(fs, root, request.url, nanos),
    ensures
        served(fs, root, request, nanos).status == 200,
        served(fs, root, request, nanos).body == BodyView::File(
            index_path(contained(fs, root, request.url)->0),
        ),
{
}

/// A directory without an index document is not found.
pub proof fn law_directory_without_index(
    fs: FileSystem,
    root: Seq<u8>,
    request: RequestView,
    nanos: u64,
)
    requires
        contained(fs, root, request.url) matches Some(directory) && {
            &&& fs.stat(directory) matches Some(stat) && stat.kind is Directory
            &&& fs.regular_file(index_path(directory)) is None
        },
    ensures
        served(fs, root, request, nanos) == not_found(),
{
}

/// A root directory that cannot be canonicalized serves nothing: every
/// request is not found.
pub proof fn law_missing_root(fs: FileSystem, root: Seq<u8>, request: RequestView, nanos: u64)
    requires
        fs.canonicalize(root) is None,
    ensures
        served(fs, root, request, nanos) == not_found(),
{
}

} // verus!
