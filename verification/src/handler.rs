//! One request, handled step by step. The handler decides; its caller does
//! the work on the file system that a decision asks for and hands back what
//! came of it. Every failure ends in the same response, not found.

use vstd::prelude::*;
use vstd::string::*;
use crate::mime::{extension_to_mime, mime_of};
use crate::path::{
    candidate, candidate_path, extension, file_extension, index_document, index_path, is_within,
    within, copy_bytes,
};
use crate::response::{full, not_found, not_modified, Response, ResponseView};
use crate::validator::{clock_nanos, etag_of, seed_of, validator, NANOS_PER_SECOND};

verus! {

/// What the handler reads of a request: the path of its URL, and the
/// validator that the client presented with `If-None-Match`, if any.
#[derive(Debug, PartialEq, Eq)]
pub struct Request {
    pub url: Vec<u8>,
    pub if_none_match: Option<String>,
}

/// The model of a request.
pub struct RequestView {
    pub url: Seq<u8>,
    pub if_none_match: Option<Seq<char>>,
}

impl View for Request {
    type V = RequestView;

    open spec fn view(&self) -> RequestView {
        RequestView {
            url: self.url@,
            if_none_match: match self.if_none_match {
                Some(text) => Some(text@),
                None => None,
            },
        }
    }
}

/// What a path names.
#[derive(Clone, Copy, Debug, PartialEq, Eq)]
pub enum EntryKind {
    /// A regular file.
    File,
    /// A directory.
    Directory,
    /// Anything else.
    Other,
}

/// What the file system tells of a path: what it names, and when that was
/// last modified, in seconds since 1970, where this can be read.
#[derive(Clone, Copy, Debug, PartialEq, Eq)]
pub struct FileStat {
    pub kind: EntryKind,
    pub modified: Option<u64>,
}

/// Work on the file system that the handler asks for, or the response that
/// ends the exchange.
#[derive(Debug, PartialEq, Eq)]
pub enum Action {
    /// Resolve this path to its absolute form, free of links, `.` and `..`.
    Canonicalize(Vec<u8>),
    /// Tell what this path names, following links.
    Stat(Vec<u8>),
    /// Open the file at this path for reading.
    Open(Vec<u8>),
    /// Send this response.
    Respond(Response),
}

/// The model of an action.
pub enum ActionView {
    Canonicalize(Seq<u8>),
    Stat(Seq<u8>),
    Open(Seq<u8>),
    Respond(ResponseView),
}

impl View for Action {
    type V = ActionView;

    open spec fn view(&self) -> ActionView {
        match self {
            Action::Canonicalize(path) => ActionView::Canonicalize(path@),
            Action::Stat(path) => ActionView::Stat(path@),
            Action::Open(path) => ActionView::Open(path@),
            Action::Respond(response) => ActionView::Respond(response@),
        }
    }
}

/// What came of an action.
#[derive(Debug, PartialEq, Eq)]
pub enum Event {
    /// The canonical form of the path, or nothing where it has none.
    Canonical(Option<Vec<u8>>),
    /// What the path names, or nothing where that cannot be told.
    Stat(Option<FileStat>),
    /// Whether the file is open.
    Opened(bool),
}

/// The model of an event.
pub enum EventView {
    Canonical(Option<Seq<u8>>),
    Stat(Option<FileStat>),
    Opened(bool),
}

impl View for Event {
    type V = EventView;

    open spec fn view(&self) -> EventView {
        match self {
            Event::Canonical(Some(path)) => EventView::Canonical(Some(path@)),
            Event::Canonical(None) => EventView::Canonical(None),
            Event::Stat(stat) => EventView::Stat(*stat),
            Event::Opened(open) => EventView::Opened(*open),
        }
    }
}

/// How far a request has come.
#[derive(Debug, PartialEq, Eq)]
pub enum Stage {
    /// The root directory is being canonicalized.
    Root,
    /// The candidate path is being canonicalized; `root` is the canonical
    /// root.
    Candidate { root: Vec<u8> },
    /// The canonical path `path`, which lies within the root, is being
    /// examined.
    Entry { path: Vec<u8> },
    /// `path` is the index document of a directory within the root, and is
    /// being examined.
    Document { path: Vec<u8> },
    /// The file at `path`, whose validator is `etag`, is being opened.
    Body { path: Vec<u8>, etag: String },
    /// The response has been given.
    Done,
}

/// The model of a stage.
pub enum StageView {
    Root,
    Candidate { root: Seq<u8> },
    Entry { path: Seq<u8> },
    Document { path: Seq<u8> },
    Body { path: Seq<u8>, etag: Seq<char> },
    Done,
}

impl View for Stage {
    type V = StageView;

    open spec fn view(&self) -> StageView {
        match self {
            Stage::Root => StageView::Root,
            Stage::Candidate { root } => StageView::Candidate { root: root@ },
            Stage::Entry { path } => StageView::Entry { path: path@ },
            Stage::Document { path } => StageView::Document { path: path@ },
            Stage::Body { path, etag } => StageView::Body { path: path@, etag: etag@ },
            Stage::Done => StageView::Done,
        }
    }
}

/// A request on its way to a response.
#[derive(Debug, PartialEq, Eq)]
pub struct Handler {
    pub request: Request,
    pub stage: Stage,
}

/// The model of a handler.
pub struct HandlerView {
    pub request: RequestView,
    pub stage: StageView,
}

impl View for Handler {
    type V = HandlerView;

    open spec fn view(&self) -> HandlerView {
        HandlerView { request: self.request@, stage: self.stage@ }
    }
}

/// How a request for a path under `root` begins: with the canonical form of
/// `root` itself.
pub open spec fn start(root: Seq<u8>, request: RequestView) -> (HandlerView, ActionView) {
    (HandlerView { request, stage: StageView::Root }, ActionView::Canonicalize(root))
}

/// The end of an exchange in failure.
pub open spec fn fail() -> (StageView, ActionView) {
    (StageView::Done, ActionView::Respond(not_found()))
}

/// What is owed for the regular file at `path`: its validator is computed
/// from `modified`, or from `nanos` in its place. A client that presented
/// this validator, letter for letter, is told that nothing changed, and the
/// file is left unopened; for any other the file is opened.
pub open spec fn deliver(
    request: RequestView,
    path: Seq<u8>,
    modified: Option<u64>,
    nanos: u64,
) -> (StageView, ActionView) {
    let etag = etag_of(seed_of(modified, nanos));
    if request.if_none_match == Some(etag) {
        (StageView::Done, ActionView::Respond(not_modified(etag)))
    } else {
        (StageView::Body { path, etag }, ActionView::Open(path))
    }
}

/// The stage and the action that follow when `event` reaches a request at
/// `stage`. An event that does not answer what the stage asked for ends the
/// exchange like any other failure.
pub open spec fn next_stage(
    request: RequestView,
    stage: StageView,
    event: EventView,
    nanos: u64,
) -> (StageView, ActionView) {
    match (stage, event) {
        (StageView::Root, EventView::Canonical(Some(root))) => (
            StageView::Candidate { root },
            ActionView::Canonicalize(candidate(root, request.url)),
        ),
        (StageView::Candidate { root }, EventView::Canonical(Some(path))) => if within(
            root,
            path,
        ) {
            (StageView::Entry { path }, ActionView::Stat(path))
        } else {
            fail()
        },
        (StageView::Entry { path }, EventView::Stat(Some(stat))) => match stat.kind {
            EntryKind::File => deliver(request, path, stat.modified, nanos),
            EntryKind::Directory => (
                StageView::Document { path: index_path(path) },
                ActionView::Stat(index_path(path)),
            ),
            EntryKind::Other => fail(),
        },
        (StageView::Document { path }, EventView::Stat(Some(stat))) => match stat.kind {
            EntryKind::File => deliver(request, path, stat.modified, nanos),
            _ => fail(),
        },
        (StageView::Body { path, etag }, EventView::Opened(true)) => (
            StageView::Done,
            ActionView::Respond(full(etag, mime_of(extension(path)), path)),
        ),
        _ => fail(),
    }
}

/// The handler and the action that follow when `event` reaches `handler`,
/// the clock standing at `nanos` nanoseconds past the second.
pub open spec fn next(handler: HandlerView, event: EventView, nanos: u64) -> (
    HandlerView,
    ActionView,
) {
    let (stage, action) = next_stage(handler.request, handler.stage, event, nanos);
    (HandlerView { request: handler.request, stage }, action)
}

/// Whether `event` reports a file whose modification time could not be read,
/// the one case in which the clock is read in its place.
pub open spec fn reads_clock(event: EventView) -> bool {
    event matches EventView::Stat(Some(stat)) && stat.modified is None
}

/// Begins to handle `request` for a path under the root directory `root`.
pub fn handle(request: Request, root: &[u8]) -> (begun: (Handler, Action))
    ensures
        (begun.0@, begun.1@) == start(root@, request@),
{
    (Handler { request, stage: Stage::Root }, Action::Canonicalize(copy_bytes(root)))
}

/// Decides what is owed for the regular file at `path`.
fn deliver_file(request: &Request, path: Vec<u8>, modified: Option<u64>, nanos: u64) -> (moved: (
    Stage,
    Action,
))
    ensures
        (moved.0@, moved.1@) == deliver(request@, path@, modified, nanos),
{
    let seed = match modified {
        Some(seconds) => seconds,
        None => nanos,
    };
    let etag = validator(seed);
    let current = match &request.if_none_match {
        Some(presented) => *presented == etag,
        None => false,
    };
    if current {
        (Stage::Done, Action::Respond(Response::not_modified(etag)))
    } else {
        let target = copy_bytes(path.as_slice());
        (Stage::Body { path, etag }, Action::Open(target))
    }
}

impl Handler {
    /// Takes `event` at a moment when the clock stands at `nanos` nanoseconds
    /// past the second, and says what to do next.
    pub fn advance_at(self, event: Event, nanos: u64) -> (moved: (Handler, Action))
        ensures
            (moved.0@, moved.1@) == next(self@, event@, nanos),
    {
        let Handler { request, stage } = self;
        let (stage, action) = match (stage, event) {
            (Stage::Root, Event::Canonical(Some(root))) => {
                let path = candidate_path(root.as_slice(), request.url.as_slice());
                (Stage::Candidate { root }, Action::Canonicalize(path))
            },
            (Stage::Candidate { root }, Event::Canonical(Some(path))) => {
                if is_within(root.as_slice(), path.as_slice()) {
                    let target = copy_bytes(path.as_slice());
                    (Stage::Entry { path }, Action::Stat(target))
                } else {
                    (Stage::Done, Action::Respond(Response::not_found()))
                }
            },
            (Stage::Entry { path }, Event::Stat(Some(stat))) => match stat.kind {
                EntryKind::File => deliver_file(&request, path, stat.modified, nanos),
                EntryKind::Directory => {
                    let document = index_document(path.as_slice());
                    let target = copy_bytes(document.as_slice());
                    (Stage::Document { path: document }, Action::Stat(target))
                },
                EntryKind::Other => (Stage::Done, Action::Respond(Response::not_found())),
            },
            (Stage::Document { path }, Event::Stat(Some(stat))) => match stat.kind {
                EntryKind::File => deliver_file(&request, path, stat.modified, nanos),
                _ => (Stage::Done, Action::Respond(Response::not_found())),
            },
            (Stage::Body { path, etag }, Event::Opened(true)) => {
                let found = file_extension(path.as_slice());
                let mime = match &found {
                    Some(bytes) => extension_to_mime(Some(bytes.as_slice())),
                    None => extension_to_mime(None),
                };
                (Stage::Done, Action::Respond(Response::full(etag, mime, path)))
            },
            _ => (Stage::Done, Action::Respond(Response::not_found())),
        };
        (Handler { request, stage }, action)
    }

    /// Takes `event` and says what to do next. Where `event` reports a file
    /// whose modification time could not be read, the clock is read in its
    /// place, so the validator is that of some moment within a second; in
    /// every other case the outcome depends on `event` alone.
    pub fn advance(self, event: Event) -> (moved: (Handler, Action))
        ensures
            exists|nanos: u64|
                nanos < NANOS_PER_SECOND && #[trigger] next(self@, event@, nanos) == (
                    moved.0@,
                    moved.1@,
                ),
            !reads_clock(event@) ==> forall|nanos: u64| #[trigger]
                next(self@, event@, nanos) == (moved.0@, moved.1@),
    {
        let unread = match &event {
            Event::Stat(Some(stat)) => stat.modified.is_none(),
            _ => false,
        };
        let nanos = if unread {
            clock_nanos()
        } else {
            0
        };
        self.advance_at(event, nanos)
    }
}

} // verus!
