use std::collections::{HashMap, HashSet};

use servent::handler::{handle, Action, EntryKind, Event, FileStat, Request};
use servent::path::is_within;
use servent::response::{Body, Response};
use servent::validator::validator;

/// A file system at one moment, written out by hand.
struct Disk {
    canonical: HashMap<Vec<u8>, Vec<u8>>,
    stats: HashMap<Vec<u8>, FileStat>,
    readable: HashSet<Vec<u8>>,
}

impl Disk {
    fn new() -> Disk {
        Disk { canonical: HashMap::new(), stats: HashMap::new(), readable: HashSet::new() }
    }

    fn link(mut self, path: &str, canonical: &str) -> Disk {
        self.canonical.insert(path.as_bytes().to_vec(), canonical.as_bytes().to_vec());
        self
    }

    fn file(mut self, path: &str, modified: Option<u64>) -> Disk {
        self.stats.insert(path.as_bytes().to_vec(), FileStat { kind: EntryKind::File, modified });
        self.readable.insert(path.as_bytes().to_vec());
        self
    }

    fn directory(mut self, path: &str) -> Disk {
        let stat = FileStat { kind: EntryKind::Directory, modified: Some(1) };
        self.stats.insert(path.as_bytes().to_vec(), stat);
        self
    }

    fn unreadable(mut self, path: &str) -> Disk {
        self.readable.remove(path.as_bytes());
        self
    }

    /// Performs every action that the handler asks for, and returns them
    /// with the response.
    fn serve(&self, root: &str, url: &str, if_none_match: Option<&str>) -> (Vec<Action>, Response) {
        let request = Request {
            url: url.as_bytes().to_vec(),
            if_none_match: if_none_match.map(|text| text.to_string()),
        };
        let (mut handler, mut action) = handle(request, root.as_bytes());
        let mut asked = Vec::new();
        loop {
            let event = match &action {
                Action::Canonicalize(path) => Event::Canonical(self.canonical.get(path).cloned()),
                Action::Stat(path) => Event::Stat(self.stats.get(path).copied()),
                Action::Open(path) => Event::Opened(self.readable.contains(path)),
                Action::Respond(_) => Event::Opened(false),
            };
            match action {
                Action::Respond(response) => return (asked, response),
                other => asked.push(other),
            }
            assert!(asked.len() <= 5);
            let (later, then) = handler.advance_at(event, 0);
            handler = later;
            action = then;
        }
    }
}

fn site() -> Disk {
    Disk::new()
        .link("www", "/srv/www")
        .link("/srv/www/", "/srv/www")
        .directory("/srv/www")
        .file("/srv/www/index.html", Some(100))
        .link("/srv/www/a.html", "/srv/www/a.html")
        .file("/srv/www/a.html", Some(200))
        .link("/srv/www/data.xyz123", "/srv/www/data.xyz123")
        .file("/srv/www/data.xyz123", Some(300))
        .link("/srv/www/docs", "/srv/www/docs")
        .link("/srv/www/docs/", "/srv/www/docs")
        .directory("/srv/www/docs")
        .file("/srv/www/docs/index.html", Some(400))
        .link("/srv/www/empty", "/srv/www/empty")
        .directory("/srv/www/empty")
        .link("/srv/www/../../etc/passwd", "/etc/passwd")
        .file("/etc/passwd", Some(500))
        .link("/srv/www/out", "/home/user/notes.txt")
        .file("/home/user/notes.txt", Some(600))
        .link("/srv/www/a/../a.html", "/srv/www/a.html")
}

#[test]
fn file_within_root_is_served() {
    let (asked, response) = site().serve("www", "/a.html", None);
    assert_eq!(response.status, 200);
    assert_eq!(response.body, Body::File(b"/srv/www/a.html".to_vec()));
    assert_eq!(response.header("ETag"), Some(validator(200)));
    assert_eq!(
        asked,
        vec![
            Action::Canonicalize(b"www".to_vec()),
            Action::Canonicalize(b"/srv/www/a.html".to_vec()),
            Action::Stat(b"/srv/www/a.html".to_vec()),
            Action::Open(b"/srv/www/a.html".to_vec()),
        ]
    );
}

#[test]
fn parent_segments_within_root_are_served() {
    let (_, response) = site().serve("www", "/a/../a.html", None);
    assert_eq!(response.status, 200);
    assert_eq!(response.body, Body::File(b"/srv/www/a.html".to_vec()));
}

#[test]
fn parent_segments_out_of_root_are_not_found() {
    let (asked, response) = site().serve("www", "/../../etc/passwd", None);
    assert_eq!(response, Response::not_found());
    assert_eq!(asked.len(), 2);
}

#[test]
fn link_out_of_root_is_not_found() {
    let (asked, response) = site().serve("www", "/out", None);
    assert_eq!(response, Response::not_found());
    assert!(asked.iter().all(|action| matches!(action, Action::Canonicalize(_))));
}

#[test]
fn nothing_outside_root_is_examined_or_opened() {
    for url in ["/", "/a.html", "/docs", "/docs/", "/empty", "/out", "/../../etc/passwd", "/gone"] {
        let (asked, response) = site().serve("www", url, None);
        for action in &asked {
            match action {
                Action::Stat(path) | Action::Open(path) => assert!(is_within(b"/srv/www", path)),
                _ => {}
            }
        }
        if let Body::File(path) = &response.body {
            assert!(is_within(b"/srv/www", path));
        }
    }
}

#[test]
fn every_response_is_one_of_three() {
    for url in ["/", "/a.html", "/docs", "/empty", "/out", "/../../etc/passwd", "/gone"] {
        for presented in [None, Some(validator(200))] {
            let (_, response) = site().serve("www", url, presented.as_deref());
            assert!([200, 304, 404].contains(&response.status));
        }
    }
}

#[test]
fn returned_validator_yields_not_modified() {
    for url in ["/", "/a.html", "/docs", "/data.xyz123"] {
        let (_, first) = site().serve("www", url, None);
        assert_eq!(first.status, 200);
        let etag = first.header("ETag").unwrap();
        let (asked, again) = site().serve("www", url, Some(&etag));
        assert_eq!(again.status, 304);
        assert_eq!(again.body, Body::Empty);
        assert_eq!(again.header("Content-Type"), None);
        assert_eq!(again.header("ETag"), Some(etag));
        assert!(asked.iter().all(|action| !matches!(action, Action::Open(_))));
    }
}

#[test]
fn successive_requests_return_the_same_validator() {
    let (_, one) = site().serve("www", "/a.html", None);
    let (_, other) = site().serve("www", "/a.html", Some("stale"));
    assert_eq!(one.header("ETag"), other.header("ETag"));
    assert!(one.header("ETag").is_some());
}

#[test]
fn modified_file_is_sent_anew() {
    let (_, first) = site().serve("www", "/a.html", None);
    let etag = first.header("ETag").unwrap();
    let touched = site().file("/srv/www/a.html", Some(201));
    let (_, again) = touched.serve("www", "/a.html", Some(&etag));
    assert_eq!(again.status, 200);
    assert_ne!(again.header("ETag"), Some(etag));
}

#[test]
fn directory_is_served_by_its_index() {
    let (_, response) = site().serve("www", "/docs", None);
    assert_eq!(response.status, 200);
    assert_eq!(response.body, Body::File(b"/srv/www/docs/index.html".to_vec()));
    assert!(response.header("Content-Type").unwrap().starts_with("text/html"));
    let (_, response) = site().serve("www", "/", None);
    assert_eq!(response.body, Body::File(b"/srv/www/index.html".to_vec()));
}

#[test]
fn directory_without_index_yields_not_found() {
    let (asked, response) = site().serve("www", "/empty", None);
    assert_eq!(response, Response::not_found());
    assert_eq!(asked.last(), Some(&Action::Stat(b"/srv/www/empty/index.html".to_vec())));
}

#[test]
fn html_and_unknown_extensions() {
    let (_, response) = site().serve("www", "/a.html", None);
    assert!(response.header("Content-Type").unwrap().starts_with("text/html"));
    let (_, response) = site().serve("www", "/data.xyz123", None);
    assert_eq!(response.header("Content-Type"), Some("application/octet-stream".to_string()));
}

#[test]
fn missing_root_serves_nothing() {
    for url in ["/", "/a.html", "/docs", "/../../etc/passwd", ""] {
        let (asked, response) = site().serve("/nowhere", url, None);
        assert_eq!(response, Response::not_found());
        assert_eq!(asked, vec![Action::Canonicalize(b"/nowhere".to_vec())]);
    }
}

#[test]
fn file_deleted_before_opening_is_not_found() {
    let (_, response) = site().unreadable("/srv/www/a.html").serve("www", "/a.html", None);
    assert_eq!(response, Response::not_found());
}

#[test]
fn missing_file_is_not_found() {
    let (_, response) = site().serve("www", "/gone", None);
    assert_eq!(response, Response::not_found());
}
