//! The three responses that a request can be owed: not found, not modified,
//! and the file itself.

use vstd::prelude::*;
use vstd::string::*;

verus! {

/// What a response carries after its headers.
#[derive(Debug, PartialEq, Eq)]
pub enum Body {
    /// Nothing.
    Empty,
    /// The contents of the file at this path, as they are when it is read.
    File(Vec<u8>),
}

/// A response header.
#[derive(Debug, PartialEq, Eq)]
pub struct Header {
    pub name: String,
    pub value: String,
}

/// A response: status code, headers in the order in which they are sent, and
/// body.
#[derive(Debug, PartialEq, Eq)]
pub struct Response {
    pub status: u16,
    pub headers: Vec<Header>,
    pub body: Body,
}

/// The model of a body.
pub enum BodyView {
    Empty,
    File(Seq<u8>),
}

/// The model of a header.
pub struct HeaderView {
    pub name: Seq<char>,
    pub value: Seq<char>,
}

/// The model of a response.
pub struct ResponseView {
    pub status: u16,
    pub headers: Seq<HeaderView>,
    pub body: BodyView,
}

impl View for Body {
    type V = BodyView;

    open spec fn view(&self) -> BodyView {
        match self {
            Body::Empty => BodyView::Empty,
            Body::File(path) => BodyView::File(path@),
        }
    }
}

impl View for Header {
    type V = HeaderView;

    open spec fn view(&self) -> HeaderView {
        HeaderView { name: self.name@, value: self.value@ }
    }
}

impl View for Response {
    type V = ResponseView;

    open spec fn view(&self) -> ResponseView {
        ResponseView {
            status: self.status,
            headers: Seq::new(self.headers@.len(), |i: int| self.headers@[i]@),
            body: self.body@,
        }
    }
}

/// The header that lets any cache keep a response for an hour.
pub open spec fn cache_control() -> HeaderView {
    HeaderView { name: "Cache-Control"@, value: "public, max-age=3600"@ }
}

/// The header that carries the validator `etag`.
pub open spec fn etag_header(etag: Seq<char>) -> HeaderView {
    HeaderView { name: "ETag"@, value: etag }
}

/// The header that carries the content type `mime`.
pub open spec fn content_type(mime: Seq<char>) -> HeaderView {
    HeaderView { name: "Content-Type"@, value: mime }
}

/// The response to a request that names nothing that can be served: status
/// 404, no header, no body.
pub open spec fn not_found() -> ResponseView {
    ResponseView { status: 404, headers: Seq::empty(), body: BodyView::Empty }
}

/// The response to a request that presented the current validator: status
/// 304, the caching headers, no body.
pub open spec fn not_modified(etag: Seq<char>) -> ResponseView {
    ResponseView {
        status: 304,
        headers: seq![cache_control(), etag_header(etag)],
        body: BodyView::Empty,
    }
}

/// The response that serves the file at `path`: status 200, the caching
/// headers around the content type, and the file as body.
pub open spec fn full(etag: Seq<char>, mime: Seq<char>, path: Seq<u8>) -> ResponseView {
    ResponseView {
        status: 200,
        headers: seq![cache_control(), content_type(mime), etag_header(etag)],
        body: BodyView::File(path),
    }
}

/// The value of the first header of `headers` that is named `name`.
pub open spec fn header_value(headers: Seq<HeaderView>, name: Seq<char>) -> Option<Seq<char>>
    decreases headers.len(),
{
    if headers.len() == 0 {
        None
    } else if headers[0].name == name {
        Some(headers[0].value)
    } else {
        header_value(headers.drop_first(), name)
    }
}

impl Header {
    /// A header from its name and value.
    pub fn new(name: &str, value: String) -> (header: Header)
        ensures
            header@ == (HeaderView { name: name@, value: value@ }),
    {
        Header { name: name.to_string(), value }
    }
}

impl Response {
    /// Builds the response for what was not found.
    pub fn not_found() -> (response: Response)
        ensures
            response@ == not_found(),
    {
        let response = Response { status: 404, headers: Vec::new(), body: Body::Empty };
        assert(response@.headers =~= Seq::empty());
        response
    }

    /// Builds the response for a client whose copy is current.
    pub fn not_modified(etag: String) -> (response: Response)
        ensures
            response@ == not_modified(etag@),
    {
        let mut headers: Vec<Header> = Vec::new();
        headers.push(Header::new("Cache-Control", "public, max-age=3600".to_string()));
        headers.push(Header::new("ETag", etag));
        let response = Response { status: 304, headers, body: Body::Empty };
        assert(response@.headers =~= not_modified(etag@).headers);
        response
    }

    /// Builds the response that serves the file at `path`.
    pub fn full(etag: String, mime: String, path: Vec<u8>) -> (response: Response)
        ensures
            response@ == full(etag@, mime@, path@),
    {
        let mut headers: Vec<Header> = Vec::new();
        headers.push(Header::new("Cache-Control", "public, max-age=3600".to_string()));
        headers.push(Header::new("Content-Type", mime));
        headers.push(Header::new("ETag", etag));
        let response = Response { status: 200, headers, body: Body::File(path) };
        assert(response@.headers =~= full(etag@, mime@, path@).headers);
        response
    }

    /// Looks a header up by its name, which must match letter for letter.
    pub fn header(&self, name: &str) -> (value: Option<String>)
        ensures
            match value {
                Some(text) => header_value(self@.headers, name@) == Some(text@),
                None => header_value(self@.headers, name@) is None,
            },
    {
        let wanted = name.to_string();
        let mut i: usize = 0;
        assert(self@.headers.skip(0) =~= self@.headers);
        while i < self.headers.len()
            invariant
                i <= self.headers.len(),
                wanted@ == name@,
                header_value(self@.headers, name@) == header_value(
                    self@.headers.skip(i as int),
                    name@,
                ),
            decreases self.headers.len() - i,
        {
            let ghost rest = self@.headers.skip(i as int);
            assert(rest[0] == self.headers@[i as int]@);
            assert(rest.drop_first() == self@.headers.skip(i + 1));
            if self.headers[i].name == wanted {
                return Some(self.headers[i].value.clone());
            }
            i += 1;
        }
        assert(self@.headers.skip(i as int).len() == 0);
        None
    }
}

} // verus!
