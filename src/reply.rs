//! The responses the preview server sends, described as plain values: a
//! status, a content type and a body, and the headers that go with them.

use vstd::prelude::*;

verus! {

/// A complete response other than the reload stream.
pub struct Reply {
    pub status: u16,
    pub content_type: String,
    pub body: Vec<u8>,
}

/// What a reply holds.
pub struct ReplyView {
    pub status: u16,
    pub content_type: Seq<char>,
    pub body: Seq<u8>,
}

impl View for Reply {
    type V = ReplyView;

    open spec fn view(&self) -> ReplyView {
        ReplyView { status: self.status, content_type: self.content_type@, body: self.body@ }
    }
}

/// The body of a not-found reply: `Not Found`.
pub open spec fn not_found_body() -> Seq<u8> {
    seq![78u8, 111, 116, 32, 70, 111, 117, 110, 100]
}

/// The reply to a path that names nothing that may be served.
pub open spec fn not_found_view() -> ReplyView {
    ReplyView { status: 404, content_type: "text/plain"@, body: not_found_body() }
}

/// A successful reply with the given content type and body.
pub open spec fn ok_view(content_type: Seq<char>, body: Seq<u8>) -> ReplyView {
    ReplyView { status: 200, content_type, body }
}

/// The headers of every reply: its content type, `no-cache`, and access
/// from any origin.
pub open spec fn reply_headers(content_type: Seq<char>) -> Seq<(Seq<char>, Seq<char>)> {
    seq![
        ("Content-Type"@, content_type),
        ("Cache-Control"@, "no-cache"@),
        ("Access-Control-Allow-Origin"@, "*"@),
    ]
}

/// The headers of the reload stream.
pub open spec fn stream_headers() -> Seq<(Seq<char>, Seq<char>)> {
    seq![
        ("Content-Type"@, "text/event-stream"@),
        ("Cache-Control"@, "no-cache"@),
        ("Connection"@, "keep-alive"@),
        ("Access-Control-Allow-Origin"@, "*"@),
    ]
}

/// The views of a list of header pairs.
pub open spec fn header_views(h: Seq<(String, String)>) -> Seq<(Seq<char>, Seq<char>)> {
    h.map_values(|p: (String, String)| (p.0@, p.1@))
}

fn header(name: &str, value: &str) -> (r: (String, String))
    ensures
        r.0@ == name@,
        r.1@ == value@,
{
    (name.to_owned(), value.to_owned())
}

/// The reply to a path that names nothing that may be served.
pub fn not_found() -> (r: Reply)
    ensures
        r@ == not_found_view(),
{
    let body = vec![78u8, 111, 116, 32, 70, 111, 117, 110, 100];
    assert(body@ =~= not_found_body());
    Reply { status: 404, content_type: "text/plain".to_owned(), body }
}

/// The reply that serves an embedded blob with its declared content type.
pub fn serve_embedded(data: &[u8], content_type: &str) -> (r: Reply)
    ensures
        r@ == ok_view(content_type@, data@),
{
    Reply { status: 200, content_type: content_type.to_owned(), body: vec_of(data) }
}

/// The reply to a request for a project file, given what reading it gave:
/// its bytes, or `None` where it could not be read (missing, not a file,
/// not permitted), which is answered as not found.
pub fn serve_project_file(read: Option<Vec<u8>>, content_type: &str) -> (r: Reply)
    ensures
        r@ == match read {
            Some(data) => ok_view(content_type@, data@),
            None => not_found_view(),
        },
{
    match read {
        Some(data) => Reply { status: 200, content_type: content_type.to_owned(), body: data },
        None => not_found(),
    }
}

fn vec_of(data: &[u8]) -> (r: Vec<u8>)
    ensures
        r@ == data@,
{
    vstd::slice::slice_to_vec(data)
}

impl Reply {
    /// The headers to send with this reply.
    pub fn headers(&self) -> (r: Vec<(String, String)>)
        ensures
            header_views(r@) == reply_headers(self.content_type@),
    {
        let r = vec![
            header("Content-Type", self.content_type.as_str()),
            header("Cache-Control", "no-cache"),
            header("Access-Control-Allow-Origin", "*"),
        ];
        assert(header_views(r@) =~= reply_headers(self.content_type@));
        r
    }
}

/// The headers to send with the reload stream.
pub fn sse_headers() -> (r: Vec<(String, String)>)
    ensures
        header_views(r@) == stream_headers(),
{
    let r = vec![
        header("Content-Type", "text/event-stream"),
        header("Cache-Control", "no-cache"),
        header("Connection", "keep-alive"),
        header("Access-Control-Allow-Origin", "*"),
    ];
    assert(header_views(r@) =~= stream_headers());
    r
}

} // verus!
