//! What the server does with one request: open the reload stream, serve an
//! embedded asset, read a project file, or answer not found.

use vstd::prelude::*;
use vstd::string::StringSliceAdditionalSpecFns;
use crate::assets::{AssetTable, AssetView};
use crate::paths::{
    bytes_equal, decode_request_path, decoded_path, extension, file_below_root, mime_for_bytes,
    mime_for_extension, project_file, strip_leading_slashes, strip_slashes, all_plain, joined,
    normalized, lemma_project_file_contained,
};
use crate::reply::{not_found, not_found_view, ok_view, serve_embedded, Reply, ReplyView};

verus! {

/// The path of the reload stream: `sse-reload`.
pub open spec fn reload_path() -> Seq<u8> {
    seq![115u8, 115, 101, 45, 114, 101, 108, 111, 97, 100]
}

/// What a request leads to.
pub enum Route {
    /// Open the reload stream on a task of its own.
    Reload,
    /// Send this reply.
    Reply(Reply),
    /// Read the file at `path`; send it with `content_type`, or not found
    /// where it cannot be read.
    ReadFile { path: Vec<u8>, content_type: &'static str },
}

/// What a route holds.
pub enum RouteView {
    Reload,
    Reply(ReplyView),
    ReadFile(Seq<u8>, Seq<char>),
}

impl View for Route {
    type V = RouteView;

    open spec fn view(&self) -> RouteView {
        match self {
            Route::Reload => RouteView::Reload,
            Route::Reply(r) => RouteView::Reply(r@),
            Route::ReadFile { path, content_type } => RouteView::ReadFile(path@, content_type@),
        }
    }
}

/// The route of a request for `url` on a server with embedded assets
/// `table` and project directory `root`, in this order: the reload stream;
/// an embedded asset, by exact path; a file inside `root`, its content type
/// by the extension of the decoded path; otherwise not found.
pub open spec fn route_of(table: Map<Seq<u8>, AssetView>, root: Seq<u8>, url: Seq<u8>) -> RouteView {
    let p = strip_slashes(url);
    if p == reload_path() {
        RouteView::Reload
    } else if table.contains_key(p) {
        RouteView::Reply(ok_view(table[p].content_type, table[p].data))
    } else {
        match project_file(root, p) {
            None => RouteView::Reply(not_found_view()),
            Some(f) => RouteView::ReadFile(f, mime_for_extension(extension(decoded_path(p)))),
        }
    }
}

/// Decides what to do with a request for `url` (as the request line gives
/// it, leading slash included) on a server with embedded assets `table` and
/// project directory `project_dir`.
pub fn route_request(table: &AssetTable, project_dir: &str, url: &str) -> (r: Route)
    ensures
        r@ == route_of(table@, project_dir.spec_bytes(), url.spec_bytes()),
{
    let p = strip_leading_slashes(url.as_bytes());
    let reload = vec![115u8, 115, 101, 45, 114, 101, 108, 111, 97, 100];
    assert(reload@ =~= reload_path());
    if bytes_equal(p, reload.as_slice()) {
        return Route::Reload;
    }
    match table.lookup(p) {
        Some(asset) => Route::Reply(serve_embedded(asset.data(), asset.content_type())),
        None => {
            let decoded = decode_request_path(p);
            match file_below_root(project_dir.as_bytes(), decoded.as_slice()) {
                None => Route::Reply(not_found()),
                Some(path) => Route::ReadFile { path, content_type: mime_for_bytes(decoded.as_slice()) },
            }
        },
    }
}

/// A request for the path of an embedded asset is answered with exactly
/// that asset's bytes and content type, and no file is read for it.
pub proof fn lemma_embedded_served_exactly(table: Map<Seq<u8>, AssetView>, root: Seq<u8>, url: Seq<u8>)
    requires
        table.contains_key(strip_slashes(url)),
        strip_slashes(url) != reload_path(),
    ensures
        route_of(table, root, url) == RouteView::Reply(
            ok_view(table[strip_slashes(url)].content_type, table[strip_slashes(url)].data),
        ),
{
}

/// A file that a request leads to reading lies inside the project
/// directory: the directory followed by plain segments, never a `..`.
pub proof fn lemma_route_reads_inside(table: Map<Seq<u8>, AssetView>, root: Seq<u8>, url: Seq<u8>)
    ensures
        route_of(table, root, url) matches RouteView::ReadFile(f, _) ==> {
            &&& normalized(decoded_path(strip_slashes(url))) is Some
            &&& all_plain(normalized(decoded_path(strip_slashes(url)))->0)
            &&& f == joined(root, normalized(decoded_path(strip_slashes(url)))->0)
            &&& f.subrange(0, root.len() as int) == root
        },
{
    lemma_project_file_contained(root, strip_slashes(url));
}

} // verus!
