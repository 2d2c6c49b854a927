use esengine_preview::assets::AssetTable;
use esengine_preview::paths::{
    bytes_equal, contained, decode_request_path, get_mime_type, resolve_project_path, strip_leading_slashes,
};
use esengine_preview::reply::{not_found, serve_embedded, serve_project_file};
use esengine_preview::routing::{route_request, Route};

const ROOT: &str = "/home/dev/game";

fn table() -> AssetTable {
    let mut t = AssetTable::new();
    t.insert("", "text/html", b"<html>preview</html>".to_vec());
    t.insert("index.html", "text/html", b"<html>preview</html>".to_vec());
    t.insert("wasm/esengine.js", "application/javascript", b"var Module = {};".to_vec());
    t.insert("wasm/esengine.wasm", "application/wasm", vec![0, 97, 115, 109, 1, 0, 0, 0]);
    t
}

fn read_file_of(route: Route) -> (Vec<u8>, &'static str) {
    match route {
        Route::ReadFile { path, content_type } => (path, content_type),
        Route::Reload => panic!("expected a file, got the reload stream"),
        Route::Reply(r) => panic!("expected a file, got a reply with status {}", r.status),
    }
}

fn reply_of(route: Route) -> esengine_preview::reply::Reply {
    match route {
        Route::Reply(r) => r,
        Route::Reload => panic!("expected a reply, got the reload stream"),
        Route::ReadFile { path, .. } => {
            panic!("expected a reply, got a file read of {}", String::from_utf8_lossy(&path))
        }
    }
}

#[test]
fn mime_types_by_extension() {
    assert_eq!(get_mime_type("index.html"), "text/html");
    assert_eq!(get_mime_type("scripts/main.js"), "application/javascript");
    assert_eq!(get_mime_type("esengine.wasm"), "application/wasm");
    assert_eq!(get_mime_type("scene.json"), "application/json");
    assert_eq!(get_mime_type("style.css"), "text/css");
    assert_eq!(get_mime_type("a.png"), "image/png");
    assert_eq!(get_mime_type("a.jpg"), "image/jpeg");
    assert_eq!(get_mime_type("a.jpeg"), "image/jpeg");
}

#[test]
fn mime_type_defaults_to_binary() {
    assert_eq!(get_mime_type("model.glb"), "application/octet-stream");
    assert_eq!(get_mime_type("README"), "application/octet-stream");
    assert_eq!(get_mime_type("html"), "application/octet-stream");
    assert_eq!(get_mime_type("js"), "application/octet-stream");
    assert_eq!(get_mime_type("scripts/js"), "application/octet-stream");
    assert_eq!(get_mime_type(".js"), "application/javascript");
    assert_eq!(get_mime_type("a.PNG"), "application/octet-stream");
    assert_eq!(get_mime_type("archive.tar.gz"), "application/octet-stream");
    assert_eq!(get_mime_type("dir.js/file"), "application/octet-stream");
    assert_eq!(get_mime_type("trailing."), "application/octet-stream");
    assert_eq!(get_mime_type(""), "application/octet-stream");
}

#[test]
fn leading_slashes_are_stripped() {
    assert_eq!(strip_leading_slashes(b"///a/b"), b"a/b");
    assert_eq!(strip_leading_slashes(b"a/"), b"a/");
    assert_eq!(strip_leading_slashes(b"/"), b"");
    assert_eq!(strip_leading_slashes(b""), b"");
}

#[test]
fn byte_equality() {
    assert!(bytes_equal(b"abc", b"abc"));
    assert!(!bytes_equal(b"abc", b"abd"));
    assert!(!bytes_equal(b"abc", b"ab"));
    assert!(bytes_equal(b"", b""));
}

#[test]
fn percent_decoding() {
    assert_eq!(decode_request_path(b"a%20b.js"), b"a b.js".to_vec());
    assert_eq!(decode_request_path(b"a+b"), b"a+b".to_vec());
    assert_eq!(decode_request_path(b"%e4%b8%ad.png"), "\u{4e2d}.png".as_bytes().to_vec());
    assert_eq!(decode_request_path(b"100%"), b"100%".to_vec());
    assert_eq!(decode_request_path(b"%zz%4"), b"%zz%4".to_vec());
}

#[test]
fn invalid_utf8_decoding_falls_back_to_literal() {
    assert_eq!(decode_request_path(b"%FF.js"), b"%FF.js".to_vec());
}

#[test]
fn project_path_is_joined_below_root() {
    assert_eq!(resolve_project_path(b"/r", b"a/b.js"), Some(b"/r/a/b.js".to_vec()));
    assert_eq!(resolve_project_path(b"/r", b"./a//b.js"), Some(b"/r/a/b.js".to_vec()));
    assert_eq!(resolve_project_path(b"/r", b"a/../b.js"), Some(b"/r/b.js".to_vec()));
    assert_eq!(resolve_project_path(b"/r", b"%2Fetc/passwd"), Some(b"/r/etc/passwd".to_vec()));
}

#[test]
fn traversal_is_rejected() {
    assert_eq!(resolve_project_path(b"/r", b"../../etc/passwd"), None);
    assert_eq!(resolve_project_path(b"/r", b"a/../../etc/passwd"), None);
    assert_eq!(resolve_project_path(b"/r", b"%2e%2e/%2e%2e/etc/passwd"), None);
    assert_eq!(resolve_project_path(b"/r", b"..%2F..%2Fetc%2Fpasswd"), None);
    assert_eq!(resolve_project_path(b"/r", b"..\\..\\etc\\passwd"), None);
    assert_eq!(resolve_project_path(b"/r", b".."), None);
}

#[test]
fn traversal_request_is_not_found() {
    let t = table();
    for url in ["/../../etc/passwd", "/%2e%2e/%2e%2e/etc/passwd", "/..%2f..%2fetc%2fpasswd"] {
        let r = reply_of(route_request(&t, ROOT, url));
        assert_eq!(r.status, 404);
        assert_eq!(r.body, b"Not Found".to_vec());
        assert_eq!(r.content_type, "text/plain");
    }
}

#[test]
fn reload_endpoint_is_routed_to_stream() {
    let t = table();
    assert!(matches!(route_request(&t, ROOT, "/sse-reload"), Route::Reload));
    assert!(matches!(route_request(&t, ROOT, "sse-reload"), Route::Reload));
    assert!(!matches!(route_request(&t, ROOT, "/sse-reload/x"), Route::Reload));
}

#[test]
fn embedded_asset_is_served_from_memory() {
    let t = table();
    let r = reply_of(route_request(&t, ROOT, "/wasm/esengine.js"));
    assert_eq!(r.status, 200);
    assert_eq!(r.body, b"var Module = {};".to_vec());
    assert_eq!(r.content_type, "application/javascript");
    let w = reply_of(route_request(&t, ROOT, "/wasm/esengine.wasm"));
    assert_eq!(w.body, vec![0, 97, 115, 109, 1, 0, 0, 0]);
    assert_eq!(w.content_type, "application/wasm");
}

#[test]
fn root_and_index_serve_preview_document() {
    let t = table();
    for url in ["/", "/index.html"] {
        let r = reply_of(route_request(&t, ROOT, url));
        assert_eq!(r.status, 200);
        assert_eq!(r.body, b"<html>preview</html>".to_vec());
        assert_eq!(r.content_type, "text/html");
    }
}

#[test]
fn later_insert_replaces_asset() {
    let mut t = table();
    t.insert("wasm/esengine.js", "text/plain", b"v2".to_vec());
    let r = reply_of(route_request(&t, ROOT, "/wasm/esengine.js"));
    assert_eq!(r.body, b"v2".to_vec());
    assert_eq!(r.content_type, "text/plain");
    let a = t.lookup(b"wasm/esengine.js").unwrap();
    assert_eq!(a.data(), b"v2");
    assert!(t.lookup(b"missing.js").is_none());
}

#[test]
fn project_file_request_reads_below_root() {
    let t = table();
    let (path, ct) = read_file_of(route_request(&t, ROOT, "/scenes/level1.json"));
    assert_eq!(path, b"/home/dev/game/scenes/level1.json".to_vec());
    assert_eq!(ct, "application/json");
}

#[test]
fn non_ascii_file_name_is_decoded() {
    let t = table();
    let (path, ct) = read_file_of(route_request(&t, ROOT, "/assets/%E8%A7%92%E8%89%B2.png"));
    assert_eq!(path, "/home/dev/game/assets/\u{89d2}\u{8272}.png".as_bytes().to_vec());
    assert_eq!(ct, "image/png");
    let r = serve_project_file(Some(vec![137, 80, 78, 71]), ct);
    assert_eq!(r.status, 200);
    assert_eq!(r.body, vec![137, 80, 78, 71]);
    assert_eq!(r.content_type, "image/png");
}

#[test]
fn content_type_follows_decoded_extension() {
    let t = table();
    let (path, ct) = read_file_of(route_request(&t, ROOT, "/main.j%73"));
    assert_eq!(path, b"/home/dev/game/main.js".to_vec());
    assert_eq!(ct, "application/javascript");
}

#[test]
fn unreadable_project_file_is_not_found() {
    let r = serve_project_file(None, "image/png");
    assert_eq!(r.status, 404);
    assert_eq!(r.content_type, "text/plain");
    assert_eq!(r.body, b"Not Found".to_vec());
}

#[test]
fn replies_carry_cache_and_origin_headers() {
    for r in [serve_embedded(b"x", "text/css"), not_found()] {
        let h = r.headers();
        assert_eq!(h.len(), 3);
        assert_eq!(h[0].0, "Content-Type");
        assert_eq!(h[0].1, r.content_type);
        assert_eq!(h[1].0, "Cache-Control");
        assert_eq!(h[1].1, "no-cache");
        assert_eq!(h[2].0, "Access-Control-Allow-Origin");
        assert_eq!(h[2].1, "*");
    }
}

#[test]
fn containment_compares_whole_components() {
    assert!(contained(b"/home/dev/game", b"/home/dev/game"));
    assert!(contained(b"/home/dev/game", b"/home/dev/game/a.js"));
    assert!(contained(b"/home/dev/game", b"/home/dev/game/sub/a.js"));
    assert!(!contained(b"/home/dev/game", b"/home/dev/game-evil/a.js"));
    assert!(!contained(b"/home/dev/game", b"/home/dev/gam"));
    assert!(!contained(b"/home/dev/game", b"/etc/passwd"));
    assert!(contained(b"/", b"/etc/passwd"));
    assert!(!contained(b"/home/dev/game/", b"/home/dev/gamex"));
}

#[test]
fn non_ascii_json_scene_is_served_with_its_type() {
    let t = table();
    let (path, ct) = read_file_of(route_request(&t, ROOT, "/%E5%9C%BA%E6%99%AF.json"));
    assert_eq!(path, "/home/dev/game/\u{573a}\u{666f}.json".as_bytes().to_vec());
    assert_eq!(ct, "application/json");
    let body = b"{\"entities\":[]}".to_vec();
    let r = serve_project_file(Some(body.clone()), ct);
    assert_eq!(r.status, 200);
    assert_eq!(r.body, body);
    let h = r.headers();
    assert_eq!(h[0].0, "Content-Type");
    assert_eq!(h[0].1, "application/json");
    assert_eq!(h[1].1, "no-cache");
    assert_eq!(h[2].0, "Access-Control-Allow-Origin");
    assert_eq!(h[2].1, "*");
}

#[test]
fn encoded_dot_still_gives_real_extension() {
    let t = table();
    let (path, ct) = read_file_of(route_request(&t, ROOT, "/main%2Ejs"));
    assert_eq!(path, b"/home/dev/game/main.js".to_vec());
    assert_eq!(ct, "application/javascript");
}
