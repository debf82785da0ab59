use axum::body::HttpBody;
use std::io::Read;
use web_preview::embedded::{
    answer_embedded_request, decide_embedded_request, embedded_asset_path, embedded_index_path,
    EmbeddedStep,
};
use web_preview::facts::{Answer, Facts, Question};
use web_preview::place::{Leg, Place};
use web_preview::request::{
    mime_type_for, request_parts, resolve_decoded_path, resolve_request_path,
};
use web_preview::respond::{
    build_file_response, build_site_response, reply_not_found, reply_with_file,
    reply_with_resolved, reply_with_served, respond_no_route, FileResponse, Reply, SiteReply, Step,
};
use web_preview::serve::{placeholder_html, placeholder_showing, serve_dx_file_direct, Served};

fn below(place: &Place) -> String {
    let names: Vec<&str> = place
        .legs
        .iter()
        .map(|leg| match leg {
            Leg::Join(name) => name.as_str(),
            Leg::Entry(_, _) => panic!("no listing here"),
        })
        .collect();
    names.join("/")
}

/// A site in memory: its directories and its files, below the root.
struct Site {
    dirs: &'static [&'static str],
    files: &'static [&'static str],
}

impl Site {
    fn tell(&self, question: &Question, facts: &mut Facts) {
        match question {
            Question::IsDir(p) => facts.record_dir(p, self.dirs.contains(&below(p).as_str())),
            Question::IsFile(p) => facts.record_file(p, self.files.contains(&below(p).as_str())),
            Question::List(_) => panic!("no listing here"),
            Question::Extension(_) => panic!("the names tell it"),
        }
    }

    fn settle<T>(&self, decide: impl Fn(&Facts) -> Answer<T>) -> T {
        let mut facts = Facts::new();
        loop {
            match decide(&facts) {
                Answer::Known(value) => return value,
                Answer::Ask(question) => self.tell(&question, &mut facts),
            }
        }
    }

    fn resolve(&self, url: &str) -> Option<String> {
        let root = Place::start(0, 0);
        self.settle(|facts| resolve_request_path(&root, url, facts)).map(|p| below(&p))
    }

    fn serve(&self, path: &str) -> Served {
        let root = Place::start(0, 0);
        self.settle(|facts| serve_dx_file_direct(&root, "music", path, facts))
    }

    fn file_response(&self, url: &str, contents: Option<&[u8]>) -> FileResponse {
        let root = Place::start(0, 0);
        let mut facts = Facts::new();
        let mut read: Option<Option<Vec<u8>>> = None;
        loop {
            match build_file_response(&root, url, &facts, read.clone()) {
                Step::Ask(question) => self.tell(&question, &mut facts),
                Step::Read(_) => read = Some(contents.map(|c| c.to_vec())),
                Step::Reply(response) => return response,
            }
        }
    }

    fn site_response(&self, path: &str, contents: Option<&[u8]>) -> (u16, String, Vec<u8>) {
        let root = Place::start(0, 0);
        let mut facts = Facts::new();
        let mut read: Option<Option<Vec<u8>>> = None;
        loop {
            match build_site_response(&root, "music", path, &facts, read.clone()) {
                Step::Ask(question) => self.tell(&question, &mut facts),
                Step::Read(_) => read = Some(contents.map(|c| c.to_vec())),
                Step::Reply(response) => return opened(response),
            }
        }
    }
}

fn unpacked(response: FileResponse) -> (u16, Vec<(String, String)>, Vec<u8>) {
    let status = response.status_code().0;
    let headers = response
        .headers()
        .iter()
        .map(|h| (h.field.as_str().as_str().to_string(), h.value.as_str().to_string()))
        .collect();
    let mut body = Vec::new();
    response.into_reader().read_to_end(&mut body).unwrap();
    (status, headers, body)
}

fn opened(response: axum::response::Response) -> (u16, String, Vec<u8>) {
    let status = response.status().as_u16();
    let content_type =
        response.headers()[axum::http::header::CONTENT_TYPE].to_str().unwrap().to_string();
    let mut body = response.into_body();
    let runtime = tokio::runtime::Builder::new_current_thread().build().unwrap();
    let mut bytes = Vec::new();
    runtime.block_on(async {
        while let Some(chunk) = body.data().await {
            bytes.extend_from_slice(&chunk.unwrap());
        }
    });
    (status, content_type, bytes)
}

const SITE: Site = Site {
    dirs: &["", "/docs", "/empty", "docs"],
    files: &[
        "/index.html",
        "index.html",
        "/docs/index.html",
        "docs/index.html",
        "/app.js",
        "app.js",
        "/a b.css",
        "/docs/x.txt",
    ],
};

#[test]
fn requests_name_files_and_directories() {
    assert_eq!(SITE.resolve("/app.js"), Some("/app.js".to_string()));
    assert_eq!(SITE.resolve("//docs/./x.txt"), Some("/docs/x.txt".to_string()));
    assert_eq!(SITE.resolve("/"), Some("/index.html".to_string()));
    assert_eq!(SITE.resolve(""), Some("/index.html".to_string()));
    assert_eq!(SITE.resolve("/docs/"), Some("/docs/index.html".to_string()));
    assert_eq!(SITE.resolve("/a%20b.css"), Some("/a b.css".to_string()));
}

#[test]
fn queries_and_fragments_are_ignored() {
    assert_eq!(SITE.resolve("/app.js?v=1"), Some("/app.js".to_string()));
    assert_eq!(SITE.resolve("/app.js#top?x"), Some("/app.js".to_string()));
    assert_eq!(SITE.resolve("/app.js?a#b?c#d"), Some("/app.js".to_string()));
    assert_eq!(SITE.resolve("/?../.."), Some("/index.html".to_string()));
}

#[test]
fn requests_without_an_extension_give_the_page_of_the_site() {
    assert_eq!(SITE.resolve("/route/deep"), Some("index.html".to_string()));
    assert_eq!(SITE.resolve("/.hidden"), Some("index.html".to_string()));
    assert_eq!(SITE.resolve("/empty"), Some("index.html".to_string()));
    assert_eq!(SITE.resolve("/missing.js"), None);
    assert_eq!(SITE.resolve("/missing."), None);
    let bare = Site { dirs: &[""], files: &[] };
    assert_eq!(bare.resolve("/route"), None);
    assert_eq!(bare.resolve("/"), None);
}

#[test]
fn requests_do_not_leave_the_root() {
    for url in [
        "/../secret",
        "/docs/../../secret",
        "/%2e%2e/secret",
        "/%2E./secret",
        "/docs/..",
        "/a\\..\\b",
        "/a%5Cb",
        "/C:/x",
        "/c%3a",
    ] {
        assert_eq!(SITE.resolve(url), None, "{}", url);
    }
    assert_eq!(SITE.resolve("/%252e%252e"), Some("index.html".to_string()));
}

#[test]
fn parts_are_what_leads_somewhere() {
    let parts = |path: &str| request_parts(path);
    assert_eq!(parts("/a//./b/"), Some(vec!["a".to_string(), "b".to_string()]));
    assert_eq!(parts(""), Some(vec![]));
    assert_eq!(parts("/..."), Some(vec!["...".to_string()]));
    assert_eq!(parts("a/.."), None);
    assert_eq!(parts("a/x:y"), None);
    assert_eq!(parts("a/x\\y"), None);
}

#[test]
fn decoded_paths_are_resolved_as_they_are() {
    let root = Place::start(0, 0);
    let found = SITE.settle(|facts| resolve_decoded_path(&root, "/a b.css", facts));
    assert_eq!(found.map(|p| below(&p)), Some("/a b.css".to_string()));
    let found = SITE.settle(|facts| resolve_decoded_path(&root, "/a%20b.css", facts));
    assert!(found.is_none());
}

#[test]
fn content_types_of_places() {
    let root = Place::start(0, 0);
    let told = |place: &Place| match mime_type_for(place, &Facts::new()) {
        Answer::Known(content_type) => content_type,
        Answer::Ask(_) => panic!("the name tells it"),
    };
    assert_eq!(told(&root.join("x/LOGO.SVG")), "image/svg+xml");
    assert_eq!(told(&root.join("a.js/.")), "application/javascript; charset=utf-8");
    assert_eq!(told(&root.join("dir.js").join("x")), "application/octet-stream");
    assert_eq!(told(&root.join("a.js").join("..")), "application/octet-stream");
    assert_eq!(told(&Place::bare("/srv/a.ttf")), "font/ttf");
    assert_eq!(told(&root.join("").join("index.html")), "text/html; charset=utf-8");
}

#[test]
fn content_types_that_no_name_tells_are_asked_for() {
    let root = Place::start(0, 0);
    let places = [
        root.copy(),
        root.join(""),
        root.join("/"),
        root.join("a\\.html"),
        root.join("c:.html"),
        root.entry(1, &Some("a.png".to_string())),
        root.entry(1, &None),
    ];
    for place in places {
        let mut facts = Facts::new();
        match mime_type_for(&place, &facts) {
            Answer::Ask(Question::Extension(asked)) => assert!(asked.same(&place)),
            _ => panic!("the system reads this path"),
        }
        facts.record_extension(&place, Some("HTML".to_string()));
        match mime_type_for(&place, &facts) {
            Answer::Known(found) => assert_eq!(found, "text/html; charset=utf-8"),
            Answer::Ask(_) => panic!("it is known"),
        }
        facts.record_extension(&place, None);
        match mime_type_for(&place, &facts) {
            Answer::Known(found) => assert_eq!(found, "application/octet-stream"),
            Answer::Ask(_) => panic!("it is known"),
        }
    }
}

#[test]
fn slashes_in_front_do_not_matter() {
    for path in ["app.js", "docs", "x/../y", "missing.js", "", "%FF", "a%20b.css"] {
        let plain = SITE.resolve(path);
        assert_eq!(SITE.resolve(&format!("/{}", path)), plain, "{}", path);
        assert_eq!(SITE.resolve(&format!("/./{}", path)), plain, "{}", path);
        assert_eq!(SITE.resolve(&format!("///./{}", path)), plain, "{}", path);
    }
}

#[test]
fn a_file_is_answered_with_its_contents() {
    let (status, headers, body) = unpacked(SITE.file_response("/app.js?x", Some(b"let a;")));
    assert_eq!(status, 200);
    assert_eq!(
        headers,
        [("Content-Type".to_string(), "application/javascript; charset=utf-8".to_string())]
    );
    assert_eq!(body, b"let a;");
}

#[test]
fn what_is_not_there_is_not_found() {
    let not_found = (404, vec![], b"Not Found".to_vec());
    assert_eq!(unpacked(SITE.file_response("/missing.js", Some(b"x"))), not_found);
    assert_eq!(unpacked(SITE.file_response("/../x", Some(b"x"))), not_found);
    assert_eq!(unpacked(SITE.file_response("/app.js", None)), not_found);
    match reply_with_resolved(Answer::Known(None), &Facts::new(), None) {
        Step::Reply(reply) => assert_eq!((reply.status, reply.content_type), (404, None)),
        _ => panic!("nothing is left to do"),
    }
    assert_eq!(reply_not_found().body, b"Not Found");
}

#[test]
fn a_tool_serves_its_files() {
    let file = |path: &str| match SITE.serve(path) {
        Served::File(place) => below(&place),
        _ => panic!("a file answers"),
    };
    assert_eq!(file("app.js"), "app.js");
    assert_eq!(file("/app.js"), "app.js");
    assert_eq!(file("docs"), "docs/index.html");
    assert_eq!(file(""), "index.html");
    assert_eq!(file("/"), "index.html");
    assert_eq!(file("missing.js"), "index.html");
    assert_eq!(file("//missing"), "index.html");
}

#[test]
fn a_tool_refuses_paths_that_may_lead_out() {
    for path in ["../x", "a/..", "a..b", "a\\b", "c:x"] {
        assert!(matches!(SITE.serve(path), Served::BadRequest), "{}", path);
    }
}

#[test]
fn a_tool_without_a_page_shows_the_placeholder() {
    let bare = Site { dirs: &[], files: &[] };
    match bare.serve("x/y.js") {
        Served::Placeholder(page) => assert_eq!(page, placeholder_html("music")),
        _ => panic!("the placeholder answers"),
    }
}

#[test]
fn the_placeholder_names_the_tool() {
    let page = placeholder_html("my_tool-1");
    assert_eq!(
        page,
        "<!doctype html>
<html lang=\"en\">
<head>
  <base href=\"/dx/my_tool-1/\">
  <meta charset=\"utf-8\">
  <title>my_tool-1</title>
  <style>
    body { margin:0; height:100vh; display:flex; align-items:center; justify-content:center; background:#0a0a0a; color:#aaa; font-family: system-ui, sans-serif; }
    .box { text-align:center; }
    h1 { font-weight:300; letter-spacing:1px; }
    p { opacity:0.7; font-size:14px; }
  </style>
</head>
<body>
  <div class=\"box\">
    <h1>my_tool-1</h1>
    <p>DX web tool preview<br>Place your built static site (index.html + assets) under assets/web/my_tool-1/ or the project's .dx/www/output</p>
  </div>
</body>
</html>"
    );
}

#[test]
fn the_placeholder_shows_only_safe_characters() {
    let page = placeholder_html("a<b>\u{e9} /\u{2603}7");
    assert!(page.contains("<title>ab\u{e9}7</title>"));
    assert!(page.contains("<base href=\"/dx/a<b>\u{e9} /\u{2603}7/\">"));
    assert_eq!(page, placeholder_showing("a<b>\u{e9} /\u{2603}7", "ab\u{e9}7"));
}

#[test]
fn the_server_of_a_tool_answers() {
    assert_eq!(
        SITE.site_response("app.js", Some(b"let a;")),
        (200, "application/javascript; charset=utf-8".to_string(), b"let a;".to_vec())
    );
    assert_eq!(
        SITE.site_response("docs", Some(b"<p>")),
        (200, "text/html; charset=utf-8".to_string(), b"<p>".to_vec())
    );
    assert_eq!(
        SITE.site_response("app.js", None),
        (404, "text/plain; charset=utf-8".to_string(), b"Not Found".to_vec())
    );
    assert_eq!(
        SITE.site_response("../x", Some(b"x")),
        (400, "text/plain; charset=utf-8".to_string(), b"Invalid path".to_vec())
    );
    let bare = Site { dirs: &[], files: &[] };
    assert_eq!(
        bare.site_response("x", Some(b"x")),
        (200, "text/html; charset=utf-8".to_string(), placeholder_html("music").into_bytes())
    );
    assert_eq!(
        opened(respond_no_route()),
        (404, "text/plain; charset=utf-8".to_string(), b"Not Found".to_vec())
    );
}

#[test]
fn a_decision_on_serving_is_carried_out() {
    let page = Answer::Known(Served::Placeholder("caf\u{e9}".to_string()));
    match reply_with_served(page, &Facts::new(), None) {
        Step::Reply(SiteReply::Content { content_type, body }) => {
            assert_eq!(content_type, "text/html; charset=utf-8");
            assert_eq!(body, "caf\u{e9}".as_bytes());
        }
        _ => panic!("nothing is left to do"),
    }
    match reply_with_served(Answer::Known(Served::BadRequest), &Facts::new(), Some(None)) {
        Step::Reply(SiteReply::Text { status, text }) => {
            assert_eq!((status, text), (400, "Invalid path"));
        }
        _ => panic!("nothing is left to do"),
    }
    let file = Answer::Known(Served::File(Place::bare("a.png")));
    assert!(matches!(reply_with_served(file, &Facts::new(), None), Step::Read(_)));
}

#[test]
fn embedded_assets_lie_below_web() {
    assert_eq!(embedded_asset_path("/design/app.js?v=2"), "web/design/app.js");
    assert_eq!(embedded_asset_path("//design#x"), "web/design#x");
    assert_eq!(embedded_asset_path("/"), "web/");
    assert_eq!(embedded_index_path("web/design//"), "web/design/index.html");
    assert_eq!(embedded_index_path("web/"), "web/index.html");
    assert_eq!(embedded_index_path("web/design"), embedded_index_path("web/design/"));
}

#[test]
fn embedded_requests_try_the_asset_and_then_its_page() {
    match answer_embedded_request("/design", None, None) {
        EmbeddedStep::LoadAsset(path) => assert_eq!(path, "web/design"),
        _ => panic!("the asset is tried first"),
    }
    match answer_embedded_request("/design", Some(None), None) {
        EmbeddedStep::LoadIndex(path) => assert_eq!(path, "web/design/index.html"),
        _ => panic!("the page is tried next"),
    }
    match answer_embedded_request("/a.css?x", Some(Some(b"p{}".to_vec())), None) {
        EmbeddedStep::Reply(response) => assert_eq!(
            unpacked(response),
            (
                200,
                vec![("Content-Type".to_string(), "text/css; charset=utf-8".to_string())],
                b"p{}".to_vec()
            )
        ),
        _ => panic!("the asset answers"),
    }
    match answer_embedded_request("/design", Some(None), Some(Some(b"<p>".to_vec()))) {
        EmbeddedStep::Reply(response) => assert_eq!(
            unpacked(response),
            (
                200,
                vec![("Content-Type".to_string(), "text/html; charset=utf-8".to_string())],
                b"<p>".to_vec()
            )
        ),
        _ => panic!("the page answers"),
    }
    match answer_embedded_request("/design", Some(None), Some(None)) {
        EmbeddedStep::Missing(response) => {
            assert_eq!(response.status_code().0, 404);
            assert_eq!(response.data_length(), Some(0));
        }
        _ => panic!("there is no such asset"),
    }
}

#[test]
fn embedded_requests_are_decided_on_plain_values() {
    match decide_embedded_request("/x.svg", Some(Some(b"<svg/>".to_vec())), None) {
        EmbeddedStep::Reply(Reply { status, content_type, body }) => {
            assert_eq!((status, content_type), (200, Some("image/svg+xml")));
            assert_eq!(body, b"<svg/>");
        }
        _ => panic!("the asset answers"),
    }
    assert!(matches!(
        decide_embedded_request("/x.svg", Some(None), Some(None)),
        EmbeddedStep::Missing(404)
    ));
}

#[test]
fn replies_hold_what_they_are_given() {
    let reply = reply_with_file("image/png", vec![1, 2]);
    assert_eq!((reply.status, reply.content_type), (200, Some("image/png")));
    assert_eq!(reply.body, [1, 2]);
}
