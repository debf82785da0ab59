use web_preview::mime::{extension_of, get_mime_type, last_name, mime_type_for_extension};
use web_preview::percent::{percent_decode, unescape};
use web_preview::text::{
    cut_before, decimal_text, ends_in, finds_double_dot, has_char, matches_ignoring_case, same_text,
    split_at_slashes, to_ascii_lower, trim_leading_slashes, trim_trailing_slashes,
};

#[test]
fn escapes_are_decoded() {
    assert_eq!(percent_decode("/a%20b"), "/a b");
    assert_eq!(percent_decode("%41%62%2f%2F"), "Ab//");
    assert_eq!(percent_decode("%e2%82%Ac %c3%A9t%C3%a9"), "\u{20ac} \u{e9}t\u{e9}");
    assert_eq!(percent_decode("%E2%82%AC"), "\u{20ac}");
    assert_eq!(percent_decode(""), "");
}

#[test]
fn an_escape_may_stand_at_the_very_end() {
    assert_eq!(percent_decode("x%41"), "xA");
    assert_eq!(percent_decode("%41"), "A");
}

#[test]
fn what_is_no_escape_stands_for_itself() {
    assert_eq!(percent_decode("100%"), "100%");
    assert_eq!(percent_decode("%4"), "%4");
    assert_eq!(percent_decode("%4g%zz"), "%4g%zz");
    assert_eq!(percent_decode("%%41"), "%A");
    assert_eq!(percent_decode("a+b"), "a+b");
}

#[test]
fn decoding_reads_from_the_left_and_only_once() {
    assert_eq!(percent_decode("%2541"), "%41");
    assert_eq!(unescape(b"%25%34%31"), b"%41".to_vec());
}

#[test]
fn plain_text_is_not_changed() {
    assert_eq!(percent_decode("caf\u{e9}/\u{20ac}"), "caf\u{e9}/\u{20ac}");
}

#[test]
fn bytes_that_are_not_utf8_are_replaced() {
    assert_eq!(percent_decode("a%FFb"), "a\u{fffd}b");
    assert_eq!(percent_decode("%C3"), "\u{fffd}");
    let rest = percent_decode("%FFx%C3y");
    assert_eq!(percent_decode("caf\u{e9}/%FFx%C3y"), format!("caf\u{e9}/{}", rest));
    assert_eq!(percent_decode("%C3%A9%FFx%C3y"), format!("\u{e9}{}", rest));
}

#[test]
fn decoding_never_lengthens() {
    for text in ["", "a", "%41", "%", "%%%", "%FF%FE", "caf\u{e9}%C3", "%E2%82x", "\u{20ac}%"] {
        assert!(unescape(text.as_bytes()).len() <= text.len());
        assert!(percent_decode(text).chars().count() <= text.len());
    }
    assert_eq!(percent_decode("%C3%A9t\u{e9}").chars().count(), 3);
}

#[test]
fn escaping_every_byte_is_undone() {
    let text = "/\u{4f60}\u{597d} ..?#%";
    let escaped: String = text.bytes().map(|b| format!("%{:02X}", b)).collect();
    assert_eq!(percent_decode(&escaped), text);
    let all: Vec<u8> = (0..=255).collect();
    let escaped: String = all.iter().map(|b| format!("%{:02x}", b)).collect();
    assert_eq!(unescape(escaped.as_bytes()), all);
}

#[test]
fn content_types_go_by_the_end_of_the_path() {
    let expected = [
        ("a.html", "text/html; charset=utf-8"),
        ("a.css", "text/css; charset=utf-8"),
        ("a.mjs", "application/javascript; charset=utf-8"),
        ("a.js", "application/javascript; charset=utf-8"),
        ("a.json", "application/json; charset=utf-8"),
        ("a.js.map", "application/json; charset=utf-8"),
        ("a.wasm", "application/wasm"),
        ("a.svg", "image/svg+xml"),
        ("a.png", "image/png"),
        ("a.jpg", "image/jpeg"),
        ("a.jpeg", "image/jpeg"),
        ("a.gif", "image/gif"),
        ("a.webp", "image/webp"),
        ("a.ico", "image/x-icon"),
        ("a.woff2", "font/woff2"),
        ("a.woff", "font/woff"),
        ("a.ttf", "font/ttf"),
        ("a.txt", "text/plain; charset=utf-8"),
        ("a.rs", "application/octet-stream"),
        ("html", "application/octet-stream"),
        ("a.HTML", "application/octet-stream"),
        (".html", "text/html; charset=utf-8"),
        ("", "application/octet-stream"),
    ];
    for (path, mime) in expected {
        assert_eq!(get_mime_type(path), mime, "{}", path);
    }
}

#[test]
fn content_types_may_stand_in_a_header() {
    for path in ["x.html", "x.mjs", "x.map", "x.svg", "x.ico", "x.txt", "x", "x.woff2"] {
        assert!(get_mime_type(path).chars().all(|c| (' '..='~').contains(&c)));
    }
}

#[test]
fn extensions_follow_the_last_dot() {
    let ext = |name: &str| extension_of(name);
    assert_eq!(ext("index.html"), Some("html".to_string()));
    assert_eq!(ext("a.tar.gz"), Some("gz".to_string()));
    assert_eq!(ext("a."), Some(String::new()));
    assert_eq!(ext(".gitignore"), None);
    assert_eq!(ext(".a.b"), Some("b".to_string()));
    assert_eq!(ext("Makefile"), None);
    assert_eq!(ext(".."), None);
    assert_eq!(ext("..."), Some(String::new()));
    assert_eq!(ext(""), None);
    for name in ["index.html", "a.tar.gz", "a.", ".gitignore", ".a.b", "Makefile", "..", "..."] {
        let std = std::path::Path::new(name).extension().map(|e| e.to_str().unwrap().to_string());
        assert_eq!(ext(name), std, "{}", name);
    }
}

#[test]
fn content_types_of_names_ignore_case() {
    let of = |name: &str| mime_type_for_extension(&extension_of(name));
    assert_eq!(of("LOGO.PNG"), "image/png");
    assert_eq!(of("a.WebP"), "image/webp");
    assert_eq!(of(".html"), "application/octet-stream");
    assert_eq!(of("png"), "application/octet-stream");
    assert_eq!(mime_type_for_extension(&None), "application/octet-stream");
    for path in ["a.html", "b.min.js", "c.jpeg", "d.unknown"] {
        assert_eq!(of(path), get_mime_type(&format!("web/x/{}", path)));
        assert_eq!(get_mime_type(path), get_mime_type(&format!("web/y.css{}", path)));
    }
}

#[test]
fn the_last_name_skips_what_leads_nowhere() {
    let named = |path: &str| last_name(&split_at_slashes(path));
    assert_eq!(named("a/b.js"), Some("b.js".to_string()));
    assert_eq!(named("a/b/"), Some("b".to_string()));
    assert_eq!(named("a/./"), Some("a".to_string()));
    assert_eq!(named("./"), None);
    assert_eq!(named(""), None);
}

#[test]
fn texts_are_compared_by_their_characters() {
    assert!(same_text("", ""));
    assert!(same_text("\u{e9}", "\u{e9}"));
    assert!(!same_text("e\u{301}", "\u{e9}"));
    assert!(!same_text("abc", "abd"));
    assert!(!same_text("abc", "ab"));
    assert!(matches_ignoring_case("Design", "dESIGN"));
    assert!(!matches_ignoring_case("\u{c9}", "\u{e9}"));
    assert_eq!(to_ascii_lower("ABC[\u{c9}z"), "abc[\u{c9}z");
}

#[test]
fn texts_are_searched_and_cut() {
    assert_eq!(cut_before("/a?b#c", '?', '#'), "/a");
    assert_eq!(cut_before("/a#b?c", '?', '#'), "/a");
    assert_eq!(cut_before("/a#b?c", '?', '?'), "/a#b");
    assert_eq!(cut_before("?x", '?', '#'), "");
    assert_eq!(cut_before("/a", '?', '#'), "/a");
    assert!(has_char("a:b", ':'));
    assert!(!has_char("ab", ':'));
    assert!(finds_double_dot("a/../b"));
    assert!(finds_double_dot("a..b"));
    assert!(!finds_double_dot("a.b.c"));
    assert!(!finds_double_dot("./."));
    assert!(ends_in("x.js", ".js"));
    assert!(!ends_in("js", ".js"));
    assert!(ends_in("x", ""));
}

#[test]
fn slashes_are_trimmed_and_split_at() {
    assert_eq!(trim_leading_slashes("//a/b/"), "a/b/");
    assert_eq!(trim_leading_slashes("///"), "");
    assert_eq!(trim_leading_slashes("a"), "a");
    assert_eq!(trim_trailing_slashes("a/b//"), "a/b");
    assert_eq!(trim_trailing_slashes("//"), "");
    assert_eq!(trim_trailing_slashes("/a"), "/a");
    for text in ["", "/", "a", "/a//b/", "\u{e9}/x"] {
        let pieces = split_at_slashes(text);
        assert_eq!(pieces, text.split('/').map(str::to_string).collect::<Vec<_>>());
        assert_eq!(pieces.join("/"), text);
    }
}

#[test]
fn numbers_are_written_in_decimal() {
    for n in [0u16, 7, 10, 80, 3737, 8080, 65535] {
        assert_eq!(decimal_text(n), n.to_string());
    }
}
