//! Serving the built site of a tool, with a placeholder while there is none.
use crate::facts;
use crate::facts::Answer;
use crate::facts::Facts;
use crate::facts::FactsView;
use crate::facts::Verdict;
use crate::facts::World;
use crate::place::Place;
use crate::place::PlaceView;
use crate::request;
use crate::text;
use vstd::prelude::*;

verus! {

/// The page up to the address it is served at.
pub const PAGE_UP_TO_BASE: &'static str = "<!doctype html>\n<html lang=\"en\">\n<head>\n  <base href=\"/dx/";

/// From there to its title.
pub const PAGE_UP_TO_TITLE: &'static str = "/\">\n  <meta charset=\"utf-8\">\n  <title>";

/// From there to its heading.
pub const PAGE_UP_TO_HEADING: &'static str = "</title>\n  <style>\n    body { margin:0; height:100vh; display:flex; align-items:center; justify-content:center; background:#0a0a0a; color:#aaa; font-family: system-ui, sans-serif; }\n    .box { text-align:center; }\n    h1 { font-weight:300; letter-spacing:1px; }\n    p { opacity:0.7; font-size:14px; }\n  </style>\n</head>\n<body>\n  <div class=\"box\">\n    <h1>";

/// From there to the folder it asks for.
pub const PAGE_UP_TO_FOLDER: &'static str = "</h1>\n    <p>DX web tool preview<br>Place your built static site (index.html + assets) under assets/web/";

/// The rest of the page.
pub const PAGE_END: &'static str = "/ or the project's .dx/www/output</p>\n  </div>\n</body>\n</html>";

/// A character beyond ASCII is a letter or a number by Unicode, as `char::is_alphanumeric`
/// tells it.
pub uninterp spec fn alphanumeric_beyond_ascii(c: char) -> bool;

/// `char::is_alphanumeric` tells letters and numbers by their Unicode properties. In ASCII these
/// are the letters and digits; of other characters nothing is said but that the answer depends on
/// the character alone.
pub assume_specification[ char::is_alphanumeric ](c: char) -> (yes: bool)
    ensures
        yes == if c <= '\u{7f}' {
            'a' <= c <= 'z' || 'A' <= c <= 'Z' || '0' <= c <= '9'
        } else {
            alphanumeric_beyond_ascii(c)
        },
;

/// The character is a letter or a number.
pub open spec fn is_alphanumeric(c: char) -> bool {
    if c <= '\u{7f}' {
        'a' <= c <= 'z' || 'A' <= c <= 'Z' || '0' <= c <= '9'
    } else {
        alphanumeric_beyond_ascii(c)
    }
}

/// The character may be shown: a letter, a number, a hyphen or an underscore.
pub open spec fn is_safe(c: char) -> bool {
    is_alphanumeric(c) || c == '-' || c == '_'
}

/// The characters of a text that may be shown.
pub open spec fn safe_text(s: Seq<char>) -> Seq<char>
    decreases s.len(),
{
    if s.len() == 0 {
        Seq::empty()
    } else if is_safe(s.last()) {
        safe_text(s.drop_last()).push(s.last())
    } else {
        safe_text(s.drop_last())
    }
}

/// The page that stands in for a site, with what is shown of the tool's id.
pub open spec fn page_showing(tool: Seq<char>, safe: Seq<char>) -> Seq<char> {
    PAGE_UP_TO_BASE@ + tool + PAGE_UP_TO_TITLE@ + safe + PAGE_UP_TO_HEADING@ + safe
        + PAGE_UP_TO_FOLDER@ + safe + PAGE_END@
}

/// The page that stands in for a tool that has no built site.
pub open spec fn placeholder_page(tool: Seq<char>) -> Seq<char> {
    page_showing(tool, safe_text(tool))
}

/// The characters of a tool id that may be shown.
fn safe_name(tool: &str) -> (safe: String)
    ensures
        safe@ == safe_text(tool@),
{
    let mut safe = String::new();
    for c in it: tool.chars()
        invariant
            it.seq() == tool@,
            safe@ == safe_text(tool@.take(it.index() as int)),
    {
        let ghost so_far = tool@.take(it.index() + 1);
        assert(so_far.last() == c);
        assert(so_far.drop_last() =~= tool@.take(it.index() as int));
        if c.is_alphanumeric() || c == '-' || c == '_' {
            safe.push(c);
        }
    }
    assert(tool@.take(tool@.len() as int) =~= tool@);
    safe
}

/// The page that stands in for a site, with what is shown of the tool's id.
pub fn placeholder_showing(tool: &str, safe: &str) -> (page: String)
    ensures
        page@ == page_showing(tool@, safe@),
{
    let mut page = String::new();
    page.append(PAGE_UP_TO_BASE);
    page.append(tool);
    page.append(PAGE_UP_TO_TITLE);
    page.append(safe);
    page.append(PAGE_UP_TO_HEADING);
    page.append(safe);
    page.append(PAGE_UP_TO_FOLDER);
    page.append(safe);
    page.append(PAGE_END);
    assert(page@ =~= page_showing(tool@, safe@));
    page
}

/// The page that stands in for a tool that has no built site.
pub fn placeholder_html(tool: &str) -> (page: String)
    ensures
        page@ == placeholder_page(tool@),
{
    let safe = safe_name(tool);
    placeholder_showing(tool, safe.as_str())
}

/// How a request for a file of a tool is served.
#[derive(Debug)]
pub enum Served {
    /// The request is refused.
    BadRequest,
    /// The file at this place answers it.
    File(Place),
    /// This page answers it.
    Placeholder(String),
}

/// How a request is served, over views.
pub enum ServedView {
    BadRequest,
    File(PlaceView),
    Placeholder(Seq<char>),
}

impl DeepView for Served {
    type V = ServedView;

    open spec fn deep_view(&self) -> ServedView {
        match self {
            Served::BadRequest => ServedView::BadRequest,
            Served::File(place) => ServedView::File(place@),
            Served::Placeholder(page) => ServedView::Placeholder(page@),
        }
    }
}

/// The path asked for: the page of the site, unless the request names something.
pub open spec fn path_asked_for(req_path: Seq<char>) -> Seq<char> {
    if req_path.len() == 0 || req_path == seq!['/'] {
        "index.html"@
    } else {
        req_path
    }
}

/// The path may lead out of the site.
pub open spec fn is_refused(path: Seq<char>) -> bool {
    text::has_double_dot(path) || path.contains('\\') || path.contains(':')
}

/// How a request for a path is served: by the file it names, or the page of the directory it
/// names, or the page of the site, or the placeholder.
pub open spec fn serving(
    f: FactsView,
    root: PlaceView,
    tool: Seq<char>,
    req_path: Seq<char>,
) -> Verdict<ServedView> {
    let path = path_asked_for(req_path);
    if is_refused(path) {
        Verdict::Known(ServedView::BadRequest)
    } else {
        let place = root.join(text::without_leading_slashes(path));
        match f.dir(place) {
            Verdict::Ask(question) => Verdict::Ask(question),
            Verdict::Known(is_dir) => {
                let target = request::file_asked_for(place, is_dir);
                match f.file(target) {
                    Verdict::Ask(question) => Verdict::Ask(question),
                    Verdict::Known(true) => Verdict::Known(ServedView::File(target)),
                    Verdict::Known(false) => match f.file(root.join("index.html"@)) {
                        Verdict::Ask(question) => Verdict::Ask(question),
                        Verdict::Known(true) => Verdict::Known(
                            ServedView::File(root.join("index.html"@)),
                        ),
                        Verdict::Known(false) => Verdict::Known(
                            ServedView::Placeholder(placeholder_page(tool)),
                        ),
                    },
                }
            },
        }
    }
}

/// Decides how a request for a file of a tool is served.
pub fn serve_dx_file_direct(root: &Place, tool: &str, req_path: &str, known: &Facts) -> (answer:
    Answer<Served>)
    ensures
        answer.deep_view() == serving(known@, root@, tool@, req_path@),
{
    proof {
        reveal_strlit("/");
        assert("/"@ =~= seq!['/']);
    }
    let path = if req_path.is_empty() || text::same_text(req_path, "/") {
        "index.html"
    } else {
        req_path
    };
    if text::finds_double_dot(path) || text::has_char(path, '\\') || text::has_char(path, ':') {
        return Answer::Known(Served::BadRequest);
    }
    let trimmed = text::trim_leading_slashes(path);
    let mut target = root.join(trimmed.as_str());
    match known.is_dir(&target) {
        Answer::Ask(question) => {
            return Answer::Ask(question);
        },
        Answer::Known(true) => {
            target = target.join("index.html");
        },
        Answer::Known(false) => {},
    }
    match known.is_file(&target) {
        Answer::Ask(question) => {
            return Answer::Ask(question);
        },
        Answer::Known(true) => {
            return Answer::Known(Served::File(target));
        },
        Answer::Known(false) => {},
    }
    let index = root.join("index.html");
    match known.is_file(&index) {
        Answer::Ask(question) => Answer::Ask(question),
        Answer::Known(true) => Answer::Known(Served::File(index)),
        Answer::Known(false) => Answer::Known(Served::Placeholder(placeholder_html(tool))),
    }
}

/// Only characters that may be shown are shown. A text of such characters is shown as it is.
pub proof fn law_safe_text_is_safe(s: Seq<char>)
    ensures
        forall|i: int| 0 <= i < safe_text(s).len() ==> is_safe(#[trigger] safe_text(s)[i]),
        (forall|i: int| 0 <= i < s.len() ==> is_safe(#[trigger] s[i])) ==> safe_text(s) == s,
        safe_text(safe_text(s)) == safe_text(s),
    decreases s.len(),
{
    if s.len() > 0 {
        let before = s.drop_last();
        law_safe_text_is_safe(before);
        assert(s =~= before.push(s.last()));
        if is_safe(s.last()) {
            assert(safe_text(s).drop_last() =~= safe_text(before));
            if forall|i: int| 0 <= i < s.len() ==> is_safe(#[trigger] s[i]) {
                assert forall|i: int| 0 <= i < before.len() implies is_safe(
                    #[trigger] before[i],
                ) by {
                    assert(before[i] == s[i]);
                }
            }
        } else {
            assert(s.last() == s[s.len() - 1]);
        }
    }
}

/// The last piece ends as the text does.
proof fn lemma_last_piece_ends_text(s: Seq<char>)
    ensures
        text::slash_pieces(s).len() >= 1,
        text::slash_pieces(s).last().len() > 0 ==> s.len() > 0 && s.last() == text::slash_pieces(
            s,
        ).last().last(),
    decreases s.len(),
{
    if s.len() > 0 {
        lemma_last_piece_ends_text(s.drop_last());
    }
}

/// A text without a double dot has no piece with one.
proof fn lemma_no_double_dot_in_pieces(s: Seq<char>)
    requires
        !text::has_double_dot(s),
    ensures
        forall|i: int|
            0 <= i < text::slash_pieces(s).len() ==> !text::has_double_dot(
                #[trigger] text::slash_pieces(s)[i],
            ),
    decreases s.len(),
{
    if s.len() > 0 {
        let rest = s.drop_last();
        let before = text::slash_pieces(rest);
        let pieces = text::slash_pieces(s);
        assert(!text::has_double_dot(rest)) by {
            if text::has_double_dot(rest) {
                let k = choose|k: int|
                    0 <= k < rest.len() - 1 && #[trigger] rest[k] == '.' && rest[k + 1] == '.';
                assert(s[k] == '.' && s[k + 1] == '.');
            }
        }
        lemma_no_double_dot_in_pieces(rest);
        lemma_last_piece_ends_text(rest);
        assert forall|i: int| 0 <= i < pieces.len() implies !text::has_double_dot(
            #[trigger] pieces[i],
        ) by {
            if i < before.len() - 1 || (s.last() == '/' && i < before.len()) {
                assert(pieces[i] == before[i]);
            } else if s.last() != '/' {
                let piece = before[i];
                let grown = piece.push(s.last());
                assert(pieces[i] == grown);
                if text::has_double_dot(grown) {
                    let k = choose|k: int|
                        0 <= k < grown.len() - 1 && #[trigger] grown[k] == '.' && grown[k + 1]
                            == '.';
                    if k < piece.len() - 1 {
                        assert(piece[k] == '.' && piece[k + 1] == '.');
                    } else {
                        assert(piece.last() == '.');
                        assert(s[s.len() - 2] == '.' && s[s.len() - 2 + 1] == '.');
                    }
                }
            }
        }
    }
}

/// Taking slashes off the front leaves no other characters than there were.
proof fn lemma_trimmed_keeps_out(s: Seq<char>)
    ensures
        text::without_leading_slashes(s).len() > 0 ==> text::without_leading_slashes(s)[0] != '/',
        !text::has_double_dot(s) ==> !text::has_double_dot(text::without_leading_slashes(s)),
        forall|c: char|
            !s.contains(c) ==> !(#[trigger] text::without_leading_slashes(s).contains(c)),
    decreases s.len(),
{
    if s.len() > 0 && s[0] == '/' {
        let rest = s.drop_first();
        lemma_trimmed_keeps_out(rest);
        if text::has_double_dot(rest) {
            let k = choose|k: int|
                0 <= k < rest.len() - 1 && #[trigger] rest[k] == '.' && rest[k + 1] == '.';
            assert(s[k + 1] == '.' && s[k + 1 + 1] == '.');
        }
        assert forall|c: char| !s.contains(c) implies !(#[trigger] text::without_leading_slashes(
            s,
        ).contains(c)) by {
            if rest.contains(c) {
                let k = choose|k: int| 0 <= k < rest.len() && rest[k] == c;
                assert(s[k + 1] == c);
            }
        }
    }
}

/// A path that keeps below the directory it is joined to: it does not start anew, none of its
/// pieces is the parent directory, and it holds neither a backslash nor a colon.
pub open spec fn path_keeps_below(path: Seq<char>) -> bool {
    &&& path.len() > 0 ==> path[0] != '/'
    &&& forall|i: int|
        0 <= i < text::slash_pieces(path).len() ==> #[trigger] text::slash_pieces(path)[i] != seq![
            '.',
            '.',
        ]
    &&& !path.contains('\\')
    &&& !path.contains(':')
}

/// The places at which a request for a path may be answered.
pub open spec fn answering_places(root: PlaceView, path: Seq<char>) -> Seq<PlaceView> {
    seq![root.join(path), root.join(path).join("index.html"@), root.join("index.html"@)]
}

/// No request leaves the site: the file that answers it is one of three places below the root,
/// and the path to it keeps below.
pub proof fn law_served_file_is_below_root(
    f: FactsView,
    root: PlaceView,
    tool: Seq<char>,
    req_path: Seq<char>,
)
    ensures
        serving(f, root, tool, req_path) matches Verdict::Known(ServedView::File(file)) ==> {
            let path = text::without_leading_slashes(path_asked_for(req_path));
            &&& path_keeps_below(path)
            &&& answering_places(root, path).contains(file)
            &&& f.file(file) == Verdict::Known(true)
        },
{
    if let Verdict::Known(ServedView::File(file)) = serving(f, root, tool, req_path) {
        let asked = path_asked_for(req_path);
        let path = text::without_leading_slashes(asked);
        lemma_trimmed_keeps_out(asked);
        lemma_no_double_dot_in_pieces(path);
        assert forall|i: int| 0 <= i < text::slash_pieces(path).len() implies
        #[trigger] text::slash_pieces(path)[i] != seq!['.', '.'] by {
            let piece = text::slash_pieces(path)[i];
            if piece == seq!['.', '.'] {
                let first: int = 0;
                assert(piece[first] == '.' && piece[first + 1] == '.');
            }
        }
        let places = answering_places(root, path);
        assert(places[0] == root.join(path));
        assert(places[1] == root.join(path).join("index.html"@));
        assert(places[2] == root.join("index.html"@));
    }
}

/// How a request is served in a file system that does not change.
pub open spec fn served_in(
    w: World,
    root: PlaceView,
    tool: Seq<char>,
    req_path: Seq<char>,
) -> ServedView {
    let path = path_asked_for(req_path);
    let place = root.join(text::without_leading_slashes(path));
    let target = request::file_asked_for(place, (w.is_dir)(place));
    if is_refused(path) {
        ServedView::BadRequest
    } else if (w.is_file)(target) {
        ServedView::File(target)
    } else if (w.is_file)(root.join("index.html"@)) {
        ServedView::File(root.join("index.html"@))
    } else {
        ServedView::Placeholder(placeholder_page(tool))
    }
}

/// However a request is served, it is so in every file system in which the facts hold, and what
/// is asked is not known yet.
pub proof fn law_serving_is_right(
    w: World,
    f: FactsView,
    root: PlaceView,
    tool: Seq<char>,
    req_path: Seq<char>,
)
    requires
        w.agrees(f),
    ensures
        facts::settles(serving(f, root, tool, req_path), served_in(w, root, tool, req_path)),
        facts::asks_news(serving(f, root, tool, req_path), f),
{
}

/// The page in full: the id of the tool stands in its address, and what may be shown of it in its
/// title, its heading and the folder it asks for.
pub proof fn law_page_in_full(tool: Seq<char>, safe: Seq<char>)
    ensures
        page_showing(tool, safe) == "<!doctype html>\n<html lang=\"en\">\n<head>\n  <base href=\"/dx/"@ + tool
            + "/\">\n  <meta charset=\"utf-8\">\n  <title>"@ + safe
            + "</title>\n  <style>\n    body { margin:0; height:100vh; display:flex; align-items:center; justify-content:center; background:#0a0a0a; color:#aaa; font-family: system-ui, sans-serif; }\n    .box { text-align:center; }\n    h1 { font-weight:300; letter-spacing:1px; }\n    p { opacity:0.7; font-size:14px; }\n  </style>\n</head>\n<body>\n  <div class=\"box\">\n    <h1>"@
            + safe
            + "</h1>\n    <p>DX web tool preview<br>Place your built static site (index.html + assets) under assets/web/"@
            + safe + "/ or the project's .dx/www/output</p>\n  </div>\n</body>\n</html>"@,
        placeholder_page(tool) == page_showing(tool, safe_text(tool)),
{
}

/// What may be shown of a text are its letters, numbers, hyphens and underscores, all of them and
/// in their order.
pub proof fn law_safe_text_is_all_that_may_be_shown(s: Seq<char>)
    ensures
        safe_text(s) == s.filter(
            |c: char|
                ('a' <= c <= 'z') || ('A' <= c <= 'Z') || ('0' <= c <= '9') || c == '-' || c == '_'
                    || (c > '\u{7f}' && alphanumeric_beyond_ascii(c)),
        ),
    decreases s.len(),
{
    reveal(Seq::filter);
    if s.len() > 0 {
        law_safe_text_is_all_that_may_be_shown(s.drop_last());
    }
}

/// A request is refused exactly if its path holds two dots side by side, a backslash or a colon.
pub proof fn law_refusal_is_told_by_the_path(
    w: World,
    root: PlaceView,
    tool: Seq<char>,
    req_path: Seq<char>,
)
    ensures
        served_in(w, root, tool, req_path) == ServedView::BadRequest <==> req_path.contains('\\')
            || req_path.contains(':') || exists|i: int|
            0 <= i && i + 2 <= req_path.len() && #[trigger] req_path.subrange(i, i + 2) == seq![
                '.',
                '.',
            ],
{
    let path = path_asked_for(req_path);
    text::law_double_dot_is_a_part(req_path);
    if req_path.len() == 0 || req_path == seq!['/'] {
        reveal_strlit("index.html");
        let page = "index.html"@;
        assert(!text::has_double_dot(page));
        assert(!text::has_double_dot(req_path));
        assert(!page.contains('\\') && !page.contains(':'));
        assert(!req_path.contains('\\') && !req_path.contains(':'));
    }
}

/// How a request that is not refused is served. The path is joined to the root without the slashes
/// in front of it. A directory is answered with its page, a file with itself, what is neither with
/// the page of the site, and without that with the placeholder.
pub proof fn law_request_is_served(
    w: World,
    root: PlaceView,
    tool: Seq<char>,
    n: nat,
    path: Seq<char>,
)
    requires
        path.len() == 0 || path[0] != '/',
        path.len() > 0 || n >= 2,
        !path.contains('\\'),
        !path.contains(':'),
        !text::has_double_dot(path),
    ensures
        ({
            let req_path = Seq::new(n, |i: int| '/') + path;
            let served = served_in(w, root, tool, req_path);
            let target = root.join(path);
            let page = target.join("index.html"@);
            let own = root.join("index.html"@);
            let found = if (w.is_dir)(target) {
                (w.is_file)(page)
            } else {
                (w.is_file)(target)
            };
            &&& (w.is_dir)(target) && (w.is_file)(page) ==> served == ServedView::File(page)
            &&& !(w.is_dir)(target) && (w.is_file)(target) ==> served == ServedView::File(target)
            &&& !found && (w.is_file)(own) ==> served == ServedView::File(own)
            &&& !found && !(w.is_file)(own) ==> served == ServedView::Placeholder(
                placeholder_page(tool),
            )
        }),
{
    let front = Seq::new(n, |i: int| '/');
    let req_path = front + path;
    text::law_leading_slashes_are_taken_off(n, path);
    if req_path == seq!['/'] {
        assert(req_path.len() == 1);
        if n == 0 {
            assert(req_path[0] == path[0]);
        } else {
            assert(n == 1 && path.len() == 0);
        }
    }
    assert(!is_refused(req_path)) by {
        lemma_slashes_refuse_nothing(n, path);
    }
}

/// Slashes in front of a path are no reason to refuse it.
proof fn lemma_slashes_refuse_nothing(n: nat, path: Seq<char>)
    requires
        !is_refused(path),
    ensures
        !is_refused(Seq::new(n, |i: int| '/') + path),
{
    let whole = Seq::new(n, |i: int| '/') + path;
    assert forall|c: char| c != '/' && !path.contains(c) implies !(#[trigger] whole.contains(
        c,
    )) by {
        if whole.contains(c) {
            let k = choose|k: int| 0 <= k < whole.len() && whole[k] == c;
            assert(path[k - n] == c);
        }
    }
    if text::has_double_dot(whole) {
        let k = choose|k: int|
            0 <= k < whole.len() - 1 && #[trigger] whole[k] == '.' && whole[k + 1] == '.';
        assert(path[k - n] == '.' && path[k - n + 1] == '.');
    }
}

/// A request for nothing, or for a single slash, is one for the page of the site.
pub proof fn law_nothing_asks_for_the_page(w: World, root: PlaceView, tool: Seq<char>)
    ensures
        served_in(w, root, tool, Seq::empty()) == served_in(w, root, tool, "index.html"@),
        served_in(w, root, tool, seq!['/']) == served_in(w, root, tool, "index.html"@),
{
}

/// The view of what is served holds all of it.
pub proof fn law_view_holds_what_is_served(place: Place, page: String)
    ensures
        Served::BadRequest.deep_view() == ServedView::BadRequest,
        Served::File(place).deep_view() == ServedView::File(place@),
        Served::Placeholder(page).deep_view() == ServedView::Placeholder(page@),
{
}

/// A path keeps below exactly if it does not begin with a slash, has no parent directory for a
/// piece, and holds neither a backslash nor a colon.
pub proof fn law_path_keeps_below_by_pieces(path: Seq<char>)
    ensures
        path_keeps_below(path) <==> (path.len() > 0 ==> path[0] != '/') && !path.contains('\\')
            && !path.contains(':') && forall|i: int|
            0 <= i < text::slash_pieces(path).len() ==> #[trigger] text::slash_pieces(path)[i]
                != seq!['.', '.'],
{
}

} // verus!
