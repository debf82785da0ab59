//! From the URL of a request to the file that answers it.
use crate::facts;
use crate::facts::Answer;
use crate::facts::Facts;
use crate::facts::FactsView;
use crate::facts::Verdict;
use crate::facts::World;
use crate::mime;
use crate::percent;
use crate::place::Leg;
use crate::place::LegView;
use crate::place::Place;
use crate::place::PlaceView;
use crate::text;
use vstd::prelude::*;

verus! {

/// A piece of a path that leads nowhere: it is empty or the current directory.
pub open spec fn leads_nowhere(piece: Seq<char>) -> bool {
    piece.len() == 0 || piece == seq!['.']
}

/// A piece of a path that no request may have: the parent directory, or a piece with a
/// backslash or a colon.
pub open spec fn is_forbidden(piece: Seq<char>) -> bool {
    piece == seq!['.', '.'] || piece.contains('\\') || piece.contains(':')
}

/// The pieces that lead somewhere.
pub open spec fn leading_pieces(pieces: Seq<Seq<char>>) -> Seq<Seq<char>>
    decreases pieces.len(),
{
    if pieces.len() == 0 {
        Seq::empty()
    } else if leads_nowhere(pieces.last()) {
        leading_pieces(pieces.drop_last())
    } else {
        leading_pieces(pieces.drop_last()).push(pieces.last())
    }
}

/// The pieces that lead somewhere, unless one of the pieces is forbidden.
pub open spec fn accepted_pieces(pieces: Seq<Seq<char>>) -> Option<Seq<Seq<char>>> {
    if exists|i: int| 0 <= i < pieces.len() && is_forbidden(#[trigger] pieces[i]) {
        None
    } else {
        Some(leading_pieces(pieces))
    }
}

/// The pieces of a decoded path that lead somewhere, unless one of its pieces is forbidden.
pub open spec fn path_parts(decoded: Seq<char>) -> Option<Seq<Seq<char>>> {
    accepted_pieces(text::slash_pieces(text::without_leading_slashes(decoded)))
}

/// The path in a URL: what stands before its query and its fragment, decoded.
pub open spec fn path_in_url(url: Seq<char>) -> Seq<char> {
    percent::percent_decoded(text::before_first(url, '?', '#'))
}

/// The place that the parts of a path lead to below the root.
pub open spec fn place_below(root: PlaceView, parts: Seq<Seq<char>>) -> PlaceView {
    root.join(Seq::empty()).join_all(parts)
}

/// The file asked for: the page of a directory, else the place itself.
pub open spec fn file_asked_for(target: PlaceView, is_dir: bool) -> PlaceView {
    if is_dir {
        target.join("index.html"@)
    } else {
        target
    }
}

/// The last of the parts names a file with an extension.
pub open spec fn has_extension(parts: Seq<Seq<char>>) -> bool {
    parts.len() > 0 && mime::extension(parts.last()) is Some
}

/// The file that answers a request for the parts of a path. A request without an extension that
/// leads to no file is answered by the page of the root.
pub open spec fn resolved_parts(f: FactsView, root: PlaceView, parts: Seq<Seq<char>>) -> Verdict<
    Option<PlaceView>,
> {
    match f.dir(place_below(root, parts)) {
        Verdict::Ask(question) => Verdict::Ask(question),
        Verdict::Known(is_dir) => {
            let target = file_asked_for(place_below(root, parts), is_dir);
            match f.file(target) {
                Verdict::Ask(question) => Verdict::Ask(question),
                Verdict::Known(true) => Verdict::Known(Some(target)),
                Verdict::Known(false) => if has_extension(parts) {
                    Verdict::Known(None)
                } else {
                    match f.file(root.join("index.html"@)) {
                        Verdict::Ask(question) => Verdict::Ask(question),
                        Verdict::Known(true) => Verdict::Known(Some(root.join("index.html"@))),
                        Verdict::Known(false) => Verdict::Known(None),
                    }
                },
            }
        },
    }
}

/// The file that answers a request for a decoded path. A forbidden path has none.
pub open spec fn resolved_path(f: FactsView, root: PlaceView, decoded: Seq<char>) -> Verdict<
    Option<PlaceView>,
> {
    match path_parts(decoded) {
        None => Verdict::Known(None),
        Some(parts) => resolved_parts(f, root, parts),
    }
}

/// The file that answers a request for a URL.
pub open spec fn resolved_url(f: FactsView, root: PlaceView, url: Seq<char>) -> Verdict<
    Option<PlaceView>,
> {
    resolved_path(f, root, path_in_url(url))
}

/// The pieces of a decoded path that lead somewhere, or `None` if one is forbidden.
pub fn request_parts(decoded: &str) -> (parts: Option<Vec<String>>)
    ensures
        parts.deep_view() == path_parts(decoded@),
{
    let trimmed = text::trim_leading_slashes(decoded);
    let pieces = text::split_at_slashes(trimmed.as_str());
    let ghost all = pieces.deep_view();
    proof {
        reveal_strlit(".");
        reveal_strlit("..");
        assert("."@ =~= seq!['.']);
        assert(".."@ =~= seq!['.', '.']);
    }
    let mut parts: Vec<String> = Vec::new();
    let mut i: usize = 0;
    assert(parts.deep_view() =~= leading_pieces(all.take(0)));
    while i < pieces.len()
        invariant
            i <= pieces.len(),
            all == pieces.deep_view(),
            all == text::slash_pieces(text::without_leading_slashes(decoded@)),
            "."@ == seq!['.'],
            ".."@ == seq!['.', '.'],
            forall|j: int| 0 <= j < i ==> !is_forbidden(#[trigger] all[j]),
            parts.deep_view() == leading_pieces(all.take(i as int)),
        decreases pieces.len() - i,
    {
        let piece = pieces[i].as_str();
        let ghost so_far = all.take(i + 1);
        assert(so_far.last() == piece@);
        assert(so_far.drop_last() =~= all.take(i as int));
        if text::same_text(piece, "..") || text::has_char(piece, '\\') || text::has_char(
            piece,
            ':',
        ) {
            assert(is_forbidden(all[i as int]));
            return None;
        }
        if !(piece.is_empty() || text::same_text(piece, ".")) {
            let ghost before = parts.deep_view();
            parts.push(piece.to_owned());
            assert(parts.deep_view() =~= before.push(piece@));
        }
        i += 1;
    }
    assert(all.take(i as int) =~= all);
    Some(parts)
}

/// The place that the parts of a path lead to below the root.
fn join_parts(root: &Place, parts: &Vec<String>) -> (target: Place)
    ensures
        target@ == place_below(root@, parts.deep_view()),
{
    let mut target = root.join("");
    let ghost texts = parts.deep_view();
    let ghost start = target@;
    proof {
        reveal_strlit("");
        assert(""@ =~= Seq::<char>::empty());
        assert(start =~= start.join_all(texts.take(0)));
    }
    let mut i: usize = 0;
    while i < parts.len()
        invariant
            i <= parts.len(),
            texts == parts.deep_view(),
            target@ == start.join_all(texts.take(i as int)),
        decreases parts.len() - i,
    {
        let ghost before = target@;
        target.legs.push(Leg::Join(parts[i].as_str().to_owned()));
        assert(target@ =~= before.join(texts[i as int]));
        assert(target@ =~= start.join_all(texts.take(i + 1)));
        i += 1;
    }
    assert(texts.take(i as int) =~= texts);
    target
}

/// Finds the file that answers a request for a decoded path.
pub fn resolve_decoded_path(root: &Place, decoded: &str, known: &Facts) -> (answer: Answer<
    Option<Place>,
>)
    ensures
        answer.deep_view() == resolved_path(known@, root@, decoded@),
{
    let parts = match request_parts(decoded) {
        None => {
            return Answer::Known(None);
        },
        Some(parts) => parts,
    };
    let mut target = join_parts(root, &parts);
    match known.is_dir(&target) {
        Answer::Ask(question) => {
            return Answer::Ask(question);
        },
        Answer::Known(true) => {
            target = target.join("index.html");
        },
        Answer::Known(false) => {},
    }
    match known.is_file(&target) {
        Answer::Ask(question) => {
            return Answer::Ask(question);
        },
        Answer::Known(true) => {
            return Answer::Known(Some(target));
        },
        Answer::Known(false) => {},
    }
    let n: usize = parts.len();
    let extension = if n > 0 {
        mime::extension_of(parts[n - 1].as_str())
    } else {
        None
    };
    assert(extension is Some <==> has_extension(parts.deep_view()));
    if extension.is_some() {
        return Answer::Known(None);
    }
    let index = root.join("index.html");
    match known.is_file(&index) {
        Answer::Ask(question) => Answer::Ask(question),
        Answer::Known(true) => Answer::Known(Some(index)),
        Answer::Known(false) => Answer::Known(None),
    }
}

/// Finds the file that answers a request for a URL.
pub fn resolve_request_path(root: &Place, url: &str, known: &Facts) -> (answer: Answer<
    Option<Place>,
>)
    ensures
        answer.deep_view() == resolved_url(known@, root@, url@),
{
    let path = text::cut_before(url, '?', '#');
    let decoded = percent::percent_decode(path.as_str());
    resolve_decoded_path(root, decoded.as_str(), known)
}

/// The last name of a place, where its last step tells it: a joined text that ends in a name and
/// holds neither a backslash nor a colon, which some systems read in a way of their own.
pub open spec fn told_name(place: PlaceView) -> Option<Seq<char>> {
    if place.legs.len() == 0 {
        None
    } else {
        match place.legs.last() {
            LegView::Join(text) => if text.contains('\\') || text.contains(':') {
                None
            } else {
                mime::last_named(text::slash_pieces(text))
            },
            LegView::Entry(_, _) => None,
        }
    }
}

/// The extension of the path of a place: that of its last name, where its last step tells it,
/// else as the system reads the path.
pub open spec fn extension_at(f: FactsView, place: PlaceView) -> Verdict<Option<Seq<char>>> {
    match told_name(place) {
        Some(name) => Verdict::Known(mime::extension(name)),
        None => f.extension(place),
    }
}

/// The content type of the file at a place, by the extension of its path in any case.
pub open spec fn mime_type_at(f: FactsView, place: PlaceView) -> Verdict<Seq<char>> {
    match extension_at(f, place) {
        Verdict::Ask(question) => Verdict::Ask(question),
        Verdict::Known(ext) => Verdict::Known(mime::mime_type_of_extension(ext)),
    }
}

/// The last name of a place, where its last step tells it.
fn name_told(place: &Place) -> (name: Option<String>)
    ensures
        name.deep_view() == told_name(place@),
{
    let n: usize = place.legs.len();
    if n == 0 {
        return None;
    }
    assert(place@.legs.last() == place.legs[n - 1].deep_view());
    match &place.legs[n - 1] {
        Leg::Join(text) => {
            if text::has_char(text.as_str(), '\\') || text::has_char(text.as_str(), ':') {
                return None;
            }
            let pieces = text::split_at_slashes(text.as_str());
            mime::last_name(&pieces)
        },
        Leg::Entry(_, _) => None,
    }
}

/// The content type of the file at a place, by the extension of its path in any case.
pub fn mime_type_for(place: &Place, known: &Facts) -> (answer: Answer<&'static str>)
    ensures
        answer.deep_view() == mime_type_at(known@, place@),
{
    match name_told(place) {
        Some(name) => {
            let ext = mime::extension_of(name.as_str());
            Answer::Known(mime::mime_type_for_extension(&ext))
        },
        None => match known.extension(place) {
            Answer::Ask(question) => Answer::Ask(question),
            Answer::Known(ext) => Answer::Known(mime::mime_type_for_extension(ext)),
        },
    }
}

/// The content type of the file at a place.
pub open spec fn mime_type_in(w: World, place: PlaceView) -> Seq<char> {
    match told_name(place) {
        Some(name) => mime::mime_type_of_name(name),
        None => mime::mime_type_of_extension((w.extension)(place)),
    }
}

/// Whatever content type is given is the one of every file system in which the facts hold, and
/// what is asked is not known yet.
pub proof fn law_content_type_is_right(w: World, f: FactsView, place: PlaceView)
    requires
        w.agrees(f),
    ensures
        facts::settles(mime_type_at(f, place), mime_type_in(w, place)),
        facts::asks_news(mime_type_at(f, place), f),
{
}

/// A plain name tells the content type of the file: nothing has to be asked.
pub proof fn law_plain_name_tells_content_type(f: FactsView, dir: PlaceView, name: Seq<char>)
    requires
        keeps_below(name),
        !leads_nowhere(name),
    ensures
        mime_type_at(f, dir.join(name)) == Verdict::Known(mime::mime_type_of_name(name)),
{
    let place = dir.join(name);
    assert(place.legs.last() == LegView::Join(name));
    lemma_single_piece(name);
    assert(mime::last_named(seq![name]) == Some(name));
}

/// A text without a slash is one piece.
proof fn lemma_single_piece(s: Seq<char>)
    requires
        !s.contains('/'),
    ensures
        text::slash_pieces(s) == seq![s],
{
    text::law_slashes_part_pieces(s, Seq::empty());
}

/// A text that keeps below the directory it is joined to: one name at most, and not the parent
/// directory nor anything with a drive in it.
pub open spec fn keeps_below(text: Seq<char>) -> bool {
    &&& text != seq!['.', '.']
    &&& !text.contains('/')
    &&& !text.contains('\\')
    &&& !text.contains(':')
}

/// The place is reached from the root by steps that keep below it.
pub open spec fn is_below(root: PlaceView, place: PlaceView) -> bool {
    &&& place.base == root.base
    &&& place.up == root.up
    &&& root.legs.is_prefix_of(place.legs)
    &&& forall|i: int|
        root.legs.len() <= i < place.legs.len() ==> (#[trigger] place.legs[i] matches LegView::Join(
            text,
        ) && keeps_below(text))
}

/// The pieces that lead somewhere are among the pieces.
proof fn lemma_leading_pieces(pieces: Seq<Seq<char>>)
    ensures
        forall|i: int|
            0 <= i < leading_pieces(pieces).len() ==> pieces.contains(
                #[trigger] leading_pieces(pieces)[i],
            ) && !leads_nowhere(leading_pieces(pieces)[i]),
    decreases pieces.len(),
{
    if pieces.len() > 0 {
        let before = pieces.drop_last();
        lemma_leading_pieces(before);
        assert(pieces.last() == pieces[pieces.len() - 1]);
        assert forall|i: int| 0 <= i < leading_pieces(pieces).len() implies pieces.contains(
            #[trigger] leading_pieces(pieces)[i],
        ) && !leads_nowhere(leading_pieces(pieces)[i]) by {
            if i < leading_pieces(before).len() {
                let piece = leading_pieces(before)[i];
                assert(leading_pieces(pieces)[i] == piece);
                let k = choose|k: int| 0 <= k < before.len() && before[k] == piece;
                assert(pieces[k] == piece);
            }
        }
    }
}

/// No part of an accepted path leads up or out, or nowhere.
pub proof fn law_parts_keep_below(decoded: Seq<char>)
    ensures
        path_parts(decoded) matches Some(parts) ==> forall|i: int|
            0 <= i < parts.len() ==> keeps_below(#[trigger] parts[i]) && !leads_nowhere(parts[i]),
{
    let path = text::without_leading_slashes(decoded);
    let pieces = text::slash_pieces(path);
    text::law_pieces_rejoin(path);
    lemma_leading_pieces(pieces);
    if let Some(parts) = path_parts(decoded) {
        assert forall|i: int| 0 <= i < parts.len() implies keeps_below(#[trigger] parts[i])
            && !leads_nowhere(parts[i]) by {
            let k = choose|k: int| 0 <= k < pieces.len() && pieces[k] == parts[i];
            assert(!is_forbidden(pieces[k]));
        }
    }
}

/// No request leaves the root: the file that answers it is reached from the root by names alone.
pub proof fn law_request_stays_below_root(f: FactsView, root: PlaceView, url: Seq<char>)
    ensures
        resolved_url(f, root, url) matches Verdict::Known(Some(file)) ==> is_below(root, file),
{
    let decoded = path_in_url(url);
    reveal_strlit("index.html");
    let page = "index.html"@;
    law_parts_keep_below(decoded);
    if let Some(parts) = path_parts(decoded) {
        let target = place_below(root, parts);
        assert forall|i: int| root.legs.len() <= i < target.legs.len() implies (
        #[trigger] target.legs[i] matches LegView::Join(text) && keeps_below(text)) by {
            let start = root.legs.push(LegView::Join(Seq::empty()));
            if i > root.legs.len() {
                assert(target.legs[i] == LegView::Join(parts[i - start.len()]));
            } else {
                assert(target.legs[i] == LegView::Join(Seq::empty()));
                assert(Seq::<char>::empty().len() != seq!['.', '.'].len());
            }
        }
        assert(root.legs =~= target.legs.subrange(0, root.legs.len() as int));
        assert(is_below(root, target));
        assert(keeps_below(page)) by {
            assert(page != seq!['.', '.']) by {
                assert(page.len() != 2);
            }
        }
        let deeper = target.join(page);
        assert(root.legs =~= deeper.legs.subrange(0, root.legs.len() as int));
        assert(is_below(root, deeper));
        let own = root.join(page);
        assert(root.legs =~= own.legs.subrange(0, root.legs.len() as int));
        assert(is_below(root, own));
    }
}

/// A request is answered by a file only if the file is known to be there.
pub proof fn law_request_finds_a_file(f: FactsView, root: PlaceView, url: Seq<char>)
    ensures
        resolved_url(f, root, url) matches Verdict::Known(Some(file)) ==> f.file(file)
            == Verdict::Known(true),
{
}

/// The file that answers a request for a decoded path.
pub open spec fn file_for(w: World, root: PlaceView, decoded: Seq<char>) -> Option<PlaceView> {
    match path_parts(decoded) {
        None => None,
        Some(parts) => {
            let target = place_below(root, parts);
            let file = file_asked_for(target, (w.is_dir)(target));
            if (w.is_file)(file) {
                Some(file)
            } else if !has_extension(parts) && (w.is_file)(root.join("index.html"@)) {
                Some(root.join("index.html"@))
            } else {
                None
            }
        },
    }
}

/// Whatever file is given is the one of every file system in which the facts hold, and what is
/// asked is not known yet.
pub proof fn law_request_search_is_right(w: World, f: FactsView, root: PlaceView, url: Seq<char>)
    requires
        w.agrees(f),
    ensures
        facts::settles(resolved_url(f, root, url), file_for(w, root, path_in_url(url))),
        facts::asks_news(resolved_url(f, root, url), f),
{
}

/// A request for a directory with a page is answered by that page.
pub proof fn law_directory_gives_its_page(w: World, root: PlaceView, decoded: Seq<char>)
    requires
        path_parts(decoded) is Some,
        (w.is_dir)(place_below(root, path_parts(decoded)->0)),
        (w.is_file)(place_below(root, path_parts(decoded)->0).join("index.html"@)),
    ensures
        file_for(w, root, decoded) == Some(
            place_below(root, path_parts(decoded)->0).join("index.html"@),
        ),
{
}

/// A single-page site always loads: an accepted request without an extension finds a file, as
/// long as the root has a page.
pub proof fn law_extensionless_request_loads(w: World, root: PlaceView, decoded: Seq<char>)
    requires
        path_parts(decoded) is Some,
        !has_extension(path_parts(decoded)->0),
        (w.is_file)(root.join("index.html"@)),
    ensures
        file_for(w, root, decoded) is Some,
{
}

/// A path with the parent directory for a piece is refused, however it is spelled in the URL.
pub proof fn law_parent_directory_is_refused(
    f: FactsView,
    root: PlaceView,
    url: Seq<char>,
    i: int,
)
    requires
        0 <= i < text::slash_pieces(text::without_leading_slashes(path_in_url(url))).len(),
        text::slash_pieces(text::without_leading_slashes(path_in_url(url)))[i] == seq!['.', '.'],
    ensures
        resolved_url(f, root, url) == Verdict::<Option<PlaceView>>::Known(None),
{
    assert(is_forbidden(
        text::slash_pieces(text::without_leading_slashes(path_in_url(url)))[i],
    ));
}

/// A piece in front that leads nowhere changes nothing.
proof fn lemma_nowhere_in_front(piece: Seq<char>, pieces: Seq<Seq<char>>)
    requires
        leads_nowhere(piece),
    ensures
        leading_pieces(seq![piece] + pieces) == leading_pieces(pieces),
        accepted_pieces(seq![piece] + pieces) == accepted_pieces(pieces),
    decreases pieces.len(),
{
    let all = seq![piece] + pieces;
    if pieces.len() == 0 {
        assert(all.drop_last() =~= pieces);
    } else {
        lemma_nowhere_in_front(piece, pieces.drop_last());
        assert(all.drop_last() =~= seq![piece] + pieces.drop_last());
        assert(all.last() == pieces.last());
    }
    assert(!is_forbidden(piece)) by {
        assert(seq!['.'].len() != seq!['.', '.'].len());
        assert(piece.len() == 0 || piece[0] == '.');
    }
    if exists|i: int| 0 <= i < pieces.len() && is_forbidden(#[trigger] pieces[i]) {
        let i = choose|i: int| 0 <= i < pieces.len() && is_forbidden(#[trigger] pieces[i]);
        assert(all[i + 1] == pieces[i]);
    }
    if exists|i: int| 0 <= i < all.len() && is_forbidden(#[trigger] all[i]) {
        let i = choose|i: int| 0 <= i < all.len() && is_forbidden(#[trigger] all[i]);
        assert(i > 0);
        assert(pieces[i - 1] == all[i]);
    }
}

/// A text with a slash behind it, in front of another text, is a piece of its own.
proof fn lemma_piece_in_front(piece: Seq<char>, rest: Seq<char>)
    requires
        !piece.contains('/'),
    ensures
        text::slash_pieces(piece.push('/') + rest) == seq![piece] + text::slash_pieces(rest),
{
    text::law_slashes_part_pieces(piece, rest);
    assert(piece.push('/') + rest =~= piece + seq!['/'] + rest);
}

/// The slashes that a path begins with lead nowhere.
proof fn lemma_leading_slashes_lead_nowhere(path: Seq<char>)
    ensures
        accepted_pieces(text::slash_pieces(path)) == path_parts(path),
    decreases path.len(),
{
    if path.len() > 0 && path[0] == '/' {
        let rest = path.drop_first();
        let nothing = Seq::<char>::empty();
        lemma_leading_slashes_lead_nowhere(rest);
        lemma_piece_in_front(nothing, rest);
        assert(nothing.push('/') + rest =~= path);
        lemma_nowhere_in_front(nothing, text::slash_pieces(rest));
    }
}

/// Slashes that a path begins with do not matter, nor does a current directory between them: with
/// `/` or `/./` in front, a path is resolved as without.
pub proof fn law_leading_slash_does_not_matter(f: FactsView, root: PlaceView, decoded: Seq<char>)
    ensures
        resolved_path(f, root, seq!['/'] + decoded) == resolved_path(f, root, decoded),
        resolved_path(f, root, seq!['/', '.', '/'] + decoded) == resolved_path(f, root, decoded),
{
    let slash = seq!['/'] + decoded;
    assert(slash.drop_first() =~= decoded);
    let dotted = seq!['/', '.', '/'] + decoded;
    let here = seq!['.'];
    assert(dotted.drop_first() =~= here.push('/') + decoded);
    reveal_with_fuel(text::without_leading_slashes, 2);
    assert(text::without_leading_slashes(dotted) =~= here.push('/') + decoded);
    assert(!here.contains('/'));
    lemma_piece_in_front(here, decoded);
    lemma_nowhere_in_front(here, text::slash_pieces(decoded));
    lemma_leading_slashes_lead_nowhere(decoded);
}

/// A front without a mark stays in front of the mark.
proof fn lemma_front_before_mark(front: Seq<char>, rest: Seq<char>)
    requires
        !front.contains('?'),
        !front.contains('#'),
    ensures
        text::before_first(front + rest, '?', '#') == front + text::before_first(rest, '?', '#'),
        text::run_before(front + rest, '?', '#') == front.len() + text::run_before(rest, '?', '#'),
        text::run_before(rest, '?', '#') <= rest.len(),
    decreases front.len(),
{
    let whole = front + rest;
    lemma_run_is_short(rest);
    if front.len() == 0 {
        assert(whole =~= rest);
    } else {
        let shorter = front.drop_first();
        assert(front[0] != '?' && front[0] != '#');
        assert(!shorter.contains('?')) by {
            if shorter.contains('?') {
                let k = choose|k: int| 0 <= k < shorter.len() && shorter[k] == '?';
                assert(front[k + 1] == '?');
            }
        }
        assert(!shorter.contains('#')) by {
            if shorter.contains('#') {
                let k = choose|k: int| 0 <= k < shorter.len() && shorter[k] == '#';
                assert(front[k + 1] == '#');
            }
        }
        lemma_front_before_mark(shorter, rest);
        assert(whole.drop_first() =~= shorter + rest);
    }
    assert(text::before_first(whole, '?', '#') =~= front + text::before_first(rest, '?', '#'));
}

/// A run is no longer than the text.
proof fn lemma_run_is_short(s: Seq<char>)
    ensures
        text::run_before(s, '?', '#') <= s.len(),
    decreases s.len(),
{
    if s.len() > 0 {
        lemma_run_is_short(s.drop_first());
    }
}

/// Slashes that a URL begins with do not matter, nor does a current directory between them.
pub proof fn law_leading_slash_in_url_does_not_matter(f: FactsView, root: PlaceView, url: Seq<char>)
    ensures
        resolved_url(f, root, seq!['/'] + url) == resolved_url(f, root, url),
        resolved_url(f, root, seq!['/', '.', '/'] + url) == resolved_url(f, root, url),
{
    let path = text::before_first(url, '?', '#');
    let slash = seq!['/'];
    let dotted = seq!['/', '.', '/'];
    assert(!slash.contains('?') && !slash.contains('#') && !slash.contains('%'));
    assert(!dotted.contains('?') && !dotted.contains('#') && !dotted.contains('%'));
    lemma_front_before_mark(slash, url);
    lemma_front_before_mark(dotted, url);
    percent::law_plain_front_is_kept(slash, path);
    percent::law_plain_front_is_kept(dotted, path);
    law_leading_slash_does_not_matter(f, root, path_in_url(url));
}

/// The text before a mark does not depend on what follows the mark.
proof fn lemma_cut_at_mark(path: Seq<char>, mark: char, rest: Seq<char>)
    requires
        mark == '?' || mark == '#',
    ensures
        text::run_before(path.push(mark) + rest, '?', '#') == text::run_before(path, '?', '#'),
        text::run_before(path, '?', '#') <= path.len(),
    decreases path.len(),
{
    let whole = path.push(mark) + rest;
    if path.len() > 0 {
        let shorter = path.drop_first();
        assert(whole.drop_first() =~= shorter.push(mark) + rest);
        lemma_cut_at_mark(shorter, mark, rest);
    }
}

/// The query and the fragment of a URL do not matter: nothing from a mark on changes the answer.
pub proof fn law_query_and_fragment_are_ignored(
    f: FactsView,
    root: PlaceView,
    path: Seq<char>,
    mark: char,
    rest: Seq<char>,
)
    requires
        mark == '?' || mark == '#',
    ensures
        resolved_url(f, root, path.push(mark) + rest) == resolved_url(f, root, path),
{
    lemma_cut_at_mark(path, mark, rest);
    let n = text::run_before(path, '?', '#') as int;
    assert((path.push(mark) + rest).take(n) =~= path.take(n));
}

/// The pieces that lead somewhere are all the pieces that are neither empty nor the current
/// directory, in their order.
proof fn lemma_leading_pieces_are_filtered(pieces: Seq<Seq<char>>)
    ensures
        leading_pieces(pieces) == pieces.filter(|p: Seq<char>| p.len() > 0 && p != seq!['.']),
    decreases pieces.len(),
{
    reveal(Seq::filter);
    if pieces.len() > 0 {
        lemma_leading_pieces_are_filtered(pieces.drop_last());
    }
}

/// No piece is lost: the parts of a path are all its pieces but those that are empty or the current
/// directory, in their order. A path is refused exactly if one of its pieces is the parent
/// directory or holds a backslash or a colon.
pub proof fn law_parts_are_all_that_leads_somewhere(decoded: Seq<char>)
    ensures
        path_parts(decoded) matches Some(parts) ==> parts == text::slash_pieces(
            text::without_leading_slashes(decoded),
        ).filter(|p: Seq<char>| p.len() > 0 && p != seq!['.']),
        path_parts(decoded) is None <==> exists|i: int|
            0 <= i < text::slash_pieces(text::without_leading_slashes(decoded)).len() && {
                let p = #[trigger] text::slash_pieces(text::without_leading_slashes(decoded))[i];
                p == seq!['.', '.'] || p.contains('\\') || p.contains(':')
            },
{
    let pieces = text::slash_pieces(text::without_leading_slashes(decoded));
    lemma_leading_pieces_are_filtered(pieces);
    if path_parts(decoded) is None {
        let i = choose|i: int| 0 <= i < pieces.len() && is_forbidden(#[trigger] pieces[i]);
        assert(pieces[i] == pieces[i]);
    }
    if exists|i: int|
        0 <= i < pieces.len() && {
            let p = #[trigger] pieces[i];
            p == seq!['.', '.'] || p.contains('\\') || p.contains(':')
        } {
        let i = choose|i: int|
            0 <= i < pieces.len() && {
                let p = #[trigger] pieces[i];
                p == seq!['.', '.'] || p.contains('\\') || p.contains(':')
            };
        assert(is_forbidden(pieces[i]));
    }
}

/// A name that a request may ask for: not empty, not the current or the parent directory, and
/// without a slash, a backslash or a colon.
pub open spec fn is_plain_name(name: Seq<char>) -> bool {
    &&& name.len() > 0
    &&& name != seq!['.']
    &&& name != seq!['.', '.']
    &&& !name.contains('/')
    &&& !name.contains('\\')
    &&& !name.contains(':')
}

/// Pieces that all lead somewhere are all kept.
proof fn lemma_plain_pieces_are_kept(pieces: Seq<Seq<char>>)
    requires
        forall|i: int| 0 <= i < pieces.len() ==> is_plain_name(#[trigger] pieces[i]),
    ensures
        leading_pieces(pieces) == pieces,
    decreases pieces.len(),
{
    if pieces.len() > 0 {
        let before = pieces.drop_last();
        assert(pieces.last() == pieces[pieces.len() - 1]);
        assert forall|i: int| 0 <= i < before.len() implies is_plain_name(#[trigger] before[i]) by {
            assert(before[i] == pieces[i]);
        }
        lemma_plain_pieces_are_kept(before);
        assert(before.push(pieces.last()) =~= pieces);
    } else {
        assert(leading_pieces(pieces) =~= pieces);
    }
}

/// A path of names leads by all of them, in their order: joined by slashes, any number of names
/// are the parts of their path.
pub proof fn law_names_are_the_parts_of_their_path(names: Seq<Seq<char>>)
    requires
        names.len() > 0,
        forall|i: int|
            0 <= i < names.len() ==> (#[trigger] names[i]).len() > 0 && names[i] != seq!['.']
                && names[i] != seq!['.', '.'] && !names[i].contains('/') && !names[i].contains('\\')
                && !names[i].contains(':'),
    ensures
        path_parts(text::joined_by_slashes(names)) == Some(names),
        path_parts(seq!['/'] + text::joined_by_slashes(names)) == Some(names),
{
    let path = text::joined_by_slashes(names);
    assert forall|i: int| 0 <= i < names.len() implies is_plain_name(#[trigger] names[i]) by {}
    assert forall|i: int| 0 <= i < names.len() implies !(#[trigger] names[i]).contains('/') by {
        assert(is_plain_name(names[i]));
    }
    text::law_joined_names_come_apart(names);
    lemma_plain_pieces_are_kept(names);
    assert(accepted_pieces(names) == Some(names)) by {
        assert forall|i: int| 0 <= i < names.len() implies !is_forbidden(#[trigger] names[i]) by {
            assert(is_plain_name(names[i]));
        }
    }
    lemma_leading_slashes_lead_nowhere(path);
    let slash = seq!['/'] + path;
    assert(slash.drop_first() =~= path);
}

/// The path in a URL is what stands before the first mark, decoded: all of a URL without a mark.
pub proof fn law_path_ends_at_the_mark(path: Seq<char>, mark: char, rest: Seq<char>)
    requires
        !path.contains('?'),
        !path.contains('#'),
        mark == '?' || mark == '#',
    ensures
        path_in_url(path) == percent::percent_decoded(path),
        path_in_url(path + seq![mark] + rest) == percent::percent_decoded(path),
{
    let url = path + seq![mark] + rest;
    let tail = seq![mark] + rest;
    assert(url =~= path + tail);
    lemma_front_before_mark(path, tail);
    assert(text::run_before(tail, '?', '#') == 0);
    assert(path + text::before_first(tail, '?', '#') =~= path);
    let nothing = Seq::<char>::empty();
    lemma_front_before_mark(path, nothing);
    assert(path + nothing =~= path);
    assert(path + text::before_first(nothing, '?', '#') =~= path);
}

/// The parts of a path lead on from the root, one step for each, behind the empty step.
pub proof fn law_parts_lead_on_from_the_root(root: PlaceView, parts: Seq<Seq<char>>)
    ensures
        place_below(root, parts).base == root.base,
        place_below(root, parts).up == root.up,
        place_below(root, parts).legs.len() == root.legs.len() + 1 + parts.len(),
        forall|i: int|
            0 <= i < root.legs.len() ==> #[trigger] place_below(root, parts).legs[i] == root.legs[i],
        place_below(root, parts).legs[root.legs.len() as int] == LegView::Join(Seq::empty()),
        forall|i: int|
            0 <= i < parts.len() ==> place_below(root, parts).legs[root.legs.len() + 1 + i]
                == LegView::Join(#[trigger] parts[i]),
{
}

/// How a request for a path is answered. A refused path has no file. A directory is answered with
/// its page, and a file with itself. What is neither is answered with the page of the root, unless
/// its last part has an extension.
pub proof fn law_request_is_answered(w: World, root: PlaceView, decoded: Seq<char>)
    ensures
        path_parts(decoded) is None ==> file_for(w, root, decoded) is None,
        path_parts(decoded) matches Some(parts) ==> {
            let target = place_below(root, parts);
            let page = target.join("index.html"@);
            let own = root.join("index.html"@);
            let found = if (w.is_dir)(target) {
                (w.is_file)(page)
            } else {
                (w.is_file)(target)
            };
            &&& (w.is_dir)(target) && (w.is_file)(page) ==> file_for(w, root, decoded) == Some(page)
            &&& !(w.is_dir)(target) && (w.is_file)(target) ==> file_for(w, root, decoded) == Some(
                target,
            )
            &&& !found && !(w.is_file)(own) ==> file_for(w, root, decoded) is None
            &&& !found && parts.len() > 0 && mime::extension(parts.last()) is Some ==> file_for(
                w,
                root,
                decoded,
            ) is None
            &&& !found && (w.is_file)(own) && parts.len() == 0 ==> file_for(w, root, decoded)
                == Some(own)
            &&& !found && (w.is_file)(own) && parts.len() > 0 && mime::extension(
                parts.last(),
            ) is None ==> file_for(w, root, decoded) == Some(own)
        },
{
}

/// A file that is there and asked for by its names is given: a URL of the names below the root,
/// with any query or fragment, is answered with the file at their end, and with no other.
pub proof fn law_file_asked_for_by_names_is_given(
    w: World,
    f: FactsView,
    root: PlaceView,
    names: Seq<Seq<char>>,
    mark: char,
    rest: Seq<char>,
)
    requires
        w.agrees(f),
        names.len() > 0,
        forall|i: int|
            0 <= i < names.len() ==> (#[trigger] names[i]).len() > 0 && names[i] != seq!['.']
                && names[i] != seq!['.', '.'] && !names[i].contains('/') && !names[i].contains('\\')
                && !names[i].contains(':'),
        !text::joined_by_slashes(names).contains('%'),
        !text::joined_by_slashes(names).contains('?'),
        !text::joined_by_slashes(names).contains('#'),
        mark == '?' || mark == '#',
        !(w.is_dir)(root.join(Seq::empty()).join_all(names)),
        (w.is_file)(root.join(Seq::empty()).join_all(names)),
    ensures
        ({
            let path = seq!['/'] + text::joined_by_slashes(names);
            let file = root.join(Seq::empty()).join_all(names);
            &&& resolved_url(f, root, path) matches Verdict::Known(found) ==> found == Some(file)
            &&& resolved_url(f, root, path + seq![mark] + rest) matches Verdict::Known(found)
                ==> found == Some(file)
        }),
{
    let joined = text::joined_by_slashes(names);
    let path = seq!['/'] + joined;
    assert forall|c: char| c != '/' && !joined.contains(c) implies !(#[trigger] path.contains(
        c,
    )) by {
        if path.contains(c) {
            let k = choose|k: int| 0 <= k < path.len() && path[k] == c;
            assert(joined[k - 1] == c);
        }
    }
    percent::law_plain_text_decodes_to_itself(path);
    law_path_ends_at_the_mark(path, mark, rest);
    law_names_are_the_parts_of_their_path(names);
    law_request_is_answered(w, root, path);
    law_request_search_is_right(w, f, root, path);
    law_request_search_is_right(w, f, root, path + seq![mark] + rest);
}

/// The last name of a joined path tells the content type, whatever stands before its last slash, as
/// long as no backslash or colon is in it.
pub proof fn law_last_name_tells_content_type(
    f: FactsView,
    dir: PlaceView,
    front: Seq<char>,
    name: Seq<char>,
)
    requires
        name.len() > 0,
        name != seq!['.'],
        !name.contains('/'),
        !(front + seq!['/'] + name).contains('\\'),
        !(front + seq!['/'] + name).contains(':'),
    ensures
        mime_type_at(f, dir.join(front + seq!['/'] + name)) == Verdict::Known(
            mime::mime_type_of_extension(mime::extension(name)),
        ),
{
    let text = front + seq!['/'] + name;
    let place = dir.join(text);
    assert(place.legs.last() == LegView::Join(text));
    lemma_single_piece(name);
    text::law_slashes_part_pieces(front, name);
    let pieces = text::slash_pieces(front);
    assert(pieces + seq![name] =~= pieces.push(name));
    mime::law_last_name_skips_what_names_nothing(pieces, name);
}

/// Where no name tells it, the content type is that of the extension that the system reads: at an
/// entry, at a start directory, and behind a text with a backslash or a colon.
pub proof fn law_other_content_types_are_asked_for(
    f: FactsView,
    place: PlaceView,
    text: Seq<char>,
    index: usize,
    name: Option<Seq<char>>,
)
    requires
        text.contains('\\') || text.contains(':') || text.len() == 0 || text == seq!['.'] || text
            == seq!['/'],
    ensures
        extension_at(f, place.join(text)) == f.extension(place.join(text)),
        extension_at(f, place.entry(index, name)) == f.extension(place.entry(index, name)),
        place.legs.len() == 0 ==> extension_at(f, place) == f.extension(place),
        extension_at(f, place) matches Verdict::Known(ext) ==> mime_type_at(f, place)
            == Verdict::Known(mime::mime_type_of_extension(ext)),
        extension_at(f, place) matches Verdict::Ask(question) ==> mime_type_at(f, place)
            == Verdict::<Seq<char>>::Ask(question),
{
    let joined = place.join(text);
    assert(joined.legs.last() == LegView::Join(text));
    assert(place.entry(index, name).legs.last() == LegView::Entry(index, name));
    reveal_with_fuel(mime::last_named, 3);
    if text.len() == 0 {
        assert(text::slash_pieces(text).drop_last().len() == 0);
    } else if text == seq!['.'] {
        lemma_single_piece(text);
        assert(seq![text].drop_last().len() == 0);
    } else if text == seq!['/'] {
        let nothing = Seq::<char>::empty();
        text::law_slashes_part_pieces(nothing, nothing);
        assert(nothing + seq!['/'] + nothing =~= text);
        let pieces = text::slash_pieces(text);
        assert(pieces =~= seq![nothing, nothing]);
        assert(pieces.drop_last() =~= seq![nothing]);
        assert(pieces.drop_last().drop_last().len() == 0);
    }
}

/// A step keeps below exactly if it is one name and not the parent directory, and a place is below
/// another exactly if it goes on from it by such steps.
pub proof fn law_below_is_by_names(root: PlaceView, place: PlaceView, text: Seq<char>)
    ensures
        keeps_below(text) <==> text != seq!['.', '.'] && !text.contains('/') && !text.contains('\\')
            && !text.contains(':'),
        is_below(root, root),
        is_below(root, place) && keeps_below(text) ==> is_below(root, place.join(text)),
        is_below(root, place) ==> place.base == root.base && place.up == root.up
            && root.legs.len() <= place.legs.len() && place.legs.take(root.legs.len() as int)
            == root.legs,
        !keeps_below(text) ==> !is_below(root, root.join(text)),
{
    assert(root.legs =~= root.legs.subrange(0, root.legs.len() as int));
    let longer = place.join(text);
    if is_below(root, place) && keeps_below(text) {
        assert(root.legs =~= longer.legs.subrange(0, root.legs.len() as int));
    }
    if is_below(root, place) {
        assert(place.legs.take(root.legs.len() as int) =~= root.legs);
    }
    let own = root.join(text);
    assert(own.legs[root.legs.len() as int] == LegView::Join(text));
}

/// The extension of a joined text is that of its last piece that names something, as long as no
/// backslash or colon is in the text, and is asked for if no piece names anything.
pub proof fn law_extension_is_of_the_last_name(f: FactsView, dir: PlaceView, text: Seq<char>)
    requires
        !text.contains('\\'),
        !text.contains(':'),
    ensures
        mime::last_named(text::slash_pieces(text)) matches Some(name) ==> extension_at(
            f,
            dir.join(text),
        ) == Verdict::Known(mime::extension(name)),
        mime::last_named(text::slash_pieces(text)) is None ==> extension_at(f, dir.join(text))
            == f.extension(dir.join(text)),
{
    assert(dir.join(text).legs.last() == LegView::Join(text));
}

} // verus!
