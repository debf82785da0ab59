//! Content types, told from the ends of file names.
use crate::text;
use vstd::prelude::*;

verus! {

/// The content type of a file, by the end of its path.
pub open spec fn mime_type(path: Seq<char>) -> Seq<char> {
    if ".html"@.is_suffix_of(path) {
        "text/html; charset=utf-8"@
    } else if ".css"@.is_suffix_of(path) {
        "text/css; charset=utf-8"@
    } else if ".mjs"@.is_suffix_of(path) || ".js"@.is_suffix_of(path) {
        "application/javascript; charset=utf-8"@
    } else if ".json"@.is_suffix_of(path) || ".map"@.is_suffix_of(path) {
        "application/json; charset=utf-8"@
    } else if ".wasm"@.is_suffix_of(path) {
        "application/wasm"@
    } else if ".svg"@.is_suffix_of(path) {
        "image/svg+xml"@
    } else if ".png"@.is_suffix_of(path) {
        "image/png"@
    } else if ".jpg"@.is_suffix_of(path) || ".jpeg"@.is_suffix_of(path) {
        "image/jpeg"@
    } else if ".gif"@.is_suffix_of(path) {
        "image/gif"@
    } else if ".webp"@.is_suffix_of(path) {
        "image/webp"@
    } else if ".ico"@.is_suffix_of(path) {
        "image/x-icon"@
    } else if ".woff2"@.is_suffix_of(path) {
        "font/woff2"@
    } else if ".woff"@.is_suffix_of(path) {
        "font/woff"@
    } else if ".ttf"@.is_suffix_of(path) {
        "font/ttf"@
    } else if ".txt"@.is_suffix_of(path) {
        "text/plain; charset=utf-8"@
    } else {
        "application/octet-stream"@
    }
}

/// Where the last dot stands, or -1 if there is none.
pub open spec fn last_dot(s: Seq<char>) -> int
    decreases s.len(),
{
    if s.len() == 0 {
        -1
    } else if s.last() == '.' {
        s.len() - 1
    } else {
        last_dot(s.drop_last())
    }
}

/// The extension of a file name: what follows its last dot, unless that dot is its first
/// character. The name of the parent directory has none.
pub open spec fn extension(name: Seq<char>) -> Option<Seq<char>> {
    if last_dot(name) <= 0 || name == seq!['.', '.'] {
        None
    } else {
        Some(name.skip(last_dot(name) + 1))
    }
}

/// The last piece of a path that names something: neither empty nor the current directory.
pub open spec fn last_named(pieces: Seq<Seq<char>>) -> Option<Seq<char>>
    decreases pieces.len(),
{
    if pieces.len() == 0 {
        None
    } else if pieces.last().len() == 0 || pieces.last() == seq!['.'] {
        last_named(pieces.drop_last())
    } else {
        Some(pieces.last())
    }
}

/// The content type of a file, by its extension in any case.
pub open spec fn mime_type_of_extension(ext: Option<Seq<char>>) -> Seq<char> {
    let ext = match ext {
        Some(ext) => ext,
        None => Seq::empty(),
    };
    mime_type(seq!['.'] + text::ascii_lowercase(ext))
}

/// The content type of a file, by the extension of its name in any case.
pub open spec fn mime_type_of_name(name: Seq<char>) -> Seq<char> {
    mime_type_of_extension(extension(name))
}

/// The content type of a file, by the end of its path.
pub fn get_mime_type(path: &str) -> (mime: &'static str)
    ensures
        mime@ == mime_type(path@),
{
    if text::ends_in(path, ".html") {
        "text/html; charset=utf-8"
    } else if text::ends_in(path, ".css") {
        "text/css; charset=utf-8"
    } else if text::ends_in(path, ".mjs") || text::ends_in(path, ".js") {
        "application/javascript; charset=utf-8"
    } else if text::ends_in(path, ".json") || text::ends_in(path, ".map") {
        "application/json; charset=utf-8"
    } else if text::ends_in(path, ".wasm") {
        "application/wasm"
    } else if text::ends_in(path, ".svg") {
        "image/svg+xml"
    } else if text::ends_in(path, ".png") {
        "image/png"
    } else if text::ends_in(path, ".jpg") || text::ends_in(path, ".jpeg") {
        "image/jpeg"
    } else if text::ends_in(path, ".gif") {
        "image/gif"
    } else if text::ends_in(path, ".webp") {
        "image/webp"
    } else if text::ends_in(path, ".ico") {
        "image/x-icon"
    } else if text::ends_in(path, ".woff2") {
        "font/woff2"
    } else if text::ends_in(path, ".woff") {
        "font/woff"
    } else if text::ends_in(path, ".ttf") {
        "font/ttf"
    } else if text::ends_in(path, ".txt") {
        "text/plain; charset=utf-8"
    } else {
        "application/octet-stream"
    }
}

/// The extension of a file name.
pub fn extension_of(name: &str) -> (ext: Option<String>)
    ensures
        ext.deep_view() == extension(name@),
{
    let n: usize = name.unicode_len();
    // One more than the position of the last dot so far, zero before the first.
    let mut after_dot: usize = 0;
    let mut i: usize = 0;
    for c in it: name.chars()
        invariant
            it.seq() == name@,
            n == name@.len(),
            i == it.index(),
            after_dot - 1 == last_dot(name@.take(i as int)),
            after_dot <= i,
    {
        proof {
            assert(name@.take(i + 1).drop_last() =~= name@.take(i as int));
        }
        i += 1;
        if c == '.' {
            after_dot = i;
        }
    }
    assert(name@.take(n as int) =~= name@);
    proof {
        reveal_strlit("..");
        assert(".."@ =~= seq!['.', '.']);
    }
    if after_dot <= 1 || text::same_text(name, "..") {
        None
    } else {
        Some(name.substring_char(after_dot, n).to_owned())
    }
}

/// The last piece of a path that names something.
pub fn last_name(pieces: &Vec<String>) -> (name: Option<String>)
    ensures
        name.deep_view() == last_named(pieces.deep_view()),
{
    let mut k: usize = pieces.len();
    proof {
        reveal_strlit(".");
        assert("."@ =~= seq!['.']);
        assert(pieces.deep_view().take(k as int) =~= pieces.deep_view());
    }
    while k > 0
        invariant
            k <= pieces.len(),
            "."@ == seq!['.'],
            last_named(pieces.deep_view()) == last_named(pieces.deep_view().take(k as int)),
        decreases k,
    {
        let piece = pieces[k - 1].as_str();
        let ghost so_far = pieces.deep_view().take(k as int);
        proof {
            assert(so_far.last() == piece@);
            assert(so_far.drop_last() =~= pieces.deep_view().take(k - 1));
        }
        if !(piece.is_empty() || text::same_text(piece, ".")) {
            return Some(piece.to_owned());
        }
        k -= 1;
    }
    None
}

/// The content type of a file with the given extension.
pub fn mime_type_for_extension(ext: &Option<String>) -> (mime: &'static str)
    ensures
        mime@ == mime_type_of_extension(ext.deep_view()),
{
    let lower = match ext {
        Some(ext) => text::to_ascii_lower(ext.as_str()),
        None => String::new(),
    };
    let mut dotted = String::new();
    dotted.push('.');
    dotted.append(lower.as_str());
    proof {
        assert(text::ascii_lowercase(Seq::empty()) =~= Seq::<char>::empty());
        assert(dotted@ =~= seq!['.'] + lower@);
    }
    get_mime_type(dotted.as_str())
}

/// Every character may stand in a header value: ASCII, and no control character.
pub open spec fn visible_ascii(s: Seq<char>) -> bool {
    forall|i: int| 0 <= i < s.len() ==> ' ' <= #[trigger] s[i] <= '~'
}

/// Every content type may stand in a header value.
pub proof fn law_mime_types_are_visible_ascii(path: Seq<char>)
    ensures
        visible_ascii(mime_type(path)),
{
    reveal_strlit("text/html; charset=utf-8");
    reveal_strlit("text/css; charset=utf-8");
    reveal_strlit("application/javascript; charset=utf-8");
    reveal_strlit("application/json; charset=utf-8");
    reveal_strlit("application/wasm");
    reveal_strlit("image/svg+xml");
    reveal_strlit("image/png");
    reveal_strlit("image/jpeg");
    reveal_strlit("image/gif");
    reveal_strlit("image/webp");
    reveal_strlit("image/x-icon");
    reveal_strlit("font/woff2");
    reveal_strlit("font/woff");
    reveal_strlit("font/ttf");
    reveal_strlit("text/plain; charset=utf-8");
    reveal_strlit("application/octet-stream");
}

/// The last dot is a dot, and no dot follows it.
proof fn lemma_last_dot(s: Seq<char>)
    ensures
        -1 <= last_dot(s) < s.len(),
        last_dot(s) >= 0 ==> s[last_dot(s)] == '.',
        forall|i: int| last_dot(s) < i < s.len() ==> s[i] != '.',
    decreases s.len(),
{
    if s.len() > 0 && s.last() != '.' {
        lemma_last_dot(s.drop_last());
        assert forall|i: int| last_dot(s) < i < s.len() implies s[i] != '.' by {
            if i < s.len() - 1 {
                assert(s[i] == s.drop_last()[i]);
            }
        }
    }
}

/// A suffix that begins with its only dot ends a text exactly if it is what the text holds from
/// its last dot on.
proof fn lemma_dotted_suffix(s: Seq<char>, suffix: Seq<char>)
    requires
        suffix.len() > 0,
        suffix[0] == '.',
        forall|i: int| 0 < i < suffix.len() ==> suffix[i] != '.',
    ensures
        suffix.is_suffix_of(s) <==> last_dot(s) >= 0 && s.skip(last_dot(s)) == suffix,
{
    lemma_last_dot(s);
    let k = last_dot(s);
    let from = s.len() - suffix.len();
    if suffix.is_suffix_of(s) {
        let tail = s.subrange(from, s.len() as int);
        assert(tail == suffix);
        assert(s[from] == tail[0]);
        assert(k >= from);
        if k > from {
            assert(tail[k - from] == s[k]);
        }
        assert(s.skip(k) =~= suffix);
    }
    if k >= 0 && s.skip(k) == suffix {
        assert(s.subrange(from, s.len() as int) =~= suffix);
    }
}

/// The content type of a path is told by what follows its last dot alone.
proof fn lemma_mime_type_by_last_dot(path: Seq<char>)
    requires
        last_dot(path) >= 0,
    ensures
        mime_type(path) == mime_type(path.skip(last_dot(path))),
{
    let tail = path.skip(last_dot(path));
    lemma_last_dot(path);
    lemma_last_dot(tail);
    assert(last_dot(tail) == 0) by {
        if last_dot(tail) > 0 {
            assert(tail[last_dot(tail)] == path[last_dot(path) + last_dot(tail)]);
        }
        assert(tail[0] == '.');
    }
    assert(tail.skip(0) =~= tail);
    reveal_strlit(".html");
    reveal_strlit(".css");
    reveal_strlit(".mjs");
    reveal_strlit(".js");
    reveal_strlit(".json");
    reveal_strlit(".map");
    reveal_strlit(".wasm");
    reveal_strlit(".svg");
    reveal_strlit(".png");
    reveal_strlit(".jpg");
    reveal_strlit(".jpeg");
    reveal_strlit(".gif");
    reveal_strlit(".webp");
    reveal_strlit(".ico");
    reveal_strlit(".woff2");
    reveal_strlit(".woff");
    reveal_strlit(".ttf");
    reveal_strlit(".txt");
    lemma_dotted_suffix(path, ".html"@);
    lemma_dotted_suffix(tail, ".html"@);
    lemma_dotted_suffix(path, ".css"@);
    lemma_dotted_suffix(tail, ".css"@);
    lemma_dotted_suffix(path, ".mjs"@);
    lemma_dotted_suffix(tail, ".mjs"@);
    lemma_dotted_suffix(path, ".js"@);
    lemma_dotted_suffix(tail, ".js"@);
    lemma_dotted_suffix(path, ".json"@);
    lemma_dotted_suffix(tail, ".json"@);
    lemma_dotted_suffix(path, ".map"@);
    lemma_dotted_suffix(tail, ".map"@);
    lemma_dotted_suffix(path, ".wasm"@);
    lemma_dotted_suffix(tail, ".wasm"@);
    lemma_dotted_suffix(path, ".svg"@);
    lemma_dotted_suffix(tail, ".svg"@);
    lemma_dotted_suffix(path, ".png"@);
    lemma_dotted_suffix(tail, ".png"@);
    lemma_dotted_suffix(path, ".jpg"@);
    lemma_dotted_suffix(tail, ".jpg"@);
    lemma_dotted_suffix(path, ".jpeg"@);
    lemma_dotted_suffix(tail, ".jpeg"@);
    lemma_dotted_suffix(path, ".gif"@);
    lemma_dotted_suffix(tail, ".gif"@);
    lemma_dotted_suffix(path, ".webp"@);
    lemma_dotted_suffix(tail, ".webp"@);
    lemma_dotted_suffix(path, ".ico"@);
    lemma_dotted_suffix(tail, ".ico"@);
    lemma_dotted_suffix(path, ".woff2"@);
    lemma_dotted_suffix(tail, ".woff2"@);
    lemma_dotted_suffix(path, ".woff"@);
    lemma_dotted_suffix(tail, ".woff"@);
    lemma_dotted_suffix(path, ".ttf"@);
    lemma_dotted_suffix(tail, ".ttf"@);
    lemma_dotted_suffix(path, ".txt"@);
    lemma_dotted_suffix(tail, ".txt"@);
}

/// What stands in front does not matter: any text in front of a path that holds a dot leaves its
/// content type as it is.
pub proof fn law_front_does_not_matter(front: Seq<char>, path: Seq<char>)
    requires
        path.contains('.'),
    ensures
        mime_type(front + path) == mime_type(path),
{
    let whole = front + path;
    let k = last_dot(path);
    lemma_last_dot(path);
    lemma_last_dot(whole);
    assert(k >= 0) by {
        let i = choose|i: int| 0 <= i < path.len() && path[i] == '.';
        assert(path[i] == '.');
    }
    assert(last_dot(whole) == front.len() + k) by {
        assert(whole[front.len() + k] == '.');
        if last_dot(whole) > front.len() + k {
            assert(path[last_dot(whole) - front.len()] == whole[last_dot(whole)]);
        }
    }
    lemma_mime_type_by_last_dot(whole);
    lemma_mime_type_by_last_dot(path);
    assert(whole.skip(last_dot(whole)) =~= path.skip(k));
}

/// Reading the content type off a whole path and off the extension of its last name agree,
/// wherever that name has an extension in lower case.
pub proof fn law_mime_type_agrees_with_extension(directory: Seq<char>, name: Seq<char>)
    requires
        extension(name) is Some,
        text::ascii_lowercase(extension(name)->0) == extension(name)->0,
    ensures
        mime_type(directory + name) == mime_type_of_name(name),
{
    let k = last_dot(name);
    lemma_last_dot(name);
    assert(name[k] == '.');
    law_front_does_not_matter(directory, name);
    lemma_mime_type_by_last_dot(name);
    assert(name.skip(k) =~= seq!['.'] + extension(name)->0);
}

/// Lower case leaves the dots where they are.
proof fn lemma_last_dot_in_lower_case(s: Seq<char>)
    ensures
        last_dot(text::ascii_lowercase(s)) == last_dot(s),
    decreases s.len(),
{
    if s.len() > 0 {
        let lower = text::ascii_lowercase(s);
        assert(lower.last() == text::ascii_lower(s.last()));
        assert(lower.drop_last() =~= text::ascii_lowercase(s.drop_last()));
        lemma_last_dot_in_lower_case(s.drop_last());
    }
}

/// The content type of a file does not depend on the case of its name.
pub proof fn law_content_type_ignores_case(name: Seq<char>)
    ensures
        mime_type_of_name(text::ascii_lowercase(name)) == mime_type_of_name(name),
{
    let lower = text::ascii_lowercase(name);
    lemma_last_dot_in_lower_case(name);
    lemma_last_dot(name);
    assert(lower == seq!['.', '.'] <==> name == seq!['.', '.']) by {
        if lower == seq!['.', '.'] {
            assert(lower[0] == text::ascii_lower(name[0]) && lower[1] == text::ascii_lower(name[1]));
            assert(name =~= seq!['.', '.']);
        }
        if name == seq!['.', '.'] {
            assert(lower =~= seq!['.', '.']);
        }
    }
    if let Some(ext) = extension(name) {
        assert(extension(lower)->0 =~= text::ascii_lowercase(ext));
        text::law_case_folding_is_idempotent(ext);
    }
}

/// Each ending has its content type, whatever stands before it.
pub proof fn law_endings_have_their_types(front: Seq<char>)
    ensures
        mime_type(front + ".html"@) == "text/html; charset=utf-8"@,
        mime_type(front + ".css"@) == "text/css; charset=utf-8"@,
        mime_type(front + ".mjs"@) == "application/javascript; charset=utf-8"@,
        mime_type(front + ".js"@) == "application/javascript; charset=utf-8"@,
        mime_type(front + ".json"@) == "application/json; charset=utf-8"@,
        mime_type(front + ".map"@) == "application/json; charset=utf-8"@,
        mime_type(front + ".wasm"@) == "application/wasm"@,
        mime_type(front + ".svg"@) == "image/svg+xml"@,
        mime_type(front + ".png"@) == "image/png"@,
        mime_type(front + ".jpg"@) == "image/jpeg"@,
        mime_type(front + ".jpeg"@) == "image/jpeg"@,
        mime_type(front + ".gif"@) == "image/gif"@,
        mime_type(front + ".webp"@) == "image/webp"@,
        mime_type(front + ".ico"@) == "image/x-icon"@,
        mime_type(front + ".woff2"@) == "font/woff2"@,
        mime_type(front + ".woff"@) == "font/woff"@,
        mime_type(front + ".ttf"@) == "font/ttf"@,
        mime_type(front + ".txt"@) == "text/plain; charset=utf-8"@,
{
    lemma_endings_by_characters();
    lemma_type_of_ending(front, ".html"@);
    lemma_type_of_ending(front, ".css"@);
    lemma_type_of_ending(front, ".mjs"@);
    lemma_type_of_ending(front, ".js"@);
    lemma_type_of_ending(front, ".json"@);
    lemma_type_of_ending(front, ".map"@);
    lemma_type_of_ending(front, ".wasm"@);
    lemma_type_of_ending(front, ".svg"@);
    lemma_type_of_ending(front, ".png"@);
    lemma_type_of_ending(front, ".jpg"@);
    lemma_type_of_ending(front, ".jpeg"@);
    lemma_type_of_ending(front, ".gif"@);
    lemma_type_of_ending(front, ".webp"@);
    lemma_type_of_ending(front, ".ico"@);
    lemma_type_of_ending(front, ".woff2"@);
    lemma_type_of_ending(front, ".woff"@);
    lemma_type_of_ending(front, ".ttf"@);
    lemma_type_of_ending(front, ".txt"@);
}

/// What the known endings begin with: no two are as long as each other and begin alike.
proof fn lemma_endings_by_characters()
    ensures
        ".html"@.len() == 5 && ".html"@[0] == '.' && ".html"@[1] == 'h' && ".html"@[2] == 't',
        forall|i: int| 0 < i < ".html"@.len() ==> ".html"@[i] != '.' && !('A' <= ".html"@[i] <= 'Z'),
        ".css"@.len() == 4 && ".css"@[0] == '.' && ".css"@[1] == 'c' && ".css"@[2] == 's',
        forall|i: int| 0 < i < ".css"@.len() ==> ".css"@[i] != '.' && !('A' <= ".css"@[i] <= 'Z'),
        ".mjs"@.len() == 4 && ".mjs"@[0] == '.' && ".mjs"@[1] == 'm' && ".mjs"@[2] == 'j',
        forall|i: int| 0 < i < ".mjs"@.len() ==> ".mjs"@[i] != '.' && !('A' <= ".mjs"@[i] <= 'Z'),
        ".js"@.len() == 3 && ".js"@[0] == '.' && ".js"@[1] == 'j' && ".js"@[2] == 's',
        forall|i: int| 0 < i < ".js"@.len() ==> ".js"@[i] != '.' && !('A' <= ".js"@[i] <= 'Z'),
        ".json"@.len() == 5 && ".json"@[0] == '.' && ".json"@[1] == 'j' && ".json"@[2] == 's',
        forall|i: int| 0 < i < ".json"@.len() ==> ".json"@[i] != '.' && !('A' <= ".json"@[i] <= 'Z'),
        ".map"@.len() == 4 && ".map"@[0] == '.' && ".map"@[1] == 'm' && ".map"@[2] == 'a',
        forall|i: int| 0 < i < ".map"@.len() ==> ".map"@[i] != '.' && !('A' <= ".map"@[i] <= 'Z'),
        ".wasm"@.len() == 5 && ".wasm"@[0] == '.' && ".wasm"@[1] == 'w' && ".wasm"@[2] == 'a',
        forall|i: int| 0 < i < ".wasm"@.len() ==> ".wasm"@[i] != '.' && !('A' <= ".wasm"@[i] <= 'Z'),
        ".svg"@.len() == 4 && ".svg"@[0] == '.' && ".svg"@[1] == 's' && ".svg"@[2] == 'v',
        forall|i: int| 0 < i < ".svg"@.len() ==> ".svg"@[i] != '.' && !('A' <= ".svg"@[i] <= 'Z'),
        ".png"@.len() == 4 && ".png"@[0] == '.' && ".png"@[1] == 'p' && ".png"@[2] == 'n',
        forall|i: int| 0 < i < ".png"@.len() ==> ".png"@[i] != '.' && !('A' <= ".png"@[i] <= 'Z'),
        ".jpg"@.len() == 4 && ".jpg"@[0] == '.' && ".jpg"@[1] == 'j' && ".jpg"@[2] == 'p',
        forall|i: int| 0 < i < ".jpg"@.len() ==> ".jpg"@[i] != '.' && !('A' <= ".jpg"@[i] <= 'Z'),
        ".jpeg"@.len() == 5 && ".jpeg"@[0] == '.' && ".jpeg"@[1] == 'j' && ".jpeg"@[2] == 'p',
        forall|i: int| 0 < i < ".jpeg"@.len() ==> ".jpeg"@[i] != '.' && !('A' <= ".jpeg"@[i] <= 'Z'),
        ".gif"@.len() == 4 && ".gif"@[0] == '.' && ".gif"@[1] == 'g' && ".gif"@[2] == 'i',
        forall|i: int| 0 < i < ".gif"@.len() ==> ".gif"@[i] != '.' && !('A' <= ".gif"@[i] <= 'Z'),
        ".webp"@.len() == 5 && ".webp"@[0] == '.' && ".webp"@[1] == 'w' && ".webp"@[2] == 'e',
        forall|i: int| 0 < i < ".webp"@.len() ==> ".webp"@[i] != '.' && !('A' <= ".webp"@[i] <= 'Z'),
        ".ico"@.len() == 4 && ".ico"@[0] == '.' && ".ico"@[1] == 'i' && ".ico"@[2] == 'c',
        forall|i: int| 0 < i < ".ico"@.len() ==> ".ico"@[i] != '.' && !('A' <= ".ico"@[i] <= 'Z'),
        ".woff2"@.len() == 6 && ".woff2"@[0] == '.' && ".woff2"@[1] == 'w' && ".woff2"@[2] == 'o',
        forall|i: int| 0 < i < ".woff2"@.len() ==> ".woff2"@[i] != '.' && !('A' <= ".woff2"@[i] <= 'Z'),
        ".woff"@.len() == 5 && ".woff"@[0] == '.' && ".woff"@[1] == 'w' && ".woff"@[2] == 'o',
        forall|i: int| 0 < i < ".woff"@.len() ==> ".woff"@[i] != '.' && !('A' <= ".woff"@[i] <= 'Z'),
        ".ttf"@.len() == 4 && ".ttf"@[0] == '.' && ".ttf"@[1] == 't' && ".ttf"@[2] == 't',
        forall|i: int| 0 < i < ".ttf"@.len() ==> ".ttf"@[i] != '.' && !('A' <= ".ttf"@[i] <= 'Z'),
        ".txt"@.len() == 4 && ".txt"@[0] == '.' && ".txt"@[1] == 't' && ".txt"@[2] == 'x',
        forall|i: int| 0 < i < ".txt"@.len() ==> ".txt"@[i] != '.' && !('A' <= ".txt"@[i] <= 'Z'),
{
    reveal_strlit(".html");
    reveal_strlit(".css");
    reveal_strlit(".mjs");
    reveal_strlit(".js");
    reveal_strlit(".json");
    reveal_strlit(".map");
    reveal_strlit(".wasm");
    reveal_strlit(".svg");
    reveal_strlit(".png");
    reveal_strlit(".jpg");
    reveal_strlit(".jpeg");
    reveal_strlit(".gif");
    reveal_strlit(".webp");
    reveal_strlit(".ico");
    reveal_strlit(".woff2");
    reveal_strlit(".woff");
    reveal_strlit(".ttf");
    reveal_strlit(".txt");
}

/// A dotted ending, behind any text, is what the text holds from its last dot on.
proof fn lemma_type_of_ending(front: Seq<char>, ending: Seq<char>)
    requires
        ending.len() > 0,
        ending[0] == '.',
        forall|i: int| 0 < i < ending.len() ==> ending[i] != '.',
    ensures
        forall|suffix: Seq<char>|
            suffix.len() > 0 && suffix[0] == '.' && (forall|i: int|
                0 < i < suffix.len() ==> suffix[i] != '.') ==> (#[trigger] suffix.is_suffix_of(
                front + ending,
            ) <==> suffix == ending),
{
    let whole = front + ending;
    lemma_last_dot(whole);
    let k = last_dot(whole);
    assert(k == front.len()) by {
        assert(whole[front.len() as int] == ending[0]);
        if k > front.len() {
            assert(whole[k] == ending[k - front.len()]);
        }
    }
    assert(whole.skip(k) =~= ending);
    assert forall|suffix: Seq<char>|
        suffix.len() > 0 && suffix[0] == '.' && (forall|i: int|
            0 < i < suffix.len() ==> suffix[i] != '.') implies (#[trigger] suffix.is_suffix_of(
        whole,
    ) <==> suffix == ending) by {
        lemma_dotted_suffix(whole, suffix);
    }
}

/// A path with none of the known endings has the type of plain bytes.
pub proof fn law_other_endings_are_bytes(path: Seq<char>)
    requires
        !".html"@.is_suffix_of(path),
        !".css"@.is_suffix_of(path),
        !".mjs"@.is_suffix_of(path),
        !".js"@.is_suffix_of(path),
        !".json"@.is_suffix_of(path),
        !".map"@.is_suffix_of(path),
        !".wasm"@.is_suffix_of(path),
        !".svg"@.is_suffix_of(path),
        !".png"@.is_suffix_of(path),
        !".jpg"@.is_suffix_of(path),
        !".jpeg"@.is_suffix_of(path),
        !".gif"@.is_suffix_of(path),
        !".webp"@.is_suffix_of(path),
        !".ico"@.is_suffix_of(path),
        !".woff2"@.is_suffix_of(path),
        !".woff"@.is_suffix_of(path),
        !".ttf"@.is_suffix_of(path),
        !".txt"@.is_suffix_of(path),
    ensures
        mime_type(path) == "application/octet-stream"@,
{
}

/// Each extension, in any case, has its content type, and a file without one has that of plain
/// bytes.
pub proof fn law_extensions_have_their_types(ext: Seq<char>)
    ensures
        text::same_ignoring_case(ext, "html"@) ==> mime_type_of_extension(Some(ext))
            == "text/html; charset=utf-8"@,
        text::same_ignoring_case(ext, "css"@) ==> mime_type_of_extension(Some(ext))
            == "text/css; charset=utf-8"@,
        text::same_ignoring_case(ext, "mjs"@) ==> mime_type_of_extension(Some(ext))
            == "application/javascript; charset=utf-8"@,
        text::same_ignoring_case(ext, "js"@) ==> mime_type_of_extension(Some(ext))
            == "application/javascript; charset=utf-8"@,
        text::same_ignoring_case(ext, "json"@) ==> mime_type_of_extension(Some(ext))
            == "application/json; charset=utf-8"@,
        text::same_ignoring_case(ext, "map"@) ==> mime_type_of_extension(Some(ext))
            == "application/json; charset=utf-8"@,
        text::same_ignoring_case(ext, "wasm"@) ==> mime_type_of_extension(Some(ext))
            == "application/wasm"@,
        text::same_ignoring_case(ext, "svg"@) ==> mime_type_of_extension(Some(ext))
            == "image/svg+xml"@,
        text::same_ignoring_case(ext, "png"@) ==> mime_type_of_extension(Some(ext))
            == "image/png"@,
        text::same_ignoring_case(ext, "jpg"@) ==> mime_type_of_extension(Some(ext))
            == "image/jpeg"@,
        text::same_ignoring_case(ext, "jpeg"@) ==> mime_type_of_extension(Some(ext))
            == "image/jpeg"@,
        text::same_ignoring_case(ext, "gif"@) ==> mime_type_of_extension(Some(ext))
            == "image/gif"@,
        text::same_ignoring_case(ext, "webp"@) ==> mime_type_of_extension(Some(ext))
            == "image/webp"@,
        text::same_ignoring_case(ext, "ico"@) ==> mime_type_of_extension(Some(ext))
            == "image/x-icon"@,
        text::same_ignoring_case(ext, "woff2"@) ==> mime_type_of_extension(Some(ext))
            == "font/woff2"@,
        text::same_ignoring_case(ext, "woff"@) ==> mime_type_of_extension(Some(ext))
            == "font/woff"@,
        text::same_ignoring_case(ext, "ttf"@) ==> mime_type_of_extension(Some(ext))
            == "font/ttf"@,
        text::same_ignoring_case(ext, "txt"@) ==> mime_type_of_extension(Some(ext))
            == "text/plain; charset=utf-8"@,
        mime_type_of_extension(None) == "application/octet-stream"@,
{
    let nothing = Seq::<char>::empty();
    law_endings_have_their_types(nothing);
    lemma_dot_alone();
    assert(text::same_ignoring_case(ext, "html"@) ==> mime_type_of_extension(Some(ext))
        == mime_type(nothing + ".html"@)) by {
        lemma_ending_html();
        if text::same_ignoring_case(ext, "html"@) {
            lemma_extension_in_lower_case(ext, "html"@, ".html"@);
        }
    }
    assert(text::same_ignoring_case(ext, "css"@) ==> mime_type_of_extension(Some(ext))
        == mime_type(nothing + ".css"@)) by {
        lemma_ending_css();
        if text::same_ignoring_case(ext, "css"@) {
            lemma_extension_in_lower_case(ext, "css"@, ".css"@);
        }
    }
    assert(text::same_ignoring_case(ext, "mjs"@) ==> mime_type_of_extension(Some(ext))
        == mime_type(nothing + ".mjs"@)) by {
        lemma_ending_mjs();
        if text::same_ignoring_case(ext, "mjs"@) {
            lemma_extension_in_lower_case(ext, "mjs"@, ".mjs"@);
        }
    }
    assert(text::same_ignoring_case(ext, "js"@) ==> mime_type_of_extension(Some(ext))
        == mime_type(nothing + ".js"@)) by {
        lemma_ending_js();
        if text::same_ignoring_case(ext, "js"@) {
            lemma_extension_in_lower_case(ext, "js"@, ".js"@);
        }
    }
    assert(text::same_ignoring_case(ext, "json"@) ==> mime_type_of_extension(Some(ext))
        == mime_type(nothing + ".json"@)) by {
        lemma_ending_json();
        if text::same_ignoring_case(ext, "json"@) {
            lemma_extension_in_lower_case(ext, "json"@, ".json"@);
        }
    }
    assert(text::same_ignoring_case(ext, "map"@) ==> mime_type_of_extension(Some(ext))
        == mime_type(nothing + ".map"@)) by {
        lemma_ending_map();
        if text::same_ignoring_case(ext, "map"@) {
            lemma_extension_in_lower_case(ext, "map"@, ".map"@);
        }
    }
    assert(text::same_ignoring_case(ext, "wasm"@) ==> mime_type_of_extension(Some(ext))
        == mime_type(nothing + ".wasm"@)) by {
        lemma_ending_wasm();
        if text::same_ignoring_case(ext, "wasm"@) {
            lemma_extension_in_lower_case(ext, "wasm"@, ".wasm"@);
        }
    }
    assert(text::same_ignoring_case(ext, "svg"@) ==> mime_type_of_extension(Some(ext))
        == mime_type(nothing + ".svg"@)) by {
        lemma_ending_svg();
        if text::same_ignoring_case(ext, "svg"@) {
            lemma_extension_in_lower_case(ext, "svg"@, ".svg"@);
        }
    }
    assert(text::same_ignoring_case(ext, "png"@) ==> mime_type_of_extension(Some(ext))
        == mime_type(nothing + ".png"@)) by {
        lemma_ending_png();
        if text::same_ignoring_case(ext, "png"@) {
            lemma_extension_in_lower_case(ext, "png"@, ".png"@);
        }
    }
    assert(text::same_ignoring_case(ext, "jpg"@) ==> mime_type_of_extension(Some(ext))
        == mime_type(nothing + ".jpg"@)) by {
        lemma_ending_jpg();
        if text::same_ignoring_case(ext, "jpg"@) {
            lemma_extension_in_lower_case(ext, "jpg"@, ".jpg"@);
        }
    }
    assert(text::same_ignoring_case(ext, "jpeg"@) ==> mime_type_of_extension(Some(ext))
        == mime_type(nothing + ".jpeg"@)) by {
        lemma_ending_jpeg();
        if text::same_ignoring_case(ext, "jpeg"@) {
            lemma_extension_in_lower_case(ext, "jpeg"@, ".jpeg"@);
        }
    }
    assert(text::same_ignoring_case(ext, "gif"@) ==> mime_type_of_extension(Some(ext))
        == mime_type(nothing + ".gif"@)) by {
        lemma_ending_gif();
        if text::same_ignoring_case(ext, "gif"@) {
            lemma_extension_in_lower_case(ext, "gif"@, ".gif"@);
        }
    }
    assert(text::same_ignoring_case(ext, "webp"@) ==> mime_type_of_extension(Some(ext))
        == mime_type(nothing + ".webp"@)) by {
        lemma_ending_webp();
        if text::same_ignoring_case(ext, "webp"@) {
            lemma_extension_in_lower_case(ext, "webp"@, ".webp"@);
        }
    }
    assert(text::same_ignoring_case(ext, "ico"@) ==> mime_type_of_extension(Some(ext))
        == mime_type(nothing + ".ico"@)) by {
        lemma_ending_ico();
        if text::same_ignoring_case(ext, "ico"@) {
            lemma_extension_in_lower_case(ext, "ico"@, ".ico"@);
        }
    }
    assert(text::same_ignoring_case(ext, "woff2"@) ==> mime_type_of_extension(Some(ext))
        == mime_type(nothing + ".woff2"@)) by {
        lemma_ending_woff2();
        if text::same_ignoring_case(ext, "woff2"@) {
            lemma_extension_in_lower_case(ext, "woff2"@, ".woff2"@);
        }
    }
    assert(text::same_ignoring_case(ext, "woff"@) ==> mime_type_of_extension(Some(ext))
        == mime_type(nothing + ".woff"@)) by {
        lemma_ending_woff();
        if text::same_ignoring_case(ext, "woff"@) {
            lemma_extension_in_lower_case(ext, "woff"@, ".woff"@);
        }
    }
    assert(text::same_ignoring_case(ext, "ttf"@) ==> mime_type_of_extension(Some(ext))
        == mime_type(nothing + ".ttf"@)) by {
        lemma_ending_ttf();
        if text::same_ignoring_case(ext, "ttf"@) {
            lemma_extension_in_lower_case(ext, "ttf"@, ".ttf"@);
        }
    }
    assert(text::same_ignoring_case(ext, "txt"@) ==> mime_type_of_extension(Some(ext))
        == mime_type(nothing + ".txt"@)) by {
        lemma_ending_txt();
        if text::same_ignoring_case(ext, "txt"@) {
            lemma_extension_in_lower_case(ext, "txt"@, ".txt"@);
        }
    }
}

/// A dot alone is none of the known endings.
proof fn lemma_dot_alone()
    ensures
        mime_type_of_extension(None) == "application/octet-stream"@,
{
    assert(seq!['.'] + text::ascii_lowercase(Seq::empty()) =~= seq!['.']);
    lemma_endings_by_characters();
}

proof fn lemma_ending_html()
    ensures
        ".html"@ =~= seq!['.'] + "html"@,
        forall|i: int|
            0 <= i < "html"@.len() ==> !('A' <= #[trigger] "html"@[i] <= 'Z') && "html"@[i] != '.',
{
    reveal_strlit(".html");
    reveal_strlit("html");
}

proof fn lemma_ending_css()
    ensures
        ".css"@ =~= seq!['.'] + "css"@,
        forall|i: int|
            0 <= i < "css"@.len() ==> !('A' <= #[trigger] "css"@[i] <= 'Z') && "css"@[i] != '.',
{
    reveal_strlit(".css");
    reveal_strlit("css");
}

proof fn lemma_ending_mjs()
    ensures
        ".mjs"@ =~= seq!['.'] + "mjs"@,
        forall|i: int|
            0 <= i < "mjs"@.len() ==> !('A' <= #[trigger] "mjs"@[i] <= 'Z') && "mjs"@[i] != '.',
{
    reveal_strlit(".mjs");
    reveal_strlit("mjs");
}

proof fn lemma_ending_js()
    ensures
        ".js"@ =~= seq!['.'] + "js"@,
        forall|i: int|
            0 <= i < "js"@.len() ==> !('A' <= #[trigger] "js"@[i] <= 'Z') && "js"@[i] != '.',
{
    reveal_strlit(".js");
    reveal_strlit("js");
}

proof fn lemma_ending_json()
    ensures
        ".json"@ =~= seq!['.'] + "json"@,
        forall|i: int|
            0 <= i < "json"@.len() ==> !('A' <= #[trigger] "json"@[i] <= 'Z') && "json"@[i] != '.',
{
    reveal_strlit(".json");
    reveal_strlit("json");
}

proof fn lemma_ending_map()
    ensures
        ".map"@ =~= seq!['.'] + "map"@,
        forall|i: int|
            0 <= i < "map"@.len() ==> !('A' <= #[trigger] "map"@[i] <= 'Z') && "map"@[i] != '.',
{
    reveal_strlit(".map");
    reveal_strlit("map");
}

proof fn lemma_ending_wasm()
    ensures
        ".wasm"@ =~= seq!['.'] + "wasm"@,
        forall|i: int|
            0 <= i < "wasm"@.len() ==> !('A' <= #[trigger] "wasm"@[i] <= 'Z') && "wasm"@[i] != '.',
{
    reveal_strlit(".wasm");
    reveal_strlit("wasm");
}

proof fn lemma_ending_svg()
    ensures
        ".svg"@ =~= seq!['.'] + "svg"@,
        forall|i: int|
            0 <= i < "svg"@.len() ==> !('A' <= #[trigger] "svg"@[i] <= 'Z') && "svg"@[i] != '.',
{
    reveal_strlit(".svg");
    reveal_strlit("svg");
}

proof fn lemma_ending_png()
    ensures
        ".png"@ =~= seq!['.'] + "png"@,
        forall|i: int|
            0 <= i < "png"@.len() ==> !('A' <= #[trigger] "png"@[i] <= 'Z') && "png"@[i] != '.',
{
    reveal_strlit(".png");
    reveal_strlit("png");
}

proof fn lemma_ending_jpg()
    ensures
        ".jpg"@ =~= seq!['.'] + "jpg"@,
        forall|i: int|
            0 <= i < "jpg"@.len() ==> !('A' <= #[trigger] "jpg"@[i] <= 'Z') && "jpg"@[i] != '.',
{
    reveal_strlit(".jpg");
    reveal_strlit("jpg");
}

proof fn lemma_ending_jpeg()
    ensures
        ".jpeg"@ =~= seq!['.'] + "jpeg"@,
        forall|i: int|
            0 <= i < "jpeg"@.len() ==> !('A' <= #[trigger] "jpeg"@[i] <= 'Z') && "jpeg"@[i] != '.',
{
    reveal_strlit(".jpeg");
    reveal_strlit("jpeg");
}

proof fn lemma_ending_gif()
    ensures
        ".gif"@ =~= seq!['.'] + "gif"@,
        forall|i: int|
            0 <= i < "gif"@.len() ==> !('A' <= #[trigger] "gif"@[i] <= 'Z') && "gif"@[i] != '.',
{
    reveal_strlit(".gif");
    reveal_strlit("gif");
}

proof fn lemma_ending_webp()
    ensures
        ".webp"@ =~= seq!['.'] + "webp"@,
        forall|i: int|
            0 <= i < "webp"@.len() ==> !('A' <= #[trigger] "webp"@[i] <= 'Z') && "webp"@[i] != '.',
{
    reveal_strlit(".webp");
    reveal_strlit("webp");
}

proof fn lemma_ending_ico()
    ensures
        ".ico"@ =~= seq!['.'] + "ico"@,
        forall|i: int|
            0 <= i < "ico"@.len() ==> !('A' <= #[trigger] "ico"@[i] <= 'Z') && "ico"@[i] != '.',
{
    reveal_strlit(".ico");
    reveal_strlit("ico");
}

proof fn lemma_ending_woff2()
    ensures
        ".woff2"@ =~= seq!['.'] + "woff2"@,
        forall|i: int|
            0 <= i < "woff2"@.len() ==> !('A' <= #[trigger] "woff2"@[i] <= 'Z') && "woff2"@[i] != '.',
{
    reveal_strlit(".woff2");
    reveal_strlit("woff2");
}

proof fn lemma_ending_woff()
    ensures
        ".woff"@ =~= seq!['.'] + "woff"@,
        forall|i: int|
            0 <= i < "woff"@.len() ==> !('A' <= #[trigger] "woff"@[i] <= 'Z') && "woff"@[i] != '.',
{
    reveal_strlit(".woff");
    reveal_strlit("woff");
}

proof fn lemma_ending_ttf()
    ensures
        ".ttf"@ =~= seq!['.'] + "ttf"@,
        forall|i: int|
            0 <= i < "ttf"@.len() ==> !('A' <= #[trigger] "ttf"@[i] <= 'Z') && "ttf"@[i] != '.',
{
    reveal_strlit(".ttf");
    reveal_strlit("ttf");
}

proof fn lemma_ending_txt()
    ensures
        ".txt"@ =~= seq!['.'] + "txt"@,
        forall|i: int|
            0 <= i < "txt"@.len() ==> !('A' <= #[trigger] "txt"@[i] <= 'Z') && "txt"@[i] != '.',
{
    reveal_strlit(".txt");
    reveal_strlit("txt");
}

/// An extension that is a known one in some case becomes the known ending.
proof fn lemma_extension_in_lower_case(ext: Seq<char>, known: Seq<char>, ending: Seq<char>)
    requires
        text::same_ignoring_case(ext, known),
        ending =~= seq!['.'] + known,
        forall|i: int| 0 <= i < known.len() ==> !('A' <= #[trigger] known[i] <= 'Z'),
    ensures
        mime_type_of_extension(Some(ext)) == mime_type(Seq::empty() + ending),
{
    assert(text::ascii_lowercase(known) =~= known);
    assert(Seq::<char>::empty() + ending =~= ending);
}

/// An extension without a dot that is none of the known ones, in any case, is that of plain bytes.
pub proof fn law_other_extensions_are_bytes(ext: Seq<char>)
    requires
        !ext.contains('.'),
        !text::same_ignoring_case(ext, "html"@),
        !text::same_ignoring_case(ext, "css"@),
        !text::same_ignoring_case(ext, "mjs"@),
        !text::same_ignoring_case(ext, "js"@),
        !text::same_ignoring_case(ext, "json"@),
        !text::same_ignoring_case(ext, "map"@),
        !text::same_ignoring_case(ext, "wasm"@),
        !text::same_ignoring_case(ext, "svg"@),
        !text::same_ignoring_case(ext, "png"@),
        !text::same_ignoring_case(ext, "jpg"@),
        !text::same_ignoring_case(ext, "jpeg"@),
        !text::same_ignoring_case(ext, "gif"@),
        !text::same_ignoring_case(ext, "webp"@),
        !text::same_ignoring_case(ext, "ico"@),
        !text::same_ignoring_case(ext, "woff2"@),
        !text::same_ignoring_case(ext, "woff"@),
        !text::same_ignoring_case(ext, "ttf"@),
        !text::same_ignoring_case(ext, "txt"@),
    ensures
        mime_type_of_extension(Some(ext)) == "application/octet-stream"@,
{
    let dotted = seq!['.'] + text::ascii_lowercase(ext);
    assert(!".html"@.is_suffix_of(dotted)) by {
        lemma_ending_html();
        lemma_extension_is_no_other(ext, "html"@, ".html"@);
    }
    assert(!".css"@.is_suffix_of(dotted)) by {
        lemma_ending_css();
        lemma_extension_is_no_other(ext, "css"@, ".css"@);
    }
    assert(!".mjs"@.is_suffix_of(dotted)) by {
        lemma_ending_mjs();
        lemma_extension_is_no_other(ext, "mjs"@, ".mjs"@);
    }
    assert(!".js"@.is_suffix_of(dotted)) by {
        lemma_ending_js();
        lemma_extension_is_no_other(ext, "js"@, ".js"@);
    }
    assert(!".json"@.is_suffix_of(dotted)) by {
        lemma_ending_json();
        lemma_extension_is_no_other(ext, "json"@, ".json"@);
    }
    assert(!".map"@.is_suffix_of(dotted)) by {
        lemma_ending_map();
        lemma_extension_is_no_other(ext, "map"@, ".map"@);
    }
    assert(!".wasm"@.is_suffix_of(dotted)) by {
        lemma_ending_wasm();
        lemma_extension_is_no_other(ext, "wasm"@, ".wasm"@);
    }
    assert(!".svg"@.is_suffix_of(dotted)) by {
        lemma_ending_svg();
        lemma_extension_is_no_other(ext, "svg"@, ".svg"@);
    }
    assert(!".png"@.is_suffix_of(dotted)) by {
        lemma_ending_png();
        lemma_extension_is_no_other(ext, "png"@, ".png"@);
    }
    assert(!".jpg"@.is_suffix_of(dotted)) by {
        lemma_ending_jpg();
        lemma_extension_is_no_other(ext, "jpg"@, ".jpg"@);
    }
    assert(!".jpeg"@.is_suffix_of(dotted)) by {
        lemma_ending_jpeg();
        lemma_extension_is_no_other(ext, "jpeg"@, ".jpeg"@);
    }
    assert(!".gif"@.is_suffix_of(dotted)) by {
        lemma_ending_gif();
        lemma_extension_is_no_other(ext, "gif"@, ".gif"@);
    }
    assert(!".webp"@.is_suffix_of(dotted)) by {
        lemma_ending_webp();
        lemma_extension_is_no_other(ext, "webp"@, ".webp"@);
    }
    assert(!".ico"@.is_suffix_of(dotted)) by {
        lemma_ending_ico();
        lemma_extension_is_no_other(ext, "ico"@, ".ico"@);
    }
    assert(!".woff2"@.is_suffix_of(dotted)) by {
        lemma_ending_woff2();
        lemma_extension_is_no_other(ext, "woff2"@, ".woff2"@);
    }
    assert(!".woff"@.is_suffix_of(dotted)) by {
        lemma_ending_woff();
        lemma_extension_is_no_other(ext, "woff"@, ".woff"@);
    }
    assert(!".ttf"@.is_suffix_of(dotted)) by {
        lemma_ending_ttf();
        lemma_extension_is_no_other(ext, "ttf"@, ".ttf"@);
    }
    assert(!".txt"@.is_suffix_of(dotted)) by {
        lemma_ending_txt();
        lemma_extension_is_no_other(ext, "txt"@, ".txt"@);
    }
}

/// An extension that is not a known one has not its ending.
proof fn lemma_extension_is_no_other(ext: Seq<char>, known: Seq<char>, ending: Seq<char>)
    requires
        !ext.contains('.'),
        !text::same_ignoring_case(ext, known),
        ending =~= seq!['.'] + known,
        forall|i: int| 0 <= i < known.len() ==> !('A' <= #[trigger] known[i] <= 'Z') && known[i]
            != '.',
    ensures
        !ending.is_suffix_of(seq!['.'] + text::ascii_lowercase(ext)),
{
    let lower = text::ascii_lowercase(ext);
    let dotted = seq!['.'] + lower;
    assert forall|i: int| 0 < i < dotted.len() implies dotted[i] != '.' by {
        assert(dotted[i] == text::ascii_lower(ext[i - 1]));
        assert(ext[i - 1] != '.');
    }
    lemma_type_of_ending(Seq::empty(), dotted);
    assert(Seq::<char>::empty() + dotted =~= dotted);
    assert(text::ascii_lowercase(known) =~= known);
    if ending == dotted {
        assert(ending.skip(1) =~= known);
        assert(dotted.skip(1) =~= lower);
    }
}

/// The extension is what follows the last dot, behind at least one character.
pub proof fn law_extension_follows_last_dot(stem: Seq<char>, ext: Seq<char>)
    requires
        !ext.contains('.'),
    ensures
        extension(ext) is None,
        extension(seq!['.'] + ext) is None,
        stem.len() > 0 && !(stem == seq!['.'] && ext.len() == 0) ==> extension(
            stem + seq!['.'] + ext,
        ) == Some(ext),
        extension(seq!['.', '.']) is None,
{
    lemma_last_dot(ext);
    if last_dot(ext) >= 0 {
        assert(ext[last_dot(ext)] == '.');
    }
    let hidden = seq!['.'] + ext;
    lemma_last_dot(hidden);
    if last_dot(hidden) > 0 {
        assert(ext[last_dot(hidden) - 1] == '.');
    }
    let whole = stem + seq!['.'] + ext;
    lemma_last_dot(whole);
    let k = stem.len() as int;
    assert(whole[k] == '.');
    if last_dot(whole) > k {
        assert(ext[last_dot(whole) - k - 1] == '.');
    }
    assert(whole.skip(k + 1) =~= ext);
    if whole == seq!['.', '.'] {
        assert(whole.len() == 2);
        if stem.len() == 1 {
            assert(stem[0] == whole[0]);
            assert(stem =~= seq!['.']);
        }
    }
}

/// The content type of a name is that of its extension.
pub proof fn law_name_has_type_of_extension(stem: Seq<char>, ext: Seq<char>)
    requires
        !ext.contains('.'),
        stem.len() > 0,
        !(stem == seq!['.'] && ext.len() == 0),
    ensures
        mime_type_of_name(stem + seq!['.'] + ext) == mime_type_of_extension(Some(ext)),
        mime_type_of_name(ext) == "application/octet-stream"@,
        mime_type_of_name(seq!['.'] + ext) == "application/octet-stream"@,
{
    law_extension_follows_last_dot(stem, ext);
    law_extensions_have_their_types(ext);
}

/// The last name skips, from behind, what is empty or the current directory, and nothing else.
pub proof fn law_last_name_skips_what_names_nothing(pieces: Seq<Seq<char>>, last: Seq<char>)
    ensures
        last_named(Seq::empty()) is None,
        last.len() == 0 || last == seq!['.'] ==> last_named(pieces.push(last)) == last_named(pieces),
        last.len() > 0 && last != seq!['.'] ==> last_named(pieces.push(last)) == Some(last),
{
    assert(pieces.push(last).drop_last() =~= pieces);
}

/// A text may stand in a header exactly if it holds nothing but the characters from the blank to
/// the tilde.
pub proof fn law_visible_ascii_is_printable(s: Seq<char>)
    ensures
        visible_ascii(s) <==> !exists|i: int|
            0 <= i < s.len() && !(0x20 <= (#[trigger] s[i]) as int <= 0x7e),
{
}

} // verus!
