//! Operations on text, each stated over the sequence of its characters.
use vstd::prelude::*;

verus! {

/// `String::push` puts one character behind the text that was there.
pub assume_specification[ String::push ](s: &mut String, c: char)
    ensures
        final(s)@ == old(s)@.push(c),
;

/// How many characters stand before the first `a` or `b`, all of them if there is neither.
pub open spec fn run_before(s: Seq<char>, a: char, b: char) -> nat
    decreases s.len(),
{
    if s.len() == 0 || s[0] == a || s[0] == b {
        0
    } else {
        1 + run_before(s.drop_first(), a, b)
    }
}

/// The text up to the first `a` or `b`.
pub open spec fn before_first(s: Seq<char>, a: char, b: char) -> Seq<char> {
    s.take(run_before(s, a, b) as int)
}

/// The text without the slashes it begins with.
pub open spec fn without_leading_slashes(s: Seq<char>) -> Seq<char>
    decreases s.len(),
{
    if s.len() > 0 && s[0] == '/' {
        without_leading_slashes(s.drop_first())
    } else {
        s
    }
}

/// The text without the slashes it ends in.
pub open spec fn without_trailing_slashes(s: Seq<char>) -> Seq<char>
    decreases s.len(),
{
    if s.len() > 0 && s.last() == '/' {
        without_trailing_slashes(s.drop_last())
    } else {
        s
    }
}

/// The pieces between the slashes. There is one piece more than there are slashes.
pub open spec fn slash_pieces(s: Seq<char>) -> Seq<Seq<char>>
    decreases s.len(),
{
    if s.len() == 0 {
        seq![Seq::<char>::empty()]
    } else {
        let before = slash_pieces(s.drop_last());
        if s.last() == '/' {
            before.push(Seq::empty())
        } else {
            before.drop_last().push(before.last().push(s.last()))
        }
    }
}

/// The pieces with one slash between each and the next.
pub open spec fn joined_by_slashes(pieces: Seq<Seq<char>>) -> Seq<char>
    decreases pieces.len(),
{
    if pieces.len() == 0 {
        Seq::empty()
    } else if pieces.len() == 1 {
        pieces[0]
    } else {
        joined_by_slashes(pieces.drop_last()).push('/') + pieces.last()
    }
}

/// Two dots stand next to each other somewhere in the text.
pub open spec fn has_double_dot(s: Seq<char>) -> bool {
    exists|i: int| 0 <= i < s.len() - 1 && #[trigger] s[i] == '.' && s[i + 1] == '.'
}

/// The lower-case letter for an ASCII capital, any other character as it is.
pub open spec fn ascii_lower(c: char) -> char {
    if 'A' <= c <= 'Z' {
        ((c as u8) + 32) as char
    } else {
        c
    }
}

/// The text with each ASCII capital in lower case.
pub open spec fn ascii_lowercase(s: Seq<char>) -> Seq<char> {
    s.map_values(|c: char| ascii_lower(c))
}

/// The texts differ at most in the case of ASCII letters.
pub open spec fn same_ignoring_case(a: Seq<char>, b: Seq<char>) -> bool {
    ascii_lowercase(a) == ascii_lowercase(b)
}

/// The decimal digit of a number below ten.
pub open spec fn digit(n: nat) -> char {
    (n + 48) as char
}

/// The number in decimal, without leading zeros.
pub open spec fn decimal(n: nat) -> Seq<char>
    decreases n,
{
    if n < 10 {
        seq![digit(n)]
    } else {
        decimal(n / 10).push(digit(n % 10))
    }
}

/// The number that a row of decimal digits stands for.
pub open spec fn decimal_value(s: Seq<char>) -> nat
    decreases s.len(),
{
    if s.len() == 0 {
        0
    } else {
        (10 * decimal_value(s.drop_last()) + (s.last() as int - 48)) as nat
    }
}

/// Whether two texts hold the same characters.
pub fn same_text(a: &str, b: &str) -> (same: bool)
    ensures
        same == (a@ == b@),
{
    let left = a.as_bytes();
    let right = b.as_bytes();
    proof {
        vstd::utf8::encode_utf8_decode_utf8(a@);
        vstd::utf8::encode_utf8_decode_utf8(b@);
    }
    if left.len() != right.len() {
        return false;
    }
    let mut i: usize = 0;
    while i < left.len()
        invariant
            left@ == vstd::utf8::encode_utf8(a@),
            right@ == vstd::utf8::encode_utf8(b@),
            left@.len() == right@.len(),
            i <= left@.len(),
            forall|j: int| 0 <= j < i ==> left@[j] == right@[j],
        decreases left@.len() - i,
    {
        if left[i] != right[i] {
            return false;
        }
        i += 1;
    }
    assert(left@ =~= right@);
    true
}

/// The text up to the first `a` or `b`.
pub fn cut_before(s: &str, a: char, b: char) -> (head: String)
    ensures
        head@ == before_first(s@, a, b),
{
    let mut head = String::new();
    let ghost mut rest = s@;
    for c in it: s.chars()
        invariant
            it.seq() == s@,
            head@ == s@.take(it.index() as int),
            rest == s@.skip(it.index() as int),
            run_before(s@, a, b) == it.index() + run_before(rest, a, b),
    {
        if c == a || c == b {
            return head;
        }
        head.push(c);
        proof {
            assert(rest.drop_first() =~= s@.skip(it.index() + 1));
            rest = rest.drop_first();
            assert(head@ =~= s@.take(it.index() + 1));
        }
    }
    head
}

/// Whether the character occurs in the text.
pub fn has_char(s: &str, wanted: char) -> (found: bool)
    ensures
        found == s@.contains(wanted),
{
    for c in it: s.chars()
        invariant
            it.seq() == s@,
            forall|j: int| 0 <= j < it.index() ==> s@[j] != wanted,
    {
        if c == wanted {
            assert(s@[it.index() as int] == wanted);
            return true;
        }
    }
    false
}

/// Whether two dots stand next to each other somewhere in the text.
pub fn finds_double_dot(s: &str) -> (found: bool)
    ensures
        found == has_double_dot(s@),
{
    let mut after_dot = false;
    for c in it: s.chars()
        invariant
            it.seq() == s@,
            after_dot == (it.index() > 0 && s@[it.index() - 1] == '.'),
            forall|j: int| 0 <= j < it.index() - 1 ==> !(#[trigger] s@[j] == '.' && s@[j + 1] == '.'),
    {
        if c == '.' && after_dot {
            assert(s@[it.index() - 1] == '.' && s@[it.index() - 1 + 1] == '.');
            return true;
        }
        after_dot = c == '.';
    }
    false
}

/// Whether the text ends in the given suffix.
pub fn ends_in(s: &str, suffix: &str) -> (yes: bool)
    ensures
        yes == suffix@.is_suffix_of(s@),
{
    let n: usize = s.unicode_len();
    let k: usize = suffix.unicode_len();
    if n < k {
        return false;
    }
    let tail = s.substring_char(n - k, n);
    same_text(tail, suffix)
}

/// The text without the slashes it begins with.
pub fn trim_leading_slashes(s: &str) -> (rest: String)
    ensures
        rest@ == without_leading_slashes(s@),
{
    let n: usize = s.unicode_len();
    let mut k: usize = 0;
    assert(s@.skip(0) =~= s@);
    for c in it: s.chars()
        invariant
            it.seq() == s@,
            n == s@.len(),
            k == it.index(),
            without_leading_slashes(s@) == without_leading_slashes(s@.skip(k as int)),
    {
        if c != '/' {
            return s.substring_char(k, n).to_owned();
        }
        assert(s@.skip(k as int).drop_first() =~= s@.skip(k + 1));
        k += 1;
    }
    assert(s@.skip(n as int) =~= Seq::<char>::empty());
    String::new()
}

/// The text without the slashes it ends in.
pub fn trim_trailing_slashes(s: &str) -> (rest: String)
    ensures
        rest@ == without_trailing_slashes(s@),
{
    let mut k: usize = s.unicode_len();
    assert(s@.take(k as int) =~= s@);
    while k > 0
        invariant
            k <= s@.len(),
            without_trailing_slashes(s@) == without_trailing_slashes(s@.take(k as int)),
        decreases k,
    {
        if s.get_char(k - 1) != '/' {
            return s.substring_char(0, k).to_owned();
        }
        assert(s@.take(k as int).drop_last() =~= s@.take(k - 1));
        k -= 1;
    }
    assert(s@.take(0) =~= Seq::<char>::empty());
    String::new()
}

/// The pieces between the slashes.
pub fn split_at_slashes(s: &str) -> (pieces: Vec<String>)
    ensures
        pieces.deep_view() == slash_pieces(s@),
{
    let mut done: Vec<String> = Vec::new();
    let mut open = String::new();
    assert(done.deep_view().push(open@) =~= slash_pieces(s@.take(0)));
    for c in it: s.chars()
        invariant
            it.seq() == s@,
            done.deep_view().push(open@) == slash_pieces(s@.take(it.index() as int)),
    {
        let ghost so_far = s@.take(it.index() + 1);
        let ghost old_done = done.deep_view();
        let ghost old_open = open@;
        proof {
            assert(so_far.drop_last() =~= s@.take(it.index() as int));
            assert(so_far.last() == c);
            assert(old_done.push(old_open).drop_last() =~= old_done);
        }
        if c == '/' {
            done.push(open);
            open = String::new();
            assert(done.deep_view() =~= old_done.push(old_open));
            assert(done.deep_view().push(open@) =~= slash_pieces(so_far));
        } else {
            open.push(c);
            assert(done.deep_view().push(open@) =~= slash_pieces(so_far));
        }
    }
    assert(s@.take(s@.len() as int) =~= s@);
    let ghost old_done = done.deep_view();
    let ghost old_open = open@;
    done.push(open);
    assert(done.deep_view() =~= old_done.push(old_open));
    done
}

/// The text with each ASCII capital in lower case.
pub fn to_ascii_lower(s: &str) -> (lower: String)
    ensures
        lower@ == ascii_lowercase(s@),
{
    let mut lower = String::new();
    for c in it: s.chars()
        invariant
            it.seq() == s@,
            lower@ == ascii_lowercase(s@.take(it.index() as int)),
    {
        let small = if 'A' <= c && c <= 'Z' {
            ((c as u8) + 32) as char
        } else {
            c
        };
        lower.push(small);
        assert(lower@ =~= ascii_lowercase(s@.take(it.index() + 1)));
    }
    assert(s@.take(s@.len() as int) =~= s@);
    lower
}

/// Whether the texts differ at most in the case of ASCII letters.
pub fn matches_ignoring_case(a: &str, b: &str) -> (same: bool)
    ensures
        same == same_ignoring_case(a@, b@),
{
    let left = to_ascii_lower(a);
    let right = to_ascii_lower(b);
    same_text(left.as_str(), right.as_str())
}

/// The number in decimal.
pub fn decimal_text(n: u16) -> (text: String)
    ensures
        text@ == decimal(n as nat),
    decreases n,
{
    let mut text = if n < 10 {
        String::new()
    } else {
        decimal_text(n / 10)
    };
    let last: u8 = (n % 10) as u8;
    text.push((48 + last) as char);
    assert(text@ =~= decimal(n as nat));
    text
}

/// Splitting a text at its slashes loses nothing: joined by slashes again, the pieces are the
/// text. There is at least one piece, and none holds a slash.
pub proof fn law_pieces_rejoin(s: Seq<char>)
    ensures
        joined_by_slashes(slash_pieces(s)) == s,
        slash_pieces(s).len() >= 1,
        forall|i: int| 0 <= i < slash_pieces(s).len() ==> !(#[trigger] slash_pieces(s)[i]).contains('/'),
    decreases s.len(),
{
    if s.len() == 0 {
    } else {
        let before = slash_pieces(s.drop_last());
        let pieces = slash_pieces(s);
        law_pieces_rejoin(s.drop_last());
        assert(s =~= s.drop_last().push(s.last()));
        assert(pieces.drop_last() =~= if s.last() == '/' { before } else { before.drop_last() });
        assert(joined_by_slashes(pieces) =~= s);
        assert forall|i: int| 0 <= i < pieces.len() implies !(#[trigger] pieces[i]).contains('/') by {
            if i < before.len() - 1 {
                assert(pieces[i] == before[i]);
            } else if s.last() != '/' {
                assert(!before[i].contains('/'));
                let grown = before[i].push(s.last());
                if grown.contains('/') {
                    let k = choose|k: int| 0 <= k < grown.len() && grown[k] == '/';
                    assert(before[i][k] == '/');
                }
            } else if i < before.len() {
                assert(pieces[i] == before[i]);
            }
        }
    }
}

/// The decimal text of a number reads as that number, so two numbers never share a text.
pub proof fn law_decimal_reads_back(n: nat)
    ensures
        decimal_value(decimal(n)) == n,
    decreases n,
{
    if n < 10 {
        assert(decimal(n).drop_last() =~= Seq::<char>::empty());
        assert(decimal_value(Seq::<char>::empty()) == 0);
    } else {
        law_decimal_reads_back(n / 10);
        assert(decimal(n).drop_last() =~= decimal(n / 10));
    }
}

/// Lower case is lower case already, and a text matches its lower-case form.
pub proof fn law_case_folding_is_idempotent(s: Seq<char>)
    ensures
        ascii_lowercase(ascii_lowercase(s)) == ascii_lowercase(s),
        same_ignoring_case(s, ascii_lowercase(s)),
{
    assert(ascii_lowercase(ascii_lowercase(s)) =~= ascii_lowercase(s));
}

/// Cutting a text before a mark keeps all of it up to the first mark: a front of the text, without
/// a mark, and either the whole or followed by a mark.
pub proof fn law_cut_ends_at_first_mark(s: Seq<char>, a: char, b: char)
    ensures
        before_first(s, a, b).len() <= s.len(),
        before_first(s, a, b) == s.take(before_first(s, a, b).len() as int),
        forall|i: int|
            0 <= i < before_first(s, a, b).len() ==> #[trigger] s[i] != a && s[i] != b,
        before_first(s, a, b).len() < s.len() ==> s[before_first(s, a, b).len() as int] == a
            || s[before_first(s, a, b).len() as int] == b,
{
    lemma_run_before(s, a, b);
}

proof fn lemma_run_before(s: Seq<char>, a: char, b: char)
    ensures
        run_before(s, a, b) <= s.len(),
        forall|i: int| 0 <= i < run_before(s, a, b) ==> #[trigger] s[i] != a && s[i] != b,
        run_before(s, a, b) < s.len() ==> s[run_before(s, a, b) as int] == a || s[run_before(
            s,
            a,
            b,
        ) as int] == b,
    decreases s.len(),
{
    if s.len() > 0 && s[0] != a && s[0] != b {
        let rest = s.drop_first();
        lemma_run_before(rest, a, b);
        assert forall|i: int| 0 <= i < run_before(s, a, b) implies #[trigger] s[i] != a && s[i]
            != b by {
            if i > 0 {
                assert(rest[i - 1] == s[i]);
            }
        }
    }
}

/// A row of slashes.
spec fn slashes(n: nat) -> Seq<char> {
    Seq::new(n, |i: int| '/')
}

/// All slashes in front are taken off, and nothing else.
pub proof fn law_leading_slashes_are_taken_off(n: nat, s: Seq<char>)
    requires
        s.len() == 0 || s[0] != '/',
    ensures
        without_leading_slashes(Seq::new(n, |i: int| '/') + s) == s,
    decreases n,
{
    let whole = slashes(n) + s;
    if n == 0 {
        assert(whole =~= s);
    } else {
        assert(whole[0] == '/');
        assert(whole.drop_first() =~= slashes((n - 1) as nat) + s);
        law_leading_slashes_are_taken_off((n - 1) as nat, s);
    }
}

/// All slashes behind are taken off, and nothing else.
pub proof fn law_trailing_slashes_are_taken_off(s: Seq<char>, n: nat)
    requires
        s.len() == 0 || s.last() != '/',
    ensures
        without_trailing_slashes(s + Seq::new(n, |i: int| '/')) == s,
    decreases n,
{
    let whole = s + slashes(n);
    if n == 0 {
        assert(whole =~= s);
    } else {
        assert(whole.last() == '/');
        assert(whole.drop_last() =~= s + slashes((n - 1) as nat));
        law_trailing_slashes_are_taken_off(s, (n - 1) as nat);
    }
}

/// A text without a slash is one piece, and a slash between two texts parts their pieces.
pub proof fn law_slashes_part_pieces(a: Seq<char>, b: Seq<char>)
    ensures
        !a.contains('/') ==> slash_pieces(a) == seq![a],
        slash_pieces(a + seq!['/'] + b) == slash_pieces(a) + slash_pieces(b),
    decreases a.len() + b.len(),
{
    let whole = a + seq!['/'] + b;
    law_pieces_rejoin(a);
    if !a.contains('/') {
        lemma_one_piece(a);
    }
    if b.len() == 0 {
        assert(whole.drop_last() =~= a);
        assert(slash_pieces(whole) =~= slash_pieces(a) + slash_pieces(b));
    } else {
        let shorter = b.drop_last();
        law_pieces_rejoin(shorter);
        law_slashes_part_pieces(a, shorter);
        assert(whole.drop_last() =~= a + seq!['/'] + shorter);
        assert(whole.last() == b.last());
        assert(slash_pieces(whole) =~= slash_pieces(a) + slash_pieces(b));
    }
}

proof fn lemma_one_piece(s: Seq<char>)
    requires
        !s.contains('/'),
    ensures
        slash_pieces(s) == seq![s],
    decreases s.len(),
{
    if s.len() > 0 {
        let shorter = s.drop_last();
        assert(s.last() == s[s.len() - 1]);
        assert(!shorter.contains('/')) by {
            if shorter.contains('/') {
                let k = choose|k: int| 0 <= k < shorter.len() && shorter[k] == '/';
                assert(s[k] == '/');
            }
        }
        lemma_one_piece(shorter);
        assert(shorter.push(s.last()) =~= s);
        assert(slash_pieces(s) =~= seq![s]);
    } else {
        assert(s =~= Seq::<char>::empty());
    }
}

/// Joining puts one slash before each further piece, and none elsewhere.
pub proof fn law_joining_puts_slashes_between(pieces: Seq<Seq<char>>, last: Seq<char>)
    ensures
        joined_by_slashes(Seq::empty()) == Seq::<char>::empty(),
        joined_by_slashes(seq![last]) == last,
        pieces.len() > 0 ==> joined_by_slashes(pieces.push(last)) == joined_by_slashes(pieces)
            + seq!['/'] + last,
{
    let all = pieces.push(last);
    assert(all.drop_last() =~= pieces);
    if pieces.len() > 0 {
        assert(joined_by_slashes(all) =~= joined_by_slashes(pieces) + seq!['/'] + last);
    }
}

/// Names that hold no slash come back from the text they are joined to.
pub proof fn law_joined_names_come_apart(names: Seq<Seq<char>>)
    requires
        names.len() > 0,
        forall|i: int| 0 <= i < names.len() ==> !(#[trigger] names[i]).contains('/'),
    ensures
        slash_pieces(joined_by_slashes(names)) == names,
    decreases names.len(),
{
    let last = names.last();
    let before = names.drop_last();
    assert(last == names[names.len() - 1]);
    assert(before.push(last) =~= names);
    lemma_one_piece(last);
    law_joining_puts_slashes_between(before, last);
    if before.len() == 0 {
        assert(names =~= seq![last]);
    } else {
        assert forall|i: int| 0 <= i < before.len() implies !(#[trigger] before[i]).contains('/') by {
            assert(before[i] == names[i]);
        }
        law_joined_names_come_apart(before);
        law_slashes_part_pieces(joined_by_slashes(before), last);
        assert(before + seq![last] =~= names);
    }
}

/// A text has a double dot exactly if two dots are a part of it.
pub proof fn law_double_dot_is_a_part(s: Seq<char>)
    ensures
        has_double_dot(s) <==> exists|i: int|
            0 <= i && i + 2 <= s.len() && #[trigger] s.subrange(i, i + 2) == seq!['.', '.'],
{
    if has_double_dot(s) {
        let i = choose|i: int| 0 <= i < s.len() - 1 && #[trigger] s[i] == '.' && s[i + 1] == '.';
        assert(s.subrange(i, i + 2) =~= seq!['.', '.']);
    }
    if exists|i: int|
        0 <= i && i + 2 <= s.len() && #[trigger] s.subrange(i, i + 2) == seq!['.', '.'] {
        let i = choose|i: int|
            0 <= i && i + 2 <= s.len() && #[trigger] s.subrange(i, i + 2) == seq!['.', '.'];
        let part = s.subrange(i, i + 2);
        assert(part[0] == s[i] && part[1] == s[i + 1]);
    }
}

/// Lower case moves the capitals from `A` to `Z` by the distance from `A` to `a`, and leaves every
/// other character in its place.
pub proof fn law_lower_case_moves_capitals(s: Seq<char>)
    ensures
        ascii_lowercase(s).len() == s.len(),
        forall|i: int|
            0 <= i < s.len() ==> (#[trigger] ascii_lowercase(s)[i]) as int == s[i] as int + if 'A'
                <= s[i] <= 'Z' {
                'a' as int - 'A' as int
            } else {
                0
            },
{
}

/// Two texts are the same but for case exactly if they are as long as each other and hold, at each
/// position, the same character or the two cases of an ASCII letter.
pub proof fn law_case_is_all_that_differs(a: Seq<char>, b: Seq<char>)
    ensures
        same_ignoring_case(a, b) <==> a.len() == b.len() && forall|i: int|
            0 <= i < a.len() ==> {
                ||| #[trigger] a[i] == b[i]
                ||| 'A' <= a[i] <= 'Z' && b[i] as int == a[i] as int + 32
                ||| 'A' <= b[i] <= 'Z' && a[i] as int == b[i] as int + 32
            },
{
    let la = ascii_lowercase(a);
    let lb = ascii_lowercase(b);
    law_lower_case_moves_capitals(a);
    law_lower_case_moves_capitals(b);
    if same_ignoring_case(a, b) {
        assert forall|i: int| 0 <= i < a.len() implies {
            ||| #[trigger] a[i] == b[i]
            ||| 'A' <= a[i] <= 'Z' && b[i] as int == a[i] as int + 32
            ||| 'A' <= b[i] <= 'Z' && a[i] as int == b[i] as int + 32
        } by {
            assert(la[i] == lb[i]);
        }
    }
    if a.len() == b.len() && forall|i: int|
        0 <= i < a.len() ==> {
            ||| #[trigger] a[i] == b[i]
            ||| 'A' <= a[i] <= 'Z' && b[i] as int == a[i] as int + 32
            ||| 'A' <= b[i] <= 'Z' && a[i] as int == b[i] as int + 32
        } {
        assert forall|i: int| 0 <= i < a.len() implies la[i] == lb[i] by {
            assert(a[i] == a[i]);
        }
        assert(la =~= lb);
    }
}

/// A number is written in decimal digits, the last of which is its remainder by ten, without a
/// zero in front unless it is zero.
pub proof fn law_decimal_is_written_in_digits(n: nat)
    ensures
        decimal(n).len() >= 1,
        forall|i: int| 0 <= i < decimal(n).len() ==> '0' <= #[trigger] decimal(n)[i] <= '9',
        decimal(n)[0] == '0' ==> n == 0,
        decimal(n).len() == 1 <==> n < 10,
        decimal(n).last() as int == '0' as int + n % 10,
        n >= 10 ==> decimal(n).drop_last() == decimal(n / 10),
    decreases n,
{
    if n >= 10 {
        law_decimal_is_written_in_digits(n / 10);
        assert(decimal(n).drop_last() =~= decimal(n / 10));
    }
}

/// The value of a row of digits is ten times that of the row without its last digit, and the last
/// digit's own.
pub proof fn law_digits_count_by_place(s: Seq<char>, last: char)
    requires
        '0' <= last <= '9',
    ensures
        decimal_value(Seq::empty()) == 0,
        decimal_value(s.push(last)) == 10 * decimal_value(s) + (last as int - '0' as int),
{
    assert(s.push(last).drop_last() =~= s);
}

} // verus!
