//! Percent decoding of request paths.
use vstd::prelude::*;

verus! {

/// The value of a hexadecimal digit in ASCII, in either case.
pub open spec fn hex_value(b: u8) -> Option<u8> {
    if 48 <= b <= 57 {
        Some((b - 48) as u8)
    } else if 65 <= b <= 70 {
        Some((b - 55) as u8)
    } else if 97 <= b <= 102 {
        Some((b - 87) as u8)
    } else {
        None
    }
}

/// The bytes begin with a percent sign and two hexadecimal digits.
pub open spec fn starts_with_escape(s: Seq<u8>) -> bool {
    &&& s.len() >= 3
    &&& s[0] == 37
    &&& hex_value(s[1]) is Some
    &&& hex_value(s[2]) is Some
}

/// The bytes with each escape, read from the left, replaced by the byte that it stands for. A
/// percent sign that begins no escape stands for itself.
pub open spec fn unescaped(s: Seq<u8>) -> Seq<u8>
    decreases s.len(),
{
    if s.len() == 0 {
        Seq::empty()
    } else if starts_with_escape(s) {
        seq![(16 * hex_value(s[1])->0 + hex_value(s[2])->0) as u8] + unescaped(s.skip(3))
    } else {
        seq![s[0]] + unescaped(s.skip(1))
    }
}

/// The text that `String::from_utf8_lossy` makes of bytes that do not begin with a character in
/// UTF-8.
pub uninterp spec fn lossy_text(bytes: Seq<u8>) -> Seq<char>;

/// The text that bytes stand for: their UTF-8 decoding, as far as it goes, and what is made of
/// the rest.
pub open spec fn text_of_bytes(bytes: Seq<u8>) -> Seq<char>
    decreases bytes.len(),
{
    if bytes.len() == 0 {
        Seq::empty()
    } else if vstd::utf8::valid_first_scalar(bytes) {
        seq![vstd::utf8::decode_first_scalar(bytes) as char] + text_of_bytes(
            vstd::utf8::pop_first_scalar(bytes),
        )
    } else {
        lossy_text(bytes)
    }
}

/// The text that a percent-encoded text stands for.
pub open spec fn percent_decoded(s: Seq<char>) -> Seq<char> {
    text_of_bytes(unescaped(vstd::utf8::encode_utf8(s)))
}

/// `String::from_utf8_lossy`, with the text made an owned one. Characters in UTF-8 are decoded
/// as they are, and what follows them is decoded on its own. Bytes that do not begin with a
/// character in UTF-8 give the text that `lossy_text` names, in which replacement characters stand
/// for what is not UTF-8. A character, decoded or put in, stands for one byte or more, so there
/// are no more characters than bytes. Which bytes share a replacement character is not said.
#[verifier::external_body]
fn text_from_bytes(bytes: &[u8]) -> (text: String)
    ensures
        bytes@.len() > 0 && !vstd::utf8::valid_first_scalar(bytes@) ==> text@ == lossy_text(bytes@),
        text@ == text_of_bytes(bytes@),
        text@.len() <= bytes@.len(),
{
    String::from_utf8_lossy(bytes).into_owned()
}

/// The value of a hexadecimal digit in ASCII.
fn hex_digit(b: u8) -> (value: Option<u8>)
    ensures
        value == hex_value(b),
{
    if 48 <= b && b <= 57 {
        Some(b - 48)
    } else if 65 <= b && b <= 70 {
        Some(b - 55)
    } else if 97 <= b && b <= 102 {
        Some(b - 87)
    } else {
        None
    }
}

/// Replaces each escape by the byte that it stands for.
pub fn unescape(bytes: &[u8]) -> (out: Vec<u8>)
    ensures
        out@ == unescaped(bytes@),
{
    let mut out: Vec<u8> = Vec::new();
    let mut i: usize = 0;
    assert(bytes@.skip(0) =~= bytes@);
    while i < bytes.len()
        invariant
            i <= bytes@.len(),
            unescaped(bytes@) == out@ + unescaped(bytes@.skip(i as int)),
        decreases bytes@.len() - i,
    {
        let ghost rest = bytes@.skip(i as int);
        if bytes[i] == 37 && bytes.len() - i >= 3 {
            if let (Some(high), Some(low)) = (hex_digit(bytes[i + 1]), hex_digit(bytes[i + 2])) {
                assert(starts_with_escape(rest));
                assert(rest.skip(3) =~= bytes@.skip(i + 3));
                let ghost before = out@;
                out.push(16 * high + low);
                assert(out@ + unescaped(rest.skip(3)) =~= before + unescaped(rest));
                i += 3;
                continue;
            }
        }
        assert(!starts_with_escape(rest));
        assert(rest.skip(1) =~= bytes@.skip(i + 1));
        let ghost before = out@;
        out.push(bytes[i]);
        assert(out@ + unescaped(rest.skip(1)) =~= before + unescaped(rest));
        i += 1;
    }
    assert(bytes@.skip(i as int) =~= Seq::<u8>::empty());
    assert(out@ + Seq::<u8>::empty() =~= out@);
    out
}

/// Decodes the percent escapes of a request path. The text has no more characters than the input
/// has bytes.
pub fn percent_decode(input: &str) -> (decoded: String)
    ensures
        decoded@ == percent_decoded(input@),
        decoded@.len() <= vstd::utf8::encode_utf8(input@).len(),
{
    let out = unescape(input.as_bytes());
    proof {
        law_unescaping_never_lengthens(vstd::utf8::encode_utf8(input@));
    }
    text_from_bytes(out.as_slice())
}

/// The first bytes are a way to write the second: each byte stands for itself, unless it is a
/// percent sign, or is written as an escape with digits in either case.
pub open spec fn is_escaped_form(form: Seq<u8>, bytes: Seq<u8>) -> bool
    decreases bytes.len(),
{
    if bytes.len() == 0 {
        form.len() == 0
    } else {
        ||| form.len() >= 1 && form[0] == bytes[0] && bytes[0] != 37 && is_escaped_form(
            form.skip(1),
            bytes.skip(1),
        )
        ||| starts_with_escape(form) && hex_value(form[1]) == Some((bytes[0] / 16) as u8)
            && hex_value(form[2]) == Some((bytes[0] % 16) as u8) && is_escaped_form(
            form.skip(3),
            bytes.skip(1),
        )
    }
}

/// The hexadecimal digit of a number below sixteen, in capitals or not.
pub open spec fn hex_digit_of(n: u8, capitals: bool) -> u8 {
    if n < 10 {
        (n + 48) as u8
    } else if capitals {
        (n + 55) as u8
    } else {
        (n + 87) as u8
    }
}

/// Every byte written as an escape, with digits in capitals or not.
pub open spec fn escaped(bytes: Seq<u8>, capitals: bool) -> Seq<u8>
    decreases bytes.len(),
{
    if bytes.len() == 0 {
        Seq::empty()
    } else {
        seq![
            37u8,
            hex_digit_of((bytes[0] / 16) as u8, capitals),
            hex_digit_of((bytes[0] % 16) as u8, capitals),
        ] + escaped(bytes.skip(1), capitals)
    }
}

/// Any text, written with an escape for each of its bytes.
pub open spec fn escaped_text(s: Seq<char>, capitals: bool) -> Seq<char> {
    escaped(vstd::utf8::encode_utf8(s), capitals).map_values(|b: u8| b as char)
}

/// Bytes come back from every way to write them, whatever is written behind.
pub proof fn law_unescaping_keeps_front(form: Seq<u8>, bytes: Seq<u8>, behind: Seq<u8>)
    requires
        is_escaped_form(form, bytes),
    ensures
        unescaped(form + behind) == bytes + unescaped(behind),
    decreases bytes.len(),
{
    let whole = form + behind;
    if bytes.len() > 0 {
        let rest = bytes.skip(1);
        if form.len() >= 1 && form[0] == bytes[0] && bytes[0] != 37 && is_escaped_form(
            form.skip(1),
            rest,
        ) {
            law_unescaping_keeps_front(form.skip(1), rest, behind);
            assert(whole.skip(1) =~= form.skip(1) + behind);
        } else {
            law_unescaping_keeps_front(form.skip(3), rest, behind);
            assert(whole.skip(3) =~= form.skip(3) + behind);
            assert(starts_with_escape(whole));
        }
        assert(unescaped(whole) =~= bytes + unescaped(behind));
    } else {
        assert(whole =~= behind);
        assert(bytes + unescaped(behind) =~= unescaped(behind));
    }
}

/// Unescaping undoes escaping: bytes come back from every way to write them.
pub proof fn law_unescaping_undoes_escaping(form: Seq<u8>, bytes: Seq<u8>)
    requires
        is_escaped_form(form, bytes),
    ensures
        unescaped(form) == bytes,
{
    law_unescaping_keeps_front(form, bytes, Seq::empty());
    assert(form + Seq::<u8>::empty() =~= form);
    assert(bytes + Seq::<u8>::empty() =~= bytes);
}

/// Unescaping never lengthens: there are no more bytes than before.
pub proof fn law_unescaping_never_lengthens(bytes: Seq<u8>)
    ensures
        unescaped(bytes).len() <= bytes.len(),
    decreases bytes.len(),
{
    if bytes.len() > 0 {
        if starts_with_escape(bytes) {
            law_unescaping_never_lengthens(bytes.skip(3));
        } else {
            law_unescaping_never_lengthens(bytes.skip(1));
        }
    }
}

/// The bytes of two texts, one behind the other, are the bytes of both at once.
proof fn lemma_encoded_in_two(a: Seq<char>, b: Seq<char>)
    ensures
        vstd::utf8::encode_utf8(a + b) == vstd::utf8::encode_utf8(a) + vstd::utf8::encode_utf8(b),
    decreases a.len(),
{
    if a.len() == 0 {
        assert(a + b =~= b);
        assert(vstd::utf8::encode_utf8(a) + vstd::utf8::encode_utf8(b) =~= vstd::utf8::encode_utf8(b));
    } else {
        assert((a + b).drop_first() =~= a.drop_first() + b);
        lemma_encoded_in_two(a.drop_first(), b);
        assert(vstd::utf8::encode_utf8(a + b) =~= vstd::utf8::encode_utf8(a)
            + vstd::utf8::encode_utf8(b));
    }
}

/// The bytes of a text stand for the text, whatever follows them.
proof fn lemma_text_in_front(s: Seq<char>, behind: Seq<u8>)
    ensures
        text_of_bytes(vstd::utf8::encode_utf8(s) + behind) == s + text_of_bytes(behind),
    decreases s.len(),
{
    let front = vstd::utf8::encode_utf8(s);
    let whole = front + behind;
    if s.len() == 0 {
        assert(whole =~= behind);
        assert(s + text_of_bytes(behind) =~= text_of_bytes(behind));
    } else {
        let rest = s.drop_first();
        vstd::utf8::encode_utf8_first_scalar(s);
        vstd::utf8::char_u32_cast(s[0], s[0] as u32);
        lemma_text_in_front(rest, behind);
        let n = vstd::utf8::length_of_first_scalar(front);
        assert(forall|i: int| 0 <= i < front.len() ==> whole[i] == front[i]);
        assert(vstd::utf8::valid_first_scalar(whole));
        assert(vstd::utf8::pop_first_scalar(whole) =~= vstd::utf8::encode_utf8(rest) + behind);
        assert(text_of_bytes(whole) =~= s + text_of_bytes(behind));
    }
}

/// What is decoded stays as it is whatever follows: behind every way to write a text, the rest is
/// decoded on its own.
pub proof fn law_escaped_front_is_kept(form: Seq<char>, s: Seq<char>, behind: Seq<char>)
    requires
        is_escaped_form(vstd::utf8::encode_utf8(form), vstd::utf8::encode_utf8(s)),
    ensures
        percent_decoded(form + behind) == s + percent_decoded(behind),
{
    let bytes = vstd::utf8::encode_utf8(behind);
    lemma_encoded_in_two(form, behind);
    law_unescaping_keeps_front(vstd::utf8::encode_utf8(form), vstd::utf8::encode_utf8(s), bytes);
    lemma_text_in_front(s, unescaped(bytes));
}

/// Plain text in front is kept: what follows is decoded on its own.
pub proof fn law_plain_front_is_kept(front: Seq<char>, behind: Seq<char>)
    requires
        !front.contains('%'),
    ensures
        percent_decoded(front + behind) == front + percent_decoded(behind),
{
    lemma_percent_byte_is_percent_sign(front);
    lemma_plain_is_a_form(vstd::utf8::encode_utf8(front));
    law_escaped_front_is_kept(front, front, behind);
}

/// How many bytes do not continue a character.
pub open spec fn leading_bytes(bytes: Seq<u8>) -> nat
    decreases bytes.len(),
{
    if bytes.len() == 0 {
        0
    } else if vstd::utf8::is_continuation_byte(bytes[0]) {
        leading_bytes(bytes.skip(1))
    } else {
        1 + leading_bytes(bytes.skip(1))
    }
}

/// A character has one leading byte.
proof fn lemma_one_leading_byte(bytes: Seq<u8>)
    requires
        vstd::utf8::valid_first_scalar(bytes),
    ensures
        leading_bytes(bytes) == 1 + leading_bytes(vstd::utf8::pop_first_scalar(bytes)),
{
    let n = vstd::utf8::length_of_first_scalar(bytes);
    reveal_with_fuel(leading_bytes, 5);
    if n >= 2 {
        assert(bytes.skip(1).skip(1) =~= bytes.skip(2));
    }
    if n >= 3 {
        assert(bytes.skip(2).skip(1) =~= bytes.skip(3));
    }
    if n >= 4 {
        assert(bytes.skip(3).skip(1) =~= bytes.skip(4));
    }
    assert(vstd::utf8::pop_first_scalar(bytes) =~= bytes.skip(n));
}

/// UTF-8 stands for as many characters as it has leading bytes.
proof fn lemma_characters_by_leading_bytes(bytes: Seq<u8>)
    requires
        vstd::utf8::valid_utf8(bytes),
    ensures
        text_of_bytes(bytes).len() == leading_bytes(bytes),
    decreases bytes.len(),
{
    if bytes.len() > 0 {
        lemma_one_leading_byte(bytes);
        lemma_characters_by_leading_bytes(vstd::utf8::pop_first_scalar(bytes));
    }
}

/// Unescaping adds no leading bytes.
proof fn lemma_unescaped_leading_bytes(bytes: Seq<u8>)
    ensures
        leading_bytes(unescaped(bytes)) <= leading_bytes(bytes),
    decreases bytes.len(),
{
    if bytes.len() > 0 {
        let out = unescaped(bytes);
        if starts_with_escape(bytes) {
            let rest = bytes.skip(3);
            lemma_unescaped_leading_bytes(rest);
            assert(out.skip(1) =~= unescaped(rest));
            reveal_with_fuel(leading_bytes, 4);
            assert(bytes.skip(1).skip(1) =~= bytes.skip(2));
            assert(bytes.skip(2).skip(1) =~= rest);
        } else {
            lemma_unescaped_leading_bytes(bytes.skip(1));
            assert(out.skip(1) =~= unescaped(bytes.skip(1)));
        }
    }
}

/// Decoding never lengthens a text: where the decoded bytes are UTF-8, there are no more
/// characters than before.
pub proof fn law_decoding_never_lengthens(s: Seq<char>)
    requires
        vstd::utf8::valid_utf8(unescaped(vstd::utf8::encode_utf8(s))),
    ensures
        percent_decoded(s).len() <= s.len(),
{
    let bytes = vstd::utf8::encode_utf8(s);
    lemma_unescaped_leading_bytes(bytes);
    lemma_characters_by_leading_bytes(unescaped(bytes));
    vstd::utf8::encode_utf8_valid_utf8(s);
    lemma_characters_by_leading_bytes(bytes);
    lemma_text_in_front(s, Seq::empty());
    assert(bytes + Seq::<u8>::empty() =~= bytes);
}

/// Writing every byte as an escape is a way to write them.
proof fn lemma_escaped_is_a_form(bytes: Seq<u8>, capitals: bool)
    ensures
        is_escaped_form(escaped(bytes, capitals), bytes),
    decreases bytes.len(),
{
    if bytes.len() > 0 {
        lemma_escaped_is_a_form(bytes.skip(1), capitals);
        assert(escaped(bytes, capitals).skip(3) =~= escaped(bytes.skip(1), capitals));
    }
}

/// An escaped byte is written in ASCII.
proof fn lemma_escaped_is_ascii(bytes: Seq<u8>, capitals: bool)
    ensures
        forall|i: int|
            0 <= i < escaped(bytes, capitals).len() ==> #[trigger] escaped(bytes, capitals)[i] < 128,
    decreases bytes.len(),
{
    if bytes.len() > 0 {
        lemma_escaped_is_ascii(bytes.skip(1), capitals);
        let whole = escaped(bytes, capitals);
        assert forall|i: int| 0 <= i < whole.len() implies #[trigger] whole[i] < 128 by {
            if i >= 3 {
                assert(whole[i] == escaped(bytes.skip(1), capitals)[i - 3]);
            }
        }
    }
}

/// Decoding undoes escaping: a text comes back from every way to write it.
pub proof fn law_decoding_undoes_escaping(form: Seq<char>, s: Seq<char>)
    requires
        is_escaped_form(vstd::utf8::encode_utf8(form), vstd::utf8::encode_utf8(s)),
    ensures
        percent_decoded(form) == s,
{
    law_escaped_front_is_kept(form, s, Seq::empty());
    assert(form + Seq::<char>::empty() =~= form);
    assert(s + Seq::<char>::empty() =~= s);
}

/// Every text can be asked for: it has an escaped form, with digits in either case, and that
/// decodes to the text.
pub proof fn law_every_text_can_be_asked_for(s: Seq<char>, capitals: bool)
    ensures
        is_escaped_form(
            vstd::utf8::encode_utf8(escaped_text(s, capitals)),
            vstd::utf8::encode_utf8(s),
        ),
        percent_decoded(escaped_text(s, capitals)) == s,
{
    let bytes = vstd::utf8::encode_utf8(s);
    let text = escaped_text(s, capitals);
    lemma_escaped_is_ascii(bytes, capitals);
    assert(vstd::utf8::is_ascii_chars(text));
    vstd::utf8::is_ascii_chars_encode_utf8(text);
    assert(vstd::utf8::encode_utf8(text) =~= escaped(bytes, capitals)) by {
        assert forall|i: int| 0 <= i < text.len() implies vstd::utf8::encode_utf8(text)[i] == escaped(
            bytes,
            capitals,
        )[i] by {
            assert(text[i] as u8 == vstd::utf8::encode_utf8(text)[i]);
        }
    }
    lemma_escaped_is_a_form(bytes, capitals);
    law_decoding_undoes_escaping(text, s);
}

/// Bytes without a percent sign are a way to write themselves.
proof fn lemma_plain_is_a_form(bytes: Seq<u8>)
    requires
        !bytes.contains(37),
    ensures
        is_escaped_form(bytes, bytes),
    decreases bytes.len(),
{
    if bytes.len() > 0 {
        let rest = bytes.skip(1);
        assert(bytes[0] != 37);
        assert(!rest.contains(37)) by {
            if rest.contains(37) {
                let i = choose|i: int| 0 <= i < rest.len() && rest[i] == 37;
                assert(bytes[i + 1] == 37);
            }
        }
        lemma_plain_is_a_form(rest);
    }
}

/// Only the percent sign itself has its byte in its UTF-8 form.
proof fn lemma_percent_byte_is_percent_sign(s: Seq<char>)
    requires
        !s.contains('%'),
    ensures
        !vstd::utf8::encode_utf8(s).contains(37),
    decreases s.len(),
{
    if s.len() > 0 {
        let rest = s.drop_first();
        assert(s[0] != '%');
        assert(!rest.contains('%')) by {
            if rest.contains('%') {
                let i = choose|i: int| 0 <= i < rest.len() && rest[i] == '%';
                assert(s[i + 1] == '%');
            }
        }
        lemma_percent_byte_is_percent_sign(rest);
        let c: u32 = s[0] as u32;
        let head = vstd::utf8::encode_scalar(c);
        let tail = vstd::utf8::encode_utf8(rest);
        vstd::utf8::char_is_scalar(s[0]);
        vstd::utf8::char_u32_cast(s[0], c);
        assert(c != 37);
        assert(forall|i: int| 0 <= i < head.len() ==> head[i] != 37) by {
            assert(c != 37 && c < 0x80 ==> (c & 0x7F) as u8 != 37) by (bit_vector);
            assert(0xC0u8 | ((c >> 6) & 0x1F) as u8 != 37) by (bit_vector);
            assert(0xE0u8 | ((c >> 12) & 0x0F) as u8 != 37) by (bit_vector);
            assert(0xF0u8 | ((c >> 18) & 0x07) as u8 != 37) by (bit_vector);
            assert(0x80u8 | (c & 0x3F) as u8 != 37) by (bit_vector);
            assert(0x80u8 | ((c >> 6) & 0x3F) as u8 != 37) by (bit_vector);
            assert(0x80u8 | ((c >> 12) & 0x3F) as u8 != 37) by (bit_vector);
        }
        let whole = vstd::utf8::encode_utf8(s);
        assert(whole =~= head + tail);
        if whole.contains(37) {
            let i = choose|i: int| 0 <= i < whole.len() && whole[i] == 37;
            if i >= head.len() {
                assert(tail[i - head.len()] == 37);
            }
        }
    }
}

/// A text without a percent sign is not changed by decoding.
pub proof fn law_plain_text_decodes_to_itself(s: Seq<char>)
    requires
        !s.contains('%'),
    ensures
        percent_decoded(s) == s,
{
    lemma_percent_byte_is_percent_sign(s);
    lemma_plain_is_a_form(vstd::utf8::encode_utf8(s));
    law_decoding_undoes_escaping(s, s);
}

/// A percent sign and two hexadecimal digits, each in either case, stand for the byte with that
/// value.
pub proof fn law_escape_stands_for_its_byte(high: u8, low: u8, rest: Seq<u8>, a: int, b: int)
    requires
        (48 <= high <= 57 && a == high - 48) || (97 <= high <= 102 && a == high - 87) || (65 <= high <= 70
            && a == high - 55),
        (48 <= low <= 57 && b == low - 48) || (97 <= low <= 102 && b == low - 87) || (65 <= low <= 70
            && b == low - 55),
    ensures
        unescaped(seq![37u8, high, low] + rest) == seq![(16 * a + b) as u8] + unescaped(rest),
{
    let whole = seq![37u8, high, low] + rest;
    assert(whole.skip(3) =~= rest);
    assert(starts_with_escape(whole));
}

/// Any other byte stands for itself: one that is no percent sign, and a percent sign that two
/// hexadecimal digits do not follow.
pub proof fn law_other_bytes_stand_for_themselves(byte: u8, rest: Seq<u8>)
    requires
        byte != 37 || rest.len() < 2 || !((48 <= rest[0] <= 57) || (97 <= rest[0] <= 102) || (65 <= rest[0] <= 70))
            || !((48 <= rest[1] <= 57) || (97 <= rest[1] <= 102) || (65 <= rest[1] <= 70)),
    ensures
        unescaped(Seq::empty()) == Seq::<u8>::empty(),
        unescaped(seq![byte] + rest) == seq![byte] + unescaped(rest),
{
    let whole = seq![byte] + rest;
    assert(whole.skip(1) =~= rest);
    if whole.len() >= 3 {
        assert(whole[1] == rest[0] && whole[2] == rest[1]);
    }
    assert(!starts_with_escape(whole));
}

/// The bytes of a text stand for that text, and what follows stands for what it stands for alone.
/// Bytes that do not begin with a character are left to the lossy decoding.
pub proof fn law_text_is_decoded_from_the_front(s: Seq<char>, behind: Seq<u8>)
    ensures
        text_of_bytes(vstd::utf8::encode_utf8(s) + behind) == s + text_of_bytes(behind),
        behind.len() == 0 ==> text_of_bytes(behind) == Seq::<char>::empty(),
        behind.len() > 0 && !vstd::utf8::valid_first_scalar(behind) ==> text_of_bytes(behind)
            == lossy_text(behind),
{
    lemma_text_in_front(s, behind);
}

/// Escapes of ASCII are decoded to their characters, wherever they stand behind decoded text.
pub proof fn law_ascii_escape_is_decoded(high: char, low: char, rest: Seq<char>, a: int, b: int)
    requires
        '0' <= high <= '7',
        a == high as int - 48,
        ('0' <= low <= '9' && b == low as int - 48) || ('a' <= low <= 'f' && b == low as int - 87) || (
        'A' <= low <= 'F' && b == low as int - 55),
    ensures
        percent_decoded(seq!['%', high, low] + rest) == seq![(16 * a + b) as char]
            + percent_decoded(rest),
{
    let form = seq!['%', high, low];
    let c = (16 * a + b) as char;
    let s = seq![c];
    let bytes = vstd::utf8::encode_utf8(rest);
    assert(vstd::utf8::is_ascii_chars(form));
    assert(vstd::utf8::is_ascii_chars(s));
    vstd::utf8::is_ascii_chars_encode_utf8(form);
    vstd::utf8::is_ascii_chars_encode_utf8(s);
    lemma_encoded_in_two(form, rest);
    assert(vstd::utf8::encode_utf8(form) =~= seq!['%' as u8, high as u8, low as u8]) by {
        assert(form[0] as u8 == vstd::utf8::encode_utf8(form)[0]);
        assert(form[1] as u8 == vstd::utf8::encode_utf8(form)[1]);
        assert(form[2] as u8 == vstd::utf8::encode_utf8(form)[2]);
    }
    assert(vstd::utf8::encode_utf8(s) =~= seq![(16 * a + b) as u8]) by {
        assert(s[0] as u8 == vstd::utf8::encode_utf8(s)[0]);
    }
    law_escape_stands_for_its_byte(high as u8, low as u8, bytes, a, b);
    lemma_text_in_front(s, unescaped(bytes));
}

/// In the escaped form of a text each byte takes a percent sign and its two hexadecimal digits.
pub proof fn law_escaped_form_spells_each_byte(bytes: Seq<u8>, capitals: bool, i: int)
    requires
        0 <= i < bytes.len(),
    ensures
        escaped(bytes, capitals).len() == 3 * bytes.len(),
        escaped(bytes, capitals)[3 * i] == 37,
        bytes[i] / 16 < 10 ==> escaped(bytes, capitals)[3 * i + 1] == bytes[i] / 16 + 48,
        bytes[i] / 16 >= 10 && capitals ==> escaped(bytes, capitals)[3 * i + 1] == bytes[i] / 16 + 55,
        bytes[i] / 16 >= 10 && !capitals ==> escaped(bytes, capitals)[3 * i + 1] == bytes[i] / 16 + 87,
        bytes[i] % 16 < 10 ==> escaped(bytes, capitals)[3 * i + 2] == bytes[i] % 16 + 48,
        bytes[i] % 16 >= 10 && capitals ==> escaped(bytes, capitals)[3 * i + 2] == bytes[i] % 16 + 55,
        bytes[i] % 16 >= 10 && !capitals ==> escaped(bytes, capitals)[3 * i + 2] == bytes[i] % 16 + 87,
    decreases bytes.len(),
{
    let rest = bytes.skip(1);
    let whole = escaped(bytes, capitals);
    if i > 0 {
        law_escaped_form_spells_each_byte(rest, capitals, i - 1);
        assert(rest[i - 1] == bytes[i]);
        assert(whole[3 * i] == escaped(rest, capitals)[3 * (i - 1)]);
        assert(whole[3 * i + 1] == escaped(rest, capitals)[3 * (i - 1) + 1]);
        assert(whole[3 * i + 2] == escaped(rest, capitals)[3 * (i - 1) + 2]);
    } else if rest.len() > 0 {
        law_escaped_form_spells_each_byte(rest, capitals, 0);
    }
}

} // verus!
