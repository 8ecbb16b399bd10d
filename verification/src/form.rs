//! Submitted forms: percent-decoding and the `text` field.

use crate::encoding::{lossy_text, text_from_utf8_lossy};
use crate::text::{
    content_of, nonempty_trimmed, position, same_text, split, split_on, split_once, string_view,
    trimmed, views,
};
use vstd::prelude::*;
use vstd::utf8::{encode_scalar, encode_utf8};

verus! {

broadcast use vstd::string::group_string_axioms;

// ---------------------------------------------------------------------------
// Percent-decoding

/// The value of a hexadecimal digit, in either case.
pub open spec fn hex_value(byte: u8) -> Option<u8> {
    if '0' as u8 <= byte <= '9' as u8 {
        Some((byte - '0' as u8) as u8)
    } else if 'a' as u8 <= byte <= 'f' as u8 {
        Some((byte - 'a' as u8 + 10) as u8)
    } else if 'A' as u8 <= byte <= 'F' as u8 {
        Some((byte - 'A' as u8 + 10) as u8)
    } else {
        None
    }
}

/// `bytes` begins with a percent sign and two hexadecimal digits.
pub open spec fn begins_with_escape(bytes: Seq<u8>) -> bool {
    bytes.len() > 2 && bytes[0] == '%' as u8 && hex_value(bytes[1]) is Some && hex_value(
        bytes[2],
    ) is Some
}

/// The bytes that an encoded field stands for: a plus sign for a space, a
/// percent sign with two hexadecimal digits for the byte they name, any other
/// byte for itself.
pub open spec fn percent_decoded(bytes: Seq<u8>) -> Seq<u8>
    decreases bytes.len(),
{
    if bytes.len() == 0 {
        seq![]
    } else if bytes[0] == '+' as u8 {
        seq![' ' as u8] + percent_decoded(bytes.skip(1))
    } else if begins_with_escape(bytes) {
        seq![(hex_value(bytes[1])->0 * 16 + hex_value(bytes[2])->0) as u8] + percent_decoded(
            bytes.skip(3),
        )
    } else {
        seq![bytes[0]] + percent_decoded(bytes.skip(1))
    }
}

/// The value of a hexadecimal digit, in either case.
pub fn from_hex_digit(byte: u8) -> (value: Option<u8>)
    ensures
        value == hex_value(byte),
{
    if '0' as u8 <= byte && byte <= '9' as u8 {
        Some(byte - '0' as u8)
    } else if 'a' as u8 <= byte && byte <= 'f' as u8 {
        Some(byte - 'a' as u8 + 10)
    } else if 'A' as u8 <= byte && byte <= 'F' as u8 {
        Some(byte - 'A' as u8 + 10)
    } else {
        None
    }
}

/// The byte that the three bytes from `at` on stand for, if they are an
/// escape.
fn escape_at(bytes: &[u8], at: usize) -> (byte: Option<u8>)
    requires
        at < bytes@.len(),
    ensures
        byte is Some <==> begins_with_escape(bytes@.skip(at as int)),
        byte matches Some(b) ==> b == hex_value(bytes@[at + 1])->0 * 16 + hex_value(
            bytes@[at + 2],
        )->0,
{
    if bytes[at] == '%' as u8 && bytes.len() - at > 2 {
        if let Some(high) = from_hex_digit(bytes[at + 1]) {
            if let Some(low) = from_hex_digit(bytes[at + 2]) {
                return Some(high * 16 + low);
            }
        }
    }
    None
}

/// The bytes that an encoded field stands for.
pub fn percent_decode_bytes(bytes: &[u8]) -> (out: Vec<u8>)
    ensures
        out@ == percent_decoded(bytes@),
{
    let len: usize = bytes.len();
    let mut out: Vec<u8> = Vec::with_capacity(len);
    let mut at: usize = 0;
    assert(bytes@.skip(0) =~= bytes@);
    assert(out@ + percent_decoded(bytes@.skip(0)) =~= percent_decoded(bytes@));
    while at < len
        invariant
            at <= len,
            len == bytes@.len(),
            out@ + percent_decoded(bytes@.skip(at as int)) == percent_decoded(bytes@),
        decreases len - at,
    {
        let ghost before = out@;
        let ghost rest = bytes@.skip(at as int);
        let ghost start = at;
        if bytes[at] == '+' as u8 {
            out.push(' ' as u8);
            at = at + 1;
        } else if let Some(byte) = escape_at(bytes, at) {
            out.push(byte);
            at = at + 3;
        } else {
            out.push(bytes[at]);
            at = at + 1;
        }
        proof {
            let tail = percent_decoded(bytes@.skip(at as int));
            assert(rest.skip(at - start) =~= bytes@.skip(at as int));
            assert(percent_decoded(rest) == seq![out@.last()] + tail);
            assert(out@ + tail =~= before + percent_decoded(rest));
        }
    }
    assert(out@ + percent_decoded(bytes@.skip(len as int)) =~= out@);
    out
}

/// The text that an encoded field stands for.
pub open spec fn decoded_text(s: Seq<char>) -> Seq<char> {
    lossy_text(percent_decoded(encode_utf8(s)))
}

/// The text that an encoded field stands for.
pub fn percent_decode(input: &str) -> (text: String)
    ensures
        text@ == decoded_text(input@),
{
    let out = percent_decode_bytes(input.as_bytes());
    text_from_utf8_lossy(out.as_slice())
}

// ---------------------------------------------------------------------------
// The text field

/// What the piece `text=...` of a form says, unless it is another field or
/// says nothing.
pub open spec fn text_field(piece: Seq<char>) -> Option<Seq<char>> {
    let at = position(piece, '=') as int;
    if at < piece.len() && piece.take(at) == "text"@ {
        content_of(decoded_text(piece.skip(at + 1)))
    } else {
        None
    }
}

/// The first text that one of the pieces gives.
pub open spec fn first_text(pieces: Seq<Seq<char>>) -> Option<Seq<char>>
    decreases pieces.len(),
{
    if pieces.len() == 0 {
        None
    } else if text_field(pieces[0]) is Some {
        text_field(pieces[0])
    } else {
        first_text(pieces.drop_first())
    }
}

/// The text that a form gives: the first `text` field with something in it.
pub open spec fn form_text(body: Seq<char>) -> Option<Seq<char>> {
    first_text(split_on(body, '&'))
}

/// What one piece of a form gives.
fn parse_text_field(piece: &str) -> (text: Option<String>)
    ensures
        string_view(text) == text_field(piece@),
{
    if let Some((key, value)) = split_once(piece, '=') {
        if same_text(key, "text") {
            let decoded = percent_decode(value);
            return nonempty_trimmed(decoded.as_str());
        }
    }
    None
}

/// The text that a form gives.
pub fn parse_form_text(body: &str) -> (text: Option<String>)
    ensures
        string_view(text) == form_text(body@),
{
    let pieces = split(body, '&');
    let len: usize = pieces.len();
    let ghost all = views(pieces@);
    let mut i: usize = 0;
    assert(all.skip(0) =~= all);
    while i < len
        invariant
            i <= len,
            len == pieces@.len(),
            all == views(pieces@),
            all == split_on(body@, '&'),
            first_text(all) == first_text(all.skip(i as int)),
        decreases len - i,
    {
        assert(all.skip(i as int).drop_first() =~= all.skip(i + 1));
        let text = parse_text_field(pieces[i]);
        if text.is_some() {
            return text;
        }
        i = i + 1;
    }
    None
}

// ---------------------------------------------------------------------------
// Laws

/// The byte stands for itself in an encoded field.
pub open spec fn is_plain(byte: u8) -> bool {
    ||| '0' as u8 <= byte <= '9' as u8
    ||| 'a' as u8 <= byte <= 'z' as u8
    ||| 'A' as u8 <= byte <= 'Z' as u8
    ||| byte == '*' as u8 || byte == '-' as u8 || byte == '.' as u8 || byte == '_' as u8
}

/// The upper-case hexadecimal digit of a value below sixteen.
pub open spec fn hex_digit(value: int) -> u8 {
    if value < 10 {
        ('0' as u8 + value) as u8
    } else {
        ('A' as u8 + value - 10) as u8
    }
}

/// How a browser writes one byte of a field.
pub open spec fn encoded_byte(byte: u8) -> Seq<u8> {
    if is_plain(byte) {
        seq![byte]
    } else if byte == ' ' as u8 {
        seq!['+' as u8]
    } else {
        seq!['%' as u8, hex_digit(byte as int / 16), hex_digit(byte as int % 16)]
    }
}

/// How a browser writes the bytes of a field.
pub open spec fn percent_encoded(bytes: Seq<u8>) -> Seq<u8>
    decreases bytes.len(),
{
    if bytes.len() == 0 {
        seq![]
    } else {
        encoded_byte(bytes[0]) + percent_encoded(bytes.skip(1))
    }
}

/// How a browser writes the text of a field.
pub open spec fn encoded_text(s: Seq<char>) -> Seq<char> {
    percent_encoded(encode_utf8(s)).map_values(|b: u8| b as char)
}

/// Decoding gives back the bytes that a browser encoded.
pub proof fn decoding_undoes_encoding(bytes: Seq<u8>)
    ensures
        percent_decoded(percent_encoded(bytes)) == bytes,
    decreases bytes.len(),
{
    if bytes.len() > 0 {
        let head = encoded_byte(bytes[0]);
        let tail = percent_encoded(bytes.skip(1));
        let whole = percent_encoded(bytes);
        decoding_undoes_encoding(bytes.skip(1));
        assert(whole.skip(head.len() as int) =~= tail);
        if !is_plain(bytes[0]) && bytes[0] != ' ' as u8 {
            let high = bytes[0] as int / 16;
            let low = bytes[0] as int % 16;
            assert(hex_value(hex_digit(high)) == Some(high as u8));
            assert(hex_value(hex_digit(low)) == Some(low as u8));
            assert(whole[1] == hex_digit(high) && whole[2] == hex_digit(low));
        }
        assert(percent_decoded(whole) == seq![bytes[0]] + percent_decoded(tail));
        assert(bytes =~= seq![bytes[0]] + bytes.skip(1));
    }
}

/// Every byte of an encoded field is ASCII and neither of the characters that
/// hold a form together.
proof fn lemma_encoded_bytes(bytes: Seq<u8>)
    ensures
        forall|i: int|
            0 <= i < percent_encoded(bytes).len() ==> {
                let b = #[trigger] percent_encoded(bytes)[i];
                b < 0x80 && b != '&' as u8 && b != '=' as u8
            },
    decreases bytes.len(),
{
    if bytes.len() > 0 {
        let head = encoded_byte(bytes[0]);
        let tail = percent_encoded(bytes.skip(1));
        lemma_encoded_bytes(bytes.skip(1));
        assert forall|i: int| 0 <= i < percent_encoded(bytes).len() implies {
            let b = #[trigger] percent_encoded(bytes)[i];
            b < 0x80 && b != '&' as u8 && b != '=' as u8
        } by {
            if i >= head.len() {
                assert(percent_encoded(bytes)[i] == tail[i - head.len()]);
            }
        }
    }
}

proof fn lemma_encoded_text(s: Seq<char>)
    ensures
        encode_utf8(encoded_text(s)) == percent_encoded(encode_utf8(s)),
        forall|i: int| 0 <= i < encoded_text(s).len() ==> encoded_text(s)[i] != '&',
{
    let bytes = percent_encoded(encode_utf8(s));
    let chars = encoded_text(s);
    lemma_encoded_bytes(encode_utf8(s));
    assert forall|i: int| 0 <= i < chars.len() implies chars[i] != '&' && (chars[i] as u32)
        < 0x80 by {
        assert(chars[i] == bytes[i] as char);
    }
    assert(vstd::utf8::is_ascii_chars(chars));
    vstd::utf8::is_ascii_chars_encode_utf8(chars);
    assert(encode_utf8(chars) =~= bytes);
}

/// Whatever text a browser submits in the `text` field, the form gives that
/// text without the white space around it, and nothing where it is all white
/// space.
pub proof fn submitted_text_arrives(s: Seq<char>)
    ensures
        form_text("text="@ + encoded_text(s)) == content_of(s),
{
    let value = encoded_text(s);
    let body = "text="@ + value;
    reveal_strlit("text=");
    reveal_strlit("text");
    lemma_encoded_text(s);
    decoding_undoes_encoding(encode_utf8(s));
    crate::encoding::reading_undoes_encoding(s);
    assert forall|i: int| 0 <= i < body.len() implies body[i] != '&' by {
        if i >= 5 {
            assert(body[i] == value[i - 5]);
        }
    }
    crate::text::lemma_position_is(body, '&', body.len() as int);
    crate::text::lemma_position_is(body, '=', 4);
    assert(body.take(4) =~= "text"@);
    assert(body.skip(5) =~= value);
    let pieces = split_on(body, '&');
    assert(pieces =~= seq![body]);
    assert(pieces.drop_first() =~= seq![]);
    reveal_with_fuel(first_text, 2);
}

/// The text that a form gives is not empty and has no white space around it.
pub proof fn a_form_gives_trimmed_text(body: Seq<char>)
    ensures
        form_text(body) matches Some(text) ==> text.len() > 0 && trimmed(text) == text,
{
    lemma_first_text_is_trimmed(split_on(body, '&'));
}

proof fn lemma_first_text_is_trimmed(pieces: Seq<Seq<char>>)
    ensures
        first_text(pieces) matches Some(text) ==> text.len() > 0 && trimmed(text) == text,
    decreases pieces.len(),
{
    if pieces.len() > 0 {
        if text_field(pieces[0]) is Some {
            let piece = pieces[0];
            let value = decoded_text(piece.skip(position(piece, '=') as int + 1));
            crate::text::trimming_is_idempotent(value);
        } else {
            lemma_first_text_is_trimmed(pieces.drop_first());
        }
    }
}

/// Bytes without plus and percent signs stand for themselves.
pub proof fn unencoded_bytes_stay(bytes: Seq<u8>)
    requires
        forall|i: int|
            0 <= i < bytes.len() ==> #[trigger] bytes[i] != '+' as u8 && bytes[i] != '%' as u8,
    ensures
        percent_decoded(bytes) == bytes,
{
    lemma_unencoded_front(bytes, seq![]);
    assert(bytes + seq![] =~= bytes);
    assert(bytes + percent_decoded(seq![]) =~= bytes);
}

proof fn lemma_unencoded_front(front: Seq<u8>, back: Seq<u8>)
    requires
        forall|i: int|
            0 <= i < front.len() ==> #[trigger] front[i] != '+' as u8 && front[i] != '%' as u8,
    ensures
        percent_decoded(front + back) == front + percent_decoded(back),
    decreases front.len(),
{
    let whole = front + back;
    if front.len() == 0 {
        assert(whole =~= back);
        assert(front + percent_decoded(back) =~= percent_decoded(back));
    } else {
        let rest = front.skip(1);
        assert forall|i: int| 0 <= i < rest.len() implies #[trigger] rest[i] != '+' as u8
            && rest[i] != '%' as u8 by {
            assert(rest[i] == front[i + 1]);
        }
        lemma_unencoded_front(rest, back);
        assert(whole[0] == front[0]);
        assert(whole.skip(1) =~= rest + back);
        assert(seq![front[0]] + (rest + percent_decoded(back)) =~= front + percent_decoded(back));
    }
}

/// `s` with each plus sign turned into a space.
pub open spec fn plus_as_space(s: Seq<char>) -> Seq<char> {
    s.map_values(|c: char| if c == '+' { ' ' } else { c })
}

/// A text without percent signs is decoded by itself, whatever follows it: its
/// plus signs turn into spaces, and the rest of it stays.
pub proof fn text_without_percent_is_decoded_by_itself(a: Seq<char>, b: Seq<char>)
    requires
        forall|i: int| 0 <= i < a.len() ==> a[i] != '%',
    ensures
        decoded_text(a + b) == decoded_text(a) + decoded_text(b),
        decoded_text(a) == plus_as_space(a),
        (forall|i: int| 0 <= i < a.len() ==> a[i] != '+') ==> decoded_text(a) == a,
{
    let front = plus_as_space(a);
    let back = percent_decoded(encode_utf8(b));
    lemma_decoded_front(a, encode_utf8(b));
    lemma_encode_utf8_concat(a, b);
    crate::encoding::a_text_stays_before_any_bytes(front, back);
    lemma_decoded_front(a, seq![]);
    assert(encode_utf8(a) + seq![] =~= encode_utf8(a));
    assert(encode_utf8(front) + percent_decoded(seq![]) =~= encode_utf8(front));
    crate::encoding::reading_undoes_encoding(front);
    if forall|i: int| 0 <= i < a.len() ==> a[i] != '+' {
        assert(front =~= a);
    }
}

proof fn lemma_decoded_front(a: Seq<char>, bytes: Seq<u8>)
    requires
        forall|i: int| 0 <= i < a.len() ==> a[i] != '%',
    ensures
        percent_decoded(encode_utf8(a) + bytes) == encode_utf8(plus_as_space(a))
            + percent_decoded(bytes),
    decreases a.len(),
{
    if a.len() == 0 {
        assert(encode_utf8(a) + bytes =~= bytes);
        assert(encode_utf8(plus_as_space(a)) + percent_decoded(bytes) =~= percent_decoded(bytes));
    } else {
        let rest = a.drop_first();
        let head = encode_scalar(a[0] as u32);
        let tail = encode_utf8(rest) + bytes;
        let whole = encode_utf8(a) + bytes;
        let spaced = plus_as_space(a);
        lemma_decoded_front(rest, bytes);
        lemma_scalar_bytes(a[0]);
        lemma_scalar_bytes(' ');
        assert(whole =~= head + tail);
        assert(spaced.drop_first() =~= plus_as_space(rest));
        if a[0] == '+' {
            assert(whole[0] == '+' as u8);
            assert(whole.skip(1) =~= tail);
        } else {
            assert forall|i: int| 0 <= i < head.len() implies #[trigger] head[i] != '+' as u8
                && head[i] != '%' as u8 by {
                if a[0] as u32 <= 0x7f {
                    assert(head[i] as u32 == a[0] as u32);
                    vstd::utf8::char_u32_cast(a[0], head[i] as u32);
                    assert(0x25u32 as char == '%' && 0x2bu32 as char == '+');
                }
            }
            lemma_unencoded_front(head, tail);
        }
        assert(percent_decoded(whole) =~= encode_scalar(spaced[0] as u32) + percent_decoded(tail));
        assert(percent_decoded(whole) =~= encode_utf8(spaced) + percent_decoded(bytes));
    }
}

/// An ASCII character is one byte, and no byte of another is ASCII.
proof fn lemma_scalar_bytes(c: char)
    ensures
        c as u32 <= 0x7f ==> encode_scalar(c as u32) == seq![(c as u32) as u8],
        c as u32 > 0x7f ==> forall|i: int|
            0 <= i < encode_scalar(c as u32).len() ==> #[trigger] encode_scalar(c as u32)[i]
                >= 0x80,
{
    let n = c as u32;
    if n <= 0x7f {
        assert((n & 0x7f) as u8 == n as u8) by (bit_vector)
            requires
                n <= 0x7f,
        ;
    } else {
        assert(forall|x: u8| 0xc0 | x >= 0x80) by (bit_vector);
        assert(forall|x: u8| 0xe0 | x >= 0x80) by (bit_vector);
        assert(forall|x: u8| 0xf0 | x >= 0x80) by (bit_vector);
        assert(forall|x: u8| 0x80 | x >= 0x80) by (bit_vector);
    }
}

proof fn lemma_encode_utf8_concat(a: Seq<char>, b: Seq<char>)
    ensures
        encode_utf8(a + b) == encode_utf8(a) + encode_utf8(b),
    decreases a.len(),
{
    if a.len() == 0 {
        assert(a + b =~= b);
        assert(encode_utf8(a) + encode_utf8(b) =~= encode_utf8(b));
    } else {
        assert((a + b).drop_first() =~= a.drop_first() + b);
        lemma_encode_utf8_concat(a.drop_first(), b);
        assert(encode_utf8(a + b) =~= encode_utf8(a) + encode_utf8(b));
    }
}

/// The fields of a form are searched from left to right: what the first part
/// of a form gives, the whole gives, and otherwise it gives what the second
/// part gives.
pub proof fn fields_are_searched_in_order(front: Seq<char>, back: Seq<char>)
    ensures
        form_text(front + seq!['&'] + back) == if form_text(front) is Some {
            form_text(front)
        } else {
            form_text(back)
        },
{
    lemma_split_on_join(front, back);
    lemma_first_text_concat(split_on(front, '&'), split_on(back, '&'));
}

proof fn lemma_split_on_join(front: Seq<char>, back: Seq<char>)
    ensures
        split_on(front + seq!['&'] + back, '&') == split_on(front, '&') + split_on(back, '&'),
    decreases front.len(),
{
    let whole = front + seq!['&'] + back;
    crate::text::lemma_position(front, '&');
    let at = position(front, '&') as int;
    crate::text::lemma_position_is(whole, '&', at);
    assert(whole.take(at) =~= front.take(at));
    if at == front.len() {
        assert(front.take(at) =~= front);
        assert(whole.skip(at + 1) =~= back);
    } else {
        let rest = front.skip(at + 1);
        assert(whole.skip(at + 1) =~= rest + seq!['&'] + back);
        lemma_split_on_join(rest, back);
        assert(split_on(whole, '&') =~= split_on(front, '&') + split_on(back, '&'));
    }
}

proof fn lemma_first_text_concat(a: Seq<Seq<char>>, b: Seq<Seq<char>>)
    ensures
        first_text(a + b) == if first_text(a) is Some {
            first_text(a)
        } else {
            first_text(b)
        },
    decreases a.len(),
{
    if a.len() == 0 {
        assert(a + b =~= b);
    } else {
        assert((a + b).drop_first() =~= a.drop_first() + b);
        lemma_first_text_concat(a.drop_first(), b);
    }
}

/// A percent sign and two hexadecimal digits, in either case, stand for the
/// byte that they name, whatever follows.
pub proof fn an_escape_names_its_byte(byte: u8, upper: bool, rest: Seq<u8>)
    ensures
        ({
            let letter: int = if upper {
                'A' as u8 as int
            } else {
                'a' as u8 as int
            };
            let high = byte as int / 16;
            let low = byte as int % 16;
            let x = if high < 10 {
                '0' as u8 + high
            } else {
                letter + high - 10
            };
            let y = if low < 10 {
                '0' as u8 + low
            } else {
                letter + low - 10
            };
            percent_decoded(seq!['%' as u8, x as u8, y as u8] + rest) == seq![byte]
                + percent_decoded(rest)
        }),
{
    let letter: int = if upper {
        'A' as u8 as int
    } else {
        'a' as u8 as int
    };
    let high = byte as int / 16;
    let low = byte as int % 16;
    let x = if high < 10 {
        '0' as u8 + high
    } else {
        letter + high - 10
    };
    let y = if low < 10 {
        '0' as u8 + low
    } else {
        letter + low - 10
    };
    let whole = seq!['%' as u8, x as u8, y as u8] + rest;
    assert(whole[0] == '%' as u8 && whole[1] == x as u8 && whole[2] == y as u8);
    assert(hex_value(x as u8) == Some(high as u8));
    assert(hex_value(y as u8) == Some(low as u8));
    assert(whole.skip(3) =~= rest);
}

/// The byte is a hexadecimal digit.
pub open spec fn is_hex(byte: u8) -> bool {
    ||| '0' as u8 <= byte <= '9' as u8
    ||| 'a' as u8 <= byte <= 'f' as u8
    ||| 'A' as u8 <= byte <= 'F' as u8
}

/// Where no two hexadecimal digits follow a percent sign, it stands for itself,
/// and a plus sign stands for a space. Any other byte stands for itself.
pub proof fn other_bytes_are_taken_one_by_one(byte: u8, rest: Seq<u8>)
    requires
        byte == '%' as u8 ==> rest.len() < 2 || !is_hex(rest[0]) || !is_hex(rest[1]),
    ensures
        percent_decoded(seq![byte] + rest) == seq![
            if byte == '+' as u8 {
                ' ' as u8
            } else {
                byte
            },
        ] + percent_decoded(rest),
{
    let whole = seq![byte] + rest;
    assert(whole.skip(1) =~= rest);
    if rest.len() >= 2 {
        assert(whole[1] == rest[0] && whole[2] == rest[1]);
    }
}

/// The value of a hexadecimal digit, and that nothing else has one.
pub proof fn hex_digits_have_their_values(byte: u8)
    ensures
        hex_value(byte) is Some <==> is_hex(byte),
        '0' as u8 <= byte <= '9' as u8 ==> hex_value(byte)->0 == byte - '0' as u8,
        'a' as u8 <= byte <= 'f' as u8 ==> hex_value(byte)->0 == byte - 'a' as u8 + 10,
        'A' as u8 <= byte <= 'F' as u8 ==> hex_value(byte)->0 == byte - 'A' as u8 + 10,
{
}

/// Only the field named `text` gives a text: another field, or a piece without
/// an equals sign, gives none.
pub proof fn other_fields_give_no_text(name: Seq<char>, value: Seq<char>)
    requires
        name != "text"@,
        forall|i: int| 0 <= i < name.len() ==> name[i] != '=' && name[i] != '&',
        forall|i: int| 0 <= i < value.len() ==> value[i] != '&',
    ensures
        form_text(name + seq!['='] + value) is None,
        form_text(name) is None,
        form_text("text"@) is None,
{
    reveal_strlit("text");
    reveal_with_fuel(first_text, 2);
    let field = name + seq!['='] + value;
    crate::text::lemma_position_is(field, '=', name.len() as int);
    assert(field.take(name.len() as int) =~= name);
    crate::text::lemma_position_is(field, '&', field.len() as int);
    assert(split_on(field, '&') =~= seq![field]);
    assert(split_on(field, '&').drop_first() =~= seq![]);
    crate::text::lemma_position_is(name, '=', name.len() as int);
    crate::text::lemma_position_is(name, '&', name.len() as int);
    assert(split_on(name, '&') =~= seq![name]);
    assert(split_on(name, '&').drop_first() =~= seq![]);
    crate::text::lemma_position_is("text"@, '=', 4);
    crate::text::lemma_position_is("text"@, '&', 4);
    assert(split_on("text"@, '&') =~= seq!["text"@]);
    assert(split_on("text"@, '&').drop_first() =~= seq![]);
}

/// What the field named `text` gives is its value, decoded and without the
/// white space around it, also where the value is not encoded as a browser
/// does.
pub proof fn the_text_field_gives_its_value(value: Seq<char>)
    requires
        forall|i: int| 0 <= i < value.len() ==> value[i] != '&',
    ensures
        form_text("text="@ + value) == content_of(decoded_text(value)),
{
    let field = "text="@ + value;
    reveal_strlit("text=");
    reveal_strlit("text");
    reveal_with_fuel(first_text, 2);
    crate::text::lemma_position_is(field, '=', 4);
    crate::text::lemma_position_is(field, '&', field.len() as int);
    assert(field.take(4) =~= "text"@);
    assert(field.skip(5) =~= value);
    assert(split_on(field, '&') =~= seq![field]);
    assert(split_on(field, '&').drop_first() =~= seq![]);
}

} // verus!
