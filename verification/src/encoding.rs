//! Bytes read as text, and text in lower case.

use vstd::prelude::*;
use vstd::utf8::{
    char_u32_cast, decode_first_scalar, decode_utf8, encode_utf8, encode_utf8_first_scalar,
    is_ascii_chars, pop_first_scalar, valid_first_scalar, valid_utf8,
};

verus! {

/// How many bytes the first replacement character stands for that
/// `String::from_utf8_lossy` puts in, where the bytes do not begin with the
/// UTF-8 form of a character.
pub uninterp spec fn invalid_length(bytes: Seq<u8>) -> int;

/// The first `n` bytes can be replaced together: they are one to three, and no
/// character begins among them.
pub open spec fn is_invalid_start(bytes: Seq<u8>, n: int) -> bool {
    &&& 1 <= n <= 3
    &&& n <= bytes.len()
    &&& forall|i: int| 0 <= i < n ==> !valid_first_scalar(#[trigger] bytes.skip(i))
}

/// How many bytes are replaced together, where the bytes do not begin with the
/// UTF-8 form of a character.
pub open spec fn replaced_length(bytes: Seq<u8>) -> int {
    if is_invalid_start(bytes, invalid_length(bytes)) {
        invalid_length(bytes)
    } else {
        1
    }
}

/// The text that bytes stand for: character by character where they are UTF-8,
/// and U+FFFD for one to three bytes at a time where they are not.
pub open spec fn lossy_text(bytes: Seq<u8>) -> Seq<char>
    decreases bytes.len(),
{
    if bytes.len() == 0 {
        seq![]
    } else if valid_first_scalar(bytes) {
        seq![decode_first_scalar(bytes) as char] + lossy_text(pop_first_scalar(bytes))
    } else {
        seq!['\u{fffd}'] + lossy_text(bytes.skip(replaced_length(bytes)))
    }
}

/// Calls `String::from_utf8_lossy`. Bytes that begin with the UTF-8 form of a
/// character give that character and then what the bytes behind it give, so
/// that valid UTF-8 is decoded. Bytes that begin with no character give U+FFFD
/// in place of the first one to three of them, none of which begins a
/// character, and then what the bytes behind those give. How many are replaced
/// together depends on the bytes alone; which number it is, where more than one
/// is possible, is left unsaid.
#[verifier::external_body]
pub(crate) fn text_from_utf8_lossy(bytes: &[u8]) -> (text: String)
    ensures
        text@ == lossy_text(bytes@),
        bytes@.len() > 0 && is_invalid_start(bytes@, invalid_length(bytes@)) ==> text@
            == seq!['\u{fffd}'] + lossy_text(bytes@.skip(invalid_length(bytes@))),
{
    String::from_utf8_lossy(bytes).into_owned()
}

/// Bytes that begin with no character give a replacement character for one to
/// three of them, and then what the bytes behind those give. No byte that
/// begins a character is lost.
pub proof fn invalid_bytes_are_replaced(bytes: Seq<u8>)
    requires
        bytes.len() > 0,
        !valid_first_scalar(bytes),
    ensures
        is_invalid_start(bytes, replaced_length(bytes)),
        lossy_text(bytes) == seq!['\u{fffd}'] + lossy_text(bytes.skip(replaced_length(bytes))),
{
    assert(bytes.skip(0) =~= bytes);
}

/// A byte that begins no character gives exactly one replacement character
/// where it is the last byte, or where a character follows it.
pub proof fn a_stray_byte_is_replaced(bytes: Seq<u8>)
    requires
        bytes.len() > 0,
        !valid_first_scalar(bytes),
        bytes.len() == 1 || valid_first_scalar(bytes.skip(1)),
    ensures
        lossy_text(bytes) == seq!['\u{fffd}'] + lossy_text(bytes.skip(1)),
{
    invalid_bytes_are_replaced(bytes);
}

/// A text stays as it is before any bytes: its UTF-8 form and more bytes give
/// the text and then what those bytes give.
pub proof fn a_text_stays_before_any_bytes(s: Seq<char>, bytes: Seq<u8>)
    ensures
        lossy_text(encode_utf8(s) + bytes) == s + lossy_text(bytes),
    decreases s.len(),
{
    let form = encode_utf8(s);
    let whole = form + bytes;
    if s.len() == 0 {
        assert(whole =~= bytes);
        assert(s + lossy_text(bytes) =~= lossy_text(bytes));
    } else {
        let rest = s.drop_first();
        encode_utf8_first_scalar(s);
        assert forall|i: int| 0 <= i < form.len() implies whole[i] == form[i] by {}
        assert(valid_first_scalar(whole));
        assert(pop_first_scalar(whole) =~= encode_utf8(rest) + bytes);
        a_text_stays_before_any_bytes(rest, bytes);
        char_u32_cast(s[0], decode_first_scalar(whole));
        assert(seq![s[0]] + (rest + lossy_text(bytes)) =~= s + lossy_text(bytes));
    }
}

/// Valid UTF-8 is decoded.
pub proof fn valid_bytes_are_decoded(bytes: Seq<u8>)
    requires
        valid_utf8(bytes),
    ensures
        lossy_text(bytes) == decode_utf8(bytes),
    decreases bytes.len(),
{
    if bytes.len() > 0 {
        valid_bytes_are_decoded(pop_first_scalar(bytes));
    }
}

/// Reading the UTF-8 form of a text gives the text back.
pub proof fn reading_undoes_encoding(s: Seq<char>)
    ensures
        lossy_text(encode_utf8(s)) == s,
{
    a_text_stays_before_any_bytes(s, seq![]);
    assert(encode_utf8(s) + seq![] =~= encode_utf8(s));
    assert(s + lossy_text(seq![]) =~= s);
}

/// The lower case of an ASCII letter; any other character itself.
pub open spec fn ascii_lower(c: char) -> char {
    if 'A' <= c && c <= 'Z' {
        (c as u32 + 32) as char
    } else {
        c
    }
}

/// What `str::to_lowercase` makes of a text that is not all ASCII.
pub uninterp spec fn unicode_lowercase(s: Seq<char>) -> Seq<char>;

/// `s` in lower case.
pub open spec fn lowercased(s: Seq<char>) -> Seq<char> {
    if is_ascii_chars(s) {
        s.map_values(|c: char| ascii_lower(c))
    } else {
        unicode_lowercase(s)
    }
}

/// Calls `str::to_lowercase`. In an ASCII text each letter from A to Z turns
/// into its lower case and the rest stays. Of other texts only that the result
/// depends on the text alone is claimed; the Unicode mapping is left unsaid.
#[verifier::external_body]
pub(crate) fn lowercase(text: &str) -> (lower: String)
    ensures
        is_ascii_chars(text@) ==> lower@ == text@.map_values(|c: char| ascii_lower(c)),
        !is_ascii_chars(text@) ==> lower@ == unicode_lowercase(text@),
{
    text.to_lowercase()
}

/// In the lower case of an ASCII text the letters from A to Z are 32 places
/// further on, and every other character is where it was.
pub proof fn lower_case_moves_capitals_only(s: Seq<char>, i: int)
    requires
        is_ascii_chars(s),
        0 <= i < s.len(),
    ensures
        lowercased(s).len() == s.len(),
        'A' <= s[i] && s[i] <= 'Z' ==> lowercased(s)[i] as u32 == s[i] as u32 + 32,
        !('A' <= s[i] && s[i] <= 'Z') ==> lowercased(s)[i] == s[i],
{
}

} // verus!
