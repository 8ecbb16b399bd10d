//! Text as a sequence of characters: white space, trimming, comparison,
//! splitting, joining and alignment.

use vstd::prelude::*;
use vstd::utf8::encode_utf8;

verus! {

broadcast use vstd::string::group_string_axioms;

/// The text in an optional string slice.
pub open spec fn slice_view(text: Option<&str>) -> Option<Seq<char>> {
    match text {
        Some(t) => Some(t@),
        None => None,
    }
}

/// The text in an optional string.
pub open spec fn string_view(text: Option<String>) -> Option<Seq<char>> {
    match text {
        Some(t) => Some(t@),
        None => None,
    }
}

// ---------------------------------------------------------------------------
// White space and trimming

/// The Unicode property `White_Space`.
pub open spec fn is_space(c: char) -> bool {
    let n = c as u32;
    ||| 0x09 <= n <= 0x0d
    ||| n == 0x20 || n == 0x85 || n == 0xa0 || n == 0x1680
    ||| 0x2000 <= n <= 0x200a
    ||| n == 0x2028 || n == 0x2029 || n == 0x202f || n == 0x205f || n == 0x3000
}

/// `s` without the white space it begins with.
pub open spec fn trimmed_start(s: Seq<char>) -> Seq<char>
    decreases s.len(),
{
    if s.len() > 0 && is_space(s[0]) {
        trimmed_start(s.drop_first())
    } else {
        s
    }
}

/// `s` without the white space it ends with.
pub open spec fn trimmed_end(s: Seq<char>) -> Seq<char>
    decreases s.len(),
{
    if s.len() > 0 && is_space(s.last()) {
        trimmed_end(s.drop_last())
    } else {
        s
    }
}

/// `s` without the white space around it.
pub open spec fn trimmed(s: Seq<char>) -> Seq<char> {
    trimmed_end(trimmed_start(s))
}

/// `s` without any run of `c` that it ends with.
pub open spec fn without_trailing(s: Seq<char>, c: char) -> Seq<char>
    decreases s.len(),
{
    if s.len() > 0 && s.last() == c {
        without_trailing(s.drop_last(), c)
    } else {
        s
    }
}

/// Whether `c` is white space.
pub fn is_whitespace(c: char) -> (yes: bool)
    ensures
        yes == is_space(c),
{
    let n: u32 = c as u32;
    (0x09 <= n && n <= 0x0d) || n == 0x20 || n == 0x85 || n == 0xa0 || n == 0x1680
        || (0x2000 <= n && n <= 0x200a) || n == 0x2028 || n == 0x2029 || n == 0x202f
        || n == 0x205f || n == 0x3000
}

/// The characters of a text, in order.
pub fn chars_of(text: &str) -> (chars: Vec<char>)
    ensures
        chars@ == text@,
{
    let mut chars: Vec<char> = Vec::new();
    for c in it: text.chars()
        invariant
            it.seq() == text@,
            chars@ == text@.take(it.index() as int),
    {
        chars.push(c);
    }
    chars
}

/// How many of the first `end` characters are left once the white space at
/// their end is cut off.
fn end_of_text(chars: &Vec<char>, end: usize) -> (stop: usize)
    requires
        end <= chars@.len(),
    ensures
        stop <= end,
        trimmed_end(chars@.take(end as int)) == chars@.take(stop as int),
{
    let mut stop: usize = end;
    while stop > 0 && is_whitespace(chars[stop - 1])
        invariant
            stop <= end <= chars@.len(),
            trimmed_end(chars@.take(end as int)) == trimmed_end(chars@.take(stop as int)),
        decreases stop,
    {
        assert(chars@.take(stop as int).drop_last() =~= chars@.take(stop - 1));
        stop = stop - 1;
    }
    stop
}

/// The text without the white space it ends with.
pub fn trim_end(text: &str) -> (rest: &str)
    ensures
        rest@ == trimmed_end(text@),
{
    let chars = chars_of(text);
    assert(chars@.take(chars@.len() as int) =~= chars@);
    let stop: usize = end_of_text(&chars, chars.len());
    text.substring_char(0, stop)
}

/// The text without the white space around it.
pub fn trim(text: &str) -> (rest: &str)
    ensures
        rest@ == trimmed(text@),
{
    let chars = chars_of(text);
    let len: usize = chars.len();
    let mut start: usize = 0;
    assert(text@.skip(0) =~= text@);
    while start < len && is_whitespace(chars[start])
        invariant
            start <= len,
            len == chars@.len(),
            chars@ == text@,
            trimmed_start(text@) == trimmed_start(text@.skip(start as int)),
        decreases len - start,
    {
        assert(text@.skip(start as int).drop_first() =~= text@.skip(start + 1));
        start = start + 1;
    }
    let mut stop: usize = len;
    assert(text@.skip(start as int) =~= text@.subrange(start as int, stop as int));
    while stop > start && is_whitespace(chars[stop - 1])
        invariant
            start <= stop <= len,
            len == chars@.len(),
            chars@ == text@,
            trimmed(text@) == trimmed_end(text@.subrange(start as int, stop as int)),
        decreases stop,
    {
        assert(text@.subrange(start as int, stop as int).drop_last() =~= text@.subrange(
            start as int,
            stop - 1,
        ));
        stop = stop - 1;
    }
    text.substring_char(start, stop)
}

/// The trimmed text, unless nothing is left of it.
pub open spec fn content_of(s: Seq<char>) -> Option<Seq<char>> {
    if trimmed(s).len() > 0 {
        Some(trimmed(s))
    } else {
        None
    }
}

/// The trimmed text, unless nothing is left of it.
pub fn nonempty_trimmed(text: &str) -> (rest: Option<String>)
    ensures
        string_view(rest) == content_of(text@),
{
    let rest = trim(text);
    if rest.is_empty() {
        None
    } else {
        Some(rest.to_string())
    }
}

/// The text without any run of `c` that it ends with.
pub fn trim_end_matches(text: &str, c: char) -> (rest: &str)
    ensures
        rest@ == without_trailing(text@, c),
{
    let chars = chars_of(text);
    let mut stop: usize = chars.len();
    assert(text@.take(stop as int) =~= text@);
    while stop > 0 && chars[stop - 1] == c
        invariant
            stop <= chars@.len(),
            chars@ == text@,
            without_trailing(text@, c) == without_trailing(text@.take(stop as int), c),
        decreases stop,
    {
        assert(text@.take(stop as int).drop_last() =~= text@.take(stop - 1));
        stop = stop - 1;
    }
    text.substring_char(0, stop)
}

/// A text that neither begins nor ends with white space is its own trimmed
/// form.
pub proof fn trimming_keeps_inner_text(s: Seq<char>)
    requires
        s.len() > 0 ==> !is_space(s[0]) && !is_space(s.last()),
    ensures
        trimmed(s) == s,
{
}

/// What is left after trimming neither begins nor ends with white space.
pub proof fn trimmed_has_no_outer_space(s: Seq<char>)
    ensures
        trimmed(s).len() > 0 ==> !is_space(trimmed(s)[0]) && !is_space(trimmed(s).last()),
{
    lemma_trimmed_start(s);
    lemma_trimmed_end(trimmed_start(s));
}

/// Trimming twice is trimming once.
pub proof fn trimming_is_idempotent(s: Seq<char>)
    ensures
        trimmed(trimmed(s)) == trimmed(s),
{
    trimmed_has_no_outer_space(s);
    trimming_keeps_inner_text(trimmed(s));
}

proof fn lemma_trimmed_start(s: Seq<char>)
    ensures
        trimmed_start(s).len() > 0 ==> !is_space(trimmed_start(s)[0]),
    decreases s.len(),
{
    if s.len() > 0 && is_space(s[0]) {
        lemma_trimmed_start(s.drop_first());
    }
}

proof fn lemma_trimmed_end(s: Seq<char>)
    ensures
        trimmed_end(s).len() <= s.len(),
        trimmed_end(s).len() > 0 ==> !is_space(trimmed_end(s).last()),
        trimmed_end(s).len() > 0 ==> trimmed_end(s)[0] == s[0],
    decreases s.len(),
{
    if s.len() > 0 && is_space(s.last()) {
        lemma_trimmed_end(s.drop_last());
    }
}

// ---------------------------------------------------------------------------
// Comparison and prefixes

/// Whether two texts hold the same characters.
pub fn same_text(a: &str, b: &str) -> (same: bool)
    ensures
        same == (a@ == b@),
{
    let left = a.as_bytes();
    let right = b.as_bytes();
    let len: usize = left.len();
    if len != right.len() {
        return false;
    }
    let mut i: usize = 0;
    while i < len
        invariant
            i <= len,
            len == left@.len(),
            len == right@.len(),
            left@ == encode_utf8(a@),
            right@ == encode_utf8(b@),
            forall|k: int| 0 <= k < i ==> left@[k] == right@[k],
        decreases len - i,
    {
        if left[i] != right[i] {
            return false;
        }
        i = i + 1;
    }
    proof {
        assert(left@ =~= right@);
        vstd::utf8::encode_utf8_decode_utf8(a@);
        vstd::utf8::encode_utf8_decode_utf8(b@);
    }
    true
}

/// `s` begins with `prefix`.
pub open spec fn begins_with(s: Seq<char>, prefix: Seq<char>) -> bool {
    prefix.len() <= s.len() && s.take(prefix.len() as int) == prefix
}

/// The text after `prefix`, if the text begins with it.
pub fn strip_prefix<'a>(text: &'a str, prefix: &str) -> (rest: Option<&'a str>)
    ensures
        rest is Some <==> begins_with(text@, prefix@),
        rest matches Some(r) ==> r@ == text@.skip(prefix@.len() as int),
{
    let chars = chars_of(text);
    let wanted = chars_of(prefix);
    let len: usize = wanted.len();
    if len > chars.len() {
        return None;
    }
    let mut i: usize = 0;
    while i < len
        invariant
            i <= len <= chars@.len(),
            len == wanted@.len(),
            chars@ == text@,
            wanted@ == prefix@,
            forall|k: int| 0 <= k < i ==> chars@[k] == wanted@[k],
        decreases len - i,
    {
        if chars[i] != wanted[i] {
            assert(text@.take(prefix@.len() as int)[i as int] != prefix@[i as int]);
            return None;
        }
        i = i + 1;
    }
    assert(text@.take(prefix@.len() as int) =~= prefix@);
    assert(text@.skip(len as int) =~= text@.subrange(len as int, text@.len() as int));
    Some(text.substring_char(len, chars.len()))
}

/// Whether the text begins with `prefix`.
pub fn starts_with(text: &str, prefix: &str) -> (yes: bool)
    ensures
        yes == begins_with(text@, prefix@),
{
    strip_prefix(text, prefix).is_some()
}

// ---------------------------------------------------------------------------
// Splitting and joining

/// The number of characters before the first `c`; the length of `s` where
/// there is none.
pub open spec fn position(s: Seq<char>, c: char) -> nat
    decreases s.len(),
{
    if s.len() == 0 || s[0] == c {
        0
    } else {
        1 + position(s.drop_first(), c)
    }
}

/// What stands at the position, and what does not stand before it.
pub proof fn lemma_position(s: Seq<char>, c: char)
    ensures
        position(s, c) <= s.len(),
        position(s, c) < s.len() ==> s[position(s, c) as int] == c,
        forall|i: int| 0 <= i < position(s, c) ==> s[i] != c,
    decreases s.len(),
{
    if s.len() > 0 && s[0] != c {
        let rest = s.drop_first();
        lemma_position(rest, c);
        assert forall|i: int| 0 <= i < position(s, c) implies s[i] != c by {
            if i > 0 {
                assert(s[i] == rest[i - 1]);
            }
        }
    }
}

/// The position is the only index that has `c` and no `c` before it.
pub proof fn lemma_position_is(s: Seq<char>, c: char, at: int)
    requires
        0 <= at <= s.len(),
        at < s.len() ==> s[at] == c,
        forall|i: int| 0 <= i < at ==> s[i] != c,
    ensures
        position(s, c) == at,
{
    lemma_position(s, c);
    if position(s, c) < at {
        assert(s[position(s, c) as int] == c);
    }
}

/// The pieces of `s` between the separators.
pub open spec fn split_on(s: Seq<char>, separator: char) -> Seq<Seq<char>>
    decreases s.len(),
{
    let at = position(s, separator) as int;
    if at >= s.len() {
        seq![s]
    } else {
        seq![s.take(at)] + split_on(s.skip(at + 1), separator)
    }
}

/// The texts in a list of string slices.
pub open spec fn views(list: Seq<&str>) -> Seq<Seq<char>> {
    Seq::new(list.len(), |i: int| list[i]@)
}

/// The index of the first `c` at or after `from`; the length where there is
/// none.
fn find_from(chars: &Vec<char>, from: usize, c: char) -> (at: usize)
    requires
        from <= chars@.len(),
    ensures
        from <= at <= chars@.len(),
        at - from == position(chars@.skip(from as int), c),
{
    let len: usize = chars.len();
    let mut at: usize = from;
    while at < len && chars[at] != c
        invariant
            from <= at <= len,
            len == chars@.len(),
            forall|i: int| from <= i < at ==> chars@[i] != c,
        decreases len - at,
    {
        at = at + 1;
    }
    proof {
        let rest = chars@.skip(from as int);
        assert forall|i: int| 0 <= i < at - from implies rest[i] != c by {
            assert(rest[i] == chars@[from + i]);
        }
        if at < len {
            assert(rest[at - from] == chars@[at as int]);
        }
        lemma_position_is(rest, c, at - from);
    }
    at
}

/// The pieces of the text between the separators.
pub fn split<'a>(text: &'a str, separator: char) -> (pieces: Vec<&'a str>)
    ensures
        views(pieces@) == split_on(text@, separator),
{
    let chars = chars_of(text);
    let len: usize = chars.len();
    let mut pieces: Vec<&'a str> = Vec::new();
    let mut from: usize = 0;
    let mut at: usize = find_from(&chars, 0, separator);
    assert(text@.skip(0) =~= text@);
    assert(views(pieces@) + split_on(text@.skip(0), separator) =~= split_on(text@, separator));
    while at < len
        invariant
            from <= at <= len,
            len == chars@.len(),
            chars@ == text@,
            at - from == position(text@.skip(from as int), separator),
            views(pieces@) + split_on(text@.skip(from as int), separator) == split_on(
                text@,
                separator,
            ),
        decreases len - from,
    {
        let piece = text.substring_char(from, at);
        proof {
            let rest = text@.skip(from as int);
            let gap = at - from;
            assert(rest.take(gap) =~= piece@);
            assert(rest.skip(gap + 1) =~= text@.skip(at + 1));
            assert(views(pieces@.push(piece)) =~= views(pieces@).push(piece@));
            assert(views(pieces@).push(piece@) + split_on(text@.skip(at + 1), separator)
                =~= views(pieces@) + (seq![piece@] + split_on(text@.skip(at + 1), separator)));
        }
        pieces.push(piece);
        from = at + 1;
        at = find_from(&chars, from, separator);
    }
    let piece = text.substring_char(from, len);
    proof {
        assert(piece@ =~= text@.skip(from as int));
        assert(views(pieces@.push(piece)) =~= views(pieces@) + seq![piece@]);
    }
    pieces.push(piece);
    pieces
}

/// The text before and the text after the first `c`, if there is one.
pub fn split_once<'a>(text: &'a str, c: char) -> (halves: Option<(&'a str, &'a str)>)
    ensures
        halves is Some <==> position(text@, c) < text@.len(),
        halves matches Some((before, after)) ==> {
            &&& before@ == text@.take(position(text@, c) as int)
            &&& after@ == text@.skip(position(text@, c) as int + 1)
        },
{
    let chars = chars_of(text);
    assert(text@.skip(0) =~= text@);
    let at: usize = find_from(&chars, 0, c);
    let len: usize = chars.len();
    if at < len {
        assert(text@.take(at as int) =~= text@.subrange(0, at as int));
        assert(text@.skip(at + 1) =~= text@.subrange(at + 1, len as int));
        Some((text.substring_char(0, at), text.substring_char(at + 1, len)))
    } else {
        None
    }
}

/// `s` without the carriage return it may end with.
pub open spec fn without_return(s: Seq<char>) -> Seq<char> {
    if s.len() > 0 && s.last() == '\r' {
        s.drop_last()
    } else {
        s
    }
}

/// The lines of `s`. A line ends with a line feed, before which a carriage
/// return may stand; the last line can lack both.
pub open spec fn lines_of(s: Seq<char>) -> Seq<Seq<char>>
    decreases s.len(),
{
    let at = position(s, '\n') as int;
    if s.len() == 0 {
        seq![]
    } else if at >= s.len() {
        seq![s]
    } else {
        seq![without_return(s.take(at))] + lines_of(s.skip(at + 1))
    }
}

/// `s` ends with a whole line, or is empty.
pub open spec fn is_whole_lines(s: Seq<char>) -> bool {
    s.len() > 0 ==> s.last() == '\n'
}

/// The lines of the text, without what ends them.
pub fn lines<'a>(text: &'a str) -> (list: Vec<&'a str>)
    ensures
        views(list@) == lines_of(text@),
{
    let chars = chars_of(text);
    let len: usize = chars.len();
    let mut list: Vec<&'a str> = Vec::new();
    let mut from: usize = 0;
    assert(text@.skip(0) =~= text@);
    assert(views(list@) + lines_of(text@.skip(0)) =~= lines_of(text@));
    while from < len
        invariant
            from <= len,
            len == chars@.len(),
            chars@ == text@,
            views(list@) + lines_of(text@.skip(from as int)) == lines_of(text@),
        decreases len - from,
    {
        let ghost rest = text@.skip(from as int);
        let ghost before = list@;
        let at: usize = find_from(&chars, from, '\n');
        let stop: usize = if at < len && at > from && chars[at - 1] == '\r' {
            at - 1
        } else {
            at
        };
        let line = text.substring_char(from, stop);
        list.push(line);
        let next: usize = if at < len {
            at + 1
        } else {
            len
        };
        proof {
            let gap = at - from;
            let tail = lines_of(text@.skip(next as int));
            assert(views(list@) =~= views(before).push(line@));
            if at < len {
                assert(rest.take(gap) =~= text@.subrange(from as int, at as int));
                assert(without_return(rest.take(gap)) =~= line@);
                assert(rest.skip(gap + 1) =~= text@.skip(next as int));
            } else {
                assert(rest =~= line@);
                assert(text@.skip(next as int) =~= seq![]);
            }
            assert(lines_of(rest) =~= seq![line@] + tail);
            assert(views(list@) + tail =~= views(before) + (seq![line@] + tail));
        }
        from = next;
    }
    assert(text@.skip(from as int) =~= seq![]);
    assert(views(list@) + lines_of(text@.skip(from as int)) =~= views(list@));
    list
}

/// Text behind whole lines leaves these lines as they are and adds its own.
pub proof fn lines_behind_whole_lines(front: Seq<char>, back: Seq<char>)
    requires
        is_whole_lines(front),
    ensures
        lines_of(front + back) == lines_of(front) + lines_of(back),
    decreases front.len(),
{
    let whole = front + back;
    if front.len() == 0 {
        assert(whole =~= back);
        assert(lines_of(front) + lines_of(back) =~= lines_of(back));
    } else {
        lemma_position(front, '\n');
        let at = position(front, '\n') as int;
        if at == front.len() {
            assert(front[front.len() - 1] == '\n');
        }
        let rest = front.skip(at + 1);
        lemma_position_is(whole, '\n', at);
        assert(whole.take(at) =~= front.take(at));
        assert(whole.skip(at + 1) =~= rest + back);
        if rest.len() > 0 {
            assert(rest.last() == front.last());
        }
        lines_behind_whole_lines(rest, back);
        assert(lines_of(whole) =~= lines_of(front) + lines_of(back));
    }
}

/// A text without a line feed in it and without a carriage return at its end
/// is one line, once a line feed ends it.
pub proof fn one_line_is_one_line(s: Seq<char>)
    requires
        forall|i: int| 0 <= i < s.len() ==> s[i] != '\n',
        s.len() > 0 ==> s.last() != '\r',
    ensures
        lines_of(s.push('\n')) == seq![s],
{
    let line = s.push('\n');
    lemma_position_is(line, '\n', s.len() as int);
    assert(line.take(s.len() as int) =~= s);
    let rest = line.skip(s.len() as int + 1);
    assert(rest.len() == 0);
    assert(lines_of(rest) =~= seq![]);
    assert(lines_of(line) =~= seq![s]);
}

/// The texts one after another, with `separator` between two of them.
pub open spec fn joined(list: Seq<Seq<char>>, separator: Seq<char>) -> Seq<char>
    decreases list.len(),
{
    if list.len() == 0 {
        seq![]
    } else if list.len() == 1 {
        list[0]
    } else {
        joined(list.drop_last(), separator) + separator + list.last()
    }
}

/// The texts of a list of strings.
pub open spec fn string_views(list: Seq<String>) -> Seq<Seq<char>> {
    Seq::new(list.len(), |i: int| list[i]@)
}

/// The texts one after another, with `separator` between two of them.
pub fn join(list: &Vec<String>, separator: &str) -> (text: String)
    ensures
        text@ == joined(string_views(list@), separator@),
{
    let mut text = String::new();
    let len: usize = list.len();
    let mut i: usize = 0;
    let ghost all = string_views(list@);
    assert(text@ =~= joined(all.take(0), separator@));
    while i < len
        invariant
            i <= len,
            len == list@.len(),
            all == string_views(list@),
            text@ == joined(all.take(i as int), separator@),
        decreases len - i,
    {
        if i > 0 {
            text.append(separator);
        }
        text.append(list[i].as_str());
        assert(all.take(i + 1).drop_last() =~= all.take(i as int));
        i = i + 1;
    }
    assert(all.take(len as int) =~= all);
    text
}

// ---------------------------------------------------------------------------
// Building texts

/// `String::push` appends one character.
pub assume_specification[ String::push ](text: &mut String, c: char)
    ensures
        final(text)@ == old(text)@.push(c),
;

/// A text of `n` spaces.
pub open spec fn spaces(n: nat) -> Seq<char> {
    Seq::new(n, |i: int| ' ')
}

/// `s` with spaces before it, up to `width` characters.
pub open spec fn right_aligned(s: Seq<char>, width: nat) -> Seq<char> {
    if s.len() >= width {
        s
    } else {
        spaces((width - s.len()) as nat) + s
    }
}

/// `s` with spaces behind it, up to `width` characters.
pub open spec fn left_aligned(s: Seq<char>, width: nat) -> Seq<char> {
    if s.len() >= width {
        s
    } else {
        s + spaces((width - s.len()) as nat)
    }
}

/// Appends `n` spaces.
fn push_spaces(out: &mut String, n: usize)
    ensures
        final(out)@ == old(out)@ + spaces(n as nat),
{
    let mut i: usize = 0;
    let ghost before = out@;
    assert(before + spaces(0) =~= before);
    while i < n
        invariant
            i <= n,
            out@ == before + spaces(i as nat),
        decreases n - i,
    {
        assert((before + spaces(i as nat)).push(' ') =~= before + spaces((i + 1) as nat));
        out.push(' ');
        i = i + 1;
    }
}

/// The text with spaces before it, up to `width` characters.
pub fn align_right(text: &str, width: usize) -> (padded: String)
    ensures
        padded@ == right_aligned(text@, width as nat),
{
    let len: usize = text.unicode_len();
    let mut out = String::new();
    if len < width {
        push_spaces(&mut out, width - len);
    }
    out.append(text);
    assert(out@ =~= right_aligned(text@, width as nat));
    out
}

/// The text with spaces behind it, up to `width` characters.
pub fn align_left(text: &str, width: usize) -> (padded: String)
    ensures
        padded@ == left_aligned(text@, width as nat),
{
    let len: usize = text.unicode_len();
    let mut out = text.to_string();
    if len < width {
        push_spaces(&mut out, width - len);
    }
    out
}

/// `s` with each line break turned into a space.
pub open spec fn on_one_line(s: Seq<char>) -> Seq<char> {
    s.map_values(|c: char| if c == '\n' { ' ' } else { c })
}

/// The text with each line break turned into a space.
pub fn flatten_lines(text: &str) -> (flat: String)
    ensures
        flat@ == on_one_line(text@),
{
    let mut flat = String::new();
    for c in it: text.chars()
        invariant
            it.seq() == text@,
            flat@ == on_one_line(text@.take(it.index() as int)),
    {
        proof {
            let i = it.index() as int;
            assert(on_one_line(text@.take(i + 1)) =~= on_one_line(text@.take(i)).push(
                on_one_line(text@)[i],
            ));
        }
        if c == '\n' {
            flat.push(' ');
        } else {
            flat.push(c);
        }
    }
    assert(text@.take(text@.len() as int) =~= text@);
    flat
}

// ---------------------------------------------------------------------------
// Laws

/// `s` is white space only.
pub open spec fn is_blank(s: Seq<char>) -> bool {
    forall|i: int| 0 <= i < s.len() ==> is_space(#[trigger] s[i])
}

/// Trimming takes away the white space around a text and nothing else.
pub proof fn trimming_takes_outer_space(before: Seq<char>, s: Seq<char>, after: Seq<char>)
    requires
        is_blank(before),
        is_blank(after),
        s.len() > 0 ==> !is_space(s[0]) && !is_space(s.last()),
    ensures
        trimmed(before + s + after) == s,
        trimmed_end(before + s + after) == if s.len() > 0 {
            before + s
        } else {
            seq![]
        },
{
    let rest = s + after;
    assert(before + s + after =~= before + rest);
    lemma_blank_start(before, rest);
    lemma_blank_end(s, after);
    if s.len() > 0 {
        assert(rest[0] == s[0]);
        lemma_blank_end(before + s, after);
    } else {
        assert(rest =~= after);
        lemma_blank_start(after, seq![]);
        assert(after + seq![] =~= after);
        assert(trimmed(before + s + after) =~= s);
        assert(is_blank(before + after));
        assert(before + s + after =~= before + after);
        lemma_blank_end(seq![], before + after);
        assert(seq![] + (before + after) =~= before + after);
    }
}

proof fn lemma_blank_start(before: Seq<char>, s: Seq<char>)
    requires
        is_blank(before),
    ensures
        trimmed_start(before + s) == trimmed_start(s),
    decreases before.len(),
{
    let whole = before + s;
    if before.len() == 0 {
        assert(whole =~= s);
    } else {
        assert(whole[0] == before[0]);
        assert(whole.drop_first() =~= before.drop_first() + s);
        assert forall|i: int| 0 <= i < before.drop_first().len() implies is_space(
            #[trigger] before.drop_first()[i],
        ) by {
            assert(before.drop_first()[i] == before[i + 1]);
        }
        lemma_blank_start(before.drop_first(), s);
    }
}

proof fn lemma_blank_end(s: Seq<char>, after: Seq<char>)
    requires
        is_blank(after),
        s.len() > 0 ==> !is_space(s.last()),
    ensures
        trimmed_end(s + after) == s,
    decreases after.len(),
{
    let whole = s + after;
    if after.len() == 0 {
        assert(whole =~= s);
    } else {
        assert(is_space(after[after.len() - 1]));
        assert(whole.last() == after.last());
        assert(whole.drop_last() =~= s + after.drop_last());
        assert forall|i: int| 0 <= i < after.drop_last().len() implies is_space(
            #[trigger] after.drop_last()[i],
        ) by {
            assert(after.drop_last()[i] == after[i]);
        }
        lemma_blank_end(s, after.drop_last());
    }
}

/// A text has a content where it is not blank, and the content is the text
/// without the white space around it.
pub proof fn content_is_what_is_not_blank(before: Seq<char>, s: Seq<char>, after: Seq<char>)
    requires
        is_blank(before),
        is_blank(after),
        s.len() > 0 ==> !is_space(s[0]) && !is_space(s.last()),
    ensures
        content_of(before + s + after) == if s.len() > 0 {
            Some(s)
        } else {
            None
        },
{
    trimming_takes_outer_space(before, s, after);
}

/// All of a run of one character at the end of a text is cut off, and nothing
/// else.
pub proof fn trailing_characters_are_cut(s: Seq<char>, c: char, n: nat)
    requires
        s.len() > 0 ==> s.last() != c,
    ensures
        without_trailing(s + Seq::new(n, |i: int| c), c) == s,
    decreases n,
{
    let whole = s + Seq::new(n, |i: int| c);
    if n == 0 {
        assert(whole =~= s);
    } else {
        assert(whole.last() == c);
        assert(whole.drop_last() =~= s + Seq::new((n - 1) as nat, |i: int| c));
        trailing_characters_are_cut(s, c, (n - 1) as nat);
    }
}

/// A text begins with a prefix exactly where it is the prefix and some rest.
pub proof fn a_prefix_stands_first(s: Seq<char>, prefix: Seq<char>, rest: Seq<char>)
    ensures
        begins_with(prefix + rest, prefix),
        (prefix + rest).skip(prefix.len() as int) == rest,
        begins_with(s, prefix) ==> s == prefix + s.skip(prefix.len() as int),
{
    assert((prefix + rest).take(prefix.len() as int) =~= prefix);
    assert((prefix + rest).skip(prefix.len() as int) =~= rest);
    if begins_with(s, prefix) {
        assert(s =~= s.take(prefix.len() as int) + s.skip(prefix.len() as int));
    }
}

/// Joining the pieces of a text with the separator between them gives the text
/// back, and no piece holds the separator.
pub proof fn joining_undoes_splitting(s: Seq<char>, separator: char)
    ensures
        joined(split_on(s, separator), seq![separator]) == s,
        forall|i: int, k: int|
            0 <= i < split_on(s, separator).len() && 0 <= k < split_on(s, separator)[i].len()
                ==> #[trigger] split_on(s, separator)[i][k] != separator,
    decreases s.len(),
{
    lemma_position(s, separator);
    let at = position(s, separator) as int;
    let pieces = split_on(s, separator);
    if at < s.len() {
        let first = s.take(at);
        let rest = s.skip(at + 1);
        let others = split_on(rest, separator);
        joining_undoes_splitting(rest, separator);
        lemma_split_is_not_empty(rest, separator);
        lemma_joined_first(first, others, seq![separator]);
        assert(s =~= first + seq![separator] + rest);
        assert forall|i: int, k: int|
            0 <= i < pieces.len() && 0 <= k < pieces[i].len() implies #[trigger] pieces[i][k]
            != separator by {
            if i == 0 {
                assert(pieces[0] == first);
            } else {
                assert(pieces[i] == others[i - 1]);
                assert(others[i - 1][k] != separator);
            }
        }
    } else {
        assert(pieces =~= seq![s]);
    }
}

proof fn lemma_split_is_not_empty(s: Seq<char>, separator: char)
    ensures
        split_on(s, separator).len() > 0,
{
}

proof fn lemma_joined_first(first: Seq<char>, others: Seq<Seq<char>>, separator: Seq<char>)
    requires
        others.len() > 0,
    ensures
        joined(seq![first] + others, separator) == first + separator + joined(others, separator),
    decreases others.len(),
{
    let all = seq![first] + others;
    assert(all.last() == others.last());
    assert(all.drop_last() =~= seq![first] + others.drop_last());
    if others.len() == 1 {
        assert(all.drop_last() =~= seq![first]);
        assert(joined(all.drop_last(), separator) == first);
    } else {
        lemma_joined_first(first, others.drop_last(), separator);
        assert(joined(all, separator) =~= first + separator + joined(others, separator));
    }
}

/// One more text in a list is joined behind the others, with the separator
/// before it; a text alone is joined as it is.
pub proof fn joining_adds_at_the_end(
    list: Seq<Seq<char>>,
    text: Seq<char>,
    separator: Seq<char>,
)
    ensures
        joined(list.push(text), separator) == if list.len() == 0 {
            text
        } else {
            joined(list, separator) + separator + text
        },
{
    assert(list.push(text).drop_last() =~= list);
}

/// A line can end with a carriage return and a line feed, and a last line can
/// lack both.
pub proof fn line_ends_are_no_part_of_a_line(s: Seq<char>)
    requires
        forall|i: int| 0 <= i < s.len() ==> s[i] != '\n',
    ensures
        lines_of(s.push('\r').push('\n')) == seq![s],
        s.len() > 0 ==> lines_of(s) == seq![s],
        lines_of(Seq::<char>::empty()) == Seq::<Seq<char>>::empty(),
{
    let line = s.push('\r').push('\n');
    lemma_position_is(line, '\n', s.len() as int + 1);
    assert(line.take(s.len() as int + 1) =~= s.push('\r'));
    assert(s.push('\r').drop_last() =~= s);
    let rest = line.skip(s.len() as int + 2);
    assert(rest.len() == 0);
    assert(lines_of(rest) =~= seq![]);
    assert(lines_of(line) =~= seq![s]);
    lemma_position_is(s, '\n', s.len() as int);
}

/// An aligned text has at least the width, holds the whole text at its end or
/// at its beginning, and spaces in the rest.
pub proof fn aligning_adds_spaces_only(s: Seq<char>, width: nat)
    ensures
        right_aligned(s, width).len() == if s.len() < width {
            width
        } else {
            s.len()
        },
        left_aligned(s, width).len() == right_aligned(s, width).len(),
        right_aligned(s, width).skip(right_aligned(s, width).len() - s.len()) == s,
        left_aligned(s, width).take(s.len() as int) == s,
        forall|i: int|
            0 <= i < right_aligned(s, width).len() - s.len() ==> #[trigger] right_aligned(
                s,
                width,
            )[i] == ' ',
        forall|i: int|
            s.len() <= i < left_aligned(s, width).len() ==> #[trigger] left_aligned(s, width)[i]
                == ' ',
{
    assert(right_aligned(s, width).skip(right_aligned(s, width).len() - s.len()) =~= s);
    assert(left_aligned(s, width).take(s.len() as int) =~= s);
}

/// On one line, a text keeps every character but its line feeds, which turn
/// into spaces.
pub proof fn one_line_keeps_the_characters(s: Seq<char>)
    ensures
        on_one_line(s).len() == s.len(),
        forall|i: int| 0 <= i < s.len() && s[i] != '\n' ==> #[trigger] on_one_line(s)[i] == s[i],
        forall|i: int| 0 <= i < s.len() && s[i] == '\n' ==> #[trigger] on_one_line(s)[i] == ' ',
{
}

/// The view of an optional text, and of each text of a list, is that text.
pub proof fn views_hold_the_texts(
    slice: Option<&str>,
    string: Option<String>,
    slices: Seq<&str>,
    strings: Seq<String>,
    i: int,
)
    ensures
        slice_view(slice) is Some <==> slice is Some,
        slice matches Some(t) ==> slice_view(slice) == Some(t@),
        string_view(string) is Some <==> string is Some,
        string matches Some(t) ==> string_view(string) == Some(t@),
        views(slices).len() == slices.len(),
        string_views(strings).len() == strings.len(),
        0 <= i < slices.len() ==> views(slices)[i] == slices[i]@,
        0 <= i < strings.len() ==> string_views(strings)[i] == strings[i]@,
{
}

} // verus!
