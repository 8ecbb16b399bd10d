//! HTML: escaped text and the page with the input form.

use crate::text::slice_view;
use vstd::prelude::*;

verus! {

broadcast use vstd::string::group_string_axioms;

// ---------------------------------------------------------------------------
// Escaped text

/// The HTML form of one character.
pub open spec fn escaped_char(c: char) -> Seq<char> {
    if c == '&' {
        "&amp;"@
    } else if c == '<' {
        "&lt;"@
    } else if c == '>' {
        "&gt;"@
    } else if c == '"' {
        "&quot;"@
    } else {
        seq![c]
    }
}

/// `s` with each character in its HTML form.
pub open spec fn escaped(s: Seq<char>) -> Seq<char>
    decreases s.len(),
{
    if s.len() == 0 {
        seq![]
    } else {
        escaped_char(s[0]) + escaped(s.drop_first())
    }
}

/// Escapes a text for use in HTML content and in double-quoted attributes.
pub fn html_escape(text: &str) -> (out: String)
    ensures
        out@ == escaped(text@),
{
    let mut out = String::new();
    assert(text@.skip(0) =~= text@);
    assert(out@ + escaped(text@.skip(0)) =~= escaped(text@));
    for c in it: text.chars()
        invariant
            it.seq() == text@,
            out@ + escaped(text@.skip(it.index() as int)) == escaped(text@),
    {
        let ghost before = out@;
        if c == '&' {
            out.append("&amp;");
        } else if c == '<' {
            out.append("&lt;");
        } else if c == '>' {
            out.append("&gt;");
        } else if c == '"' {
            out.append("&quot;");
        } else {
            out.push(c);
        }
        proof {
            let i = it.index() as int;
            let rest = text@.skip(i);
            assert(rest[0] == c);
            assert(rest.drop_first() =~= text@.skip(i + 1));
            assert(out@ =~= before + escaped_char(c));
            assert(before + escaped_char(c) + escaped(text@.skip(i + 1)) =~= before + (
            escaped_char(c) + escaped(text@.skip(i + 1))));
        }
    }
    assert(text@.skip(text@.len() as int) =~= seq![]);
    assert(out@ + escaped(seq![]) =~= out@);
    out
}

/// `c` can end a tag or an attribute value, or begin a tag.
pub open spec fn is_markup(c: char) -> bool {
    c == '<' || c == '>' || c == '"'
}

/// Escaped text holds no character that markup is made of.
pub proof fn escaped_text_holds_no_markup(s: Seq<char>)
    ensures
        forall|i: int| 0 <= i < escaped(s).len() ==> !is_markup(#[trigger] escaped(s)[i]),
    decreases s.len(),
{
    reveal_entities();
    if s.len() > 0 {
        let head = escaped_char(s[0]);
        let tail = escaped(s.drop_first());
        escaped_text_holds_no_markup(s.drop_first());
        assert forall|i: int| 0 <= i < escaped(s).len() implies !is_markup(
            #[trigger] escaped(s)[i],
        ) by {
            if i >= head.len() {
                assert(escaped(s)[i] == tail[i - head.len()]);
            }
        }
    }
}

proof fn reveal_entities()
    ensures
        "&amp;"@ == seq!['&', 'a', 'm', 'p', ';'],
        "&lt;"@ == seq!['&', 'l', 't', ';'],
        "&gt;"@ == seq!['&', 'g', 't', ';'],
        "&quot;"@ == seq!['&', 'q', 'u', 'o', 't', ';'],
{
    reveal_strlit("&amp;");
    reveal_strlit("&lt;");
    reveal_strlit("&gt;");
    reveal_strlit("&quot;");
    assert("&amp;"@ =~= seq!['&', 'a', 'm', 'p', ';']);
    assert("&lt;"@ =~= seq!['&', 'l', 't', ';']);
    assert("&gt;"@ =~= seq!['&', 'g', 't', ';']);
    assert("&quot;"@ =~= seq!['&', 'q', 'u', 'o', 't', ';']);
}

/// Two texts with the same escaped form are the same text.
pub proof fn escaping_loses_nothing(a: Seq<char>, b: Seq<char>)
    requires
        escaped(a) == escaped(b),
    ensures
        a == b,
    decreases a.len(),
{
    reveal_entities();
    if a.len() == 0 {
        if b.len() > 0 {
            assert(escaped(b).len() >= escaped_char(b[0]).len() > 0);
        }
        assert(a =~= b);
    } else if b.len() == 0 {
        assert(escaped(a).len() >= escaped_char(a[0]).len() > 0);
    } else {
        let x = escaped_char(a[0]);
        let y = escaped_char(b[0]);
        let whole = escaped(a);
        assert(whole[0] == x[0] && whole[0] == y[0]);
        if whole[0] == '&' {
            assert(whole[1] == x[1] && whole[1] == y[1]);
        }
        assert(a[0] == b[0]);
        assert(escaped(a.drop_first()) =~= whole.skip(x.len() as int));
        assert(escaped(b.drop_first()) =~= whole.skip(y.len() as int));
        escaping_loses_nothing(a.drop_first(), b.drop_first());
        assert(a =~= seq![a[0]] + a.drop_first());
        assert(b =~= seq![b[0]] + b.drop_first());
    }
}

// ---------------------------------------------------------------------------
// The form page

/// The page up to the latest input.
pub const PAGE_START: &'static str = r#"<!doctype html>
<html lang="zh-Hant">
<head>
<meta charset="utf-8">
<meta name="viewport" content="width=device-width, initial-scale=1">
<title>檸檬烯姐智慧板</title>
<style>
body { font-family: system-ui, sans-serif; margin: 24px; line-height: 1.5; }
textarea { box-sizing: border-box; width: 100%; min-height: 160px; font-size: 18px; }
button { width: 100%; margin-top: 12px; padding: 14px; font-size: 18px; }
.latest { white-space: pre-wrap; padding: 12px; border: 1px solid #ccc; }
.oss { margin-top: 24px; padding: 16px; border: 1px solid #bbb; }
.oss a { display: block; margin-top: 8px; font-size: 18px; font-weight: 700; }
</style>
</head>
<body>
<h1>檸檬烯姐智慧板</h1>
<p>請用你的手機輸入中文。りもこ這邊會翻譯成日文。</p>
<form method="post" action="/submit">
<textarea name="text" autofocus placeholder="請在這裡輸入中文"></textarea>
<button type="submit">送出</button>
</form>
<h2>最新輸入</h2>
<div class="latest">"#;

/// The page between the latest input and the link.
pub const PAGE_LINK: &'static str = r#"</div>
<section class="oss">
<h2>りもこのOSSまとめ</h2>
<p>ROCm、本地 LLM、MCP Agent、日本語 LLM 評測、開源基礎設施工具。</p>
<a href=""#;

/// The page after the link.
pub const PAGE_END: &'static str = r#"" target="_blank" rel="noopener noreferrer">Open tools for local AI / 為本地 AI 打造開源工具</a>
</section>
</body>
</html>"#;

/// What the page shows while there is no input.
pub const NO_INPUT: &'static str = "まだ入力はありません。";

/// The form page with the latest input and the link.
pub open spec fn form_page(latest: Option<Seq<char>>, link: Seq<char>) -> Seq<char> {
    PAGE_START@ + match latest {
        Some(text) => escaped(text),
        None => NO_INPUT@,
    } + PAGE_LINK@ + escaped(link) + PAGE_END@
}

/// The form page with the latest input and the link.
pub fn pair_form_page(latest_text: Option<&str>, oss_url: &str) -> (page: String)
    ensures
        page@ == form_page(slice_view(latest_text), oss_url@),
{
    let mut page = PAGE_START.to_string();
    match latest_text {
        Some(text) => {
            let latest = html_escape(text);
            page.append(latest.as_str());
        },
        None => {
            page.append(NO_INPUT);
        },
    }
    page.append(PAGE_LINK);
    let link = html_escape(oss_url);
    page.append(link.as_str());
    page.append(PAGE_END);
    page
}

// ---------------------------------------------------------------------------
// Laws

/// Escaping goes character by character: the four characters that markup is
/// made of turn into their names, and every other character stays.
pub proof fn escaping_goes_by_characters(before: Seq<char>, c: char, after: Seq<char>)
    ensures
        escaped(before + seq![c] + after) == escaped(before) + match c {
            '&' => seq!['&', 'a', 'm', 'p', ';'],
            '<' => seq!['&', 'l', 't', ';'],
            '>' => seq!['&', 'g', 't', ';'],
            '"' => seq!['&', 'q', 'u', 'o', 't', ';'],
            _ => seq![c],
        } + escaped(after),
        escaped(Seq::<char>::empty()) == Seq::<char>::empty(),
{
    reveal_entities();
    let tail = seq![c] + after;
    assert(before + seq![c] + after =~= before + tail);
    lemma_escaped_concat(before, tail);
    assert(tail.drop_first() =~= after);
    assert(escaped(tail) == escaped_char(c) + escaped(after));
    assert(escaped(before) + (escaped_char(c) + escaped(after)) =~= escaped(before)
        + escaped_char(c) + escaped(after));
}

proof fn lemma_escaped_concat(a: Seq<char>, b: Seq<char>)
    ensures
        escaped(a + b) == escaped(a) + escaped(b),
    decreases a.len(),
{
    if a.len() == 0 {
        assert(a + b =~= b);
        assert(escaped(a) + escaped(b) =~= escaped(b));
    } else {
        assert((a + b).drop_first() =~= a.drop_first() + b);
        lemma_escaped_concat(a.drop_first(), b);
        assert(escaped(a + b) =~= escaped(a) + escaped(b));
    }
}

/// The page shows the latest text, escaped, in the element for it, and behind
/// it the link, escaped, as the address of an anchor. Between two pages with the
/// same link only the shown text differs.
pub proof fn the_page_shows_text_and_link(text: Seq<char>, link: Seq<char>)
    ensures
        exists|front: Seq<char>, middle: Seq<char>, end: Seq<char>|
            {
                &&& form_page(Some(text), link) == #[trigger] (front + "<div class=\"latest\">"@
                    + escaped(text) + "</div>"@ + middle + "<a href=\""@ + escaped(link)
                    + "\" target="@ + end)
                &&& form_page(None, link) == front + "<div class=\"latest\">"@
                    + "まだ入力はありません。"@ + "</div>"@ + middle + "<a href=\""@ + escaped(
                    link,
                ) + "\" target="@ + end
            },
{
    reveal_page();
    let start = PAGE_START@;
    let between = PAGE_LINK@;
    let last = PAGE_END@;
    let open = "<div class=\"latest\">"@;
    let close = "</div>"@;
    let anchor = "<a href=\""@;
    let target = "\" target="@;
    reveal_strlit("<div class=\"latest\">");
    reveal_strlit("</div>");
    reveal_strlit("<a href=\"");
    reveal_strlit("\" target=");
    let front = start.take(start.len() - open.len());
    let middle = between.subrange(close.len() as int, between.len() - anchor.len());
    let end = last.skip(target.len() as int);
    assert(start.skip(start.len() - open.len()) =~= open);
    assert(start =~= front + open);
    assert(between.take(close.len() as int) =~= close);
    assert(between.skip(between.len() - anchor.len()) =~= anchor);
    assert(between =~= close + middle + anchor);
    assert(last.take(target.len() as int) =~= target);
    assert(last =~= target + end);
    assert(form_page(Some(text), link) =~= front + open + escaped(text) + close + middle + anchor
        + escaped(link) + target + end);
    assert(form_page(None, link) =~= front + open + "まだ入力はありません。"@ + close + middle
        + anchor + escaped(link) + target + end);
}

/// Two pages with the same link are the same only where they show the same
/// text.
pub proof fn the_page_tells_the_text(a: Seq<char>, b: Seq<char>, link: Seq<char>)
    requires
        form_page(Some(a), link) == form_page(Some(b), link),
    ensures
        a == b,
{
    let n = PAGE_START@.len() as int;
    let x = form_page(Some(a), link);
    let y = form_page(Some(b), link);
    assert(x.len() == n + escaped(a).len() + PAGE_LINK@.len() + escaped(link).len()
        + PAGE_END@.len());
    assert(x.subrange(n, n + escaped(a).len()) =~= escaped(a));
    assert(y.subrange(n, n + escaped(b).len()) =~= escaped(b));
    escaping_loses_nothing(a, b);
}

/// How the parts of the page begin and end.
proof fn reveal_page()
    ensures
        PAGE_START@.len() >= 20,
        PAGE_LINK@.len() >= 15,
        PAGE_END@.len() >= 9,
        PAGE_START@.skip(PAGE_START@.len() - 20) == "<div class=\"latest\">"@,
        PAGE_LINK@.take(6) == "</div>"@,
        PAGE_LINK@.skip(PAGE_LINK@.len() - 9) == "<a href=\""@,
        PAGE_END@.take(9) == "\" target="@,
{
    reveal_strlit("<div class=\"latest\">");
    reveal_strlit("</div>");
    reveal_strlit("<a href=\"");
    reveal_strlit("\" target=");
    reveal_strlit(r#"<!doctype html>
<html lang="zh-Hant">
<head>
<meta charset="utf-8">
<meta name="viewport" content="width=device-width, initial-scale=1">
<title>檸檬烯姐智慧板</title>
<style>
body { font-family: system-ui, sans-serif; margin: 24px; line-height: 1.5; }
textarea { box-sizing: border-box; width: 100%; min-height: 160px; font-size: 18px; }
button { width: 100%; margin-top: 12px; padding: 14px; font-size: 18px; }
.latest { white-space: pre-wrap; padding: 12px; border: 1px solid #ccc; }
.oss { margin-top: 24px; padding: 16px; border: 1px solid #bbb; }
.oss a { display: block; margin-top: 8px; font-size: 18px; font-weight: 700; }
</style>
</head>
<body>
<h1>檸檬烯姐智慧板</h1>
<p>請用你的手機輸入中文。りもこ這邊會翻譯成日文。</p>
<form method="post" action="/submit">
<textarea name="text" autofocus placeholder="請在這裡輸入中文"></textarea>
<button type="submit">送出</button>
</form>
<h2>最新輸入</h2>
<div class="latest">"#);
    reveal_strlit(r#"</div>
<section class="oss">
<h2>りもこのOSSまとめ</h2>
<p>ROCm、本地 LLM、MCP Agent、日本語 LLM 評測、開源基礎設施工具。</p>
<a href=""#);
    reveal_strlit(r#"" target="_blank" rel="noopener noreferrer">Open tools for local AI / 為本地 AI 打造開源工具</a>
</section>
</body>
</html>"#);
    assert(PAGE_START@.skip(PAGE_START@.len() - 20) =~= "<div class=\"latest\">"@);
    assert(PAGE_LINK@.take(6) =~= "</div>"@);
    assert(PAGE_LINK@.skip(PAGE_LINK@.len() - 9) =~= "<a href=\""@);
    assert(PAGE_END@.take(9) =~= "\" target="@);
}

} // verus!
