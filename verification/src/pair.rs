//! The form for a partner: its address, and its requests and responses.

use crate::encoding::{lossy_text, text_from_utf8_lossy};
use crate::form::{form_text, parse_form_text};
use crate::html::{escaped, form_page, html_escape, pair_form_page};
use crate::number::{decimal, decimal_text, parse_number, parsed_number};
use crate::text::{
    a_prefix_stands_first, begins_with, content_of, is_blank, is_space, same_text, slice_view,
    starts_with, string_view, strip_prefix, trim, trim_end, trimmed, trimmed_end,
    trimming_takes_outer_space,
};
use vstd::prelude::*;
use vstd::utf8::encode_utf8;

verus! {

broadcast use vstd::string::group_string_axioms;

// ---------------------------------------------------------------------------
// Addresses

/// The host stands for every address of the machine.
pub open spec fn is_every_address(host: Seq<char>) -> bool {
    host == "0.0.0.0"@ || host == "::"@
}

/// The host to show for a host that is served on: the local address, as far
/// as it is known, where every address is served.
pub open spec fn shown_host(host: Seq<char>, local: Option<Seq<char>>) -> Seq<char> {
    if is_every_address(host) {
        match local {
            Some(address) => address,
            None => "127.0.0.1"@,
        }
    } else {
        host
    }
}

/// Whether the host stands for every address of the machine, so that the local
/// address is needed to show where the form is.
pub fn serves_every_address(host: &str) -> (yes: bool)
    ensures
        yes == is_every_address(host@),
{
    same_text(host, "0.0.0.0") || same_text(host, "::")
}

/// A host and a port as an address.
pub open spec fn address_of(host: Seq<char>, port: nat) -> Seq<char> {
    host + ":"@ + decimal(port)
}

/// The address of the form as a link.
pub open spec fn display_url(host: Seq<char>, port: nat, local: Option<Seq<char>>) -> Seq<char> {
    "http://"@ + address_of(shown_host(host, local), port)
}

/// The address of the form to show. `local_ip` is the local address, if it is
/// known.
pub fn pair_display_url(host: &str, port: u16, local_ip: Option<&str>) -> (url: String)
    ensures
        url@ == "http://"@ + shown_host(host@, slice_view(local_ip)) + ":"@ + decimal(
            port as nat,
        ),
        url@ == display_url(host@, port as nat, slice_view(local_ip)),
{
    let mut url = "http://".to_string();
    if serves_every_address(host) {
        match local_ip {
            Some(address) => {
                url.append(address);
            },
            None => {
                url.append("127.0.0.1");
            },
        }
    } else {
        url.append(host);
    }
    url.append(":");
    url.append(decimal_text(port as u64).as_str());
    assert(url@ =~= display_url(host@, port as nat, slice_view(local_ip)));
    url
}

/// The address to serve the form on.
pub fn bind_address(host: &str, port: u16) -> (address: String)
    ensures
        address@ == host@ + ":"@ + decimal(port as nat),
        address@ == address_of(host@, port as nat),
{
    let mut address = host.to_string();
    address.append(":");
    address.append(decimal_text(port as u64).as_str());
    address
}

// ---------------------------------------------------------------------------
// Requests

/// The line ends the header of a request.
pub open spec fn ends_header(line: Seq<char>) -> bool {
    trimmed_end(line).len() == 0
}

/// The length of the body after one more header line: a `Content-Length`
/// line sets it, to zero where it names no length, and another line leaves it.
pub open spec fn length_after(length: usize, line: Seq<char>) -> usize {
    let text = trimmed_end(line);
    if begins_with(text, "Content-Length:"@) {
        match parsed_number(trimmed(text.skip("Content-Length:"@.len() as int)), usize::MAX as nat) {
            Some(n) => n as usize,
            None => 0,
        }
    } else {
        length
    }
}

/// The length of the body after all header lines.
pub open spec fn body_length(lines: Seq<Seq<char>>) -> usize
    decreases lines.len(),
{
    if lines.len() == 0 {
        0
    } else {
        length_after(body_length(lines.drop_last()), lines.last())
    }
}

/// What a request asks for.
#[derive(Debug, Clone, Copy, PartialEq, Eq, Structural)]
pub enum PairAction {
    /// Show the form.
    ShowForm,
    /// Read a body of this many bytes and take the form in it.
    TakeForm(usize),
    /// Something that is not there.
    NotFound,
}

/// What a request asks for, by its first line and the length of its body.
pub open spec fn action_for(request_line: Seq<char>, length: usize) -> PairAction {
    if begins_with(request_line, "GET / "@) {
        PairAction::ShowForm
    } else if begins_with(request_line, "POST /submit "@) {
        PairAction::TakeForm(length)
    } else {
        PairAction::NotFound
    }
}

/// The header of a request while it is read.
#[derive(Debug, Clone, Copy, PartialEq, Eq, Structural)]
pub struct RequestHeader {
    /// How long the body is, as far as the header has been read.
    pub content_length: usize,
}

impl RequestHeader {
    /// A header before its first line.
    pub fn new() -> (header: Self)
        ensures
            header.content_length == body_length(seq![]),
    {
        RequestHeader { content_length: 0 }
    }

    /// What the request asks for, once its header has been read.
    pub fn action(&self, request_line: &str) -> (action: PairAction)
        ensures
            action == action_for(request_line@, self.content_length),
    {
        if starts_with(request_line, "GET / ") {
            PairAction::ShowForm
        } else if starts_with(request_line, "POST /submit ") {
            PairAction::TakeForm(self.content_length)
        } else {
            PairAction::NotFound
        }
    }

    /// Takes the next line. The result says whether more lines follow; the
    /// line that ends the header changes nothing.
    pub fn take_line(&mut self, line: &str) -> (more: bool)
        ensures
            more == !ends_header(line@),
            more ==> final(self).content_length == length_after(old(self).content_length, line@),
            !more ==> *final(self) == *old(self),
            forall|lines: Seq<Seq<char>>|
                more && old(self).content_length == #[trigger] body_length(lines)
                    ==> final(self).content_length == body_length(lines.push(line@)),
    {
        let text = trim_end(line);
        if text.is_empty() {
            return false;
        }
        if let Some(value) = strip_prefix(text, "Content-Length:") {
            self.content_length = match parse_number(trim(value), usize::MAX as u64) {
                Some(n) => n as usize,
                None => 0,
            };
        }
        proof {
            assert forall|lines: Seq<Seq<char>>|
                old(self).content_length == #[trigger] body_length(
                    lines,
                ) implies self.content_length == body_length(lines.push(line@)) by {
                assert(lines.push(line@).drop_last() =~= lines);
            }
        }
        true
    }
}

// ---------------------------------------------------------------------------
// Responses

/// An HTTP response that carries `body`.
pub open spec fn response(status: Seq<char>, content_type: Seq<char>, body: Seq<char>) -> Seq<
    char,
> {
    "HTTP/1.1 "@ + status + "\r\nContent-Type: "@ + content_type
        + "; charset=utf-8\r\nContent-Length: "@ + decimal(encode_utf8(body).len())
        + "\r\nConnection: close\r\n\r\n"@ + body
}

/// An HTTP response that carries `body`. It names the length of the body in
/// bytes.
pub fn http_response(status: &str, content_type: &str, body: &str) -> (text: String)
    ensures
        text@ == response(status@, content_type@, body@),
{
    let mut text = "HTTP/1.1 ".to_string();
    text.append(status);
    text.append("\r\nContent-Type: ");
    text.append(content_type);
    text.append("; charset=utf-8\r\nContent-Length: ");
    text.append(decimal_text(body.as_bytes().len() as u64).as_str());
    text.append("\r\nConnection: close\r\n\r\n");
    text.append(body);
    text
}

/// The response with the form.
pub fn page_response(latest: Option<&str>, oss_url: &str) -> (text: String)
    ensures
        text@ == response(
            "200 OK"@,
            "text/html"@,
            form_page(slice_view(latest), oss_url@),
        ),
{
    http_response("200 OK", "text/html", pair_form_page(latest, oss_url).as_str())
}

/// The text in the body of a submitted form.
pub fn submitted_text(body: &[u8]) -> (text: Option<String>)
    ensures
        string_view(text) == form_text(lossy_text(body@)),
{
    let form = text_from_utf8_lossy(body);
    parse_form_text(form.as_str())
}

/// The latest text after one more submitted form.
pub open spec fn latest_with(latest: Option<Seq<char>>, body: Seq<u8>) -> Option<Seq<char>> {
    match form_text(lossy_text(body)) {
        Some(text) => Some(text),
        None => latest,
    }
}

/// The latest text after all submitted forms.
pub open spec fn latest_after(bodies: Seq<Seq<u8>>) -> Option<Seq<char>>
    decreases bodies.len(),
{
    if bodies.len() == 0 {
        None
    } else {
        latest_with(latest_after(bodies.drop_last()), bodies.last())
    }
}

/// Takes a submitted form: a text in it becomes the latest text, and a form
/// without one changes nothing. The result says whether there was a text.
pub fn take_submission(latest: &mut Option<String>, body: &[u8]) -> (accepted: bool)
    ensures
        string_view(*final(latest)) == latest_with(string_view(*old(latest)), body@),
        accepted == (form_text(lossy_text(body@)) is Some),
        accepted ==> string_view(*final(latest)) == form_text(lossy_text(body@)),
        !accepted ==> *final(latest) == *old(latest),
{
    match submitted_text(body) {
        Some(text) => {
            *latest = Some(text);
            true
        },
        None => false,
    }
}

/// What the partner is told about a submitted form.
pub open spec fn submit_message(accepted: bool) -> Seq<char> {
    if accepted {
        "收到！請回到りもこ的CLI輸入 /you。"@
    } else {
        "沒有收到文字，請再試一次。"@
    }
}

/// The page after a form was submitted.
pub open spec fn submit_page(latest: Option<Seq<char>>, link: Seq<char>, accepted: bool) -> Seq<
    char,
> {
    form_page(latest, link) + "<p><strong>"@ + escaped(submit_message(accepted))
        + "</strong></p>"@
}

/// The response to a submitted form. `accepted` says whether there was a text
/// in it, and `latest` is the latest text after that.
pub fn submit_response(latest: Option<&str>, oss_url: &str, accepted: bool) -> (text: String)
    ensures
        text@ == response(
            "200 OK"@,
            "text/html"@,
            submit_page(slice_view(latest), oss_url@, accepted),
        ),
{
    let mut page = pair_form_page(latest, oss_url);
    page.append("<p><strong>");
    let message = if accepted {
        "收到！請回到りもこ的CLI輸入 /you。"
    } else {
        "沒有收到文字，請再試一次。"
    };
    page.append(html_escape(message).as_str());
    page.append("</strong></p>");
    http_response("200 OK", "text/html", page.as_str())
}

/// The response to a request for something that is not there.
pub fn not_found_response() -> (text: String)
    ensures
        text@ == response("404 Not Found"@, "text/plain"@, "not found"@),
{
    http_response("404 Not Found", "text/plain", "not found")
}

/// Whatever forms were submitted, the latest text is not empty and has no
/// white space around it.
pub proof fn the_latest_text_says_something(bodies: Seq<Seq<u8>>)
    ensures
        latest_after(bodies) matches Some(text) ==> text.len() > 0 && trimmed(text) == text,
    decreases bodies.len(),
{
    if bodies.len() > 0 {
        the_latest_text_says_something(bodies.drop_last());
        crate::form::a_form_gives_trimmed_text(lossy_text(bodies.last()));
    }
}

/// Where several lines of a header name a length, the last of them counts.
pub proof fn the_last_length_counts(lines: Seq<Seq<char>>, line: Seq<char>, rest: Seq<Seq<char>>)
    requires
        begins_with(trimmed_end(line), "Content-Length:"@),
        forall|i: int|
            0 <= i < rest.len() ==> !begins_with(
                trimmed_end(#[trigger] rest[i]),
                "Content-Length:"@,
            ),
    ensures
        body_length(lines.push(line) + rest) == length_after(0, line),
    decreases rest.len(),
{
    let all = lines.push(line) + rest;
    if rest.len() == 0 {
        assert(all =~= lines.push(line));
        assert(all.drop_last() =~= lines);
        assert(all.last() == line);
    } else {
        assert(all.drop_last() =~= lines.push(line) + rest.drop_last());
        assert(all.last() == rest.last());
        assert(rest.last() == rest[rest.len() - 1]);
        assert forall|i: int| 0 <= i < rest.drop_last().len() implies !begins_with(
            trimmed_end(#[trigger] rest.drop_last()[i]),
            "Content-Length:"@,
        ) by {
            assert(rest.drop_last()[i] == rest[i]);
        }
        the_last_length_counts(lines, line, rest.drop_last());
    }
}

/// A header line that names a length sets the length of the body to it,
/// whatever it was before and whatever white space stands around the number. A
/// form that is posted is then read in that length.
pub proof fn a_named_length_is_the_length_of_the_body(
    n: nat,
    before: Seq<char>,
    after: Seq<char>,
    earlier: usize,
    rest: Seq<char>,
)
    requires
        n <= usize::MAX,
        is_blank(before),
        is_blank(after),
    ensures
        ({
            let line = "Content-Length:"@ + before + decimal(n) + after;
            &&& length_after(earlier, line) == n
            &&& !ends_header(line)
            &&& action_for("POST /submit "@ + rest, length_after(earlier, line))
                == PairAction::TakeForm(n as usize)
        }),
        length_after(earlier, "Content-Length: "@ + decimal(n) + "\r\n"@) == n,
{
    lemma_named_length(n, before, after, earlier);
    requests_go_by_their_first_line(rest, n as usize);
    reveal_strlit("Content-Length:");
    reveal_strlit("Content-Length: ");
    reveal_strlit("\r\n");
    let space = seq![' '];
    let end = seq!['\r', '\n'];
    assert(is_blank(space) && is_blank(end));
    lemma_named_length(n, space, end, earlier);
    assert("Content-Length: "@ + decimal(n) + "\r\n"@ =~= "Content-Length:"@ + space + decimal(n)
        + end);
}

proof fn lemma_named_length(n: nat, before: Seq<char>, after: Seq<char>, earlier: usize)
    requires
        n <= usize::MAX,
        is_blank(before),
        is_blank(after),
    ensures
        length_after(earlier, "Content-Length:"@ + before + decimal(n) + after) == n,
        !ends_header("Content-Length:"@ + before + decimal(n) + after),
{
    let name = "Content-Length:"@;
    let digits = decimal(n);
    let text = name + before + digits;
    let line = text + after;
    reveal_strlit("Content-Length:");
    crate::number::a_number_is_read_within_its_bound(n, usize::MAX as nat);
    crate::number::only_digits_are_read(digits, usize::MAX as nat);
    let last = digits.len() - 1;
    assert(!is_space(digits[0]));
    assert(digits[last] == '+' || ('0' <= digits[last] && digits[last] <= '9'));
    assert(!is_space(digits[last]));
    assert(text[0] == 'C');
    assert(text.last() == digits[last]);
    trimming_takes_outer_space(seq![], text, after);
    assert(seq![] + text + after =~= line);
    assert(seq![] + text =~= text);
    assert(trimmed_end(line) == text);
    assert(text =~= name + (before + digits));
    a_prefix_stands_first(text, name, before + digits);
    trimming_takes_outer_space(before, digits, seq![]);
    assert(before + digits + seq![] =~= before + digits);
}

/// A length line that names no number sets the length to zero, and a line that
/// is no length line leaves it.
pub proof fn other_lines_name_no_length(line: Seq<char>, earlier: usize)
    ensures
        begins_with(trimmed_end(line), "Content-Length:"@) && parsed_number(
            trimmed(trimmed_end(line).skip("Content-Length:"@.len() as int)),
            usize::MAX as nat,
        ) is None ==> length_after(earlier, line) == 0,
        !begins_with(trimmed_end(line), "Content-Length:"@) ==> length_after(earlier, line)
            == earlier,
        body_length(Seq::<Seq<char>>::empty()) == 0,
        ends_header(line) <==> trimmed_end(line).len() == 0,
{
}

/// A request for the root page shows the form, a form that is posted is taken
/// in the length that the header names, and nothing else is there.
pub proof fn requests_go_by_their_first_line(rest: Seq<char>, length: usize)
    ensures
        action_for("GET / "@ + rest, length) == PairAction::ShowForm,
        action_for("POST /submit "@ + rest, length) == PairAction::TakeForm(length),
        !begins_with(rest, "GET / "@) && !begins_with(rest, "POST /submit "@) ==> action_for(
            rest,
            length,
        ) == PairAction::NotFound,
{
    a_prefix_stands_first(rest, "GET / "@, rest);
    a_prefix_stands_first(rest, "POST /submit "@, rest);
    reveal_strlit("GET / ");
    reveal_strlit("POST /submit ");
    let post = "POST /submit "@ + rest;
    assert(post[0] == 'P');
    if begins_with(post, "GET / "@) {
        assert(post.take("GET / "@.len() as int)[0] == 'G');
    }
}

/// A response names its status, the kind of its body and the length of the body
/// in bytes, and carries the whole body behind an empty line.
pub proof fn a_response_carries_its_body(
    status: Seq<char>,
    content_type: Seq<char>,
    body: Seq<char>,
)
    ensures
        begins_with(
            response(status, content_type, body),
            "HTTP/1.1 "@ + status + "\r\nContent-Type: "@ + content_type
                + "; charset=utf-8\r\nContent-Length: "@ + decimal(encode_utf8(body).len())
                + "\r\n"@,
        ),
        exists|head: Seq<char>|
            response(status, content_type, body) == #[trigger] (head + "\r\n\r\n"@ + body),
        response(status, content_type, body).len() == response(
            status,
            content_type,
            Seq::empty(),
        ).len() + body.len() + decimal(encode_utf8(body).len()).len() - 1,
{
    let whole = response(status, content_type, body);
    let front = "HTTP/1.1 "@ + status + "\r\nContent-Type: "@ + content_type
        + "; charset=utf-8\r\nContent-Length: "@ + decimal(encode_utf8(body).len());
    reveal_strlit("\r\n");
    reveal_strlit("\r\n\r\n");
    reveal_strlit("\r\nConnection: close\r\n\r\n");
    let end = "\r\nConnection: close\r\n\r\n"@;
    let head = front + end.take(end.len() - 4);
    assert(end.skip(end.len() - 4) =~= "\r\n\r\n"@);
    assert(end =~= end.take(end.len() - 4) + "\r\n\r\n"@);
    assert(whole =~= head + "\r\n\r\n"@ + body);
    let start = front + "\r\n"@;
    assert(end.take(2) =~= "\r\n"@);
    assert(whole.take(start.len() as int) =~= start);
    assert(encode_utf8(Seq::empty()).len() == 0);
    assert(decimal(0).len() == 1);
}

/// The local address is shown where every address is served, and otherwise the
/// host itself.
pub proof fn a_host_is_shown_that_can_be_reached(host: Seq<char>, local: Option<Seq<char>>)
    ensures
        host == "0.0.0.0"@ || host == "::"@ ==> shown_host(host, local) == match local {
            Some(address) => address,
            None => "127.0.0.1"@,
        },
        host != "0.0.0.0"@ && host != "::"@ ==> shown_host(host, local) == host,
{
}

/// Whatever text a browser submits, it becomes the latest text without the
/// white space around it; where it is all white space the latest text stays.
pub proof fn a_submitted_text_becomes_the_latest(latest: Option<Seq<char>>, s: Seq<char>)
    ensures
        latest_with(latest, encode_utf8("text="@ + crate::form::encoded_text(s))) == match content_of(
            s,
        ) {
            Some(text) => Some(text),
            None => latest,
        },
{
    let body = "text="@ + crate::form::encoded_text(s);
    crate::encoding::reading_undoes_encoding(body);
    crate::form::submitted_text_arrives(s);
}

/// A form without a text leaves the latest text, and the last form with one
/// decides it.
pub proof fn the_last_text_counts(bodies: Seq<Seq<u8>>, body: Seq<u8>)
    ensures
        latest_after(Seq::<Seq<u8>>::empty()) is None,
        form_text(lossy_text(body)) is Some ==> latest_after(bodies.push(body)) == form_text(
            lossy_text(body),
        ),
        form_text(lossy_text(body)) is None ==> latest_after(bodies.push(body)) == latest_after(
            bodies,
        ),
{
    assert(bodies.push(body).drop_last() =~= bodies);
}

/// The page after a form was submitted is the form page and then, in a
/// paragraph, whether a text was received.
pub proof fn the_partner_is_told_whether_it_arrived(
    latest: Option<Seq<char>>,
    link: Seq<char>,
    accepted: bool,
)
    ensures
        submit_page(latest, link, accepted) == form_page(latest, link) + "<p><strong>"@ + escaped(
            if accepted {
                "收到！請回到りもこ的CLI輸入 /you。"@
            } else {
                "沒有收到文字，請再試一次。"@
            },
        ) + "</strong></p>"@,
{
}

/// The form is shown under the port that it is served on, and under its own
/// host unless every address is served.
pub proof fn the_form_is_shown_where_it_is_served(
    host: Seq<char>,
    port: nat,
    local: Option<Seq<char>>,
)
    ensures
        address_of(host, port) == host + ":"@ + decimal(port),
        host != "0.0.0.0"@ && host != "::"@ ==> display_url(host, port, local) == "http://"@
            + address_of(host, port),
        host == "0.0.0.0"@ || host == "::"@ ==> display_url(host, port, local) == "http://"@
            + address_of(
            if local is Some {
                local->0
            } else {
                "127.0.0.1"@
            },
            port,
        ),
{
}

} // verus!
