//! The history: its file format, its export and its listing.

use crate::json::{
    contents, hex_char, is_record, json_char, json_chars, json_of, member, modeless_json,
    modeless_text, quoted, record_json, record_text, text_in, to_json_string, value_from_str,
    value_get, Json,
};
use crate::message::{
    last_items, message_views, preview, shortened, trim_history, Message, MessageView,
};
use crate::number::{decimal, decimal_text};
use crate::text::{
    align_left, align_right, flatten_lines, is_whole_lines, left_aligned, lines_behind_whole_lines,
    lines_of, on_one_line, one_line_is_one_line, right_aligned, string_view, trim, trimmed,
};
use serde_json::Value;
use vstd::prelude::*;

verus! {

broadcast use vstd::string::group_string_axioms;

// ---------------------------------------------------------------------------
// Writing the file

/// The line of the history file for a message, with its line break.
pub fn history_record(message: &Message) -> (line: String)
    ensures
        line@ == record_text(message@).push('\n'),
{
    let mut line = "{\"role\":".to_string();
    line.append(to_json_string(message.role.as_str()).unwrap().as_str());
    line.append(",\"mode\":");
    line.append(to_json_string(message.mode.as_str()).unwrap().as_str());
    line.append(",\"content\":");
    line.append(to_json_string(message.content.as_str()).unwrap().as_str());
    line.append("}");
    line.push('\n');
    line
}

// ---------------------------------------------------------------------------
// Reading the file

/// The texts that a history line gives under the names of a message.
pub struct HistoryFields {
    /// The text under `role`.
    pub role: Option<String>,
    /// The text under `mode`.
    pub mode: Option<String>,
    /// The text under `content`.
    pub content: Option<String>,
}

/// The message that three optional texts make: role and content are needed,
/// and a missing mode is called unknown.
pub open spec fn message_of(
    role: Option<Seq<char>>,
    mode: Option<Seq<char>>,
    content: Option<Seq<char>>,
) -> Option<MessageView> {
    if role is Some && content is Some {
        Some(
            MessageView {
                role: role->0,
                mode: match mode {
                    Some(m) => m,
                    None => "unknown"@,
                },
                content: content->0,
            },
        )
    } else {
        None
    }
}

/// The message in a JSON value.
pub open spec fn message_in(json: Json) -> Option<MessageView> {
    message_of(
        text_in(member(json, "role"@)),
        text_in(member(json, "mode"@)),
        text_in(member(json, "content"@)),
    )
}

/// The texts of an optional message.
pub open spec fn message_view(message: Option<Message>) -> Option<MessageView> {
    match message {
        Some(m) => Some(m@),
        None => None,
    }
}

/// The message that a line gives: the complete record where it is one, and
/// otherwise the message in its JSON value.
pub open spec fn line_message(line: Seq<char>, complete: Option<MessageView>) -> Option<
    MessageView,
> {
    match complete {
        Some(m) => Some(m),
        None => match json_of(line) {
            Some(json) => message_in(json),
            None => None,
        },
    }
}

/// The message that the fields make, if role and content are there.
pub fn message_from_fields(fields: HistoryFields) -> (message: Option<Message>)
    ensures
        message_view(message) == message_of(
            string_view(fields.role),
            string_view(fields.mode),
            string_view(fields.content),
        ),
{
    match (fields.role, fields.content) {
        (Some(role), Some(content)) => {
            let mode = match fields.mode {
                Some(mode) => mode,
                None => "unknown".to_string(),
            };
            Some(Message { role, mode, content })
        },
        _ => None,
    }
}

/// The text under a name of a JSON object.
fn text_member(value: &Value, key: &str) -> (text: Option<String>)
    ensures
        string_view(text) == text_in(member(contents(*value), key@)),
{
    match value_get(value, key) {
        Some(found) => match found.as_str() {
            Some(text) => Some(text.to_string()),
            None => None,
        },
        None => None,
    }
}

/// The message in a JSON value.
pub fn message_from_value(value: &Value) -> (message: Option<Message>)
    ensures
        message_view(message) == message_in(contents(*value)),
{
    message_from_fields(
        HistoryFields {
            role: text_member(value, "role"),
            mode: text_member(value, "mode"),
            content: text_member(value, "content"),
        },
    )
}

/// The message that a line of the history file gives. `complete` is the
/// message that the line is the complete record of, if it is one. Without it
/// the line can still be a JSON object that lacks the mode.
pub fn parse_history_line(line: &str, complete: Option<Message>) -> (message: Option<Message>)
    ensures
        message_view(message) == line_message(line@, message_view(complete)),
{
    if complete.is_some() {
        return complete;
    }
    match value_from_str(line) {
        Ok(value) => message_from_value(&value),
        Err(_) => None,
    }
}

/// A line of the history file, with the message that it is the complete
/// record of, if it is one.
pub struct HistoryLine {
    /// The line without its line break.
    pub text: String,
    /// The message that the line is the complete record of.
    pub complete: Option<Message>,
}

/// The texts of a line of the history file.
pub struct HistoryLineView {
    /// The line without its line break.
    pub text: Seq<char>,
    /// The message that the line is the complete record of.
    pub complete: Option<MessageView>,
}

impl View for HistoryLine {
    type V = HistoryLineView;

    open spec fn view(&self) -> HistoryLineView {
        HistoryLineView { text: self.text@, complete: message_view(self.complete) }
    }
}

/// The texts of the lines of the history file.
pub open spec fn line_views(lines: Seq<HistoryLine>) -> Seq<HistoryLineView> {
    Seq::new(lines.len(), |i: int| lines[i]@)
}

/// The message that a line gives, if it is not blank.
pub open spec fn entry(line: HistoryLineView) -> Option<MessageView> {
    let text = trimmed(line.text);
    if text.len() == 0 {
        None
    } else {
        line_message(text, line.complete)
    }
}

/// The messages that the lines give, in order. Blank lines and lines that give
/// no message are passed over.
pub open spec fn loaded(lines: Seq<HistoryLineView>) -> Seq<MessageView>
    decreases lines.len(),
{
    if lines.len() == 0 {
        seq![]
    } else {
        match entry(lines.last()) {
            Some(m) => loaded(lines.drop_last()).push(m),
            None => loaded(lines.drop_last()),
        }
    }
}

/// The message that a line gives, if it is not blank.
fn load_line(line: HistoryLine) -> (message: Option<Message>)
    ensures
        message_view(message) == entry(line@),
{
    let text = trim(line.text.as_str());
    if text.is_empty() {
        None
    } else {
        parse_history_line(text, line.complete)
    }
}

/// The messages that the lines of the history file give.
pub fn load_history(lines: Vec<HistoryLine>) -> (history: Vec<Message>)
    ensures
        message_views(history@) == loaded(line_views(lines@)),
{
    let mut history: Vec<Message> = Vec::new();
    let ghost all = line_views(lines@);
    let ghost given = lines@;
    assert(message_views(history@) =~= loaded(all.take(0)));
    for line in it: lines
        invariant
            it.seq() == given,
            all == line_views(given),
            message_views(history@) == loaded(all.take(it.index() as int)),
    {
        let ghost i = it.index() as int;
        let ghost before = history@;
        assert(all[i] == line@);
        assert(all.take(i + 1).drop_last() =~= all.take(i));
        assert(all.take(i + 1).last() == all[i]);
        if let Some(message) = load_line(line) {
            history.push(message);
            assert(message_views(history@) =~= message_views(before).push(message@));
        }
    }
    assert(all.take(all.len() as int) =~= all);
    history
}

// ---------------------------------------------------------------------------
// What was written is read back

/// The line is the record of the message: the complete record, or one that
/// lacks the mode of a message whose mode is unknown.
pub open spec fn is_record_of(line: HistoryLineView, m: MessageView) -> bool {
    ||| line.text == record_text(m) && (line.complete is None || line.complete == Some(m))
    ||| line.text == modeless_text(m.role, m.content) && line.complete is None && m.mode
        == "unknown"@
}

/// The lines are the records of the messages, one each and in order.
pub open spec fn are_records_of(
    lines: Seq<HistoryLineView>,
    messages: Seq<MessageView>,
) -> bool {
    lines.len() == messages.len() && forall|i: int|
        0 <= i < lines.len() ==> is_record_of(#[trigger] lines[i], messages[i])
}

/// The text of the history file after the record of a message was added to it.
pub open spec fn with_record(file: Seq<char>, m: MessageView) -> Seq<char> {
    file + record_text(m).push('\n')
}

/// The lines of the history file. `complete` says of each trimmed line which
/// message it is the complete record of.
pub open spec fn file_lines(
    file: Seq<char>,
    complete: spec_fn(Seq<char>) -> Option<MessageView>,
) -> Seq<HistoryLineView> {
    lines_of(file).map_values(
        |text: Seq<char>| HistoryLineView { text, complete: complete(trimmed(text)) },
    )
}

/// A line that was written for a message gives that message, and so does a
/// line that lacks the mode: the message then has the mode `unknown`.
pub proof fn a_record_gives_its_message(line: HistoryLineView, m: MessageView)
    requires
        is_record_of(line, m),
    ensures
        entry(line) == Some(m),
{
    a_record_is_one_line(m);
    a_modeless_record_is_one_line(m.role, m.content);
    if line.complete is None {
        if line.text == record_text(m) {
            lemma_record_is_read(m);
        } else {
            a_line_without_a_mode_is_unknown(m.role, m.content);
        }
    }
}

/// A JSON object with a role and a content and no mode gives the message with
/// the mode `unknown`.
pub proof fn a_line_without_a_mode_is_unknown(role: Seq<char>, content: Seq<char>)
    ensures
        message_in(modeless_json(role, content)) == Some(
            MessageView { role, mode: "unknown"@, content },
        ),
        line_message(modeless_text(role, content), None) == Some(
            MessageView { role, mode: "unknown"@, content },
        ),
{
    lemma_names();
    lemma_modeless_is_read(role, content);
}

/// Lines that were written for a list of messages give that list, behind what
/// the lines before them give.
pub proof fn records_give_their_messages(
    earlier: Seq<HistoryLineView>,
    lines: Seq<HistoryLineView>,
    messages: Seq<MessageView>,
)
    requires
        are_records_of(lines, messages),
    ensures
        loaded(earlier + lines) == loaded(earlier) + messages,
    decreases lines.len(),
{
    if lines.len() > 0 {
        let rest = lines.drop_last();
        let fewer = messages.drop_last();
        assert forall|i: int| 0 <= i < rest.len() implies is_record_of(
            #[trigger] rest[i],
            fewer[i],
        ) by {
            assert(rest[i] == lines[i]);
        }
        records_give_their_messages(earlier, rest, fewer);
        assert(is_record_of(lines[lines.len() - 1], messages[lines.len() - 1]));
        a_record_gives_its_message(lines.last(), messages.last());
        assert((earlier + lines).drop_last() =~= earlier + rest);
        assert((earlier + lines).last() == lines[lines.len() - 1]);
        assert((loaded(earlier) + fewer).push(messages.last()) =~= loaded(earlier) + messages);
    } else {
        assert(earlier + lines =~= earlier);
        assert(loaded(earlier) + messages =~= loaded(earlier));
    }
}

/// A message that is stored in a file that is empty or ends with a line feed
/// comes back unchanged and last, and the earlier messages are kept. This holds
/// however complete records are told, as long as the record of the message is
/// not taken for that of another.
pub proof fn a_stored_message_comes_back_last(
    file: Seq<char>,
    m: MessageView,
    complete: spec_fn(Seq<char>) -> Option<MessageView>,
)
    requires
        is_whole_lines(file),
        complete(record_text(m)) is None || complete(record_text(m)) == Some(m),
    ensures
        loaded(file_lines(with_record(file, m), complete)) == loaded(
            file_lines(file, complete),
        ).push(m),
        is_whole_lines(with_record(file, m)),
{
    let before = file_lines(file, complete);
    let record = HistoryLineView {
        text: record_text(m),
        complete: complete(trimmed(record_text(m))),
    };
    a_record_adds_its_line(file, m);
    a_record_is_one_line(m);
    assert(file_lines(with_record(file, m), complete) =~= before.push(record));
    earlier_lines_stay(before, record);
    a_record_gives_its_message(record, m);
}

proof fn lemma_record_is_read(m: MessageView)
    ensures
        json_of(record_text(m)) == Some(record_json(m)),
        message_in(record_json(m)) == Some(m),
{
    let text = record_text(m);
    assert(is_record(text));
    let read = choose|read: MessageView| text == #[trigger] record_text(read);
    a_record_tells_its_message(m, read);
    lemma_names();
}

proof fn lemma_modeless_is_read(role: Seq<char>, content: Seq<char>)
    ensures
        json_of(modeless_text(role, content)) == Some(modeless_json(role, content)),
{
    let text = modeless_text(role, content);
    if is_record(text) {
        let m = choose|m: MessageView| text == #[trigger] record_text(m);
        lemma_modeless_is_no_record(role, content, m);
    }
    let (r, c) = choose|r: Seq<char>, c: Seq<char>| text == #[trigger] modeless_text(r, c);
    let start = "{\"role\":"@;
    let second = ",\"content\":"@;
    let end = "}"@;
    let x = second + quoted(content) + end;
    let y = second + quoted(c) + end;
    assert(text =~= start + quoted(role) + x);
    assert(modeless_text(r, c) =~= start + quoted(r) + y);
    lemma_quoted_ends_itself(start, role, x, r, y);
    lemma_quoted_ends_itself(second, content, end, c, end);
}

proof fn lemma_modeless_is_no_record(role: Seq<char>, content: Seq<char>, m: MessageView)
    ensures
        modeless_text(role, content) != record_text(m),
{
    if modeless_text(role, content) == record_text(m) {
        let start = "{\"role\":"@;
        let second = ",\"content\":"@;
        let other = ",\"mode\":"@;
        let x = second + quoted(content) + "}"@;
        let y = other + quoted(m.mode) + ",\"content\":"@ + quoted(m.content) + "}"@;
        assert(modeless_text(role, content) =~= start + quoted(role) + x);
        assert(record_text(m) =~= start + quoted(m.role) + y);
        lemma_quoted_ends_itself(start, role, x, m.role, y);
        reveal_strlit(",\"content\":");
        reveal_strlit(",\"mode\":");
        assert(x[2] == 'c');
        assert(y[2] == 'm');
    }
}

proof fn lemma_names()
    ensures
        "role"@ != "mode"@,
        "role"@ != "content"@,
        "mode"@ != "content"@,
{
    reveal_strlit("role");
    reveal_strlit("mode");
    reveal_strlit("content");
    assert("role"@[0] != "mode"@[0]);
    assert("role"@.len() != "content"@.len());
    assert("mode"@.len() != "content"@.len());
}

// ---------------------------------------------------------------------------
// Laws of the file format

/// The record of a message is one line, and trimming leaves it as it is.
pub proof fn a_record_is_one_line(m: MessageView)
    ensures
        forall|i: int| 0 <= i < record_text(m).len() ==> record_text(m)[i] != '\n',
        trimmed(record_text(m)) == record_text(m),
        record_text(m).len() > 0,
{
    let line = record_text(m);
    reveal_strlit("{\"role\":");
    reveal_strlit(",\"mode\":");
    reveal_strlit(",\"content\":");
    reveal_strlit("}");
    lemma_json_chars_hold_no_control(m.role);
    lemma_json_chars_hold_no_control(m.mode);
    lemma_json_chars_hold_no_control(m.content);
    assert(no_control("{\"role\":"@) && no_control(",\"mode\":"@) && no_control(
        ",\"content\":"@,
    ) && no_control("}"@));
    assert(no_control(quoted(m.role)) && no_control(quoted(m.mode)) && no_control(
        quoted(m.content),
    ));
    assert(no_control(line));
    assert(line[0] == '{');
    assert(line.last() == '}');
    crate::text::trimming_keeps_inner_text(line);
}

/// A record without its mode is one line too, and trimming leaves it as it is.
pub proof fn a_modeless_record_is_one_line(role: Seq<char>, content: Seq<char>)
    ensures
        forall|i: int|
            0 <= i < modeless_text(role, content).len() ==> modeless_text(role, content)[i]
                != '\n',
        trimmed(modeless_text(role, content)) == modeless_text(role, content),
        modeless_text(role, content).len() > 0,
{
    let line = modeless_text(role, content);
    reveal_strlit("{\"role\":");
    reveal_strlit(",\"content\":");
    reveal_strlit("}");
    lemma_json_chars_hold_no_control(role);
    lemma_json_chars_hold_no_control(content);
    assert(no_control("{\"role\":"@) && no_control(",\"content\":"@) && no_control("}"@));
    assert(no_control(quoted(role)) && no_control(quoted(content)));
    assert(no_control(line));
    assert(line[0] == '{');
    assert(line.last() == '}');
    crate::text::trimming_keeps_inner_text(line);
}

/// Adding the record of a message to a file that is empty or ends with a line
/// feed adds the record as the last line, leaves the other lines as they are,
/// and ends the file with a line feed again.
pub proof fn a_record_adds_its_line(file: Seq<char>, m: MessageView)
    requires
        is_whole_lines(file),
    ensures
        lines_of(with_record(file, m)) == lines_of(file).push(record_text(m)),
        is_whole_lines(with_record(file, m)),
{
    let record = record_text(m);
    a_record_is_one_line(m);
    reveal_strlit("}");
    assert(record.last() == '}');
    one_line_is_one_line(record);
    lines_behind_whole_lines(file, record.push('\n'));
    assert(lines_of(file) + seq![record] =~= lines_of(file).push(record));
}

/// `s` holds no control character below U+0020.
spec fn no_control(s: Seq<char>) -> bool {
    forall|i: int| 0 <= i < s.len() ==> (#[trigger] s[i]) as u32 >= 0x20
}

proof fn lemma_json_chars_hold_no_control(s: Seq<char>)
    ensures
        no_control(json_chars(s)),
    decreases s.len(),
{
    if s.len() > 0 {
        let head = json_char(s[0]);
        let tail = json_chars(s.drop_first());
        lemma_json_chars_hold_no_control(s.drop_first());
        assert(no_control(head));
        assert(no_control(head + tail));
    }
}

/// Two messages with the same record are the same message.
pub proof fn a_record_tells_its_message(a: MessageView, b: MessageView)
    requires
        record_text(a) == record_text(b),
    ensures
        a == b,
{
    let start = "{\"role\":"@;
    let second = ",\"mode\":"@;
    let third = ",\"content\":"@;
    let end = "}"@;
    let a3 = third + quoted(a.content) + end;
    let b3 = third + quoted(b.content) + end;
    let a2 = second + quoted(a.mode) + a3;
    let b2 = second + quoted(b.mode) + b3;
    assert(record_text(a) =~= start + quoted(a.role) + a2);
    assert(record_text(b) =~= start + quoted(b.role) + b2);
    lemma_quoted_ends_itself(start, a.role, a2, b.role, b2);
    lemma_quoted_ends_itself(second, a.mode, a3, b.mode, b3);
    lemma_quoted_ends_itself(third, a.content, end, b.content, end);
}

proof fn lemma_quoted_ends_itself(
    start: Seq<char>,
    a: Seq<char>,
    x: Seq<char>,
    b: Seq<char>,
    y: Seq<char>,
)
    requires
        start + quoted(a) + x == start + quoted(b) + y,
    ensures
        a == b,
        x == y,
{
    let n = start.len() as int + 1;
    let p = json_chars(a) + seq!['"'] + x;
    let q = json_chars(b) + seq!['"'] + y;
    assert((start + quoted(a) + x).skip(n) =~= p);
    assert((start + quoted(b) + y).skip(n) =~= q);
    lemma_json_chars_end(a, x, b, y);
}

proof fn lemma_json_chars_end(a: Seq<char>, x: Seq<char>, b: Seq<char>, y: Seq<char>)
    requires
        json_chars(a) + seq!['"'] + x == json_chars(b) + seq!['"'] + y,
    ensures
        a == b,
        x == y,
    decreases a.len(),
{
    let p = json_chars(a) + seq!['"'] + x;
    let q = json_chars(b) + seq!['"'] + y;
    if a.len() == 0 {
        assert(p[0] == '"');
        if b.len() > 0 {
            assert(q[0] == json_char(b[0])[0]);
        }
        assert(a =~= b);
        assert(p.skip(1) =~= x);
        assert(q.skip(1) =~= y);
    } else if b.len() == 0 {
        assert(q[0] == '"');
        assert(p[0] == json_char(a[0])[0]);
    } else {
        let f = json_char(a[0]);
        let g = json_char(b[0]);
        assert forall|i: int| 0 <= i < f.len() implies p[i] == f[i] by {}
        assert forall|i: int| 0 <= i < g.len() implies q[i] == g[i] by {}
        lemma_json_char_tells(a[0], b[0]);
        let n = f.len() as int;
        assert(p.skip(n) =~= json_chars(a.drop_first()) + seq!['"'] + x);
        assert(q.skip(n) =~= json_chars(b.drop_first()) + seq!['"'] + y);
        lemma_json_chars_end(a.drop_first(), x, b.drop_first(), y);
        assert(a =~= seq![a[0]] + a.drop_first());
        assert(b =~= seq![b[0]] + b.drop_first());
    }
}

/// No escape is the beginning of another.
proof fn lemma_json_char_tells(c: char, d: char)
    requires
        forall|i: int|
            0 <= i < json_char(c).len() && i < json_char(d).len() ==> #[trigger] json_char(c)[i]
                == json_char(d)[i],
    ensures
        c == d,
{
    let f = json_char(c);
    let g = json_char(d);
    assert(f[0] == g[0]);
    if f[0] == '\\' {
        assert(f[1] == g[1]);
        if f.len() == 6 {
            let m = c as u32 as int;
            let n = d as u32 as int;
            assert(g.len() == 6);
            assert(f[4] == hex_char(m / 16) && g[4] == hex_char(n / 16));
            assert(f[5] == hex_char(m % 16) && g[5] == hex_char(n % 16));
            assert(f[4] == g[4]);
            assert(f[5] == g[5]);
            assert(m / 16 == n / 16 && m % 16 == n % 16);
        }
    }
}

/// Adding a line to the file adds at most its own message at the end: what the
/// earlier lines give stays as it was.
pub proof fn earlier_lines_stay(lines: Seq<HistoryLineView>, line: HistoryLineView)
    ensures
        loaded(lines.push(line)) == match entry(line) {
            Some(m) => loaded(lines).push(m),
            None => loaded(lines),
        },
{
    assert(lines.push(line).drop_last() =~= lines);
}

// ---------------------------------------------------------------------------
// Export and listing

/// A message in the Markdown export.
pub open spec fn markdown_entry(m: MessageView) -> Seq<char> {
    "## "@ + m.role + " ("@ + m.mode + ")\n\n"@ + m.content + "\n\n"@
}

/// The messages in the Markdown export.
pub open spec fn markdown_entries(history: Seq<MessageView>) -> Seq<char>
    decreases history.len(),
{
    if history.len() == 0 {
        seq![]
    } else {
        markdown_entries(history.drop_last()) + markdown_entry(history.last())
    }
}

/// The Markdown export of a history.
pub open spec fn markdown(history: Seq<MessageView>) -> Seq<char> {
    "# zuttomo history\n\n"@ + markdown_entries(history)
}

/// The Markdown export of a history.
pub fn export_markdown(history: &[Message]) -> (document: String)
    ensures
        document@ == markdown(message_views(history@)),
{
    let mut document = "# zuttomo history\n\n".to_string();
    let len: usize = history.len();
    let mut i: usize = 0;
    let ghost all = message_views(history@);
    assert(document@ + markdown_entries(all.take(0)) =~= document@);
    while i < len
        invariant
            i <= len,
            len == history@.len(),
            all == message_views(history@),
            document@ == "# zuttomo history\n\n"@ + markdown_entries(all.take(i as int)),
        decreases len - i,
    {
        let message = &history[i];
        let ghost before = document@;
        document.append("## ");
        document.append(message.role.as_str());
        document.append(" (");
        document.append(message.mode.as_str());
        document.append(")\n\n");
        document.append(message.content.as_str());
        document.append("\n\n");
        proof {
            assert(all.take(i + 1).drop_last() =~= all.take(i as int));
            assert(all.take(i + 1).last() == message@);
            assert(document@ =~= before + markdown_entry(message@));
            assert(document@ =~= "# zuttomo history\n\n"@ + (markdown_entries(all.take(i as int))
                + markdown_entry(message@)));
        }
        i = i + 1;
    }
    assert(all.take(len as int) =~= all);
    document
}

/// One line of the listing: number, role, mode and the beginning of the
/// content.
pub open spec fn listing_line(number: nat, m: MessageView) -> Seq<char> {
    right_aligned(decimal(number), 3) + ". "@ + left_aligned(m.role, 9) + " "@ + left_aligned(
        m.mode,
        8,
    ) + " "@ + shortened(on_one_line(m.content), 96) + "\n"@
}

/// The lines of the listing; the message before the first has number `before`.
pub open spec fn listing_lines(messages: Seq<MessageView>, before: nat) -> Seq<char>
    decreases messages.len(),
{
    if messages.len() == 0 {
        seq![]
    } else {
        listing_lines(messages.drop_last(), before) + listing_line(
            before + messages.len(),
            messages.last(),
        )
    }
}

/// The listing of the last `limit` messages, numbered from the first message
/// of the history on.
pub open spec fn listing(history: Seq<MessageView>, limit: nat) -> Seq<char> {
    if history.len() == 0 {
        "history is empty\n"@
    } else {
        let recent = last_items(history, limit);
        listing_lines(recent, (history.len() - recent.len()) as nat)
    }
}

/// One line of the listing.
fn push_listing_line(out: &mut String, number: u64, message: &Message)
    ensures
        final(out)@ == old(out)@ + listing_line(number as nat, message@),
{
    let ghost before = out@;
    out.append(align_right(decimal_text(number).as_str(), 3).as_str());
    out.append(". ");
    out.append(align_left(message.role.as_str(), 9).as_str());
    out.append(" ");
    out.append(align_left(message.mode.as_str(), 8).as_str());
    out.append(" ");
    out.append(preview(flatten_lines(message.content.as_str()).as_str(), 96).as_str());
    out.append("\n");
    assert(out@ =~= before + listing_line(number as nat, message@));
}

/// The listing of the last `limit` messages.
pub fn history_listing(history: &[Message], limit: usize) -> (text: String)
    ensures
        text@ == listing(message_views(history@), limit as nat),
{
    let total: usize = history.len();
    if total == 0 {
        return "history is empty\n".to_string();
    }
    let recent = trim_history(history, limit);
    let len: usize = recent.len();
    let start: usize = total - len;
    let mut text = String::new();
    let ghost shown = message_views(recent@);
    assert(shown =~= last_items(message_views(history@), limit as nat));
    let mut i: usize = 0;
    assert(text@ =~= listing_lines(shown.take(0), start as nat));
    while i < len
        invariant
            i <= len,
            len == recent@.len(),
            start + len == total,
            shown == message_views(recent@),
            text@ == listing_lines(shown.take(i as int), start as nat),
        decreases len - i,
    {
        proof {
            assert(shown.take(i + 1).drop_last() =~= shown.take(i as int));
            assert(shown.take(i + 1).last() == recent@[i as int]@);
        }
        push_listing_line(&mut text, (start + i + 1) as u64, &recent[i]);
        i = i + 1;
    }
    assert(shown.take(len as int) =~= shown);
    text
}

// ---------------------------------------------------------------------------
// Laws of lines, export and listing

/// What an object gives: its role and its content where both are texts, with
/// its mode where that is a text and the mode `unknown` otherwise, whatever else
/// it holds.
pub proof fn an_object_gives_its_texts(members: Map<Seq<char>, Json>)
    ensures
        ({
            let role = if members.dom().contains("role"@) {
                text_in(Some(members["role"@]))
            } else {
                None
            };
            let mode = if members.dom().contains("mode"@) {
                text_in(Some(members["mode"@]))
            } else {
                None
            };
            let content = if members.dom().contains("content"@) {
                text_in(Some(members["content"@]))
            } else {
                None
            };
            match message_in(Json::Object(members)) {
                Some(given) => {
                    &&& role == Some(given.role)
                    &&& content == Some(given.content)
                    &&& mode is Some ==> mode == Some(given.mode)
                    &&& mode is None ==> given.mode == "unknown"@
                },
                None => role is None || content is None,
            }
        }),
{
}

/// A JSON value is a text only where it is a string, and then it is that
/// string.
pub proof fn only_strings_are_texts(json: Json, text: Seq<char>)
    ensures
        text_in(Some(json)) == Some(text) <==> json == Json::Text(text),
        text_in(None) is None,
{
}

/// A value that is no object gives no message.
pub proof fn only_objects_give_messages(json: Json)
    requires
        !(json is Object),
    ensures
        message_in(json) is None,
{
}

/// A blank line gives nothing. Any other line gives the message it is the
/// complete record of, and where it is none, what it gives is decided by the
/// line without the white space around it.
pub proof fn a_line_gives_what_is_not_blank(line: HistoryLineView, other: HistoryLineView)
    ensures
        trimmed(line.text).len() == 0 ==> entry(line) is None,
        trimmed(line.text).len() > 0 && line.complete is Some ==> entry(line) == line.complete,
        line.complete == other.complete && trimmed(line.text) == trimmed(other.text) ==> entry(
            line,
        ) == entry(other),
        trimmed(line.text).len() > 0 && line.complete is None ==> entry(line) == match json_of(
            trimmed(line.text),
        ) {
            Some(json) => message_in(json),
            None => None,
        },
        loaded(Seq::<HistoryLineView>::empty()) == Seq::<MessageView>::empty(),
{
}

/// The export of a history with one more message is the export without it and
/// then that message: its role and mode as a heading, and its whole content.
/// Without messages it is the title.
pub proof fn an_export_grows_by_one_message(history: Seq<MessageView>, added: MessageView)
    ensures
        markdown(Seq::<MessageView>::empty()) == "# zuttomo history\n\n"@,
        markdown(history.push(added)) == markdown(history) + "## "@ + added.role + " ("@
            + added.mode + ")\n\n"@ + added.content + "\n\n"@,
{
    assert(history.push(added).drop_last() =~= history);
    assert(markdown(Seq::<MessageView>::empty()) =~= "# zuttomo history\n\n"@);
    assert(markdown(history.push(added)) =~= markdown(history) + "## "@ + added.role + " ("@
        + added.mode + ")\n\n"@ + added.content + "\n\n"@);
}

/// Each message stands whole in the export, behind the export of the messages
/// before it.
pub proof fn each_message_is_exported_whole(history: Seq<MessageView>, i: int)
    requires
        0 <= i < history.len(),
    ensures
        exists|rest: Seq<char>|
            markdown(history) == #[trigger] (markdown(history.take(i)) + ("## "@ + history[i].role
                + " ("@ + history[i].mode + ")\n\n"@ + history[i].content + "\n\n"@) + rest),
    decreases history.len(),
{
    let part = "## "@ + history[i].role + " ("@ + history[i].mode + ")\n\n"@
        + history[i].content + "\n\n"@;
    let shorter = history.drop_last();
    an_export_grows_by_one_message(shorter, history.last());
    assert(shorter.push(history.last()) =~= history);
    if i == history.len() - 1 {
        assert(history.take(i) =~= shorter);
        assert(markdown(history) =~= markdown(history.take(i)) + part + seq![]);
    } else {
        each_message_is_exported_whole(shorter, i);
        assert(shorter.take(i) =~= history.take(i));
        let rest = choose|rest: Seq<char>|
            markdown(shorter) == #[trigger] (markdown(shorter.take(i)) + part + rest);
        let end = "## "@ + history.last().role + " ("@ + history.last().mode + ")\n\n"@
            + history.last().content + "\n\n"@;
        assert(markdown(history) =~= markdown(history.take(i)) + part + (rest + end));
    }
}

/// One more message in the history adds one line at the end of the listing: its
/// number, its role, its mode and the first 96 characters of its content. The
/// lines before it are those of the listing that is one line shorter.
pub proof fn a_listing_ends_with_the_latest_message(
    history: Seq<MessageView>,
    added: MessageView,
    limit: nat,
)
    requires
        limit > 0,
    ensures
        listing(history.push(added), limit) == (if history.len() == 0 || limit == 1 {
            Seq::<char>::empty()
        } else {
            listing(history, (limit - 1) as nat)
        }) + right_aligned(decimal(history.len() + 1), 3) + ". "@ + left_aligned(added.role, 9)
            + " "@ + left_aligned(added.mode, 8) + " "@ + shortened(
            on_one_line(added.content),
            96,
        ) + "\n"@,
        listing(Seq::<MessageView>::empty(), limit) == "history is empty\n"@,
{
    let all = history.push(added);
    let fewer = last_items(history, (limit - 1) as nat);
    let recent = last_items(all, limit);
    let before = (history.len() - fewer.len()) as nat;
    assert(recent =~= fewer.push(added));
    assert(recent.drop_last() =~= fewer);
    assert(all.len() - recent.len() == before);
    let earlier = if history.len() == 0 || limit == 1 {
        Seq::<char>::empty()
    } else {
        listing(history, (limit - 1) as nat)
    };
    assert(earlier =~= listing_lines(fewer, before));
    assert(listing(all, limit) =~= earlier + right_aligned(decimal(history.len() + 1), 3) + ". "@
        + left_aligned(added.role, 9) + " "@ + left_aligned(added.mode, 8) + " "@ + shortened(
        on_one_line(added.content),
        96,
    ) + "\n"@);
}

/// The view of a line holds its text and the message it is the record of, and
/// that of a list each line in its place.
pub proof fn views_hold_the_lines(
    line: HistoryLine,
    lines: Seq<HistoryLine>,
    message: Option<Message>,
    i: int,
)
    ensures
        line@.text == line.text@,
        line@.complete == message_view(line.complete),
        line_views(lines).len() == lines.len(),
        0 <= i < lines.len() ==> line_views(lines)[i] == lines[i]@,
        message_view(message) is Some <==> message is Some,
        message matches Some(m) ==> message_view(message) == Some(m@),
{
}

} // verus!
