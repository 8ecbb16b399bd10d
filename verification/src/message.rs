//! The messages of a conversation.

use crate::mode::Mode;
use vstd::prelude::*;

verus! {

broadcast use vstd::string::group_string_axioms;

/// One message of a conversation.
#[derive(Debug, Clone, PartialEq, Eq)]
pub struct Message {
    /// Who wrote it.
    pub role: String,
    /// The name of the mode it was written in.
    pub mode: String,
    /// What it says.
    pub content: String,
}

/// The texts of a message.
pub struct MessageView {
    /// Who wrote it.
    pub role: Seq<char>,
    /// The name of the mode it was written in.
    pub mode: Seq<char>,
    /// What it says.
    pub content: Seq<char>,
}

impl View for Message {
    type V = MessageView;

    open spec fn view(&self) -> MessageView {
        MessageView { role: self.role@, mode: self.mode@, content: self.content@ }
    }
}

/// The texts of a list of messages.
pub open spec fn message_views(list: Seq<Message>) -> Seq<MessageView> {
    Seq::new(list.len(), |i: int| list[i]@)
}

/// The texts of a message that was written in `mode`.
pub open spec fn written(role: Seq<char>, mode: Mode, content: Seq<char>) -> MessageView {
    MessageView { role, mode: mode.label(), content }
}

impl Message {
    /// A message that was written in `mode`.
    pub fn new(role: &str, mode: Mode, content: String) -> (message: Self)
        ensures
            message@ == (MessageView { role: role@, mode: mode.label(), content: content@ }),
            message@ == written(role@, mode, content@),
    {
        Message { role: role.to_string(), mode: mode.name().to_string(), content }
    }
}

/// The last `max` of the items, or all where there are no more.
pub open spec fn last_items<T>(list: Seq<T>, max: nat) -> Seq<T> {
    if list.len() <= max {
        list
    } else {
        list.skip(list.len() - max)
    }
}

/// The last `max_messages` messages, or all where there are no more.
pub fn trim_history(history: &[Message], max_messages: usize) -> (recent: &[Message])
    ensures
        recent@ == last_items(history@, max_messages as nat),
{
    let len: usize = history.len();
    let start: usize = if len > max_messages {
        len - max_messages
    } else {
        0
    };
    assert(history@.subrange(start as int, len as int) =~= last_items(
        history@,
        max_messages as nat,
    ));
    vstd::slice::slice_subrange(history, start, len)
}

/// The last items are at most `max`, and they end the list.
pub proof fn last_items_end_the_list<T>(list: Seq<T>, max: nat)
    ensures
        last_items(list, max).len() <= max,
        last_items(list, max).len() == if list.len() <= max {
            list.len()
        } else {
            max
        },
        list == list.take(list.len() - last_items(list, max).len()) + last_items(list, max),
{
    assert(list =~= list.take(list.len() - last_items(list, max).len()) + last_items(list, max));
}

/// The first `max` characters of `s` and an ellipsis, or `s` where it is not
/// longer.
pub open spec fn shortened(s: Seq<char>, max: nat) -> Seq<char> {
    if s.len() <= max {
        s
    } else {
        s.take(max as int) + "..."@
    }
}

/// The first `max_chars` characters of the text and an ellipsis, or the text
/// where it is not longer.
pub fn preview(text: &str, max_chars: usize) -> (short: String)
    ensures
        short@ == shortened(text@, max_chars as nat),
{
    let len: usize = text.unicode_len();
    if len <= max_chars {
        text.to_string()
    } else {
        let mut short = text.substring_char(0, max_chars).to_string();
        assert(text@.take(max_chars as int) =~= text@.subrange(0, max_chars as int));
        short.append("...");
        short
    }
}

/// A preview is at most the ellipsis longer than `max` characters, and a text
/// of at most `max` characters is its own preview.
pub proof fn a_preview_is_short(s: Seq<char>, max: nat)
    ensures
        shortened(s, max).len() <= max + 3,
        s.len() <= max ==> shortened(s, max) == s,
        s.len() > max ==> shortened(s, max).len() == max + 3 && shortened(s, max).take(
            max as int,
        ) == s.take(max as int),
{
    reveal_strlit("...");
    if s.len() > max {
        assert(shortened(s, max).take(max as int) =~= s.take(max as int));
    }
}

/// A text that is too long for a preview keeps its beginning, and three dots
/// stand for the rest.
pub proof fn a_long_preview_ends_with_dots(front: Seq<char>, rest: Seq<char>)
    requires
        rest.len() > 0,
    ensures
        shortened(front + rest, front.len()) == front + seq!['.', '.', '.'],
        shortened(front, front.len()) == front,
{
    reveal_strlit("...");
    assert((front + rest).take(front.len() as int) =~= front);
    assert(shortened(front + rest, front.len()) =~= front + seq!['.', '.', '.']);
}

/// A message keeps its role and its whole content, and tells the mode it was
/// written in.
pub proof fn a_message_keeps_what_was_written(
    role: Seq<char>,
    content: Seq<char>,
    a: Mode,
    b: Mode,
)
    ensures
        written(role, a, content).role == role,
        written(role, a, content).content == content,
        written(role, a, content).mode == written(role, b, content).mode ==> a == b,
        written(role, a, content).mode == a.label(),
{
    if a.label() == b.label() {
        crate::mode::mode_names_are_distinct(a, b);
    }
}

/// The view of a message holds its three texts, and that of a list each
/// message in its place.
pub proof fn a_view_holds_the_message(message: Message, list: Seq<Message>, i: int)
    ensures
        message@.role == message.role@,
        message@.mode == message.mode@,
        message@.content == message.content@,
        message_views(list).len() == list.len(),
        0 <= i < list.len() ==> message_views(list)[i] == list[i]@,
{
}

} // verus!
