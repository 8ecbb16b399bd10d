//! The commands of the prompt.

use crate::mode::Mode;
use crate::text::{
    begins_with, is_space, is_whitespace, same_text, slice_view, strip_prefix, trim, trimmed,
};
use vstd::prelude::*;

verus! {

broadcast use vstd::string::group_string_axioms;

// ---------------------------------------------------------------------------
// A command and its argument

/// What stands behind a command word: nothing, or white space and the
/// argument. A longer word that begins like the command is another word.
pub open spec fn argument(input: Seq<char>, command: Seq<char>) -> Option<Seq<char>> {
    if begins_with(input, command) {
        let rest = input.skip(command.len() as int);
        if rest.len() == 0 {
            Some(seq![])
        } else if is_space(rest[0]) {
            Some(trimmed(rest))
        } else {
            None
        }
    } else {
        None
    }
}

/// The argument of a command, if the input is that command.
pub fn command_arg<'a>(input: &'a str, command: &str) -> (arg: Option<&'a str>)
    ensures
        slice_view(arg) == argument(input@, command@),
{
    match strip_prefix(input, command) {
        Some(rest) => {
            if rest.is_empty() {
                assert(rest@ =~= seq![]);
                Some(rest)
            } else if is_whitespace(rest.get_char(0)) {
                Some(trim(rest))
            } else {
                None
            }
        },
        None => None,
    }
}

/// A command word alone has an empty argument.
pub proof fn a_bare_command_has_no_argument(command: Seq<char>)
    ensures
        argument(command, command) == Some(Seq::<char>::empty()),
{
    assert(command.take(command.len() as int) =~= command);
    assert(command.skip(command.len() as int) =~= seq![]);
}

/// A command word ends at white space: behind white space stands the
/// argument, and with any other character the word is not that command.
pub proof fn a_command_ends_at_white_space(command: Seq<char>, next: char, rest: Seq<char>)
    ensures
        is_space(next) ==> argument(command + seq![next] + rest, command) == Some(trimmed(rest)),
        !is_space(next) ==> argument(command + seq![next] + rest, command) is None,
{
    let input = command + seq![next] + rest;
    assert(input.take(command.len() as int) =~= command);
    let behind = input.skip(command.len() as int);
    assert(behind =~= seq![next] + rest);
    assert(behind.drop_first() =~= rest);
}

// ---------------------------------------------------------------------------
// All commands

/// The commands that a text can follow.
#[derive(Debug, Clone, Copy, PartialEq, Eq, Structural)]
pub enum Verb {
    /// `/chat`
    Chat,
    /// `/question`
    Question,
    /// `/tw`
    Tw,
    /// `/me`
    Me,
    /// `/jp`
    Jp,
    /// `/you`
    You,
    /// `/pobo`
    Pobo,
}

impl Verb {
    /// The word of the command.
    pub open spec fn word(self) -> Seq<char> {
        match self {
            Verb::Chat => "/chat"@,
            Verb::Question => "/question"@,
            Verb::Tw => "/tw"@,
            Verb::Me => "/me"@,
            Verb::Jp => "/jp"@,
            Verb::You => "/you"@,
            Verb::Pobo => "/pobo"@,
        }
    }

    /// The mode that the command switches to.
    pub open spec fn target(self) -> Mode {
        match self {
            Verb::Chat => Mode::Chat,
            Verb::Question => Mode::Question,
            Verb::Tw => Mode::ToTaiwanMandarin,
            Verb::Me => Mode::ToTaiwanMandarin,
            Verb::Jp => Mode::ToJapanese,
            Verb::You => Mode::ToJapanese,
            Verb::Pobo => Mode::Pobo,
        }
    }

    /// The mode that the command switches to.
    pub fn mode(self) -> (mode: Mode)
        ensures
            mode == self.target(),
    {
        match self {
            Verb::Chat => Mode::Chat,
            Verb::Question => Mode::Question,
            Verb::Tw => Mode::ToTaiwanMandarin,
            Verb::Me => Mode::ToTaiwanMandarin,
            Verb::Jp => Mode::ToJapanese,
            Verb::You => Mode::ToJapanese,
            Verb::Pobo => Mode::Pobo,
        }
    }
}

/// What a line asks for.
#[derive(Debug, Clone, PartialEq, Eq)]
pub enum Command {
    /// The line is blank.
    Nothing,
    /// Leave.
    Exit,
    /// Show the help.
    Help,
    /// Show the picture.
    Art,
    /// Show or switch the backend.
    Model(String),
    /// Show the history.
    History,
    /// Forget the history.
    Clear,
    /// Show the instructions.
    Prompt,
    /// Export the history.
    Export(String),
    /// Serve the form.
    Pair,
    /// Switch the mode, and ask where a text follows.
    Turn(Verb, String),
    /// A word after a slash that is no command.
    Unknown(String),
    /// Ask in the current mode.
    Say(String),
}

/// The contents of what a line asks for.
pub enum CommandView {
    /// The line is blank.
    Nothing,
    /// Leave.
    Exit,
    /// Show the help.
    Help,
    /// Show the picture.
    Art,
    /// Show or switch the backend.
    Model(Seq<char>),
    /// Show the history.
    History,
    /// Forget the history.
    Clear,
    /// Show the instructions.
    Prompt,
    /// Export the history.
    Export(Seq<char>),
    /// Serve the form.
    Pair,
    /// Switch the mode, and ask where a text follows.
    Turn(Verb, Seq<char>),
    /// A word after a slash that is no command.
    Unknown(Seq<char>),
    /// Ask in the current mode.
    Say(Seq<char>),
}

impl View for Command {
    type V = CommandView;

    open spec fn view(&self) -> CommandView {
        match self {
            Command::Nothing => CommandView::Nothing,
            Command::Exit => CommandView::Exit,
            Command::Help => CommandView::Help,
            Command::Art => CommandView::Art,
            Command::Model(name) => CommandView::Model(name@),
            Command::History => CommandView::History,
            Command::Clear => CommandView::Clear,
            Command::Prompt => CommandView::Prompt,
            Command::Export(target) => CommandView::Export(target@),
            Command::Pair => CommandView::Pair,
            Command::Turn(verb, text) => CommandView::Turn(*verb, text@),
            Command::Unknown(input) => CommandView::Unknown(input@),
            Command::Say(text) => CommandView::Say(text@),
        }
    }
}

/// The command that a text can follow, with that text.
pub open spec fn turn_in(input: Seq<char>) -> Option<(Verb, Seq<char>)> {
    if argument(input, Verb::Chat.word()) is Some {
        Some((Verb::Chat, argument(input, Verb::Chat.word())->0))
    } else if argument(input, Verb::Question.word()) is Some {
        Some((Verb::Question, argument(input, Verb::Question.word())->0))
    } else if argument(input, Verb::Tw.word()) is Some {
        Some((Verb::Tw, argument(input, Verb::Tw.word())->0))
    } else if argument(input, Verb::Me.word()) is Some {
        Some((Verb::Me, argument(input, Verb::Me.word())->0))
    } else if argument(input, Verb::Jp.word()) is Some {
        Some((Verb::Jp, argument(input, Verb::Jp.word())->0))
    } else if argument(input, Verb::You.word()) is Some {
        Some((Verb::You, argument(input, Verb::You.word())->0))
    } else if argument(input, Verb::Pobo.word()) is Some {
        Some((Verb::Pobo, argument(input, Verb::Pobo.word())->0))
    } else {
        None
    }
}

/// What a trimmed line asks for.
pub open spec fn command_in(input: Seq<char>) -> CommandView {
    if input.len() == 0 {
        CommandView::Nothing
    } else if input == "/exit"@ || input == "/quit"@ {
        CommandView::Exit
    } else if input == "/help"@ {
        CommandView::Help
    } else if input == "/aa"@ {
        CommandView::Art
    } else if argument(input, "/model"@) is Some {
        CommandView::Model(argument(input, "/model"@)->0)
    } else if input == "/history"@ {
        CommandView::History
    } else if input == "/clear"@ {
        CommandView::Clear
    } else if input == "/prompt"@ {
        CommandView::Prompt
    } else if argument(input, "/export"@) is Some {
        CommandView::Export(argument(input, "/export"@)->0)
    } else if input == "/pair"@ {
        CommandView::Pair
    } else if turn_in(input) is Some {
        CommandView::Turn((turn_in(input)->0).0, (turn_in(input)->0).1)
    } else if input[0] == '/' {
        CommandView::Unknown(input)
    } else {
        CommandView::Say(input)
    }
}

/// The command that a text can follow, with that text.
fn parse_turn(input: &str) -> (turn: Option<(Verb, String)>)
    ensures
        match turn {
            Some((verb, text)) => turn_in(input@) == Some((verb, text@)),
            None => turn_in(input@) is None,
        },
{
    if let Some(rest) = command_arg(input, "/chat") {
        Some((Verb::Chat, rest.to_string()))
    } else if let Some(rest) = command_arg(input, "/question") {
        Some((Verb::Question, rest.to_string()))
    } else if let Some(rest) = command_arg(input, "/tw") {
        Some((Verb::Tw, rest.to_string()))
    } else if let Some(rest) = command_arg(input, "/me") {
        Some((Verb::Me, rest.to_string()))
    } else if let Some(rest) = command_arg(input, "/jp") {
        Some((Verb::Jp, rest.to_string()))
    } else if let Some(rest) = command_arg(input, "/you") {
        Some((Verb::You, rest.to_string()))
    } else if let Some(rest) = command_arg(input, "/pobo") {
        Some((Verb::Pobo, rest.to_string()))
    } else {
        None
    }
}

/// What a line asks for.
pub fn parse_command(line: &str) -> (command: Command)
    ensures
        command@ == command_in(trimmed(line@)),
{
    let input = trim(line);
    if input.is_empty() {
        return Command::Nothing;
    }
    if same_text(input, "/exit") || same_text(input, "/quit") {
        return Command::Exit;
    }
    if same_text(input, "/help") {
        return Command::Help;
    }
    if same_text(input, "/aa") {
        return Command::Art;
    }
    if let Some(rest) = command_arg(input, "/model") {
        return Command::Model(rest.to_string());
    }
    if same_text(input, "/history") {
        return Command::History;
    }
    if same_text(input, "/clear") {
        return Command::Clear;
    }
    if same_text(input, "/prompt") {
        return Command::Prompt;
    }
    if let Some(rest) = command_arg(input, "/export") {
        return Command::Export(rest.to_string());
    }
    if same_text(input, "/pair") {
        return Command::Pair;
    }
    if let Some((verb, text)) = parse_turn(input) {
        return Command::Turn(verb, text);
    }
    if input.get_char(0) == '/' {
        return Command::Unknown(input.to_string());
    }
    Command::Say(input.to_string())
}

// ---------------------------------------------------------------------------
// Laws

/// A line that begins with a slash is a command, known or not: only another
/// text is asked in the current mode, and it is asked as it stands.
pub proof fn only_plain_text_is_said(input: Seq<char>)
    ensures
        command_in(input) matches CommandView::Say(text) ==> text == input && input.len() > 0
            && input[0] != '/',
        input.len() > 0 && input[0] != '/' ==> command_in(input) == CommandView::Say(input),
{
    reveal_strlit("/exit");
    reveal_strlit("/quit");
    reveal_strlit("/help");
    reveal_strlit("/aa");
    reveal_strlit("/history");
    reveal_strlit("/clear");
    reveal_strlit("/prompt");
    reveal_strlit("/pair");
    reveal_strlit("/model");
    reveal_strlit("/export");
    reveal_strlit("/chat");
    reveal_strlit("/question");
    reveal_strlit("/tw");
    reveal_strlit("/me");
    reveal_strlit("/jp");
    reveal_strlit("/you");
    reveal_strlit("/pobo");
    if input.len() > 0 && input[0] != '/' {
        lemma_no_slash_no_argument(input, "/model"@);
        lemma_no_slash_no_argument(input, "/export"@);
        lemma_no_slash_no_argument(input, "/chat"@);
        lemma_no_slash_no_argument(input, "/question"@);
        lemma_no_slash_no_argument(input, "/tw"@);
        lemma_no_slash_no_argument(input, "/me"@);
        lemma_no_slash_no_argument(input, "/jp"@);
        lemma_no_slash_no_argument(input, "/you"@);
        lemma_no_slash_no_argument(input, "/pobo"@);
    }
}

proof fn lemma_no_slash_no_argument(input: Seq<char>, command: Seq<char>)
    requires
        input.len() > 0,
        input[0] != '/',
        command.len() > 0,
        command[0] == '/',
    ensures
        argument(input, command) is None,
{
    if begins_with(input, command) {
        assert(input.take(command.len() as int)[0] == input[0]);
    }
}

/// `w` holds no white space.
pub open spec fn is_word(w: Seq<char>) -> bool {
    forall|i: int| 0 <= i < w.len() ==> !is_space(#[trigger] w[i])
}

/// Whatever white space and text stand behind one of the commands that a text
/// can follow, the line is that command with that text.
pub proof fn a_verb_takes_the_text_behind_it(verb: Verb, space: char, text: Seq<char>)
    requires
        is_space(space),
    ensures
        command_in(verb.word() + seq![space] + text) == CommandView::Turn(verb, trimmed(text)),
        command_in(verb.word()) == CommandView::Turn(verb, Seq::empty()),
{
    let word = verb.word();
    let input = word + seq![space] + text;
    lemma_command_words(verb);
    a_bare_command_has_no_argument(word);
    a_command_ends_at_white_space(word, space, text);
    lemma_other_words(word, space, text, "/model"@);
    lemma_other_words(word, space, text, "/export"@);
    lemma_other_words(word, space, text, Verb::Chat.word());
    lemma_other_words(word, space, text, Verb::Question.word());
    lemma_other_words(word, space, text, Verb::Tw.word());
    lemma_other_words(word, space, text, Verb::Me.word());
    lemma_other_words(word, space, text, Verb::Jp.word());
    lemma_other_words(word, space, text, Verb::You.word());
    lemma_other_words(word, space, text, Verb::Pobo.word());
    assert(input[word.len() as int] == space);
    assert(!is_word(input));
}

/// A word is no other command, whether it stands alone or before a text.
proof fn lemma_other_words(word: Seq<char>, space: char, text: Seq<char>, other: Seq<char>)
    requires
        is_word(word),
        is_word(other),
        is_space(space),
    ensures
        word != other ==> argument(word, other) is None,
        word != other ==> argument(word + seq![space] + text, other) is None,
{
    let input = word + seq![space] + text;
    let n = other.len() as int;
    if begins_with(word, other) {
        if word.len() == n {
            assert(word.take(n) =~= word);
        } else {
            assert(word.skip(n)[0] == word[n]);
        }
    }
    if begins_with(input, other) {
        if n < word.len() {
            assert(input.skip(n)[0] == word[n]);
        } else if n == word.len() {
            assert(input.take(n) =~= word);
        } else {
            assert(input.take(n)[word.len() as int] == space);
            assert(!is_space(other[word.len() as int]));
        }
    }
}

proof fn lemma_command_words(verb: Verb)
    ensures
        is_word(verb.word()),
        verb.word().len() > 0,
        is_word("/exit"@) && is_word("/quit"@) && is_word("/help"@) && is_word("/aa"@),
        is_word("/history"@) && is_word("/clear"@) && is_word("/prompt"@) && is_word("/pair"@),
        is_word("/model"@) && is_word("/export"@),
        is_word(Verb::Chat.word()) && is_word(Verb::Question.word()) && is_word(Verb::Tw.word()),
        is_word(Verb::Me.word()) && is_word(Verb::Jp.word()) && is_word(Verb::You.word()),
        is_word(Verb::Pobo.word()),
        verb.word() != "/exit"@ && verb.word() != "/quit"@ && verb.word() != "/help"@,
        verb.word() != "/aa"@ && verb.word() != "/history"@ && verb.word() != "/clear"@,
        verb.word() != "/prompt"@ && verb.word() != "/pair"@ && verb.word() != "/model"@,
        verb.word() != "/export"@,
        forall|other: Verb| other != verb ==> #[trigger] other.word() != verb.word(),
{
    reveal_strlit("/exit");
    reveal_strlit("/quit");
    reveal_strlit("/help");
    reveal_strlit("/aa");
    reveal_strlit("/model");
    reveal_strlit("/history");
    reveal_strlit("/clear");
    reveal_strlit("/prompt");
    reveal_strlit("/export");
    reveal_strlit("/pair");
    reveal_strlit("/chat");
    reveal_strlit("/question");
    reveal_strlit("/tw");
    reveal_strlit("/me");
    reveal_strlit("/jp");
    reveal_strlit("/you");
    reveal_strlit("/pobo");
    assert("/chat"@[1] == 'c' && "/pobo"@[1] == 'p' && "/pobo"@[2] == 'o');
    assert("/exit"@[1] == 'e' && "/quit"@[1] == 'q' && "/help"@[1] == 'h' && "/pair"@[1] == 'p'
        && "/pair"@[2] == 'a');
    assert("/aa"@[1] == 'a' && "/tw"@[1] == 't' && "/me"@[1] == 'm' && "/jp"@[1] == 'j');
}

/// Behind `/model` stands the name of a backend and behind `/export` that of a
/// file, without the white space around it.
pub proof fn model_and_export_take_the_text_behind_them(space: char, text: Seq<char>)
    requires
        is_space(space),
    ensures
        command_in("/model"@ + seq![space] + text) == CommandView::Model(trimmed(text)),
        command_in("/export"@ + seq![space] + text) == CommandView::Export(trimmed(text)),
        command_in("/model"@) == CommandView::Model(Seq::empty()),
        command_in("/export"@) == CommandView::Export(Seq::empty()),
{
    let model = "/model"@ + seq![space] + text;
    let export = "/export"@ + seq![space] + text;
    lemma_command_words(Verb::Chat);
    a_bare_command_has_no_argument("/model"@);
    a_bare_command_has_no_argument("/export"@);
    a_command_ends_at_white_space("/model"@, space, text);
    a_command_ends_at_white_space("/export"@, space, text);
    reveal_strlit("/model");
    reveal_strlit("/export");
    assert("/model"@[1] == 'm' && "/export"@[1] == 'e');
    lemma_other_words("/export"@, space, text, "/model"@);
    reveal_strlit("/exit");
    reveal_strlit("/quit");
    reveal_strlit("/help");
    reveal_strlit("/aa");
    reveal_strlit("/history");
    reveal_strlit("/clear");
    reveal_strlit("/prompt");
    assert("/exit"@[2] == 'x' && "/history"@[1] == 'h' && "/clear"@[1] == 'c' && "/prompt"@[1]
        == 'p');
    assert(model[6] == space && export[7] == space);
    assert(!is_word(model) && !is_word(export));
}

/// The commands without an argument are meant only by their words alone.
pub proof fn bare_commands_are_their_words(input: Seq<char>)
    ensures
        command_in(input) is Nothing <==> input.len() == 0,
        command_in(input) is Exit <==> input == "/exit"@ || input == "/quit"@,
        command_in(input) is Help <==> input == "/help"@,
        command_in(input) is Art <==> input == "/aa"@,
        command_in(input) is History <==> input == "/history"@,
        command_in(input) is Clear <==> input == "/clear"@,
        command_in(input) is Prompt <==> input == "/prompt"@,
        command_in(input) is Pair <==> input == "/pair"@,
{
    lemma_command_words(Verb::Chat);
    reveal_strlit("/exit");
    reveal_strlit("/quit");
    reveal_strlit("/help");
    reveal_strlit("/aa");
    reveal_strlit("/history");
    reveal_strlit("/clear");
    reveal_strlit("/prompt");
    reveal_strlit("/pair");
    reveal_strlit("/model");
    reveal_strlit("/export");
    assert("/exit"@[1] == 'e' && "/quit"@[1] == 'q' && "/help"@[1] == 'h' && "/aa"@[1] == 'a');
    assert("/history"@[1] == 'h' && "/clear"@[1] == 'c' && "/prompt"@[1] == 'p' && "/pair"@[1]
        == 'p' && "/model"@[1] == 'm' && "/export"@[1] == 'e');
    lemma_other_words("/history"@, ' ', seq![], "/model"@);
    lemma_other_words("/clear"@, ' ', seq![], "/model"@);
    lemma_other_words("/prompt"@, ' ', seq![], "/model"@);
    lemma_other_words("/pair"@, ' ', seq![], "/model"@);
    lemma_other_words("/pair"@, ' ', seq![], "/export"@);
}

/// A line that begins with a slash and whose first word is no command is
/// unknown, and is reported as it stands.
pub proof fn other_words_with_a_slash_are_unknown(word: Seq<char>, space: char, text: Seq<char>)
    requires
        is_word(word),
        word.len() > 0 && word[0] == '/',
        is_space(space),
        word != "/exit"@ && word != "/quit"@ && word != "/help"@ && word != "/aa"@,
        word != "/history"@ && word != "/clear"@ && word != "/prompt"@ && word != "/pair"@,
        word != "/model"@ && word != "/export"@ && word != "/chat"@ && word != "/question"@,
        word != "/tw"@ && word != "/me"@ && word != "/jp"@ && word != "/you"@,
        word != "/pobo"@,
    ensures
        command_in(word) == CommandView::Unknown(word),
        command_in(word + seq![space] + text) == CommandView::Unknown(
            word + seq![space] + text,
        ),
{
    let input = word + seq![space] + text;
    lemma_command_words(Verb::Chat);
    lemma_other_words(word, space, text, "/model"@);
    lemma_other_words(word, space, text, "/export"@);
    lemma_other_words(word, space, text, Verb::Chat.word());
    lemma_other_words(word, space, text, Verb::Question.word());
    lemma_other_words(word, space, text, Verb::Tw.word());
    lemma_other_words(word, space, text, Verb::Me.word());
    lemma_other_words(word, space, text, Verb::Jp.word());
    lemma_other_words(word, space, text, Verb::You.word());
    lemma_other_words(word, space, text, Verb::Pobo.word());
    assert(input[word.len() as int] == space);
    assert(!is_word(input));
    assert(input[0] == '/');
}

/// The word and the mode of each command that a text can follow.
pub proof fn verbs_mean_their_modes(verb: Verb)
    ensures
        verb.word() == "/"@ + verb.target().label() || verb == Verb::Me || verb == Verb::You,
        Verb::Me.target() == Verb::Tw.target() && Verb::Me.word() == "/me"@,
        Verb::You.target() == Verb::Jp.target() && Verb::You.word() == "/you"@,
{
    reveal_strlit("/");
    reveal_strlit("/chat");
    reveal_strlit("/question");
    reveal_strlit("/tw");
    reveal_strlit("/jp");
    reveal_strlit("/pobo");
    reveal_strlit("chat");
    reveal_strlit("question");
    reveal_strlit("tw");
    reveal_strlit("jp");
    reveal_strlit("pobo");
    if verb != Verb::Me && verb != Verb::You {
        assert(verb.word() =~= "/"@ + verb.target().label());
    }
}

/// The view of a command is the same command with its texts.
pub proof fn a_view_holds_the_command(verb: Verb, text: String)
    ensures
        Command::Nothing@ == CommandView::Nothing,
        Command::Exit@ == CommandView::Exit,
        Command::Help@ == CommandView::Help,
        Command::Art@ == CommandView::Art,
        Command::History@ == CommandView::History,
        Command::Clear@ == CommandView::Clear,
        Command::Prompt@ == CommandView::Prompt,
        Command::Pair@ == CommandView::Pair,
        Command::Model(text)@ == CommandView::Model(text@),
        Command::Export(text)@ == CommandView::Export(text@),
        Command::Turn(verb, text)@ == CommandView::Turn(verb, text@),
        Command::Unknown(text)@ == CommandView::Unknown(text@),
        Command::Say(text)@ == CommandView::Say(text@),
{
}

} // verus!
