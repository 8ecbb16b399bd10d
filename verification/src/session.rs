//! The conversation at the prompt: what each line does to its state, and what
//! is to be done next.

use crate::backend::{backend_named, Backend};
use crate::chat::{
    a_request_frames_the_conversation, conversation, earlier_messages_keep_role_and_content,
    planned_call, AskError, BackendCallView,
};
use crate::command::{command_in, parse_command, Command, CommandView, Verb};
use crate::config::{allowed, Config};
use crate::console::{backend_error_text, failure, help, help_text};
use crate::encoding::lossy_text;
use crate::form::form_text;
use crate::history::{export_markdown, history_listing, listing, markdown};
use crate::message::{message_views, Message, MessageView};
use crate::mode::{instructions, system_prompt, Mode};
use crate::pair::{latest_after, the_latest_text_says_something};
use crate::text::{is_space, same_text, slice_view, string_view, trim, trimmed};
use vstd::prelude::*;

verus! {

broadcast use vstd::string::group_string_axioms;

// ---------------------------------------------------------------------------
// State and actions

/// The state of the conversation.
pub struct Session {
    /// The backend that is asked.
    pub backend: Backend,
    /// The mode that texts are meant in.
    pub mode: Mode,
    /// The messages so far.
    pub history: Vec<Message>,
    /// Where the form is served, if it is.
    pub pair_url: Option<String>,
}

/// The contents of the state of the conversation.
#[verifier::ext_equal]
pub struct SessionView {
    /// The backend that is asked.
    pub backend: Backend,
    /// The mode that texts are meant in.
    pub mode: Mode,
    /// The messages so far.
    pub history: Seq<MessageView>,
    /// Where the form is served, if it is.
    pub pair_url: Option<Seq<char>>,
}

impl View for Session {
    type V = SessionView;

    open spec fn view(&self) -> SessionView {
        SessionView {
            backend: self.backend,
            mode: self.mode,
            history: message_views(self.history@),
            pair_url: string_view(self.pair_url),
        }
    }
}

/// What is to be done about a line.
#[derive(Debug, Clone, PartialEq, Eq)]
pub enum Action {
    /// Read the next line.
    Continue,
    /// Print this and leave.
    Quit(String),
    /// Print this.
    Print(String),
    /// Show the picture.
    ShowArt,
    /// Ask the backend this in the current mode.
    Ask(String),
    /// Write the document to the file.
    Export {
        /// The file.
        path: String,
        /// The document.
        document: String,
    },
    /// Serve the form.
    StartPair,
}

/// The contents of what is to be done about a line.
pub enum ActionView {
    /// Read the next line.
    Continue,
    /// Print this and leave.
    Quit(Seq<char>),
    /// Print this.
    Print(Seq<char>),
    /// Show the picture.
    ShowArt,
    /// Ask the backend this in the current mode.
    Ask(Seq<char>),
    /// Write the document to the file.
    Export {
        /// The file.
        path: Seq<char>,
        /// The document.
        document: Seq<char>,
    },
    /// Serve the form.
    StartPair,
}

impl View for Action {
    type V = ActionView;

    open spec fn view(&self) -> ActionView {
        match self {
            Action::Continue => ActionView::Continue,
            Action::Quit(text) => ActionView::Quit(text@),
            Action::Print(text) => ActionView::Print(text@),
            Action::ShowArt => ActionView::ShowArt,
            Action::Ask(text) => ActionView::Ask(text@),
            Action::Export { path, document } => ActionView::Export {
                path: path@,
                document: document@,
            },
            Action::StartPair => ActionView::StartPair,
        }
    }
}

// ---------------------------------------------------------------------------
// What a command does

/// The backend after `/model`: the named one, if there is one and it may be
/// used.
pub open spec fn chosen_backend(current: Backend, mi25_enabled: bool, name: Seq<char>) -> Backend {
    if name.len() == 0 {
        current
    } else {
        match backend_named(name) {
            Some(backend) => if allowed(backend, mi25_enabled) {
                backend
            } else {
                current
            },
            None => current,
        }
    }
}

/// What is printed about `/model`.
pub open spec fn model_report(current: Backend, mi25_enabled: bool, name: Seq<char>) -> Seq<char> {
    if name.len() == 0 {
        "current backend: "@ + current.label() + "\navailable: mi25, openrouter, codex\n"@
    } else {
        match backend_named(name) {
            Some(backend) => if allowed(backend, mi25_enabled) {
                "backend switched: "@ + backend.label() + "\n"@
            } else {
                "MI25 backend is disabled.\nZUTTOMO_MI25_ENABLED=true にすると有効化できます。\n"@
            },
            None => "unknown backend: "@ + name + "\navailable: mi25, openrouter, codex\n"@,
        }
    }
}

/// The file that the history is exported to.
pub open spec fn export_target(rest: Seq<char>) -> Seq<char> {
    if rest.len() == 0 || rest == "md"@ {
        "zuttomo-history.md"@
    } else {
        rest
    }
}

/// What is done about a command that a text can follow. `partner` is the
/// latest text that the partner has submitted.
pub open spec fn turn_action(verb: Verb, text: Seq<char>, partner: Option<Seq<char>>) -> ActionView {
    if text.len() > 0 {
        ActionView::Ask(text)
    } else {
        match verb {
            Verb::Me => ActionView::Print("usage: /me TEXT\n"@),
            Verb::You => match partner {
                Some(p) => ActionView::Ask(p),
                None => ActionView::Print(
                    "相手スマホ入力はまだありません。今は /you TEXT を使ってください。\n"@,
                ),
            },
            _ => ActionView::Print("mode switched: "@ + verb.target().label() + "\n"@),
        }
    }
}

/// The state after a command.
pub open spec fn next_state(
    state: SessionView,
    mi25_enabled: bool,
    command: CommandView,
) -> SessionView {
    match command {
        CommandView::Model(name) => SessionView {
            backend: chosen_backend(state.backend, mi25_enabled, name),
            ..state
        },
        CommandView::Clear => SessionView { history: seq![], ..state },
        CommandView::Turn(verb, _) => SessionView { mode: verb.target(), ..state },
        _ => state,
    }
}

/// What is done about a command.
pub open spec fn action_for(
    state: SessionView,
    cfg: Config,
    command: CommandView,
    partner: Option<Seq<char>>,
) -> ActionView {
    match command {
        CommandView::Nothing => ActionView::Continue,
        CommandView::Exit => ActionView::Quit("檸檬烯姐、終了します。\n"@),
        CommandView::Help => ActionView::Print(help(state.backend, state.mode, cfg)),
        CommandView::Art => ActionView::ShowArt,
        CommandView::Model(name) => ActionView::Print(
            model_report(state.backend, cfg.mi25_enabled, name),
        ),
        CommandView::History => ActionView::Print(listing(state.history, 30)),
        CommandView::Clear => ActionView::Print(
            "memory history cleared. history file was not deleted.\n"@,
        ),
        CommandView::Prompt => ActionView::Print(trimmed(instructions(state.mode)) + "\n"@),
        CommandView::Export(rest) => ActionView::Export {
            path: export_target(rest),
            document: markdown(state.history),
        },
        CommandView::Pair => match state.pair_url {
            Some(url) => ActionView::Print("pair server is already running:\n"@ + url + "\n"@),
            None => ActionView::StartPair,
        },
        CommandView::Turn(verb, text) => turn_action(verb, text, partner),
        CommandView::Unknown(input) => ActionView::Print(
            "unknown command: "@ + input + "\ntype /help for commands\n"@,
        ),
        CommandView::Say(text) => ActionView::Ask(text),
    }
}

/// What is done about a command that a text can follow.
fn act_on_turn(verb: Verb, text: String, partner: Option<&str>) -> (action: Action)
    ensures
        action@ == turn_action(verb, text@, slice_view(partner)),
{
    if !text.as_str().is_empty() {
        return Action::Ask(text);
    }
    match verb {
        Verb::Me => Action::Print("usage: /me TEXT\n".to_string()),
        Verb::You => match partner {
            Some(p) => Action::Ask(p.to_string()),
            None => Action::Print(
                "相手スマホ入力はまだありません。今は /you TEXT を使ってください。\n".to_string(),
            ),
        },
        _ => {
            let mut out = "mode switched: ".to_string();
            out.append(verb.mode().name());
            out.append("\n");
            Action::Print(out)
        },
    }
}

// ---------------------------------------------------------------------------
// Turns

/// The two messages of a turn.
pub struct Turn {
    /// What was asked.
    pub user: Message,
    /// What was answered.
    pub assistant: Message,
}

/// The message that asks.
pub open spec fn question_message(mode: Mode, input: Seq<char>) -> MessageView {
    MessageView { role: "user"@, mode: mode.label(), content: input }
}

/// The message that answers.
pub open spec fn answer_message(mode: Mode, answer: Seq<char>) -> MessageView {
    MessageView { role: "assistant"@, mode: mode.label(), content: answer }
}

impl Turn {
    /// The turn in which `answer` came for `input`.
    pub fn new(mode: Mode, input: &str, answer: &str) -> (turn: Self)
        ensures
            turn.user@ == question_message(mode, input@),
            turn.assistant@ == answer_message(mode, answer@),
    {
        Turn {
            user: Message::new("user", mode, input.to_string()),
            assistant: Message::new("assistant", mode, answer.to_string()),
        }
    }
}

/// The state after a turn.
pub open spec fn after_turn(
    state: SessionView,
    user: MessageView,
    assistant: MessageView,
) -> SessionView {
    SessionView { history: state.history.push(user).push(assistant), ..state }
}

// ---------------------------------------------------------------------------
// The session

/// The state at the beginning.
pub open spec fn first_state(backend: Backend, history: Seq<MessageView>) -> SessionView {
    SessionView { backend, mode: Mode::Chat, history, pair_url: None }
}

/// What stands before the input.
pub open spec fn prompt_text(backend: Backend, mode: Mode) -> Seq<char> {
    "["@ + backend.label() + ":"@ + mode.label() + "] ㄅㄆㄇㄈ> "@
}

/// What is printed about an answer.
pub open spec fn answer_text(answer: Seq<char>) -> Seq<char> {
    "\n"@ + answer + "\n\n"@
}

/// What is printed once the form is served.
pub open spec fn pair_text(url: Seq<char>) -> Seq<char> {
    "請用你的手機輸入中文。\n我這邊會自動翻譯成日文。\n"@ + url + "\n"@
}

/// What is printed where the form cannot be served.
pub open spec fn pair_failure(error: Seq<char>) -> Seq<char> {
    "pair server start failed: "@ + error
        + "\n今は /you TEXT で相手の台灣華語を直接日本語化できます。\n"@
}

/// What is printed about an export.
pub open spec fn export_text(path: Seq<char>, error: Option<Seq<char>>) -> Seq<char> {
    match error {
        Some(e) => "export failed: "@ + e + "\n"@,
        None => "exported: "@ + path + "\n"@,
    }
}

impl Session {
    /// The state at the beginning, with the messages of the history file.
    pub fn new(cfg: &Config, history: Vec<Message>) -> (session: Self)
        ensures
            session@ == first_state(cfg.default_backend, message_views(history@)),
    {
        Session { backend: cfg.default_backend, mode: Mode::Chat, history, pair_url: None }
    }

    /// What stands before the input.
    pub fn prompt(&self) -> (text: String)
        ensures
            text@ == "["@ + self.backend.label() + ":"@ + self.mode.label() + "] ㄅㄆㄇㄈ> "@,
            text@ == prompt_text(self.backend, self.mode),
    {
        let mut text = "[".to_string();
        text.append(self.backend.name());
        text.append(":");
        text.append(self.mode.name());
        text.append("] ㄅㄆㄇㄈ> ");
        text
    }

    /// Shows or switches the backend.
    fn switch_backend(&mut self, mi25_enabled: bool, name: String) -> (report: String)
        ensures
            final(self)@ == next_state(old(self)@, mi25_enabled, CommandView::Model(name@)),
            report@ == model_report(old(self)@.backend, mi25_enabled, name@),
    {
        if name.as_str().is_empty() {
            let mut report = "current backend: ".to_string();
            report.append(self.backend.name());
            report.append("\navailable: mi25, openrouter, codex\n");
            return report;
        }
        match Backend::from_name(name.as_str()) {
            Some(backend) => {
                if backend == Backend::Mi25 && !mi25_enabled {
                    "MI25 backend is disabled.\nZUTTOMO_MI25_ENABLED=true にすると有効化できます。\n".to_string()
                } else {
                    self.backend = backend;
                    let mut report = "backend switched: ".to_string();
                    report.append(backend.name());
                    report.append("\n");
                    report
                }
            },
            None => {
                let mut report = "unknown backend: ".to_string();
                report.append(name.as_str());
                report.append("\navailable: mi25, openrouter, codex\n");
                report
            },
        }
    }

    /// Takes a line. `partner` is the latest text that the partner has
    /// submitted.
    pub fn step(&mut self, cfg: &Config, line: &str, partner: Option<&str>) -> (action: Action)
        ensures
            final(self)@ == next_state(old(self)@, cfg.mi25_enabled, command_in(trimmed(line@))),
            action@ == action_for(
                old(self)@,
                *cfg,
                command_in(trimmed(line@)),
                slice_view(partner),
            ),
    {
        match parse_command(line) {
            Command::Nothing => Action::Continue,
            Command::Exit => Action::Quit("檸檬烯姐、終了します。\n".to_string()),
            Command::Help => Action::Print(help_text(self.backend, self.mode, cfg)),
            Command::Art => Action::ShowArt,
            Command::Model(name) => Action::Print(self.switch_backend(cfg.mi25_enabled, name)),
            Command::History => Action::Print(history_listing(self.history.as_slice(), 30)),
            Command::Clear => {
                self.history.clear();
                assert(message_views(self.history@) =~= seq![]);
                Action::Print(
                    "memory history cleared. history file was not deleted.\n".to_string(),
                )
            },
            Command::Prompt => {
                let mut out = trim(system_prompt(self.mode)).to_string();
                out.append("\n");
                Action::Print(out)
            },
            Command::Export(rest) => {
                let path = if rest.as_str().is_empty() || same_text(rest.as_str(), "md") {
                    "zuttomo-history.md".to_string()
                } else {
                    rest
                };
                Action::Export { path, document: export_markdown(self.history.as_slice()) }
            },
            Command::Pair => match &self.pair_url {
                Some(url) => {
                    let mut out = "pair server is already running:\n".to_string();
                    out.append(url.as_str());
                    out.append("\n");
                    Action::Print(out)
                },
                None => Action::StartPair,
            },
            Command::Turn(verb, text) => {
                self.mode = verb.mode();
                act_on_turn(verb, text, partner)
            },
            Command::Unknown(input) => {
                let mut out = "unknown command: ".to_string();
                out.append(input.as_str());
                out.append("\ntype /help for commands\n");
                Action::Print(out)
            },
            Command::Say(text) => Action::Ask(text),
        }
    }

    /// Ends a turn whose messages are in the history file. The result is to be
    /// printed.
    pub fn finish_turn(&mut self, turn: Turn) -> (text: String)
        ensures
            final(self)@ == after_turn(old(self)@, turn.user@, turn.assistant@),
            text@ == "\n"@ + turn.assistant@.content + "\n\n"@,
            text@ == answer_text(turn.assistant@.content),
    {
        let mut text = "\n".to_string();
        text.append(turn.assistant.content.as_str());
        text.append("\n\n");
        let ghost before = self.history@;
        self.history.push(turn.user);
        self.history.push(turn.assistant);
        assert(message_views(self.history@) =~= message_views(before).push(turn.user@).push(
            turn.assistant@,
        ));
        text
    }

    /// What is printed about a turn that failed.
    pub fn fail_turn(&self, error: &str) -> (text: String)
        ensures
            text@ == failure(self.backend, error@),
    {
        backend_error_text(self.backend, error)
    }

    /// Keeps the address that the form is served on. The result is to be
    /// printed.
    pub fn pair_started(&mut self, url: String) -> (text: String)
        ensures
            final(self)@ == (SessionView { pair_url: Some(url@), ..old(self)@ }),
            text@ == "請用你的手機輸入中文。\n我這邊會自動翻譯成日文。\n"@ + url@ + "\n"@,
            text@ == pair_text(url@),
            final(self)@ == after_event(old(self)@, true, Event::PairStarted(url@)),
    {
        let mut text = "請用你的手機輸入中文。\n我這邊會自動翻譯成日文。\n".to_string();
        text.append(url.as_str());
        text.append("\n");
        self.pair_url = Some(url);
        text
    }
}

/// What is printed where the form cannot be served.
pub fn pair_failed_text(error: &str) -> (text: String)
    ensures
        text@ == "pair server start failed: "@ + error@
            + "\n今は /you TEXT で相手の台灣華語を直接日本語化できます。\n"@,
        text@ == pair_failure(error@),
{
    let mut text = "pair server start failed: ".to_string();
    text.append(error);
    text.append("\n今は /you TEXT で相手の台灣華語を直接日本語化できます。\n");
    text
}

/// What is printed about an export.
pub fn export_report(path: &str, error: Option<&str>) -> (text: String)
    ensures
        text@ == match slice_view(error) {
            Some(e) => "export failed: "@ + e + "\n"@,
            None => "exported: "@ + path@ + "\n"@,
        },
        text@ == export_text(path@, slice_view(error)),
{
    match error {
        Some(e) => {
            let mut text = "export failed: ".to_string();
            text.append(e);
            text.append("\n");
            text
        },
        None => {
            let mut text = "exported: ".to_string();
            text.append(path);
            text.append("\n");
            text
        },
    }
}

// ---------------------------------------------------------------------------
// Laws

/// What can happen to a session.
pub enum Event {
    /// A line was taken.
    Line(Seq<char>),
    /// A turn ended.
    TurnDone(MessageView, MessageView),
    /// The form is served.
    PairStarted(Seq<char>),
}

/// The state after an event.
pub open spec fn after_event(state: SessionView, mi25_enabled: bool, event: Event) -> SessionView {
    match event {
        Event::Line(line) => next_state(state, mi25_enabled, command_in(trimmed(line))),
        Event::TurnDone(user, assistant) => after_turn(state, user, assistant),
        Event::PairStarted(url) => SessionView { pair_url: Some(url), ..state },
    }
}

/// The state after all events.
pub open spec fn after_events(
    state: SessionView,
    mi25_enabled: bool,
    events: Seq<Event>,
) -> SessionView
    decreases events.len(),
{
    if events.len() == 0 {
        state
    } else {
        after_event(
            after_events(state, mi25_enabled, events.drop_last()),
            mi25_enabled,
            events.last(),
        )
    }
}

/// The backend of a session may be used, whatever has happened to it: the MI25
/// backend is asked only where it is enabled.
pub proof fn the_backend_is_always_allowed(
    cfg: Config,
    history: Seq<MessageView>,
    events: Seq<Event>,
)
    requires
        cfg.well_formed(),
    ensures
        allowed(
            after_events(
                first_state(cfg.default_backend, history),
                cfg.mi25_enabled,
                events,
            ).backend,
            cfg.mi25_enabled,
        ),
    decreases events.len(),
{
    if events.len() > 0 {
        the_backend_is_always_allowed(cfg, history, events.drop_last());
    }
}

/// Whatever has happened to a session, asking its backend is never refused
/// because the backend is disabled.
pub proof fn a_session_never_asks_a_disabled_backend(
    cfg: Config,
    history: Seq<MessageView>,
    events: Seq<Event>,
    mode: Mode,
    input: Seq<char>,
)
    requires
        cfg.well_formed(),
    ensures
        ({
            let state = after_events(
                first_state(cfg.default_backend, history),
                cfg.mi25_enabled,
                events,
            );
            planned_call(cfg, state.backend, state.history, mode, input) != Err::<
                BackendCallView,
                AskError,
            >(AskError::Mi25Disabled)
        }),
{
    the_backend_is_always_allowed(cfg, history, events);
}

/// A command changes at most one part of the state: `/model` the backend,
/// `/clear` the history, and the commands that a text can follow the mode.
pub proof fn a_command_changes_one_part(
    state: SessionView,
    mi25_enabled: bool,
    command: CommandView,
)
    ensures
        ({
            let next = next_state(state, mi25_enabled, command);
            &&& next.backend != state.backend ==> command is Model
            &&& next.history != state.history ==> command is Clear
            &&& next.mode != state.mode ==> command is Turn
            &&& next.pair_url == state.pair_url
        }),
{
}

/// Whatever the line is and whatever forms the partner has submitted, the
/// backend is never asked about an empty text.
pub proof fn no_empty_text_is_asked(
    state: SessionView,
    cfg: Config,
    line: Seq<char>,
    bodies: Seq<Seq<u8>>,
)
    ensures
        action_for(
            state,
            cfg,
            command_in(trimmed(line)),
            latest_after(bodies),
        ) matches ActionView::Ask(text) ==> text.len() > 0,
{
    the_latest_text_says_something(bodies);
}

/// After the partner has submitted a text, `/you` alone asks about it and
/// switches to the translation into Japanese.
pub proof fn you_asks_what_the_partner_submitted(
    state: SessionView,
    cfg: Config,
    bodies: Seq<Seq<u8>>,
    body: Seq<u8>,
)
    requires
        form_text(lossy_text(body)) is Some,
    ensures
        action_for(
            state,
            cfg,
            command_in("/you"@),
            latest_after(bodies.push(body)),
        ) == ActionView::Ask(form_text(lossy_text(body))->0),
        next_state(state, cfg.mi25_enabled, command_in("/you"@)).mode == Mode::ToJapanese,
{
    assert(bodies.push(body).drop_last() =~= bodies);
    crate::command::a_verb_takes_the_text_behind_it(Verb::You, ' ', seq![]);
}

/// A text behind one of the commands that a text can follow is asked as it
/// stands, without the white space around it, and the mode is that of the
/// command from then on.
pub proof fn a_text_behind_a_verb_is_asked(
    state: SessionView,
    cfg: Config,
    verb: Verb,
    space: char,
    text: Seq<char>,
    partner: Option<Seq<char>>,
)
    requires
        is_space(space),
        trimmed(text).len() > 0,
    ensures
        ({
            let command = command_in(verb.word() + seq![space] + text);
            let next = next_state(state, cfg.mi25_enabled, command);
            &&& action_for(state, cfg, command, partner) == ActionView::Ask(trimmed(text))
            &&& next.mode == match verb {
                Verb::Chat => Mode::Chat,
                Verb::Question => Mode::Question,
                Verb::Tw => Mode::ToTaiwanMandarin,
                Verb::Me => Mode::ToTaiwanMandarin,
                Verb::Jp => Mode::ToJapanese,
                Verb::You => Mode::ToJapanese,
                Verb::Pobo => Mode::Pobo,
            }
            &&& next.backend == state.backend
            &&& next.history == state.history
            &&& next.pair_url == state.pair_url
        }),
{
    crate::command::a_verb_takes_the_text_behind_it(verb, space, text);
}

/// One of these commands alone switches the mode. `/me` alone asks for a text,
/// `/you` alone asks about the partner's text where there is one, and the others
/// say which mode it is now.
pub proof fn a_verb_alone_switches_the_mode(
    state: SessionView,
    cfg: Config,
    verb: Verb,
    partner: Option<Seq<char>>,
)
    ensures
        ({
            let command = command_in(verb.word());
            let next = next_state(state, cfg.mi25_enabled, command);
            &&& action_for(state, cfg, command, partner) == match verb {
                Verb::Me => ActionView::Print("usage: /me TEXT\n"@),
                Verb::You => if partner is Some {
                    ActionView::Ask(partner->0)
                } else {
                    ActionView::Print(
                        "相手スマホ入力はまだありません。今は /you TEXT を使ってください。\n"@,
                    )
                },
                _ => ActionView::Print("mode switched: "@ + next.mode.label() + "\n"@),
            }
            &&& next.mode == match verb {
                Verb::Chat => Mode::Chat,
                Verb::Question => Mode::Question,
                Verb::Tw => Mode::ToTaiwanMandarin,
                Verb::Me => Mode::ToTaiwanMandarin,
                Verb::Jp => Mode::ToJapanese,
                Verb::You => Mode::ToJapanese,
                Verb::Pobo => Mode::Pobo,
            }
            &&& next.backend == state.backend
            &&& next.history == state.history
            &&& next.pair_url == state.pair_url
        }),
{
    crate::command::a_verb_takes_the_text_behind_it(verb, ' ', seq![]);
}

/// A line that does not begin with a slash is asked in the current mode, and
/// asking changes nothing yet.
pub proof fn a_plain_line_is_asked(
    state: SessionView,
    cfg: Config,
    line: Seq<char>,
    partner: Option<Seq<char>>,
)
    requires
        trimmed(line).len() > 0,
        trimmed(line)[0] != '/',
    ensures
        action_for(state, cfg, command_in(trimmed(line)), partner) == ActionView::Ask(
            trimmed(line),
        ),
        next_state(state, cfg.mi25_enabled, command_in(trimmed(line))) == state,
{
    crate::command::only_plain_text_is_said(trimmed(line));
}

/// `/model` with the name of a backend that may be used switches to it and says
/// so. With the MI25 backend where it is disabled, with an unknown name or
/// without a name it says that and switches nothing.
pub proof fn model_switches_to_the_named_backend(
    state: SessionView,
    cfg: Config,
    space: char,
    name: Seq<char>,
    partner: Option<Seq<char>>,
)
    requires
        is_space(space),
    ensures
        ({
            let command = command_in("/model"@ + seq![space] + name);
            let next = next_state(state, cfg.mi25_enabled, command);
            let action = action_for(state, cfg, command, partner);
            let named = backend_named(trimmed(name));
            &&& next.mode == state.mode && next.history == state.history && next.pair_url
                == state.pair_url
            &&& if trimmed(name).len() == 0 {
                &&& next.backend == state.backend
                &&& action == ActionView::Print(
                    "current backend: "@ + state.backend.label()
                        + "\navailable: mi25, openrouter, codex\n"@,
                )
            } else if named is None {
                &&& next.backend == state.backend
                &&& action == ActionView::Print(
                    "unknown backend: "@ + trimmed(name)
                        + "\navailable: mi25, openrouter, codex\n"@,
                )
            } else if named == Some(Backend::Mi25) && !cfg.mi25_enabled {
                &&& next.backend == state.backend
                &&& action == ActionView::Print(
                    "MI25 backend is disabled.\nZUTTOMO_MI25_ENABLED=true にすると有効化できます。\n"@,
                )
            } else {
                &&& Some(next.backend) == named
                &&& action == ActionView::Print(
                    "backend switched: "@ + next.backend.label() + "\n"@,
                )
            }
        }),
        action_for(state, cfg, command_in("/model"@), partner) == ActionView::Print(
            "current backend: "@ + state.backend.label()
                + "\navailable: mi25, openrouter, codex\n"@,
        ),
        next_state(state, cfg.mi25_enabled, command_in("/model"@)) == state,
{
    crate::command::model_and_export_take_the_text_behind_them(space, name);
}

/// `/export` writes the whole history to the named file, and to the usual file
/// where none is named or only the format is.
pub proof fn export_writes_the_history_to_the_named_file(
    state: SessionView,
    cfg: Config,
    space: char,
    name: Seq<char>,
    partner: Option<Seq<char>>,
)
    requires
        is_space(space),
    ensures
        ({
            let command = command_in("/export"@ + seq![space] + name);
            &&& action_for(state, cfg, command, partner) == ActionView::Export {
                path: if trimmed(name).len() == 0 || trimmed(name) == "md"@ {
                    "zuttomo-history.md"@
                } else {
                    trimmed(name)
                },
                document: markdown(state.history),
            }
            &&& next_state(state, cfg.mi25_enabled, command) == state
        }),
        action_for(state, cfg, command_in("/export"@), partner) == (ActionView::Export {
            path: "zuttomo-history.md"@,
            document: markdown(state.history),
        }),
        next_state(state, cfg.mi25_enabled, command_in("/export"@)) == state,
{
    crate::command::model_and_export_take_the_text_behind_them(space, name);
}

/// What the commands without an argument do. `/clear` forgets the messages, and
/// the others leave the state as it is.
pub proof fn bare_commands_do_what_they_say(
    state: SessionView,
    cfg: Config,
    partner: Option<Seq<char>>,
)
    ensures
        action_for(state, cfg, command_in(Seq::empty()), partner) == ActionView::Continue,
        action_for(state, cfg, command_in("/exit"@), partner) == ActionView::Quit(
            "檸檬烯姐、終了します。\n"@,
        ),
        action_for(state, cfg, command_in("/quit"@), partner) == ActionView::Quit(
            "檸檬烯姐、終了します。\n"@,
        ),
        action_for(state, cfg, command_in("/help"@), partner) == ActionView::Print(
            help(state.backend, state.mode, cfg),
        ),
        action_for(state, cfg, command_in("/aa"@), partner) == ActionView::ShowArt,
        action_for(state, cfg, command_in("/history"@), partner) == ActionView::Print(
            listing(state.history, 30),
        ),
        action_for(state, cfg, command_in("/clear"@), partner) == ActionView::Print(
            "memory history cleared. history file was not deleted.\n"@,
        ),
        action_for(state, cfg, command_in("/prompt"@), partner) == ActionView::Print(
            trimmed(instructions(state.mode)) + "\n"@,
        ),
        action_for(state, cfg, command_in("/pair"@), partner) == match state.pair_url {
            Some(url) => ActionView::Print("pair server is already running:\n"@ + url + "\n"@),
            None => ActionView::StartPair,
        },
        next_state(state, cfg.mi25_enabled, command_in("/clear"@)) == (SessionView {
            backend: state.backend,
            mode: state.mode,
            history: Seq::empty(),
            pair_url: state.pair_url,
        }),
        next_state(state, cfg.mi25_enabled, command_in(Seq::empty())) == state,
        next_state(state, cfg.mi25_enabled, command_in("/exit"@)) == state,
        next_state(state, cfg.mi25_enabled, command_in("/quit"@)) == state,
        next_state(state, cfg.mi25_enabled, command_in("/help"@)) == state,
        next_state(state, cfg.mi25_enabled, command_in("/aa"@)) == state,
        next_state(state, cfg.mi25_enabled, command_in("/history"@)) == state,
        next_state(state, cfg.mi25_enabled, command_in("/prompt"@)) == state,
        next_state(state, cfg.mi25_enabled, command_in("/pair"@)) == state,
{
    crate::command::bare_commands_are_their_words(Seq::empty());
    crate::command::bare_commands_are_their_words("/exit"@);
    crate::command::bare_commands_are_their_words("/quit"@);
    crate::command::bare_commands_are_their_words("/help"@);
    crate::command::bare_commands_are_their_words("/aa"@);
    crate::command::bare_commands_are_their_words("/history"@);
    crate::command::bare_commands_are_their_words("/clear"@);
    crate::command::bare_commands_are_their_words("/prompt"@);
    crate::command::bare_commands_are_their_words("/pair"@);
}

/// An unknown command is reported as it stands and changes nothing.
pub proof fn an_unknown_command_is_reported(
    state: SessionView,
    cfg: Config,
    input: Seq<char>,
    partner: Option<Seq<char>>,
)
    requires
        command_in(input) is Unknown,
    ensures
        input.len() > 0 && input[0] == '/',
        action_for(state, cfg, command_in(input), partner) == ActionView::Print(
            "unknown command: "@ + input + "\ntype /help for commands\n"@,
        ),
        next_state(state, cfg.mi25_enabled, command_in(input)) == state,
{
}

/// A turn adds the question, as the user's, and the answer, as the assistant's,
/// to the end of the history, both in the mode of the turn, and changes nothing
/// else.
pub proof fn a_turn_adds_question_and_answer(
    state: SessionView,
    mode: Mode,
    input: Seq<char>,
    answer: Seq<char>,
)
    ensures
        ({
            let next = after_turn(
                state,
                question_message(mode, input),
                answer_message(mode, answer),
            );
            let n = state.history.len() as int;
            &&& next.history.len() == n + 2
            &&& next.history.take(n) == state.history
            &&& next.history[n].role == "user"@
            &&& next.history[n].mode == mode.label()
            &&& next.history[n].content == input
            &&& next.history[n + 1].role == "assistant"@
            &&& next.history[n + 1].mode == mode.label()
            &&& next.history[n + 1].content == answer
            &&& next.backend == state.backend && next.mode == state.mode && next.pair_url
                == state.pair_url
        }),
{
    let next = after_turn(state, question_message(mode, input), answer_message(mode, answer));
    assert(next.history.take(state.history.len() as int) =~= state.history);
}

/// A session begins with the backend it is given, in conversation, with the
/// messages it is given and without a form.
pub proof fn a_session_begins_in_conversation(backend: Backend, history: Seq<MessageView>)
    ensures
        first_state(backend, history).backend == backend,
        first_state(backend, history).mode == Mode::Chat,
        first_state(backend, history).history == history,
        first_state(backend, history).pair_url is None,
{
}

/// What a turn has added is part of what is asked next, with its roles: the
/// last message before the new input is the answer, and the one before that the
/// question.
pub proof fn the_next_request_recalls_the_turn(
    state: SessionView,
    mode: Mode,
    input: Seq<char>,
    answer: Seq<char>,
    next_mode: Mode,
    next_input: Seq<char>,
)
    ensures
        ({
            let next = after_turn(
                state,
                question_message(mode, input),
                answer_message(mode, answer),
            );
            let messages = conversation(next.history, next_mode, next_input);
            let n = messages.len() as int;
            &&& n >= 4
            &&& messages[n - 3].role == "user"@
            &&& messages[n - 3].content == "[mode:"@ + mode.label() + "]\n"@ + input
            &&& messages[n - 2].role == "assistant"@
            &&& messages[n - 2].content == "[mode:"@ + mode.label() + "]\n"@ + answer
            &&& messages[n - 1].content == next_input
        }),
{
    let next = after_turn(state, question_message(mode, input), answer_message(mode, answer));
    let n = conversation(next.history, next_mode, next_input).len() as int;
    a_turn_adds_question_and_answer(state, mode, input, answer);
    a_request_frames_the_conversation(next.history, next_mode, next_input);
    earlier_messages_keep_role_and_content(next.history, next_mode, next_input, n - 3);
    earlier_messages_keep_role_and_content(next.history, next_mode, next_input, n - 2);
}

/// The prompt shows the backend and the mode that the next text is asked with.
pub proof fn the_prompt_shows_backend_and_mode(state: SessionView)
    ensures
        prompt_text(state.backend, state.mode) == "["@ + state.backend.label() + ":"@
            + state.mode.label() + "] ㄅㄆㄇㄈ> "@,
{
}

/// An answer is printed whole, between empty lines.
pub proof fn an_answer_is_printed_whole(answer: Seq<char>)
    ensures
        answer_text(answer).len() == answer.len() + 3,
        answer_text(answer).subrange(1, 1 + answer.len() as int) == answer,
        answer_text(answer)[0] == '\n',
        answer_text(answer)[answer.len() as int + 1] == '\n',
        answer_text(answer)[answer.len() as int + 2] == '\n',
{
    reveal_strlit("\n");
    reveal_strlit("\n\n");
    assert(answer_text(answer).subrange(1, 1 + answer.len() as int) =~= answer);
}

/// Where the form is served is printed once it is, and said again instead of
/// serving it anew whatever happens between.
pub proof fn a_served_form_is_not_served_again(
    state: SessionView,
    cfg: Config,
    url: Seq<char>,
    command: CommandView,
    partner: Option<Seq<char>>,
)
    ensures
        ({
            let served = after_event(state, cfg.mi25_enabled, Event::PairStarted(url));
            let later = next_state(served, cfg.mi25_enabled, command);
            &&& served.backend == state.backend && served.mode == state.mode && served.history
                == state.history
            &&& later.pair_url == Some(url)
            &&& action_for(later, cfg, command_in("/pair"@), partner) == ActionView::Print(
                "pair server is already running:\n"@ + url + "\n"@,
            )
        }),
        pair_text(url) == "請用你的手機輸入中文。\n我這邊會自動翻譯成日文。\n"@ + url + "\n"@,
{
    crate::command::bare_commands_are_their_words("/pair"@);
}

/// An error is printed whole, and so is the file that an export went to.
pub proof fn errors_and_files_are_named_whole(error: Seq<char>, path: Seq<char>)
    ensures
        pair_failure(error) == "pair server start failed: "@ + error
            + "\n今は /you TEXT で相手の台灣華語を直接日本語化できます。\n"@,
        export_text(path, Some(error)) == "export failed: "@ + error + "\n"@,
        export_text(path, None) == "exported: "@ + path + "\n"@,
{
}

/// The view of a session holds every part of its state, and the view of an
/// action is the same action with its texts.
pub proof fn views_hold_state_and_action(session: Session, text: String, other: String)
    ensures
        session@.backend == session.backend && session@.mode == session.mode,
        session@.history == message_views(session.history@),
        session@.pair_url == string_view(session.pair_url),
        Action::Continue@ == ActionView::Continue,
        Action::ShowArt@ == ActionView::ShowArt,
        Action::StartPair@ == ActionView::StartPair,
        Action::Quit(text)@ == ActionView::Quit(text@),
        Action::Print(text)@ == ActionView::Print(text@),
        Action::Ask(text)@ == ActionView::Ask(text@),
        (Action::Export { path: text, document: other })@ == (ActionView::Export {
            path: text@,
            document: other@,
        }),
{
}

} // verus!
