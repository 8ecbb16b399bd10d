//! What is asked of a backend, and what its reply says.

use crate::backend::Backend;
use crate::config::{allowed, Config};
use crate::encoding::{lossy_text, text_from_utf8_lossy};
use crate::json::{
    contents, first_in, json_in_bytes, member, text_in, value_from_slice, value_get, Json,
};
use crate::message::{last_items, message_views, trim_history, Message, MessageView};
use crate::mode::{instructions, instructions_tell_the_mode, system_prompt, Mode};
use crate::text::{
    begins_with, is_blank, is_space, slice_view, string_view, string_views, trim, trim_end_matches, trimmed, without_trailing,
};
use serde_json::{Error, Value};
use vstd::prelude::*;
use vstd::utf8::encode_utf8;

verus! {

broadcast use vstd::string::group_string_axioms;

// ---------------------------------------------------------------------------
// Requests to an OpenAI-compatible service

/// One message of a chat request.
#[derive(Debug, Clone, PartialEq, Eq)]
pub struct ChatMessage {
    /// Who speaks.
    pub role: String,
    /// What is said.
    pub content: String,
}

/// The texts of one message of a chat request.
pub struct ChatMessageView {
    /// Who speaks.
    pub role: Seq<char>,
    /// What is said.
    pub content: Seq<char>,
}

impl View for ChatMessage {
    type V = ChatMessageView;

    open spec fn view(&self) -> ChatMessageView {
        ChatMessageView { role: self.role@, content: self.content@ }
    }
}

/// The texts of the messages of a chat request.
pub open spec fn chat_views(list: Seq<ChatMessage>) -> Seq<ChatMessageView> {
    Seq::new(list.len(), |i: int| list[i]@)
}

/// A chat request.
#[derive(Debug, Clone, PartialEq, Eq)]
pub struct ChatRequest {
    /// Where it goes.
    pub url: String,
    /// The key that it carries.
    pub bearer: Option<String>,
    /// The model that is asked.
    pub model: String,
    /// The conversation so far and the new input.
    pub messages: Vec<ChatMessage>,
    /// The sampling temperature, in hundredths.
    pub temperature_hundredths: u32,
    /// The longest answer, in tokens.
    pub max_tokens: u32,
}

/// The contents of a chat request.
#[verifier::ext_equal]
pub struct ChatRequestView {
    /// Where it goes.
    pub url: Seq<char>,
    /// The key that it carries.
    pub bearer: Option<Seq<char>>,
    /// The model that is asked.
    pub model: Seq<char>,
    /// The conversation so far and the new input.
    pub messages: Seq<ChatMessageView>,
    /// The sampling temperature, in hundredths.
    pub temperature_hundredths: u32,
    /// The longest answer, in tokens.
    pub max_tokens: u32,
}

impl View for ChatRequest {
    type V = ChatRequestView;

    open spec fn view(&self) -> ChatRequestView {
        ChatRequestView {
            url: self.url@,
            bearer: string_view(self.bearer),
            model: self.model@,
            messages: chat_views(self.messages@),
            temperature_hundredths: self.temperature_hundredths,
            max_tokens: self.max_tokens,
        }
    }
}

/// An earlier message as part of a request.
pub open spec fn recalled(m: MessageView) -> ChatMessageView {
    ChatMessageView { role: m.role, content: "[mode:"@ + m.mode + "]\n"@ + m.content }
}

/// The instructions, the last twelve messages and the new input.
pub open spec fn conversation(
    history: Seq<MessageView>,
    mode: Mode,
    input: Seq<char>,
) -> Seq<ChatMessageView> {
    seq![ChatMessageView { role: "system"@, content: instructions(mode) }] + last_items(
        history,
        12,
    ).map_values(|m: MessageView| recalled(m)) + seq![
        ChatMessageView { role: "user"@, content: input },
    ]
}

/// The chat request for an input.
pub open spec fn chat_request(
    base_url: Seq<char>,
    api_key: Option<Seq<char>>,
    model: Seq<char>,
    history: Seq<MessageView>,
    mode: Mode,
    input: Seq<char>,
) -> ChatRequestView {
    ChatRequestView {
        url: without_trailing(base_url, '/') + "/chat/completions"@,
        bearer: api_key,
        model,
        messages: conversation(history, mode, input),
        temperature_hundredths: mode.hundredths(),
        max_tokens: mode.token_limit(),
    }
}

/// The messages of the chat request for an input.
fn conversation_messages(history: &[Message], mode: Mode, input: &str) -> (messages: Vec<
    ChatMessage,
>)
    ensures
        chat_views(messages@) == conversation(message_views(history@), mode, input@),
{
    let mut messages: Vec<ChatMessage> = Vec::new();
    messages.push(
        ChatMessage { role: "system".to_string(), content: system_prompt(mode).to_string() },
    );
    let recent = trim_history(history, 12);
    let len: usize = recent.len();
    let ghost first = ChatMessageView { role: "system"@, content: instructions(mode) };
    let ghost earlier = last_items(message_views(history@), 12).map_values(
        |m: MessageView| recalled(m),
    );
    assert(message_views(recent@) =~= last_items(message_views(history@), 12));
    assert(chat_views(messages@) =~= seq![first] + earlier.take(0));
    let mut i: usize = 0;
    while i < len
        invariant
            i <= len,
            len == recent@.len(),
            earlier == message_views(recent@).map_values(|m: MessageView| recalled(m)),
            chat_views(messages@) == seq![first] + earlier.take(i as int),
        decreases len - i,
    {
        let message = &recent[i];
        let mut content = "[mode:".to_string();
        content.append(message.mode.as_str());
        content.append("]\n");
        content.append(message.content.as_str());
        let ghost before = messages@;
        messages.push(ChatMessage { role: message.role.clone(), content });
        proof {
            assert(messages@.last()@ == recalled(message@));
            assert(earlier[i as int] == recalled(message@));
            assert(chat_views(messages@) =~= chat_views(before).push(recalled(message@)));
            assert(chat_views(messages@) =~= seq![first] + earlier.take(i + 1));
        }
        i = i + 1;
    }
    let ghost before = messages@;
    messages.push(ChatMessage { role: "user".to_string(), content: input.to_string() });
    proof {
        assert(earlier.take(len as int) =~= earlier);
        assert(chat_views(messages@) =~= chat_views(before).push(messages@.last()@));
        assert(chat_views(messages@) =~= conversation(message_views(history@), mode, input@));
    }
    messages
}

/// The chat request for an input.
pub fn openai_request(
    base_url: &str,
    api_key: Option<&str>,
    model: &str,
    history: &[Message],
    mode: Mode,
    input: &str,
) -> (request: ChatRequest)
    ensures
        request@ == chat_request(
            base_url@,
            slice_view(api_key),
            model@,
            message_views(history@),
            mode,
            input@,
        ),
{
    let mut url = trim_end_matches(base_url, '/').to_string();
    url.append("/chat/completions");
    let bearer = match api_key {
        Some(key) => Some(key.to_string()),
        None => None,
    };
    ChatRequest {
        url,
        bearer,
        model: model.to_string(),
        messages: conversation_messages(history, mode, input),
        temperature_hundredths: mode.temperature_hundredths(),
        max_tokens: mode.max_tokens(),
    }
}

/// A request begins with the instructions, ends with the input and carries at
/// most twelve earlier messages, the latest ones in their order.
pub proof fn a_request_is_bounded(history: Seq<MessageView>, mode: Mode, input: Seq<char>)
    ensures
        ({
            let messages = conversation(history, mode, input);
            &&& 2 <= messages.len() <= 14
            &&& messages[0].content == instructions(mode)
            &&& messages.last().content == input
            &&& forall|i: int|
                1 <= i < messages.len() - 1 ==> #[trigger] messages[i] == recalled(
                    history[history.len() - messages.len() + 1 + i],
                )
        }),
{
}

// ---------------------------------------------------------------------------
// Replies of an OpenAI-compatible service

/// Why a reply has no answer in it.
#[derive(Debug)]
pub enum ReplyError {
    /// It is no JSON.
    NotJson(Error),
    /// It is JSON without an answer.
    NoContent,
}

impl ReplyError {
    /// What there is to say about it.
    pub open spec fn text(self) -> Seq<char> {
        match self {
            ReplyError::NotJson(_) => "failed to parse JSON response"@,
            ReplyError::NoContent => "response did not contain choices[0].message.content"@,
        }
    }

    /// What there is to say about it.
    pub fn message(&self) -> (text: &'static str)
        ensures
            text@ == self.text(),
    {
        match self {
            ReplyError::NotJson(_) => "failed to parse JSON response",
            ReplyError::NoContent => "response did not contain choices[0].message.content",
        }
    }
}

/// The value under a name of a value that may be missing.
pub open spec fn member_of(json: Option<Json>, key: Seq<char>) -> Option<Json> {
    match json {
        Some(j) => member(j, key),
        None => None,
    }
}

/// The text at `choices[0].message.content`.
pub open spec fn reply_text(json: Json) -> Option<Seq<char>> {
    text_in(
        member_of(
            member_of(first_in(member(json, "choices"@)), "message"@),
            "content"@,
        ),
    )
}

/// The value under a name of a value that may be missing.
fn value_member<'a>(value: Option<&'a Value>, key: &str) -> (found: Option<&'a Value>)
    ensures
        found is Some <==> value is Some && member(contents(*value->0), key@) is Some,
        found matches Some(v) ==> member(contents(*value->0), key@) == Some(contents(*v)),
{
    match value {
        Some(v) => value_get(v, key),
        None => None,
    }
}

/// The text at `choices[0].message.content`.
fn content_in_reply<'a>(value: &'a Value) -> (content: Option<&'a str>)
    ensures
        slice_view(content) == reply_text(contents(*value)),
{
    let first = match value_get(value, "choices") {
        Some(choices) => match choices.as_array() {
            Some(items) => items.as_slice().first(),
            None => None,
        },
        None => None,
    };
    match value_member(value_member(first, "message"), "content") {
        Some(content) => content.as_str(),
        None => None,
    }
}

/// The answer in the text that a reply has for it: the text without the white
/// space around it.
pub fn answer_from_content(content: Option<&str>) -> (answer: Result<String, ReplyError>)
    ensures
        match content {
            None => answer matches Err(e) && e is NoContent,
            Some(c) => answer matches Ok(a) && a@ == trimmed(c@),
        },
{
    match content {
        Some(text) => Ok(trim(text).to_string()),
        None => Err(ReplyError::NoContent),
    }
}

/// `answer` is what a reply with these contents gives: the trimmed text at
/// `choices[0].message.content`, or that there is none.
pub open spec fn is_answer(json: Json, answer: Result<String, ReplyError>) -> bool {
    match reply_text(json) {
        None => answer matches Err(e) && e is NoContent,
        Some(text) => answer matches Ok(a) && a@ == trimmed(text),
    }
}

/// The answer in the JSON value of a reply.
pub fn answer_from_value(value: &Value) -> (answer: Result<String, ReplyError>)
    ensures
        is_answer(contents(*value), answer),
{
    answer_from_content(content_in_reply(value))
}

/// The answer in the body of a reply.
pub fn reply_answer(body: &[u8]) -> (answer: Result<String, ReplyError>)
    ensures
        match json_in_bytes(body@) {
            None => answer matches Err(e) && e is NotJson,
            Some(json) => is_answer(json, answer),
        },
{
    match value_from_slice(body) {
        Ok(value) => answer_from_value(&value),
        Err(error) => Err(ReplyError::NotJson(error)),
    }
}

// ---------------------------------------------------------------------------
// Runs of the `codex` program

/// A run of the `codex` program.
#[derive(Debug, Clone, PartialEq, Eq)]
pub struct CodexRun {
    /// The program.
    pub program: String,
    /// Its arguments.
    pub args: Vec<String>,
    /// What it reads from its standard input.
    pub input: String,
}

/// The contents of a run of the `codex` program.
#[verifier::ext_equal]
pub struct CodexRunView {
    /// The program.
    pub program: Seq<char>,
    /// Its arguments.
    pub args: Seq<Seq<char>>,
    /// What it reads from its standard input.
    pub input: Seq<char>,
}

impl View for CodexRun {
    type V = CodexRunView;

    open spec fn view(&self) -> CodexRunView {
        CodexRunView { program: self.program@, args: string_views(self.args@), input: self.input@ }
    }
}

/// An earlier message as part of the prompt.
pub open spec fn prompt_entry(m: MessageView) -> Seq<char> {
    "\n## "@ + m.role + " / "@ + m.mode + "\n"@ + m.content + "\n"@
}

/// Earlier messages as part of the prompt.
pub open spec fn prompt_entries(messages: Seq<MessageView>) -> Seq<char>
    decreases messages.len(),
{
    if messages.len() == 0 {
        seq![]
    } else {
        prompt_entries(messages.drop_last()) + prompt_entry(messages.last())
    }
}

/// The prompt up to the earlier messages.
pub open spec fn prompt_start(mode: Mode) -> Seq<char> {
    instructions(mode) + "\n\n# 現在のモード\n"@ + mode.label() + "\n\n# これまでの会話\n"@
}

/// The prompt for an input: the instructions, the mode, the last twelve
/// messages and the input.
pub open spec fn prompt(history: Seq<MessageView>, mode: Mode, input: Seq<char>) -> Seq<char> {
    prompt_start(mode) + prompt_entries(last_items(history, 12)) + "\n# 今回の入力\n"@ + input
        + "\n"@
}

/// The arguments of `codex`.
pub open spec fn codex_args(workdir: Option<Seq<char>>) -> Seq<Seq<char>> {
    seq!["exec"@, "--color"@, "never"@, "--skip-git-repo-check"@] + match workdir {
        Some(dir) => seq!["--cd"@, dir],
        None => seq![],
    } + seq!["-"@]
}

/// The prompt for an input.
pub fn codex_prompt(history: &[Message], mode: Mode, input: &str) -> (text: String)
    ensures
        text@ == prompt(message_views(history@), mode, input@),
{
    let mut text = system_prompt(mode).to_string();
    text.append("\n\n# 現在のモード\n");
    text.append(mode.name());
    text.append("\n\n# これまでの会話\n");
    let recent = trim_history(history, 12);
    let len: usize = recent.len();
    let ghost shown = message_views(recent@);
    assert(shown =~= last_items(message_views(history@), 12));
    let mut i: usize = 0;
    assert(text@ =~= prompt_start(mode) + prompt_entries(shown.take(0)));
    while i < len
        invariant
            i <= len,
            len == recent@.len(),
            shown == message_views(recent@),
            text@ == prompt_start(mode) + prompt_entries(shown.take(i as int)),
        decreases len - i,
    {
        let message = &recent[i];
        let ghost before = text@;
        text.append("\n## ");
        text.append(message.role.as_str());
        text.append(" / ");
        text.append(message.mode.as_str());
        text.append("\n");
        text.append(message.content.as_str());
        text.append("\n");
        proof {
            assert(shown.take(i + 1).drop_last() =~= shown.take(i as int));
            assert(shown.take(i + 1).last() == message@);
            assert(text@ =~= before + prompt_entry(message@));
            assert(text@ =~= prompt_start(mode) + (prompt_entries(shown.take(i as int))
                + prompt_entry(message@)));
        }
        i = i + 1;
    }
    assert(shown.take(len as int) =~= shown);
    text.append("\n# 今回の入力\n");
    text.append(input);
    text.append("\n");
    text
}

/// The run of `codex` for an input.
pub open spec fn codex_run(
    program: Seq<char>,
    workdir: Option<Seq<char>>,
    history: Seq<MessageView>,
    mode: Mode,
    input: Seq<char>,
) -> CodexRunView {
    CodexRunView { program, args: codex_args(workdir), input: prompt(history, mode, input) }
}

/// The run of `codex` for an input.
pub fn codex_request(
    program: &str,
    workdir: Option<&str>,
    history: &[Message],
    mode: Mode,
    input: &str,
) -> (run: CodexRun)
    ensures
        run@ == codex_run(
            program@,
            slice_view(workdir),
            message_views(history@),
            mode,
            input@,
        ),
{
    let mut args: Vec<String> = Vec::new();
    args.push("exec".to_string());
    args.push("--color".to_string());
    args.push("never".to_string());
    args.push("--skip-git-repo-check".to_string());
    if let Some(dir) = workdir {
        args.push("--cd".to_string());
        args.push(dir.to_string());
    }
    args.push("-".to_string());
    assert(string_views(args@) =~= codex_args(slice_view(workdir)));
    CodexRun { program: program.to_string(), args, input: codex_prompt(history, mode, input) }
}

/// What a run of `codex` comes to: the text that it wrote, or what it complained
/// of where it failed.
pub open spec fn codex_result(success: bool, stdout: Seq<u8>, stderr: Seq<u8>) -> Result<
    Seq<char>,
    Seq<char>,
> {
    if success {
        Ok(trimmed(lossy_text(stdout)))
    } else {
        Err("codex exec failed:\n"@ + trimmed(lossy_text(stderr)))
    }
}

/// The answer of `codex`: what it wrote, without the white space around it, or
/// what it complained of where it failed.
pub fn codex_answer(success: bool, stdout: &[u8], stderr: &[u8]) -> (answer: Result<
    String,
    String,
>)
    ensures
        if success {
            answer matches Ok(a) && a@ == trimmed(lossy_text(stdout@))
        } else {
            answer matches Err(e) && e@ == "codex exec failed:\n"@ + trimmed(lossy_text(stderr@))
        },
        match answer {
            Ok(a) => codex_result(success, stdout@, stderr@) == Ok::<Seq<char>, Seq<char>>(a@),
            Err(e) => codex_result(success, stdout@, stderr@) == Err::<Seq<char>, Seq<char>>(e@),
        },
{
    if success {
        let text = text_from_utf8_lossy(stdout);
        Ok(trim(text.as_str()).to_string())
    } else {
        let text = text_from_utf8_lossy(stderr);
        let mut error = "codex exec failed:\n".to_string();
        error.append(trim(text.as_str()));
        Err(error)
    }
}

// ---------------------------------------------------------------------------
// The call that a backend needs

/// The call that gets an answer.
#[derive(Debug, Clone, PartialEq, Eq)]
pub enum BackendCall {
    /// Send a chat request.
    Http(ChatRequest),
    /// Run `codex`.
    Codex(CodexRun),
}

/// The contents of the call that gets an answer.
pub enum BackendCallView {
    /// Send a chat request.
    Http(ChatRequestView),
    /// Run `codex`.
    Codex(CodexRunView),
}

impl View for BackendCall {
    type V = BackendCallView;

    open spec fn view(&self) -> BackendCallView {
        match self {
            BackendCall::Http(request) => BackendCallView::Http(request@),
            BackendCall::Codex(run) => BackendCallView::Codex(run@),
        }
    }
}

/// Why a backend cannot be asked.
#[derive(Debug, Clone, Copy, PartialEq, Eq, Structural)]
pub enum AskError {
    /// The MI25 backend may not be used.
    Mi25Disabled,
    /// There is no key for OpenRouter.
    NoApiKey,
}

impl AskError {
    /// What there is to say about it.
    pub open spec fn text(self) -> Seq<char> {
        match self {
            AskError::Mi25Disabled =>
                "MI25 backend is disabled.\nZUTTOMO_MI25_ENABLED=true にすると有効化できます。"@,
            AskError::NoApiKey =>
                "OPENROUTER_API_KEY が未設定です。\nexport OPENROUTER_API_KEY=\"...\""@,
        }
    }

    /// What there is to say about it.
    pub fn message(self) -> (text: &'static str)
        ensures
            text@ == self.text(),
    {
        match self {
            AskError::Mi25Disabled =>
                "MI25 backend is disabled.\nZUTTOMO_MI25_ENABLED=true にすると有効化できます。",
            AskError::NoApiKey =>
                "OPENROUTER_API_KEY が未設定です。\nexport OPENROUTER_API_KEY=\"...\"",
        }
    }
}

/// The call that gets an answer from a backend, or why there is none.
pub open spec fn planned_call(
    cfg: Config,
    backend: Backend,
    history: Seq<MessageView>,
    mode: Mode,
    input: Seq<char>,
) -> Result<BackendCallView, AskError> {
    match backend {
        Backend::Mi25 => if cfg.mi25_enabled {
            Ok(
                BackendCallView::Http(
                    chat_request(
                        cfg.mi25_base_url@,
                        None,
                        cfg.mi25_model@,
                        history,
                        mode,
                        input,
                    ),
                ),
            )
        } else {
            Err(AskError::Mi25Disabled)
        },
        Backend::OpenRouter => match string_view(cfg.openrouter_api_key) {
            Some(key) => Ok(
                BackendCallView::Http(
                    chat_request(
                        cfg.openrouter_base_url@,
                        Some(key),
                        cfg.openrouter_model@,
                        history,
                        mode,
                        input,
                    ),
                ),
            ),
            None => Err(AskError::NoApiKey),
        },
        Backend::Codex => Ok(
            BackendCallView::Codex(
                codex_run(
                    cfg.codex_bin@,
                    string_view(cfg.codex_workdir),
                    history,
                    mode,
                    input,
                ),
            ),
        ),
    }
}

/// The contents of a planned call.
pub open spec fn call_view(call: Result<BackendCall, AskError>) -> Result<
    BackendCallView,
    AskError,
> {
    match call {
        Ok(c) => Ok(c@),
        Err(e) => Err(e),
    }
}

/// The call that gets an answer from a backend, or why there is none.
pub fn ask_backend(
    cfg: &Config,
    backend: Backend,
    history: &[Message],
    mode: Mode,
    input: &str,
) -> (call: Result<BackendCall, AskError>)
    ensures
        call_view(call) == planned_call(*cfg, backend, message_views(history@), mode, input@),
{
    match backend {
        Backend::Mi25 => {
            if !cfg.mi25_enabled {
                return Err(AskError::Mi25Disabled);
            }
            Ok(
                BackendCall::Http(
                    openai_request(
                        cfg.mi25_base_url.as_str(),
                        None,
                        cfg.mi25_model.as_str(),
                        history,
                        mode,
                        input,
                    ),
                ),
            )
        },
        Backend::OpenRouter => match &cfg.openrouter_api_key {
            Some(key) => Ok(
                BackendCall::Http(
                    openai_request(
                        cfg.openrouter_base_url.as_str(),
                        Some(key.as_str()),
                        cfg.openrouter_model.as_str(),
                        history,
                        mode,
                        input,
                    ),
                ),
            ),
            None => Err(AskError::NoApiKey),
        },
        Backend::Codex => {
            let workdir = match &cfg.codex_workdir {
                Some(dir) => Some(dir.as_str()),
                None => None,
            };
            Ok(
                BackendCall::Codex(
                    codex_request(cfg.codex_bin.as_str(), workdir, history, mode, input),
                ),
            )
        },
    }
}

/// A backend that may be used is never refused as disabled.
pub proof fn an_allowed_backend_is_not_disabled(
    cfg: Config,
    backend: Backend,
    history: Seq<MessageView>,
    mode: Mode,
    input: Seq<char>,
)
    requires
        allowed(backend, cfg.mi25_enabled),
    ensures
        planned_call(cfg, backend, history, mode, input) != Err::<BackendCallView, AskError>(
            AskError::Mi25Disabled,
        ),
{
}

// ---------------------------------------------------------------------------
// Laws

/// A request has the instructions of its mode first, as the system says them,
/// and the input last, as the user says it.
pub proof fn a_request_frames_the_conversation(
    history: Seq<MessageView>,
    mode: Mode,
    input: Seq<char>,
)
    ensures
        ({
            let messages = conversation(history, mode, input);
            let last = messages.len() - 1;
            &&& messages[0].role == "system"@ && messages[0].content == instructions(mode)
            &&& messages[last].role == "user"@ && messages[last].content == input
            &&& messages.len() == if history.len() < 12 {
                history.len() + 2
            } else {
                14
            }
        }),
{
}

/// Each earlier message in a request keeps the role of the message of the
/// history that it stands for, and says its mode and its whole content. The
/// latest messages are taken, in their order.
pub proof fn earlier_messages_keep_role_and_content(
    history: Seq<MessageView>,
    mode: Mode,
    input: Seq<char>,
    i: int,
)
    requires
        1 <= i < conversation(history, mode, input).len() - 1,
    ensures
        ({
            let messages = conversation(history, mode, input);
            let at = history.len() - messages.len() + 1 + i;
            &&& 0 <= at < history.len()
            &&& messages[i].role == history[at].role
            &&& messages[i].content == "[mode:"@ + history[at].mode + "]\n"@ + history[at].content
        }),
{
}

/// A request goes to the path for chats below the base address, however many
/// slashes that ends with, and carries the key, the model and the limits of the
/// mode.
pub proof fn a_request_is_addressed(
    base: Seq<char>,
    slashes: nat,
    api_key: Option<Seq<char>>,
    model: Seq<char>,
    history: Seq<MessageView>,
    mode: Mode,
    input: Seq<char>,
)
    requires
        base.len() > 0 ==> base.last() != '/',
    ensures
        ({
            let request = chat_request(
                base + Seq::new(slashes, |i: int| '/'),
                api_key,
                model,
                history,
                mode,
                input,
            );
            &&& request.url == base + "/chat/completions"@
            &&& request.bearer == api_key
            &&& request.model == model
            &&& request.messages == conversation(history, mode, input)
            &&& request.temperature_hundredths == match mode {
                Mode::Question => 25u32,
                Mode::Pobo => 20u32,
                _ => 30u32,
            }
            &&& request.max_tokens == match mode {
                Mode::Chat => 900u32,
                Mode::Question => 1600u32,
                Mode::ToTaiwanMandarin => 500u32,
                Mode::ToJapanese => 700u32,
                Mode::Pobo => 400u32,
            }
        }),
{
    crate::text::trailing_characters_are_cut(base, '/', slashes);
}

/// Without earlier messages the prompt for `codex` is the instructions of the
/// mode, the name of the mode and the input under their headings.
pub proof fn a_first_prompt_has_mode_and_input(mode: Mode, input: Seq<char>)
    ensures
        prompt(seq![], mode, input) == instructions(mode) + "\n\n# 現在のモード\n"@ + mode.label()
            + "\n\n# これまでの会話\n"@ + "\n# 今回の入力\n"@ + input + "\n"@,
{
    assert(prompt(seq![], mode, input) =~= instructions(mode) + "\n\n# 現在のモード\n"@
        + mode.label() + "\n\n# これまでの会話\n"@ + "\n# 今回の入力\n"@ + input + "\n"@);
}

/// One more message in the history, where it has less than twelve, adds that
/// message with its role, its mode and its whole content before the input and
/// changes nothing else.
pub proof fn a_prompt_grows_by_one_message(
    history: Seq<MessageView>,
    added: MessageView,
    mode: Mode,
    input: Seq<char>,
)
    requires
        history.len() < 12,
    ensures
        ({
            let end = "\n# 今回の入力\n"@ + input + "\n"@;
            exists|front: Seq<char>|
                prompt(history, mode, input) == #[trigger] (front + end) && prompt(
                    history.push(added),
                    mode,
                    input,
                ) == front + ("\n## "@ + added.role + " / "@ + added.mode + "\n"@ + added.content
                    + "\n"@) + end
        }),
{
    let end = "\n# 今回の入力\n"@ + input + "\n"@;
    let front = prompt_start(mode) + prompt_entries(history);
    let piece = "\n## "@ + added.role + " / "@ + added.mode + "\n"@ + added.content + "\n"@;
    assert(history.push(added).drop_last() =~= history);
    assert(prompt(history, mode, input) =~= front + end);
    assert(prompt(history.push(added), mode, input) =~= front + piece + end);
}

/// Only the last twelve messages are in the prompt for `codex`.
pub proof fn a_prompt_has_the_last_twelve(
    history: Seq<MessageView>,
    mode: Mode,
    input: Seq<char>,
)
    requires
        history.len() > 12,
    ensures
        prompt(history, mode, input) == prompt(history.skip(history.len() - 12), mode, input),
{
}

/// The prompt for `codex` begins with the instructions of its mode and ends
/// with the input.
pub proof fn a_prompt_has_instructions_and_input(
    history: Seq<MessageView>,
    mode: Mode,
    input: Seq<char>,
)
    ensures
        begins_with(
            prompt(history, mode, input),
            instructions(mode) + "\n\n# 現在のモード\n"@ + mode.label() + "\n\n# これまでの会話\n"@,
        ),
        begins_with(prompt(history, mode, input), instructions(mode)),
        exists|front: Seq<char>|
            prompt(history, mode, input) == #[trigger] (front + ("\n# 今回の入力\n"@ + input
                + "\n"@)),
{
    let text = prompt(history, mode, input);
    let start = instructions(mode) + "\n\n# 現在のモード\n"@ + mode.label()
        + "\n\n# これまでの会話\n"@;
    let front = start + prompt_entries(last_items(history, 12));
    assert(text =~= front + ("\n# 今回の入力\n"@ + input + "\n"@));
    assert(text.take(start.len() as int) =~= start);
    assert(text.take(instructions(mode).len() as int) =~= instructions(mode));
}

/// `codex` is run to execute what it reads, in the given directory where there
/// is one.
pub proof fn codex_is_told_where_to_work(dir: Seq<char>)
    ensures
        codex_args(None) == seq![
            "exec"@,
            "--color"@,
            "never"@,
            "--skip-git-repo-check"@,
            "-"@,
        ],
        codex_args(Some(dir)) == seq![
            "exec"@,
            "--color"@,
            "never"@,
            "--skip-git-repo-check"@,
            "--cd"@,
            dir,
            "-"@,
        ],
{
    assert(codex_args(None) =~= seq![
        "exec"@,
        "--color"@,
        "never"@,
        "--skip-git-repo-check"@,
        "-"@,
    ]);
    assert(codex_args(Some(dir)) =~= seq![
        "exec"@,
        "--color"@,
        "never"@,
        "--skip-git-repo-check"@,
        "--cd"@,
        dir,
        "-"@,
    ]);
}

/// The call that is planned goes to the backend that was named, with the mode,
/// the history and the input that were given: `codex` is run with the prompt
/// for them, and a service is sent the conversation for them, under its own
/// address, model and key. A backend is refused exactly where it is disabled or
/// its key is missing.
pub proof fn a_call_is_planned_for_what_was_asked(
    cfg: Config,
    backend: Backend,
    history: Seq<MessageView>,
    mode: Mode,
    input: Seq<char>,
)
    ensures
        match planned_call(cfg, backend, history, mode, input) {
            Ok(BackendCallView::Codex(run)) => {
                &&& backend == Backend::Codex
                &&& run.program == cfg.codex_bin@
                &&& run.args == codex_args(string_view(cfg.codex_workdir))
                &&& run.input == prompt(history, mode, input)
                &&& begins_with(run.input, instructions(mode))
            },
            Ok(BackendCallView::Http(request)) => {
                &&& backend != Backend::Codex
                &&& request.messages == conversation(history, mode, input)
                &&& request.messages[0].content == instructions(mode)
                &&& request.messages.last().content == input
                &&& request.temperature_hundredths == mode.hundredths()
                &&& request.max_tokens == mode.token_limit()
                &&& backend == Backend::Mi25 ==> {
                    &&& cfg.mi25_enabled
                    &&& request.bearer is None
                    &&& request.model == cfg.mi25_model@
                    &&& request.url == without_trailing(cfg.mi25_base_url@, '/')
                        + "/chat/completions"@
                }
                &&& backend == Backend::OpenRouter ==> {
                    &&& request.bearer is Some
                    &&& request.bearer == string_view(cfg.openrouter_api_key)
                    &&& request.model == cfg.openrouter_model@
                    &&& request.url == without_trailing(cfg.openrouter_base_url@, '/')
                        + "/chat/completions"@
                }
            },
            Err(AskError::Mi25Disabled) => backend == Backend::Mi25 && !cfg.mi25_enabled,
            Err(AskError::NoApiKey) => backend == Backend::OpenRouter && cfg.openrouter_api_key
                is None,
        },
{
    a_prompt_has_instructions_and_input(history, mode, input);
}

/// Calls that are planned for two modes differ.
pub proof fn calls_for_two_modes_differ(
    cfg: Config,
    backend: Backend,
    history: Seq<MessageView>,
    input: Seq<char>,
    a: Mode,
    b: Mode,
)
    requires
        planned_call(cfg, backend, history, a, input) is Ok,
        planned_call(cfg, backend, history, a, input) == planned_call(
            cfg,
            backend,
            history,
            b,
            input,
        ),
    ensures
        a == b,
{
    a_call_is_planned_for_what_was_asked(cfg, backend, history, a, input);
    a_call_is_planned_for_what_was_asked(cfg, backend, history, b, input);
    match planned_call(cfg, backend, history, a, input)->Ok_0 {
        BackendCallView::Codex(run) => {
            instructions_tell_the_mode(a, b, run.input);
        },
        BackendCallView::Http(request) => {
            let text = instructions(a);
            assert(text.take(text.len() as int) =~= text);
            instructions_tell_the_mode(a, b, text);
        },
    }
}

/// Calls that are planned for two inputs differ.
pub proof fn calls_for_two_inputs_differ(
    cfg: Config,
    backend: Backend,
    history: Seq<MessageView>,
    mode: Mode,
    a: Seq<char>,
    b: Seq<char>,
)
    requires
        planned_call(cfg, backend, history, mode, a) is Ok,
        planned_call(cfg, backend, history, mode, a) == planned_call(
            cfg,
            backend,
            history,
            mode,
            b,
        ),
    ensures
        a == b,
{
    a_call_is_planned_for_what_was_asked(cfg, backend, history, mode, a);
    a_call_is_planned_for_what_was_asked(cfg, backend, history, mode, b);
    if backend == Backend::Codex {
        let front = prompt_start(mode) + prompt_entries(last_items(history, 12))
            + "\n# 今回の入力\n"@;
        let n = front.len() as int;
        let x = prompt(history, mode, a);
        let y = prompt(history, mode, b);
        reveal_strlit("\n");
        assert(x.len() == n + a.len() + 1);
        assert(y.len() == n + b.len() + 1);
        assert(x.subrange(n, n + a.len()) =~= a);
        assert(y.subrange(n, n + b.len()) =~= b);
    }
}

/// The answer of a reply is the text at `choices[0].message.content`, whatever
/// else the reply holds.
pub proof fn the_answer_is_the_first_choice(
    reply: Map<Seq<char>, Json>,
    choices: Seq<Json>,
    choice: Map<Seq<char>, Json>,
    message: Map<Seq<char>, Json>,
    text: Seq<char>,
)
    requires
        reply.dom().contains("choices"@) && reply["choices"@] == Json::Array(choices),
        choices.len() > 0 && choices[0] == Json::Object(choice),
        choice.dom().contains("message"@) && choice["message"@] == Json::Object(message),
        message.dom().contains("content"@) && message["content"@] == Json::Text(text),
    ensures
        reply_text(Json::Object(reply)) == Some(text),
{
}

/// A reply that has an answer has it as a text at `choices[0].message.content`.
pub proof fn an_answer_stands_in_the_first_choice(json: Json)
    requires
        reply_text(json) is Some,
    ensures
        json matches Json::Object(reply) && reply.dom().contains("choices"@) && (
        reply["choices"@] matches Json::Array(choices) && choices.len() > 0 && (
        choices[0] matches Json::Object(choice) && choice.dom().contains("message"@) && (
        choice["message"@] matches Json::Object(message) && message.dom().contains("content"@)
            && message["content"@] == Json::Text(reply_text(json)->0)))),
{
}

/// An answer is the text of the reply without the white space around it; where
/// the reply has no text there is no answer.
pub proof fn an_answer_is_the_trimmed_text(json: Json, answer: Result<String, ReplyError>)
    requires
        is_answer(json, answer),
    ensures
        answer is Ok <==> reply_text(json) is Some,
        answer matches Ok(a) ==> a@ == trimmed(reply_text(json)->0),
        answer matches Err(e) ==> e is NoContent,
{
}

/// A run of `codex` that succeeds gives the whole text that it wrote and one
/// that fails the whole text that it complained with, without the white space
/// around them, whatever it wrote on the other side.
pub proof fn a_run_gives_what_was_written(
    before: Seq<char>,
    text: Seq<char>,
    after: Seq<char>,
    other: Seq<u8>,
)
    requires
        is_blank(before),
        is_blank(after),
        text.len() > 0 ==> !is_space(text[0]) && !is_space(text.last()),
    ensures
        codex_result(true, encode_utf8(before + text + after), other) == Ok::<
            Seq<char>,
            Seq<char>,
        >(text),
        codex_result(false, other, encode_utf8(before + text + after)) == Err::<
            Seq<char>,
            Seq<char>,
        >("codex exec failed:\n"@ + text),
{
    crate::encoding::reading_undoes_encoding(before + text + after);
    crate::text::trimming_takes_outer_space(before, text, after);
}

/// The views of requests, of runs and of the calls that hold them have every
/// part of them.
pub proof fn views_hold_the_calls(
    message: ChatMessage,
    list: Seq<ChatMessage>,
    request: ChatRequest,
    run: CodexRun,
    i: int,
)
    ensures
        message@.role == message.role@ && message@.content == message.content@,
        chat_views(list).len() == list.len(),
        0 <= i < list.len() ==> chat_views(list)[i] == list[i]@,
        request@.url == request.url@ && request@.model == request.model@,
        request@.bearer == string_view(request.bearer),
        request@.messages == chat_views(request.messages@),
        request@.temperature_hundredths == request.temperature_hundredths,
        request@.max_tokens == request.max_tokens,
        run@.program == run.program@ && run@.input == run.input@,
        run@.args == string_views(run.args@),
        BackendCall::Http(request)@ == BackendCallView::Http(request@),
        BackendCall::Codex(run)@ == BackendCallView::Codex(run@),
        call_view(Ok(BackendCall::Http(request))) == Ok::<BackendCallView, AskError>(
            BackendCallView::Http(request@),
        ),
        call_view(Ok(BackendCall::Codex(run))) == Ok::<BackendCallView, AskError>(
            BackendCallView::Codex(run@),
        ),
        forall|e: AskError| #[trigger]
            call_view(Err(e)) == Err::<BackendCallView, AskError>(e),
{
}

} // verus!
