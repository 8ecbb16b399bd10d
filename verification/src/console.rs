//! What the program prints, and its command line.

use crate::backend::Backend;
use crate::config::Config;
use crate::mode::Mode;
use crate::number::{decimal, decimal_text};
use crate::text::{begins_with, join, joined, same_text, string_views};
use vstd::prelude::*;

verus! {

broadcast use vstd::string::group_string_axioms;

/// The title of the banner.
pub const TITLE: &'static str = r#"# りもこズッ友キラキラポボモフォ2.0
## 檸檬烯姐總合熱烈爆裂友情智慧板
### 昨日的技術交流、今日的ズッ友

"#;

/// The help, from the list of commands up to the first setting.
pub const HELP_COMMANDS: &'static str = r#"

commands:
  /tw TEXT          日本語・ローマ字・英語 -> 台灣華語
  /me TEXT          /tw の別名。相手に見せる文
  /jp TEXT          台灣華語・繁體中文 -> 日本語
  /you TEXT         相手入力を日本語化
  /pobo TEXT        台灣華語 + ㄅㄆㄇㄈ 少し
  /chat [TEXT]      翻訳・会話モード
  /question [TEXT]  技術質問モード
  /model [NAME]     mi25 / openrouter / codex
  /history          直近履歴を表示
  /clear            メモリ上の履歴を消去
  /prompt           現在モードのsystem prompt表示
  /export md        履歴を zuttomo-history.md に出力
  /aa               起動バナーAAを表示
  /pair             相手スマホ入力フォームを起動
  /exit, /quit      終了

env:
  ZUTTOMO_DEFAULT_BACKEND="#;

/// The usage of the command line.
pub const USAGE: &'static str = r#"zuttomo 0.1.0

usage:
  zuttomo --run       start the REPL
  zuttomo             start the REPL
  zuttomo --help      show this help
  zuttomo --version   show version

inside REPL:
  /tw TEXT, /me TEXT, /jp TEXT, /you [TEXT], /pobo TEXT
  /question [TEXT], /model [mi25|openrouter|codex], /pair
"#;

/// The version of the program.
pub const VERSION: &'static str = "zuttomo 0.1.0\n";

// ---------------------------------------------------------------------------
// Banner and help

/// The banner: the title, the state and where to find help.
pub open spec fn banner(backend: Backend, mode: Mode, messages: nat) -> Seq<char> {
    TITLE@ + "backend="@ + backend.label() + " mode="@ + mode.label() + " history="@ + decimal(
        messages,
    ) + " messages\ntype /help for commands\n\n"@
}

/// The banner.
pub fn banner_text(backend: Backend, mode: Mode, messages: usize) -> (text: String)
    ensures
        text@ == banner(backend, mode, messages as nat),
{
    let mut text = TITLE.to_string();
    text.append("backend=");
    text.append(backend.name());
    text.append(" mode=");
    text.append(mode.name());
    text.append(" history=");
    text.append(decimal_text(messages as u64).as_str());
    text.append(" messages\ntype /help for commands\n\n");
    text
}

/// `true` or `false`.
pub open spec fn flag(on: bool) -> Seq<char> {
    if on {
        "true"@
    } else {
        "false"@
    }
}

/// The help: the state, the commands and the settings.
pub open spec fn help(backend: Backend, mode: Mode, cfg: Config) -> Seq<char> {
    "current backend="@ + backend.label() + " mode="@ + mode.label() + HELP_COMMANDS@
        + cfg.default_backend.label() + "\n  ZUTTOMO_MI25_ENABLED="@ + flag(cfg.mi25_enabled)
        + "\n  ZUTTOMO_MI25_BASE_URL="@ + cfg.mi25_base_url@ + "\n  ZUTTOMO_MI25_MODEL="@
        + cfg.mi25_model@ + "\n  OPENROUTER_BASE_URL="@ + cfg.openrouter_base_url@
        + "\n  OPENROUTER_MODEL="@ + cfg.openrouter_model@ + "\n  CODEX_BIN="@ + cfg.codex_bin@
        + "\n  ZUTTOMO_HISTORY="@ + cfg.history_path@ + "\n  ZUTTOMO_PAIR_HOST="@
        + cfg.pair_host@ + "\n  ZUTTOMO_PAIR_PORT="@ + decimal(cfg.pair_port as nat)
        + "\n  ZUTTOMO_HTTP_TIMEOUT_SECS="@ + decimal(cfg.http_timeout_secs as nat)
        + "\n  ZUTTOMO_OSS_URL="@ + cfg.oss_url@ + "\n"@
}

/// The help.
pub fn help_text(backend: Backend, mode: Mode, cfg: &Config) -> (text: String)
    ensures
        text@ == help(backend, mode, *cfg),
{
    let mut text = "current backend=".to_string();
    text.append(backend.name());
    text.append(" mode=");
    text.append(mode.name());
    text.append(HELP_COMMANDS);
    text.append(cfg.default_backend.name());
    text.append("\n  ZUTTOMO_MI25_ENABLED=");
    text.append(
        if cfg.mi25_enabled {
            "true"
        } else {
            "false"
        },
    );
    text.append("\n  ZUTTOMO_MI25_BASE_URL=");
    text.append(cfg.mi25_base_url.as_str());
    text.append("\n  ZUTTOMO_MI25_MODEL=");
    text.append(cfg.mi25_model.as_str());
    text.append("\n  OPENROUTER_BASE_URL=");
    text.append(cfg.openrouter_base_url.as_str());
    text.append("\n  OPENROUTER_MODEL=");
    text.append(cfg.openrouter_model.as_str());
    text.append("\n  CODEX_BIN=");
    text.append(cfg.codex_bin.as_str());
    text.append("\n  ZUTTOMO_HISTORY=");
    text.append(cfg.history_path.as_str());
    text.append("\n  ZUTTOMO_PAIR_HOST=");
    text.append(cfg.pair_host.as_str());
    text.append("\n  ZUTTOMO_PAIR_PORT=");
    text.append(decimal_text(cfg.pair_port as u64).as_str());
    text.append("\n  ZUTTOMO_HTTP_TIMEOUT_SECS=");
    text.append(decimal_text(cfg.http_timeout_secs).as_str());
    text.append("\n  ZUTTOMO_OSS_URL=");
    text.append(cfg.oss_url.as_str());
    text.append("\n");
    text
}

// ---------------------------------------------------------------------------
// Failures

/// What to look at when a backend fails.
pub open spec fn advice(backend: Backend) -> Seq<char> {
    match backend {
        Backend::Mi25 =>
            "ふえぇぇ……MI25 APIに接続できません。\nZUTTOMO_MI25_BASE_URL と ZUTTOMO_MI25_MODEL を確認してください。\n"@,
        Backend::OpenRouter =>
            "ふえぇぇ……OpenRouter API呼び出しに失敗しました。\nOPENROUTER_API_KEY と OPENROUTER_MODEL を確認してください。\n"@,
        Backend::Codex =>
            "ふえぇぇ……codex exec が失敗しました。\nCODEX_BIN または CODEX_WORKDIR を確認してください。\n"@,
    }
}

/// What is printed when a backend fails.
pub open spec fn failure(backend: Backend, error: Seq<char>) -> Seq<char> {
    "\n"@ + advice(backend) + error + "\n\n"@
}

/// What is printed when a backend fails.
pub fn backend_error_text(backend: Backend, error: &str) -> (text: String)
    ensures
        text@ == failure(backend, error@),
{
    let mut text = "\n".to_string();
    text.append(
        match backend {
            Backend::Mi25 =>
                "ふえぇぇ……MI25 APIに接続できません。\nZUTTOMO_MI25_BASE_URL と ZUTTOMO_MI25_MODEL を確認してください。\n",
            Backend::OpenRouter =>
                "ふえぇぇ……OpenRouter API呼び出しに失敗しました。\nOPENROUTER_API_KEY と OPENROUTER_MODEL を確認してください。\n",
            Backend::Codex =>
                "ふえぇぇ……codex exec が失敗しました。\nCODEX_BIN または CODEX_WORKDIR を確認してください。\n",
        },
    );
    text.append(error);
    text.append("\n\n");
    text
}

// ---------------------------------------------------------------------------
// The command line

/// What the command line asks for.
#[derive(Debug, Clone, PartialEq, Eq)]
pub enum CliAction {
    /// Start the prompt.
    Run,
    /// Show the usage.
    Usage,
    /// Show the version.
    Version,
    /// Show the usage and fail with this message.
    Unknown(String),
}

/// The contents of what the command line asks for.
pub enum CliActionView {
    /// Start the prompt.
    Run,
    /// Show the usage.
    Usage,
    /// Show the version.
    Version,
    /// Show the usage and fail with this message.
    Unknown(Seq<char>),
}

impl View for CliAction {
    type V = CliActionView;

    open spec fn view(&self) -> CliActionView {
        match self {
            CliAction::Run => CliActionView::Run,
            CliAction::Usage => CliActionView::Usage,
            CliAction::Version => CliActionView::Version,
            CliAction::Unknown(message) => CliActionView::Unknown(message@),
        }
    }
}

/// What the arguments after the program name ask for.
pub open spec fn cli_request(args: Seq<Seq<char>>) -> CliActionView {
    if args.len() == 0 {
        CliActionView::Run
    } else if args.len() == 1 && (args[0] == "--run"@ || args[0] == "run"@) {
        CliActionView::Run
    } else if args.len() == 1 && (args[0] == "--help"@ || args[0] == "-h"@ || args[0]
        == "help"@) {
        CliActionView::Usage
    } else if args.len() == 1 && (args[0] == "--version"@ || args[0] == "-V"@ || args[0]
        == "version"@) {
        CliActionView::Version
    } else {
        CliActionView::Unknown("unknown zuttomo option: "@ + joined(args, " "@))
    }
}

/// What the arguments after the program name ask for.
pub fn cli_action(args: &Vec<String>) -> (action: CliAction)
    ensures
        action@ == cli_request(string_views(args@)),
{
    if args.len() == 0 {
        return CliAction::Run;
    }
    if args.len() == 1 {
        let arg = args[0].as_str();
        if same_text(arg, "--run") || same_text(arg, "run") {
            return CliAction::Run;
        }
        if same_text(arg, "--help") || same_text(arg, "-h") || same_text(arg, "help") {
            return CliAction::Usage;
        }
        if same_text(arg, "--version") || same_text(arg, "-V") || same_text(arg, "version") {
            return CliAction::Version;
        }
    }
    let mut message = "unknown zuttomo option: ".to_string();
    message.append(join(args, " ").as_str());
    CliAction::Unknown(message)
}

// ---------------------------------------------------------------------------
// Laws

/// `part` stands somewhere in `text`.
pub open spec fn shows(text: Seq<char>, part: Seq<char>) -> bool {
    exists|front: Seq<char>, rest: Seq<char>| text == #[trigger] (front + part + rest)
}

/// The help begins with the current backend and mode.
pub proof fn the_help_begins_with_the_state(backend: Backend, mode: Mode, cfg: Config)
    ensures
        begins_with(
            help(backend, mode, cfg),
            "current backend="@ + backend.label() + " mode="@ + mode.label()
                + "\n\ncommands:\n"@,
        ),
{
    let text = help(backend, mode, cfg);
    let start = "current backend="@ + backend.label() + " mode="@ + mode.label()
        + "\n\ncommands:\n"@;
    reveal_commands();
    assert(HELP_COMMANDS@ =~= HELP_COMMANDS@.take(12) + HELP_COMMANDS@.skip(12));
    assert(text.take(start.len() as int) =~= start);
}

/// A part of `text` that a line feed follows stands in it with that line feed;
/// and `text` begins with what stands before that part.
proof fn lemma_setting(
    text: Seq<char>,
    front: Seq<char>,
    key: Seq<char>,
    value: Seq<char>,
    next: Seq<char>,
)
    requires
        begins_with(text, front + key + value + next),
        next.len() > 0 && next[0] == '\n',
    ensures
        shows(text, key + value + "\n"@),
        begins_with(text, front + key),
{
    reveal_strlit("\n");
    let whole = front + key + value + next;
    let part = key + value + "\n"@;
    let n = front.len() as int + part.len();
    assert(forall|i: int| 0 <= i < whole.len() ==> text[i] == #[trigger] whole[i]) by {
        assert forall|i: int| 0 <= i < whole.len() implies text[i] == #[trigger] whole[i] by {
            assert(text.take(whole.len() as int)[i] == text[i]);
        }
    }
    assert(text.take((front + key).len() as int) =~= front + key);
    assert(text.take(n) =~= front + part) by {
        assert forall|i: int| 0 <= i < n implies text[i] == (front + part)[i] by {
            assert(text[i] == whole[i]);
        }
    }
    assert(text =~= text.take(n) + text.skip(n));
    assert(text =~= front + part + text.skip(n));
}

/// The help shows each setting with its value, on a line of its own.
pub proof fn the_help_shows_each_setting(backend: Backend, mode: Mode, cfg: Config)
    ensures
        shows(help(backend, mode, cfg), "\n  ZUTTOMO_DEFAULT_BACKEND="@ + cfg.default_backend.label() + "\n"@),
        shows(help(backend, mode, cfg), "\n  ZUTTOMO_MI25_ENABLED="@ + (if cfg.mi25_enabled {
            "true"@
        } else {
            "false"@
        }) + "\n"@),
        shows(help(backend, mode, cfg), "\n  ZUTTOMO_MI25_BASE_URL="@ + cfg.mi25_base_url@ + "\n"@),
        shows(help(backend, mode, cfg), "\n  ZUTTOMO_MI25_MODEL="@ + cfg.mi25_model@ + "\n"@),
        shows(help(backend, mode, cfg), "\n  OPENROUTER_BASE_URL="@ + cfg.openrouter_base_url@ + "\n"@),
        shows(help(backend, mode, cfg), "\n  OPENROUTER_MODEL="@ + cfg.openrouter_model@ + "\n"@),
        shows(help(backend, mode, cfg), "\n  CODEX_BIN="@ + cfg.codex_bin@ + "\n"@),
        shows(help(backend, mode, cfg), "\n  ZUTTOMO_HISTORY="@ + cfg.history_path@ + "\n"@),
        shows(help(backend, mode, cfg), "\n  ZUTTOMO_PAIR_HOST="@ + cfg.pair_host@ + "\n"@),
        shows(help(backend, mode, cfg), "\n  ZUTTOMO_PAIR_PORT="@ + decimal(cfg.pair_port as nat) + "\n"@),
        shows(help(backend, mode, cfg), "\n  ZUTTOMO_HTTP_TIMEOUT_SECS="@ + decimal(cfg.http_timeout_secs as nat) + "\n"@),
        shows(help(backend, mode, cfg), "\n  ZUTTOMO_OSS_URL="@ + cfg.oss_url@ + "\n"@),
{
    reveal_commands();
    reveal_strlit("\n");
    reveal_strlit("\n  ZUTTOMO_MI25_ENABLED=");
    reveal_strlit("\n  ZUTTOMO_MI25_BASE_URL=");
    reveal_strlit("\n  ZUTTOMO_MI25_MODEL=");
    reveal_strlit("\n  OPENROUTER_BASE_URL=");
    reveal_strlit("\n  OPENROUTER_MODEL=");
    reveal_strlit("\n  CODEX_BIN=");
    reveal_strlit("\n  ZUTTOMO_HISTORY=");
    reveal_strlit("\n  ZUTTOMO_PAIR_HOST=");
    reveal_strlit("\n  ZUTTOMO_PAIR_PORT=");
    reveal_strlit("\n  ZUTTOMO_HTTP_TIMEOUT_SECS=");
    reveal_strlit("\n  ZUTTOMO_OSS_URL=");
    let text = help(backend, mode, cfg);
    let key = "\n  ZUTTOMO_DEFAULT_BACKEND="@;
    let start = "current backend="@ + backend.label() + " mode="@ + mode.label();
    let commands = HELP_COMMANDS@.take(HELP_COMMANDS@.len() - 27);
    let p0 = start + commands;
    assert(HELP_COMMANDS@ =~= commands + key);
    assert(start + HELP_COMMANDS@ =~= p0 + key);
    let p1 = p0 + "\n  ZUTTOMO_DEFAULT_BACKEND="@ + cfg.default_backend.label();
    let p2 = p1 + "\n  ZUTTOMO_MI25_ENABLED="@ + flag(cfg.mi25_enabled);
    let p3 = p2 + "\n  ZUTTOMO_MI25_BASE_URL="@ + cfg.mi25_base_url@;
    let p4 = p3 + "\n  ZUTTOMO_MI25_MODEL="@ + cfg.mi25_model@;
    let p5 = p4 + "\n  OPENROUTER_BASE_URL="@ + cfg.openrouter_base_url@;
    let p6 = p5 + "\n  OPENROUTER_MODEL="@ + cfg.openrouter_model@;
    let p7 = p6 + "\n  CODEX_BIN="@ + cfg.codex_bin@;
    let p8 = p7 + "\n  ZUTTOMO_HISTORY="@ + cfg.history_path@;
    let p9 = p8 + "\n  ZUTTOMO_PAIR_HOST="@ + cfg.pair_host@;
    let p10 = p9 + "\n  ZUTTOMO_PAIR_PORT="@ + decimal(cfg.pair_port as nat);
    let p11 = p10 + "\n  ZUTTOMO_HTTP_TIMEOUT_SECS="@ + decimal(cfg.http_timeout_secs as nat);
    let p12 = p11 + "\n  ZUTTOMO_OSS_URL="@ + cfg.oss_url@;
    assert(text == p12 + "\n"@);
    assert(text.take(text.len() as int) =~= text);
    lemma_setting(text, p11, "\n  ZUTTOMO_OSS_URL="@, cfg.oss_url@, "\n"@);
    lemma_setting(text, p10, "\n  ZUTTOMO_HTTP_TIMEOUT_SECS="@, decimal(cfg.http_timeout_secs as nat), "\n  ZUTTOMO_OSS_URL="@);
    lemma_setting(text, p9, "\n  ZUTTOMO_PAIR_PORT="@, decimal(cfg.pair_port as nat), "\n  ZUTTOMO_HTTP_TIMEOUT_SECS="@);
    lemma_setting(text, p8, "\n  ZUTTOMO_PAIR_HOST="@, cfg.pair_host@, "\n  ZUTTOMO_PAIR_PORT="@);
    lemma_setting(text, p7, "\n  ZUTTOMO_HISTORY="@, cfg.history_path@, "\n  ZUTTOMO_PAIR_HOST="@);
    lemma_setting(text, p6, "\n  CODEX_BIN="@, cfg.codex_bin@, "\n  ZUTTOMO_HISTORY="@);
    lemma_setting(text, p5, "\n  OPENROUTER_MODEL="@, cfg.openrouter_model@, "\n  CODEX_BIN="@);
    lemma_setting(text, p4, "\n  OPENROUTER_BASE_URL="@, cfg.openrouter_base_url@, "\n  OPENROUTER_MODEL="@);
    lemma_setting(text, p3, "\n  ZUTTOMO_MI25_MODEL="@, cfg.mi25_model@, "\n  OPENROUTER_BASE_URL="@);
    lemma_setting(text, p2, "\n  ZUTTOMO_MI25_BASE_URL="@, cfg.mi25_base_url@, "\n  ZUTTOMO_MI25_MODEL="@);
    lemma_setting(text, p1, "\n  ZUTTOMO_MI25_ENABLED="@, flag(cfg.mi25_enabled), "\n  ZUTTOMO_MI25_BASE_URL="@);
    lemma_setting(text, p0, "\n  ZUTTOMO_DEFAULT_BACKEND="@, cfg.default_backend.label(), "\n  ZUTTOMO_MI25_ENABLED="@);
}

/// How the fixed part of the help begins and ends.
proof fn reveal_commands()
    ensures
        HELP_COMMANDS@.len() >= 38,
        "\n\ncommands:\n"@.len() == 12,
        "\n  ZUTTOMO_DEFAULT_BACKEND="@.len() == 27,
        HELP_COMMANDS@.take(12) == "\n\ncommands:\n"@,
        HELP_COMMANDS@.skip(HELP_COMMANDS@.len() - 27) == "\n  ZUTTOMO_DEFAULT_BACKEND="@,
{
    reveal_strlit("\n\ncommands:\n");
    reveal_strlit("\n  ZUTTOMO_DEFAULT_BACKEND=");
    reveal_strlit(r#"

commands:
  /tw TEXT          日本語・ローマ字・英語 -> 台灣華語
  /me TEXT          /tw の別名。相手に見せる文
  /jp TEXT          台灣華語・繁體中文 -> 日本語
  /you TEXT         相手入力を日本語化
  /pobo TEXT        台灣華語 + ㄅㄆㄇㄈ 少し
  /chat [TEXT]      翻訳・会話モード
  /question [TEXT]  技術質問モード
  /model [NAME]     mi25 / openrouter / codex
  /history          直近履歴を表示
  /clear            メモリ上の履歴を消去
  /prompt           現在モードのsystem prompt表示
  /export md        履歴を zuttomo-history.md に出力
  /aa               起動バナーAAを表示
  /pair             相手スマホ入力フォームを起動
  /exit, /quit      終了

env:
  ZUTTOMO_DEFAULT_BACKEND="#);
    assert(HELP_COMMANDS@.take(12) =~= "\n\ncommands:\n"@);
    assert(HELP_COMMANDS@.skip(HELP_COMMANDS@.len() - 27) =~= "\n  ZUTTOMO_DEFAULT_BACKEND="@);
}

/// The banner ends with the backend, the mode and the number of messages, and
/// says where to find help.
pub proof fn the_banner_shows_the_state(backend: Backend, mode: Mode, messages: nat)
    ensures
        banner(backend, mode, messages) == TITLE@ + ("backend="@ + backend.label() + " mode="@
            + mode.label() + " history="@ + decimal(messages)
            + " messages\ntype /help for commands\n\n"@),
        begins_with(TITLE@, "# りもこズッ友キラキラポボモフォ2.0\n"@),
{
    assert(banner(backend, mode, messages) =~= TITLE@ + ("backend="@ + backend.label() + " mode="@
        + mode.label() + " history="@ + decimal(messages)
        + " messages\ntype /help for commands\n\n"@));
    reveal_strlit("# りもこズッ友キラキラポボモフォ2.0\n");
    reveal_strlit(r#"# りもこズッ友キラキラポボモフォ2.0
## 檸檬烯姐總合熱烈爆裂友情智慧板
### 昨日的技術交流、今日的ズッ友

"#);
    assert(TITLE@.take("# りもこズッ友キラキラポボモフォ2.0\n"@.len() as int)
        =~= "# りもこズッ友キラキラポボモフォ2.0\n"@);
}

/// What is printed about a failure ends with the whole error, and tells which
/// backend failed.
pub proof fn a_failure_shows_the_error(a: Backend, b: Backend, error: Seq<char>)
    ensures
        exists|front: Seq<char>| failure(a, error) == #[trigger] (front + error + "\n\n"@),
        failure(a, error) == failure(b, error) ==> a == b,
{
    reveal_strlit("\n");
    reveal_strlit("\n\n");
    reveal_strlit(
        "ふえぇぇ……MI25 APIに接続できません。\nZUTTOMO_MI25_BASE_URL と ZUTTOMO_MI25_MODEL を確認してください。\n",
    );
    reveal_strlit(
        "ふえぇぇ……OpenRouter API呼び出しに失敗しました。\nOPENROUTER_API_KEY と OPENROUTER_MODEL を確認してください。\n",
    );
    reveal_strlit(
        "ふえぇぇ……codex exec が失敗しました。\nCODEX_BIN または CODEX_WORKDIR を確認してください。\n",
    );
    assert(failure(a, error) =~= ("\n"@ + advice(a)) + error + "\n\n"@);
    assert(failure(a, error)[7] == advice(a)[6]);
    assert(failure(b, error)[7] == advice(b)[6]);
    assert(advice(Backend::Mi25)[6] == 'M');
    assert(advice(Backend::OpenRouter)[6] == 'O');
    assert(advice(Backend::Codex)[6] == 'c');
}

/// The prompt is started without arguments or with the word for it alone; the
/// words for usage and version count alone too, and anything else is refused
/// with all arguments named.
pub proof fn the_command_line_goes_by_one_word(args: Seq<Seq<char>>)
    ensures
        ({
            let alone = args.len() == 1;
            let run = args.len() == 0 || alone && (args[0] == "--run"@ || args[0] == "run"@);
            let usage = alone && (args[0] == "--help"@ || args[0] == "-h"@ || args[0] == "help"@);
            let version = alone && (args[0] == "--version"@ || args[0] == "-V"@ || args[0]
                == "version"@);
            &&& cli_request(args) is Run <==> run
            &&& cli_request(args) is Usage <==> usage
            &&& cli_request(args) is Version <==> version
            &&& !run && !usage && !version ==> cli_request(args) == CliActionView::Unknown(
                "unknown zuttomo option: "@ + joined(args, " "@),
            )
        }),
{
    reveal_strlit("--run");
    reveal_strlit("run");
    reveal_strlit("--help");
    reveal_strlit("-h");
    reveal_strlit("help");
    reveal_strlit("--version");
    reveal_strlit("-V");
    reveal_strlit("version");
    assert("-h"@[1] == 'h' && "-V"@[1] == 'V');
    assert("--run"@.len() == 5 && "run"@.len() == 3 && "--help"@.len() == 6 && "help"@.len() == 4
        && "--version"@.len() == 9 && "version"@.len() == 7);
}

/// The usage begins with the version and names the options, each with what it
/// does, and the commands of the prompt.
pub proof fn the_usage_names_the_options()
    ensures
        begins_with(USAGE@, VERSION@),
        USAGE@ == VERSION@ + "\nusage:\n  zuttomo --run       start the REPL\n  zuttomo             start the REPL\n"@
            + "  zuttomo --help      show this help\n  zuttomo --version   show version\n"@
            + "\ninside REPL:\n  /tw TEXT, /me TEXT, /jp TEXT, /you [TEXT], /pobo TEXT\n"@
            + "  /question [TEXT], /model [mi25|openrouter|codex], /pair\n"@,
{
    reveal_strlit("zuttomo 0.1.0\n");
    reveal_strlit(
        "\nusage:\n  zuttomo --run       start the REPL\n  zuttomo             start the REPL\n",
    );
    reveal_strlit("  zuttomo --help      show this help\n  zuttomo --version   show version\n");
    reveal_strlit(
        "\ninside REPL:\n  /tw TEXT, /me TEXT, /jp TEXT, /you [TEXT], /pobo TEXT\n",
    );
    reveal_strlit("  /question [TEXT], /model [mi25|openrouter|codex], /pair\n");
    reveal_strlit(r#"zuttomo 0.1.0

usage:
  zuttomo --run       start the REPL
  zuttomo             start the REPL
  zuttomo --help      show this help
  zuttomo --version   show version

inside REPL:
  /tw TEXT, /me TEXT, /jp TEXT, /you [TEXT], /pobo TEXT
  /question [TEXT], /model [mi25|openrouter|codex], /pair
"#);
    let text = VERSION@
        + "\nusage:\n  zuttomo --run       start the REPL\n  zuttomo             start the REPL\n"@
        + "  zuttomo --help      show this help\n  zuttomo --version   show version\n"@
        + "\ninside REPL:\n  /tw TEXT, /me TEXT, /jp TEXT, /you [TEXT], /pobo TEXT\n"@
        + "  /question [TEXT], /model [mi25|openrouter|codex], /pair\n"@;
    assert(USAGE@ =~= text);
    assert(USAGE@.take(VERSION@.len() as int) =~= VERSION@);
}

/// The view of what the command line asks for is the same with its text.
pub proof fn a_view_holds_the_request(text: String)
    ensures
        CliAction::Run@ == CliActionView::Run,
        CliAction::Usage@ == CliActionView::Usage,
        CliAction::Version@ == CliActionView::Version,
        CliAction::Unknown(text)@ == CliActionView::Unknown(text@),
{
}

} // verus!
