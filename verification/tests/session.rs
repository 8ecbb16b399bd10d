use zuttomo::backend::Backend;
use zuttomo::chat::{ask_backend, AskError};
use zuttomo::config::{Config, Environment};
use zuttomo::console::{
    backend_error_text, banner_text, cli_action, help_text, CliAction, USAGE, VERSION,
};
use zuttomo::history::{export_markdown, history_listing};
use zuttomo::message::Message;
use zuttomo::mode::{system_prompt, Mode};
use zuttomo::session::{export_report, pair_failed_text, Action, Session, Turn};

fn config(mi25: bool) -> Config {
    Config::from_env(Environment {
        default_backend: None,
        mi25_enabled: Some(mi25.to_string()),
        mi25_base_url: None,
        mi25_model: None,
        openrouter_base_url: None,
        openrouter_api_key: None,
        openrouter_model: None,
        codex_bin: None,
        codex_workdir: None,
        history_path: None,
        pair_host: None,
        pair_port: None,
        http_timeout_secs: None,
        oss_url: None,
    })
}

fn print(text: &str) -> Action {
    Action::Print(text.to_string())
}

fn ask(text: &str) -> Action {
    Action::Ask(text.to_string())
}

#[test]
fn a_session_begins_in_chat() {
    let session = Session::new(&config(false), Vec::new());
    assert_eq!(session.backend, Backend::Codex);
    assert_eq!(session.mode, Mode::Chat);
    assert_eq!(session.pair_url, None);
    assert_eq!(session.prompt(), "[codex:chat] ㄅㄆㄇㄈ> ");
}

#[test]
fn the_backend_can_be_switched() {
    let cfg = config(true);
    let mut session = Session::new(&cfg, Vec::new());
    assert_eq!(
        session.step(&cfg, "/model", None),
        print("current backend: codex\navailable: mi25, openrouter, codex\n")
    );
    assert_eq!(
        session.step(&cfg, "/model OR", None),
        print("backend switched: openrouter\n")
    );
    assert_eq!(
        session.step(&cfg, "/model mi25", None),
        print("backend switched: mi25\n")
    );
    assert_eq!(session.backend, Backend::Mi25);
    assert_eq!(
        session.step(&cfg, "/model gpt", None),
        print("unknown backend: gpt\navailable: mi25, openrouter, codex\n")
    );
    assert_eq!(session.backend, Backend::Mi25);
}

#[test]
fn a_disabled_backend_is_never_chosen() {
    let cfg = config(false);
    let mut session = Session::new(&cfg, Vec::new());
    assert_eq!(
        session.step(&cfg, "/model mi25", None),
        print("MI25 backend is disabled.\nZUTTOMO_MI25_ENABLED=true にすると有効化できます。\n")
    );
    assert_eq!(session.backend, Backend::Codex);
    let call = ask_backend(&cfg, session.backend, &session.history, session.mode, "x");
    assert_ne!(call, Err(AskError::Mi25Disabled));
}

#[test]
fn a_turn_adds_its_two_messages() {
    let cfg = config(false);
    let mut session = Session::new(&cfg, Vec::new());
    assert_eq!(session.step(&cfg, " /tw こんにちは\n", None), ask("こんにちは"));
    assert_eq!(session.mode, Mode::ToTaiwanMandarin);
    let turn = Turn::new(session.mode, "こんにちは", "你好");
    assert_eq!(session.finish_turn(turn), "\n你好\n\n");
    assert_eq!(
        session.history,
        [
            Message::new("user", Mode::ToTaiwanMandarin, "こんにちは".to_string()),
            Message::new("assistant", Mode::ToTaiwanMandarin, "你好".to_string()),
        ]
    );
    assert_eq!(session.step(&cfg, "次", None), ask("次"));
    assert_eq!(session.history.len(), 2);
    assert_eq!(
        session.fail_turn("boom: x"),
        "\nふえぇぇ……codex exec が失敗しました。\nCODEX_BIN または CODEX_WORKDIR を確認してください。\nboom: x\n\n"
    );
    assert_eq!(
        session.step(&cfg, "/history", None),
        Action::Print(history_listing(&session.history, 30))
    );
    assert_eq!(
        session.step(&cfg, "/clear", None),
        print("memory history cleared. history file was not deleted.\n")
    );
    assert!(session.history.is_empty());
    assert_eq!(session.mode, Mode::ToTaiwanMandarin);
}

#[test]
fn modes_switch_without_a_text() {
    let cfg = config(false);
    let mut session = Session::new(&cfg, Vec::new());
    assert_eq!(session.step(&cfg, "/question", None), print("mode switched: question\n"));
    assert_eq!(session.step(&cfg, "/jp", None), print("mode switched: jp\n"));
    assert_eq!(session.step(&cfg, "/pobo", None), print("mode switched: pobo\n"));
    assert_eq!(session.step(&cfg, "/tw", None), print("mode switched: tw\n"));
    assert_eq!(session.step(&cfg, "/chat", None), print("mode switched: chat\n"));
    assert_eq!(session.step(&cfg, "/me", None), print("usage: /me TEXT\n"));
    assert_eq!(session.mode, Mode::ToTaiwanMandarin);
    assert_eq!(session.step(&cfg, "/me x", None), ask("x"));
}

#[test]
fn you_asks_about_the_partners_text() {
    let cfg = config(false);
    let mut session = Session::new(&cfg, Vec::new());
    assert_eq!(
        session.step(&cfg, "/you", None),
        print("相手スマホ入力はまだありません。今は /you TEXT を使ってください。\n")
    );
    assert_eq!(session.mode, Mode::ToJapanese);
    assert_eq!(session.step(&cfg, "/you", Some("你好")), ask("你好"));
    assert_eq!(session.step(&cfg, "/you 再見", Some("你好")), ask("再見"));
}

#[test]
fn the_other_commands_act() {
    let cfg = config(false);
    let mut session = Session::new(&cfg, Vec::new());
    assert_eq!(session.step(&cfg, "\n", None), Action::Continue);
    assert_eq!(
        session.step(&cfg, "/exit", None),
        Action::Quit("檸檬烯姐、終了します。\n".to_string())
    );
    assert_eq!(session.step(&cfg, "/aa", None), Action::ShowArt);
    assert_eq!(
        session.step(&cfg, "/help", None),
        Action::Print(help_text(Backend::Codex, Mode::Chat, &cfg))
    );
    assert_eq!(
        session.step(&cfg, "/prompt", None),
        Action::Print(format!("{}\n", system_prompt(Mode::Chat).trim()))
    );
    assert_eq!(
        session.step(&cfg, "/nothing", None),
        print("unknown command: /nothing\ntype /help for commands\n")
    );
}

#[test]
fn the_history_is_exported() {
    let cfg = config(false);
    let history = vec![Message::new("user", Mode::Chat, "a".to_string())];
    let document = export_markdown(&history);
    let mut session = Session::new(&cfg, history);
    for (line, path) in [
        ("/export", "zuttomo-history.md"),
        ("/export md", "zuttomo-history.md"),
        ("/export my notes.md", "my notes.md"),
    ] {
        assert_eq!(
            session.step(&cfg, line, None),
            Action::Export {
                path: path.to_string(),
                document: document.clone(),
            }
        );
    }
    assert_eq!(export_report("x.md", None), "exported: x.md\n");
    assert_eq!(export_report("x.md", Some("no")), "export failed: no\n");
}

#[test]
fn the_form_is_served_once() {
    let cfg = config(false);
    let mut session = Session::new(&cfg, Vec::new());
    assert_eq!(session.step(&cfg, "/pair", None), Action::StartPair);
    assert_eq!(
        pair_failed_text("in use"),
        "pair server start failed: in use\n今は /you TEXT で相手の台灣華語を直接日本語化できます。\n"
    );
    assert_eq!(
        session.pair_started("http://h:1".to_string()),
        "請用你的手機輸入中文。\n我這邊會自動翻譯成日文。\nhttp://h:1\n"
    );
    assert_eq!(
        session.step(&cfg, "/pair", None),
        print("pair server is already running:\nhttp://h:1\n")
    );
}

#[test]
fn the_banner_shows_the_state() {
    assert_eq!(
        banner_text(Backend::OpenRouter, Mode::ToJapanese, 12),
        "# りもこズッ友キラキラポボモフォ2.0\n## 檸檬烯姐總合熱烈爆裂友情智慧板\n### 昨日的技術交流、今日的ズッ友\n\nbackend=openrouter mode=jp history=12 messages\ntype /help for commands\n\n"
    );
}

#[test]
fn the_help_lists_commands_and_settings() {
    let help = help_text(Backend::Codex, Mode::Pobo, &config(true));
    assert!(help.starts_with("current backend=codex mode=pobo\n\ncommands:\n  /tw TEXT          日本語・ローマ字・英語 -> 台灣華語\n"));
    assert!(help.contains("\n  /exit, /quit      終了\n\nenv:\n  ZUTTOMO_DEFAULT_BACKEND=codex\n  ZUTTOMO_MI25_ENABLED=true\n  ZUTTOMO_MI25_BASE_URL=http://127.0.0.1:8000/v1\n"));
    assert!(help.ends_with("\n  ZUTTOMO_PAIR_PORT=8787\n  ZUTTOMO_HTTP_TIMEOUT_SECS=120\n  ZUTTOMO_OSS_URL=https://limonene213u.github.io/ai-2026-computex/\n"));
    assert_eq!(help.lines().count(), 32);
}

#[test]
fn failures_come_with_advice() {
    assert_eq!(
        backend_error_text(Backend::Mi25, "e"),
        "\nふえぇぇ……MI25 APIに接続できません。\nZUTTOMO_MI25_BASE_URL と ZUTTOMO_MI25_MODEL を確認してください。\ne\n\n"
    );
    assert_eq!(
        backend_error_text(Backend::OpenRouter, "e"),
        "\nふえぇぇ……OpenRouter API呼び出しに失敗しました。\nOPENROUTER_API_KEY と OPENROUTER_MODEL を確認してください。\ne\n\n"
    );
}

#[test]
fn the_command_line_is_understood() {
    let action = |args: &[&str]| cli_action(&args.iter().map(|arg| arg.to_string()).collect());
    for args in [&[][..], &["--run"], &["run"]] {
        assert_eq!(action(args), CliAction::Run);
    }
    for arg in ["--help", "-h", "help"] {
        assert_eq!(action(&[arg]), CliAction::Usage);
    }
    for arg in ["--version", "-V", "version"] {
        assert_eq!(action(&[arg]), CliAction::Version);
    }
    assert_eq!(
        action(&["--run", "now"]),
        CliAction::Unknown("unknown zuttomo option: --run now".to_string())
    );
    assert_eq!(action(&["-v"]), CliAction::Unknown("unknown zuttomo option: -v".to_string()));
    assert_eq!(VERSION, "zuttomo 0.1.0\n");
    assert!(USAGE.starts_with("zuttomo 0.1.0\n\nusage:\n  zuttomo --run       start the REPL\n"));
    assert_eq!(USAGE.lines().count(), 11);
}
