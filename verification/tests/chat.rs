use zuttomo::backend::Backend;
use zuttomo::chat::{
    answer_from_content, answer_from_value, ask_backend, codex_answer, codex_prompt, codex_request, openai_request,
    reply_answer, AskError, BackendCall, ReplyError,
};
use zuttomo::config::{Config, Environment};
use zuttomo::message::Message;
use zuttomo::mode::{system_prompt, Mode};

fn history(n: usize) -> Vec<Message> {
    (0..n)
        .map(|i| Message::new("user", Mode::ToJapanese, format!("m{i}")))
        .collect()
}

fn config(mi25: bool, key: Option<&str>, workdir: Option<&str>) -> Config {
    Config::from_env(Environment {
        default_backend: None,
        mi25_enabled: Some(mi25.to_string()),
        mi25_base_url: None,
        mi25_model: None,
        openrouter_base_url: None,
        openrouter_api_key: key.map(str::to_string),
        openrouter_model: None,
        codex_bin: None,
        codex_workdir: workdir.map(str::to_string),
        history_path: None,
        pair_host: None,
        pair_port: None,
        http_timeout_secs: None,
        oss_url: None,
    })
}

#[test]
fn a_request_carries_the_conversation() {
    let request = openai_request(
        "http://host/v1//",
        Some("key"),
        "model",
        &history(1),
        Mode::Question,
        "入力",
    );
    assert_eq!(request.url, "http://host/v1/chat/completions");
    assert_eq!(request.bearer.as_deref(), Some("key"));
    assert_eq!(request.model, "model");
    assert_eq!(request.temperature_hundredths, 25);
    assert_eq!(request.max_tokens, 1600);
    let messages: Vec<(&str, &str)> = request
        .messages
        .iter()
        .map(|m| (m.role.as_str(), m.content.as_str()))
        .collect();
    assert_eq!(
        messages,
        [
            ("system", system_prompt(Mode::Question)),
            ("user", "[mode:jp]\nm0"),
            ("user", "入力"),
        ]
    );
}

#[test]
fn a_request_carries_at_most_twelve_earlier_messages() {
    let request = openai_request("u", None, "m", &history(20), Mode::Chat, "x");
    assert_eq!(request.bearer, None);
    assert_eq!(request.messages.len(), 14);
    assert_eq!(request.messages[1].content, "[mode:jp]\nm8");
    assert_eq!(request.messages[12].content, "[mode:jp]\nm19");
}

#[test]
fn a_reply_has_its_answer_in_the_first_choice() {
    let body = r#"{"choices":[{"message":{"content":" 答え\n"}},{"message":{"content":"no"}}]}"#;
    assert_eq!(reply_answer(body.as_bytes()).unwrap(), "答え");
}

#[test]
fn a_reply_without_an_answer_is_an_error() {
    for body in [
        "{}",
        "[]",
        r#"{"choices":[]}"#,
        r#"{"choices":{"0":{}}}"#,
        r#"{"choices":[{}]}"#,
        r#"{"choices":[{"message":{}}]}"#,
        r#"{"choices":[{"message":{"content":null}}]}"#,
    ] {
        let error = reply_answer(body.as_bytes()).unwrap_err();
        assert!(matches!(error, ReplyError::NoContent));
        assert_eq!(
            error.message(),
            "response did not contain choices[0].message.content"
        );
    }
}

#[test]
fn a_reply_that_is_no_json_is_an_error() {
    for body in ["".as_bytes(), b"<html>", b"\"\xff\""] {
        let error = reply_answer(body).unwrap_err();
        assert!(matches!(error, ReplyError::NotJson(_)));
        assert_eq!(error.message(), "failed to parse JSON response");
    }
}

#[test]
fn a_parsed_reply_gives_its_answer() {
    let value = |text: &str| serde_json::from_str::<serde_json::Value>(text).unwrap();
    let reply = value(r#"{"id":1,"choices":[{"message":{"role":"x","content":" a "}}]}"#);
    assert_eq!(answer_from_value(&reply).unwrap(), "a");
    let reply = value(r#"{"choices":[[],{"message":{"content":"a"}}]}"#);
    assert!(matches!(answer_from_value(&reply), Err(ReplyError::NoContent)));
}

#[test]
fn an_answer_is_trimmed() {
    assert_eq!(answer_from_content(Some("\n a b \n")).unwrap(), "a b");
    assert_eq!(answer_from_content(Some("")).unwrap(), "");
    assert!(matches!(answer_from_content(None), Err(ReplyError::NoContent)));
}

#[test]
fn the_codex_prompt_holds_the_conversation() {
    assert_eq!(
        codex_prompt(&history(1), Mode::Pobo, "入力"),
        format!(
            "{}\n\n# 現在のモード\npobo\n\n# これまでの会話\n\n## user / jp\nm0\n\n# 今回の入力\n入力\n",
            system_prompt(Mode::Pobo)
        )
    );
    let long = codex_prompt(&history(13), Mode::Pobo, "x");
    assert!(!long.contains("\nm0\n"));
    assert!(long.contains("\nm1\n"));
}

#[test]
fn codex_runs_in_its_directory() {
    let run = codex_request("codex", None, &[], Mode::Chat, "x");
    assert_eq!(run.program, "codex");
    assert_eq!(
        run.args,
        ["exec", "--color", "never", "--skip-git-repo-check", "-"]
    );
    assert_eq!(run.input, codex_prompt(&[], Mode::Chat, "x"));
    let run = codex_request("codex", Some("/w"), &[], Mode::Chat, "x");
    assert_eq!(
        run.args,
        ["exec", "--color", "never", "--skip-git-repo-check", "--cd", "/w", "-"]
    );
}

#[test]
fn the_answer_of_codex_is_its_output() {
    assert_eq!(
        codex_answer(true, " 答え\n".as_bytes(), b"log"),
        Ok("答え".to_string())
    );
    assert_eq!(codex_answer(true, b"a\xff\n", b""), Ok("a\u{fffd}".to_string()));
    assert_eq!(
        codex_answer(false, b"out", b" broken \n"),
        Err("codex exec failed:\nbroken".to_string())
    );
}

#[test]
fn the_mi25_backend_must_be_enabled() {
    let error = ask_backend(&config(false, None, None), Backend::Mi25, &[], Mode::Chat, "x");
    assert_eq!(error, Err(AskError::Mi25Disabled));
    assert_eq!(
        AskError::Mi25Disabled.message(),
        "MI25 backend is disabled.\nZUTTOMO_MI25_ENABLED=true にすると有効化できます。"
    );
    let call = ask_backend(&config(true, Some("k"), None), Backend::Mi25, &[], Mode::Chat, "x");
    let expected = openai_request(
        "http://127.0.0.1:8000/v1",
        None,
        "local-model",
        &[],
        Mode::Chat,
        "x",
    );
    assert_eq!(call, Ok(BackendCall::Http(expected)));
}

#[test]
fn openrouter_needs_a_key() {
    let error = ask_backend(
        &config(false, Some("  "), None),
        Backend::OpenRouter,
        &[],
        Mode::Chat,
        "x",
    );
    assert_eq!(error, Err(AskError::NoApiKey));
    assert_eq!(
        AskError::NoApiKey.message(),
        "OPENROUTER_API_KEY が未設定です。\nexport OPENROUTER_API_KEY=\"...\""
    );
    let call = ask_backend(
        &config(false, Some(" k "), None),
        Backend::OpenRouter,
        &history(1),
        Mode::Chat,
        "x",
    );
    let expected = openai_request(
        "https://openrouter.ai/api/v1",
        Some("k"),
        "openai/gpt-4o-mini",
        &history(1),
        Mode::Chat,
        "x",
    );
    assert_eq!(call, Ok(BackendCall::Http(expected)));
}

#[test]
fn codex_is_run_as_configured() {
    let call = ask_backend(&config(false, None, Some("/w")), Backend::Codex, &[], Mode::Chat, "x");
    let expected = codex_request("codex", Some("/w"), &[], Mode::Chat, "x");
    assert_eq!(call, Ok(BackendCall::Codex(expected)));
}
