use zuttomo::backend::Backend;
use zuttomo::config::{bool_from_key, env_bool, env_nonempty, Config, Environment};

fn empty() -> Environment {
    Environment {
        default_backend: None,
        mi25_enabled: None,
        mi25_base_url: None,
        mi25_model: None,
        openrouter_base_url: None,
        openrouter_api_key: None,
        openrouter_model: None,
        codex_bin: None,
        codex_workdir: None,
        history_path: None,
        pair_host: None,
        pair_port: None,
        http_timeout_secs: None,
        oss_url: None,
    }
}

fn text(value: &str) -> Option<String> {
    Some(value.to_string())
}

#[test]
fn an_empty_environment_gives_the_defaults() {
    let config = Config::from_env(empty());
    assert_eq!(config.default_backend, Backend::Codex);
    assert!(!config.mi25_enabled);
    assert_eq!(config.mi25_base_url, "http://127.0.0.1:8000/v1");
    assert_eq!(config.mi25_model, "local-model");
    assert_eq!(config.openrouter_base_url, "https://openrouter.ai/api/v1");
    assert_eq!(config.openrouter_api_key, None);
    assert_eq!(config.openrouter_model, "openai/gpt-4o-mini");
    assert_eq!(config.codex_bin, "codex");
    assert_eq!(config.codex_workdir, None);
    assert_eq!(config.history_path, "zuttomo-history.jsonl");
    assert_eq!(config.pair_host, "0.0.0.0");
    assert_eq!(config.pair_port, 8787);
    assert_eq!(config.http_timeout_secs, 120);
    assert_eq!(
        config.oss_url,
        "https://limonene213u.github.io/ai-2026-computex/"
    );
}

#[test]
fn the_environment_sets_every_value() {
    let config = Config::from_env(Environment {
        default_backend: text(" MI25 "),
        mi25_enabled: text("On"),
        mi25_base_url: text("a"),
        mi25_model: text(""),
        openrouter_base_url: text("c"),
        openrouter_api_key: text(" d "),
        openrouter_model: text("e"),
        codex_bin: text("f"),
        codex_workdir: text(" g"),
        history_path: text("h"),
        pair_host: text("i"),
        pair_port: text("+80"),
        http_timeout_secs: text("18446744073709551615"),
        oss_url: text("j"),
    });
    assert_eq!(config.default_backend, Backend::Mi25);
    assert!(config.mi25_enabled);
    assert_eq!(config.mi25_base_url, "a");
    assert_eq!(config.mi25_model, "");
    assert_eq!(config.openrouter_base_url, "c");
    assert_eq!(config.openrouter_api_key.as_deref(), Some("d"));
    assert_eq!(config.openrouter_model, "e");
    assert_eq!(config.codex_bin, "f");
    assert_eq!(config.codex_workdir.as_deref(), Some("g"));
    assert_eq!(config.history_path, "h");
    assert_eq!(config.pair_host, "i");
    assert_eq!(config.pair_port, 80);
    assert_eq!(config.http_timeout_secs, u64::MAX);
    assert_eq!(config.oss_url, "j");
}

#[test]
fn a_disabled_backend_is_not_the_default() {
    let mut env = empty();
    env.default_backend = text("mi25");
    assert_eq!(Config::from_env(env).default_backend, Backend::Codex);
    let mut env = empty();
    env.default_backend = text("or");
    assert_eq!(Config::from_env(env).default_backend, Backend::OpenRouter);
    let mut env = empty();
    env.default_backend = text("something");
    assert_eq!(Config::from_env(env).default_backend, Backend::Codex);
}

#[test]
fn numbers_that_do_not_fit_are_ignored() {
    for port in ["65536", "-1", " 80", "http", ""] {
        let mut env = empty();
        env.pair_port = text(port);
        env.http_timeout_secs = text("1.5");
        let config = Config::from_env(env);
        assert_eq!(config.pair_port, 8787);
        assert_eq!(config.http_timeout_secs, 120);
    }
}

#[test]
fn switches_know_their_words() {
    for word in ["1", "true", "yes", "on", "enabled", " TRUE\n"] {
        assert!(env_bool(Some(word), false));
    }
    for word in ["0", "false", "no", "off", "disabled", "Off"] {
        assert!(!env_bool(Some(word), true));
    }
    for word in ["", "2", "maybe", "はい"] {
        assert!(env_bool(Some(word), true));
        assert!(!env_bool(Some(word), false));
    }
    assert!(env_bool(None, true));
    assert!(!bool_from_key("TRUE", false));
    assert!(bool_from_key("true", false));
}

#[test]
fn blank_values_are_no_values() {
    assert_eq!(env_nonempty(None), None);
    assert_eq!(env_nonempty(Some(" \u{3000}")), None);
    assert_eq!(env_nonempty(Some(" k ")), text("k"));
}
