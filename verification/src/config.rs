//! The configuration, as the environment gives it.

use crate::backend::{backend_named, Backend};
use crate::encoding::{lowercase, lowercased};
use crate::number::{parse_number, parsed_number};
use crate::text::{content_of, nonempty_trimmed, same_text, slice_view, string_view, trim, trimmed};
use vstd::prelude::*;

verus! {

broadcast use vstd::string::group_string_axioms;

/// The environment variables that the configuration is made from. A variable
/// that is not set, or that is no text, is `None`.
pub struct Environment {
    /// `ZUTTOMO_DEFAULT_BACKEND`
    pub default_backend: Option<String>,
    /// `ZUTTOMO_MI25_ENABLED`
    pub mi25_enabled: Option<String>,
    /// `ZUTTOMO_MI25_BASE_URL`
    pub mi25_base_url: Option<String>,
    /// `ZUTTOMO_MI25_MODEL`
    pub mi25_model: Option<String>,
    /// `OPENROUTER_BASE_URL`
    pub openrouter_base_url: Option<String>,
    /// `OPENROUTER_API_KEY`
    pub openrouter_api_key: Option<String>,
    /// `OPENROUTER_MODEL`
    pub openrouter_model: Option<String>,
    /// `CODEX_BIN`
    pub codex_bin: Option<String>,
    /// `CODEX_WORKDIR`
    pub codex_workdir: Option<String>,
    /// `ZUTTOMO_HISTORY`
    pub history_path: Option<String>,
    /// `ZUTTOMO_PAIR_HOST`
    pub pair_host: Option<String>,
    /// `ZUTTOMO_PAIR_PORT`
    pub pair_port: Option<String>,
    /// `ZUTTOMO_HTTP_TIMEOUT_SECS`
    pub http_timeout_secs: Option<String>,
    /// `ZUTTOMO_OSS_URL`
    pub oss_url: Option<String>,
}

/// The configuration.
#[derive(Debug, Clone)]
pub struct Config {
    /// The backend to begin with.
    pub default_backend: Backend,
    /// Whether the MI25 backend may be used.
    pub mi25_enabled: bool,
    /// Where the MI25 server answers.
    pub mi25_base_url: String,
    /// The model to ask on the MI25 server.
    pub mi25_model: String,
    /// Where OpenRouter answers.
    pub openrouter_base_url: String,
    /// The key for OpenRouter.
    pub openrouter_api_key: Option<String>,
    /// The model to ask at OpenRouter.
    pub openrouter_model: String,
    /// The `codex` program.
    pub codex_bin: String,
    /// The directory that `codex` works in.
    pub codex_workdir: Option<String>,
    /// The history file.
    pub history_path: String,
    /// The address that the form is served on.
    pub pair_host: String,
    /// The port that the form is served on.
    pub pair_port: u16,
    /// How long to wait for an HTTP answer, in seconds.
    pub http_timeout_secs: u64,
    /// The link on the form page.
    pub oss_url: String,
}

/// The value of a switch that is set to `key`.
pub open spec fn switch_for_key(key: Seq<char>, default: bool) -> bool {
    if key == "1"@ || key == "true"@ || key == "yes"@ || key == "on"@ || key == "enabled"@ {
        true
    } else if key == "0"@ || key == "false"@ || key == "no"@ || key == "off"@ || key
        == "disabled"@ {
        false
    } else {
        default
    }
}

/// The value of a switch, in any letter case and with any white space around
/// it.
pub open spec fn switch(value: Option<Seq<char>>, default: bool) -> bool {
    match value {
        Some(v) => switch_for_key(lowercased(trimmed(v)), default),
        None => default,
    }
}

/// The value of a switch that is set to a word in lower case without white
/// space around it.
pub fn bool_from_key(key: &str, default: bool) -> (on: bool)
    ensures
        on == switch_for_key(key@, default),
{
    if same_text(key, "1") || same_text(key, "true") || same_text(key, "yes") || same_text(
        key,
        "on",
    ) || same_text(key, "enabled") {
        true
    } else if same_text(key, "0") || same_text(key, "false") || same_text(key, "no") || same_text(
        key,
        "off",
    ) || same_text(key, "disabled") {
        false
    } else {
        default
    }
}

/// The value of a switch; the default where it is not set or says neither.
pub fn env_bool(value: Option<&str>, default: bool) -> (on: bool)
    ensures
        on == switch(slice_view(value), default),
{
    match value {
        Some(v) => {
            let key = lowercase(trim(v));
            bool_from_key(key.as_str(), default)
        },
        None => default,
    }
}

/// The trimmed value, where there is one and something is left of it.
pub open spec fn nonempty(value: Option<Seq<char>>) -> Option<Seq<char>> {
    match value {
        Some(v) => content_of(v),
        None => None,
    }
}

/// The trimmed value, where there is one and something is left of it.
pub fn env_nonempty(value: Option<&str>) -> (content: Option<String>)
    ensures
        string_view(content) == nonempty(slice_view(value)),
{
    match value {
        Some(v) => nonempty_trimmed(v),
        None => None,
    }
}

/// The value, or the default where there is none.
pub open spec fn or_default(value: Option<Seq<char>>, default: Seq<char>) -> Seq<char> {
    match value {
        Some(v) => v,
        None => default,
    }
}

/// The number that the value stands for, or the default.
pub open spec fn number_or_default(value: Option<Seq<char>>, max: nat, default: nat) -> nat {
    match value {
        Some(v) => match parsed_number(v, max) {
            Some(n) => n,
            None => default,
        },
        None => default,
    }
}

fn env_text(value: Option<String>, default: &str) -> (text: String)
    ensures
        text@ == or_default(string_view(value), default@),
{
    match value {
        Some(v) => v,
        None => default.to_string(),
    }
}

fn env_number(value: Option<String>, max: u64, default: u64) -> (number: u64)
    requires
        default <= max,
    ensures
        number == number_or_default(string_view(value), max as nat, default as nat),
        number <= max,
{
    match value {
        Some(v) => match parse_number(v.as_str(), max) {
            Some(n) => n,
            None => default,
        },
        None => default,
    }
}

/// The backend that the environment asks for.
pub open spec fn requested_backend(value: Option<Seq<char>>) -> Backend {
    match value {
        Some(v) => match backend_named(v) {
            Some(backend) => backend,
            None => Backend::Codex,
        },
        None => Backend::Codex,
    }
}

/// The backend may be used.
pub open spec fn allowed(backend: Backend, mi25_enabled: bool) -> bool {
    backend == Backend::Mi25 ==> mi25_enabled
}

/// The backend to begin with: the one that is asked for where it may be used,
/// and `codex` otherwise.
pub open spec fn first_backend(requested: Backend, mi25_enabled: bool) -> Backend {
    if allowed(requested, mi25_enabled) {
        requested
    } else {
        Backend::Codex
    }
}

/// The configuration is the one that the environment gives.
pub open spec fn is_config_of(env: Environment, config: Config) -> bool {
    &&& config.mi25_enabled == switch(string_view(env.mi25_enabled), false)
    &&& config.default_backend == first_backend(
        requested_backend(string_view(env.default_backend)),
        config.mi25_enabled,
    )
    &&& config.mi25_base_url@ == or_default(
        string_view(env.mi25_base_url),
        "http://127.0.0.1:8000/v1"@,
    )
    &&& config.mi25_model@ == or_default(string_view(env.mi25_model), "local-model"@)
    &&& config.openrouter_base_url@ == or_default(
        string_view(env.openrouter_base_url),
        "https://openrouter.ai/api/v1"@,
    )
    &&& string_view(config.openrouter_api_key) == nonempty(
        string_view(env.openrouter_api_key),
    )
    &&& config.openrouter_model@ == or_default(
        string_view(env.openrouter_model),
        "openai/gpt-4o-mini"@,
    )
    &&& config.codex_bin@ == or_default(string_view(env.codex_bin), "codex"@)
    &&& string_view(config.codex_workdir) == nonempty(string_view(env.codex_workdir))
    &&& config.history_path@ == or_default(
        string_view(env.history_path),
        "zuttomo-history.jsonl"@,
    )
    &&& config.pair_host@ == or_default(string_view(env.pair_host), "0.0.0.0"@)
    &&& config.pair_port == number_or_default(string_view(env.pair_port), 65535, 8787)
    &&& config.http_timeout_secs == number_or_default(
        string_view(env.http_timeout_secs),
        u64::MAX as nat,
        120,
    )
    &&& config.oss_url@ == or_default(
        string_view(env.oss_url),
        "https://limonene213u.github.io/ai-2026-computex/"@,
    )
}

impl Config {
    /// The backend to begin with may be used.
    pub open spec fn well_formed(self) -> bool {
        allowed(self.default_backend, self.mi25_enabled)
    }

    /// The configuration that the environment gives.
    pub fn from_env(env: Environment) -> (config: Self)
        ensures
            config.well_formed(),
            config.mi25_enabled == switch(string_view(env.mi25_enabled), false),
            config.default_backend == first_backend(
                requested_backend(string_view(env.default_backend)),
                config.mi25_enabled,
            ),
            config.mi25_base_url@ == or_default(
                string_view(env.mi25_base_url),
                "http://127.0.0.1:8000/v1"@,
            ),
            config.mi25_model@ == or_default(string_view(env.mi25_model), "local-model"@),
            config.openrouter_base_url@ == or_default(
                string_view(env.openrouter_base_url),
                "https://openrouter.ai/api/v1"@,
            ),
            string_view(config.openrouter_api_key) == nonempty(
                string_view(env.openrouter_api_key),
            ),
            config.openrouter_model@ == or_default(
                string_view(env.openrouter_model),
                "openai/gpt-4o-mini"@,
            ),
            config.codex_bin@ == or_default(string_view(env.codex_bin), "codex"@),
            string_view(config.codex_workdir) == nonempty(string_view(env.codex_workdir)),
            config.history_path@ == or_default(
                string_view(env.history_path),
                "zuttomo-history.jsonl"@,
            ),
            config.pair_host@ == or_default(string_view(env.pair_host), "0.0.0.0"@),
            config.pair_port == number_or_default(string_view(env.pair_port), 65535, 8787),
            config.http_timeout_secs == number_or_default(
                string_view(env.http_timeout_secs),
                u64::MAX as nat,
                120,
            ),
            config.oss_url@ == or_default(
                string_view(env.oss_url),
                "https://limonene213u.github.io/ai-2026-computex/"@,
            ),
            is_config_of(env, config),
    {
        let mi25_enabled = match &env.mi25_enabled {
            Some(v) => env_bool(Some(v.as_str()), false),
            None => env_bool(None, false),
        };
        let requested = match &env.default_backend {
            Some(v) => match Backend::from_name(v.as_str()) {
                Some(backend) => backend,
                None => Backend::Codex,
            },
            None => Backend::Codex,
        };
        let default_backend = if requested == Backend::Mi25 && !mi25_enabled {
            Backend::Codex
        } else {
            requested
        };
        let openrouter_api_key = match &env.openrouter_api_key {
            Some(v) => env_nonempty(Some(v.as_str())),
            None => env_nonempty(None),
        };
        let codex_workdir = match &env.codex_workdir {
            Some(v) => env_nonempty(Some(v.as_str())),
            None => env_nonempty(None),
        };
        Config {
            default_backend,
            mi25_enabled,
            mi25_base_url: env_text(env.mi25_base_url, "http://127.0.0.1:8000/v1"),
            mi25_model: env_text(env.mi25_model, "local-model"),
            openrouter_base_url: env_text(env.openrouter_base_url, "https://openrouter.ai/api/v1"),
            openrouter_api_key,
            openrouter_model: env_text(env.openrouter_model, "openai/gpt-4o-mini"),
            codex_bin: env_text(env.codex_bin, "codex"),
            codex_workdir,
            history_path: env_text(env.history_path, "zuttomo-history.jsonl"),
            pair_host: env_text(env.pair_host, "0.0.0.0"),
            pair_port: env_number(env.pair_port, 65535, 8787) as u16,
            http_timeout_secs: env_number(env.http_timeout_secs, u64::MAX, 120),
            oss_url: env_text(
                env.oss_url,
                "https://limonene213u.github.io/ai-2026-computex/",
            ),
        }
    }
}

// ---------------------------------------------------------------------------
// Laws

/// A value that is set counts as it is, and the default only where none is.
pub proof fn a_set_value_counts(value: Seq<char>, default: Seq<char>)
    ensures
        or_default(Some(value), default) == value,
        or_default(None, default) == default,
{
}

/// A number that is set counts up to the largest allowed, and the default where
/// it is larger, where the value is no number or where none is set.
pub proof fn a_set_number_counts(n: nat, value: Seq<char>, max: nat, default: nat)
    ensures
        number_or_default(Some(crate::number::decimal(n)), max, default) == if n <= max {
            n
        } else {
            default
        },
        parsed_number(value, max) is None ==> number_or_default(Some(value), max, default)
            == default,
        number_or_default(None, max, default) == default,
{
    crate::number::a_number_is_read_within_its_bound(n, max);
}

/// A value counts without the white space around it, and a blank one not at
/// all.
pub proof fn a_blank_value_is_none(before: Seq<char>, value: Seq<char>, after: Seq<char>)
    requires
        crate::text::is_blank(before),
        crate::text::is_blank(after),
        value.len() > 0 ==> !crate::text::is_space(value[0]) && !crate::text::is_space(
            value.last(),
        ),
    ensures
        nonempty(Some(before + value + after)) == if value.len() > 0 {
            Some(value)
        } else {
            None
        },
        nonempty(None) is None,
{
    crate::text::content_is_what_is_not_blank(before, value, after);
}

/// A switch is on where one of five words is set, off where one of five others
/// is, and the default decides everything else.
pub proof fn a_switch_knows_its_words(value: Seq<char>, default: bool)
    ensures
        ({
            let key = lowercased(trimmed(value));
            let on = key == "1"@ || key == "true"@ || key == "yes"@ || key == "on"@ || key
                == "enabled"@;
            let off = key == "0"@ || key == "false"@ || key == "no"@ || key == "off"@ || key
                == "disabled"@;
            &&& on ==> switch(Some(value), default)
            &&& off ==> !switch(Some(value), default)
            &&& !on && !off ==> switch(Some(value), default) == default
            &&& switch(None, default) == default
        }),
{
    reveal_strlit("1");
    reveal_strlit("true");
    reveal_strlit("yes");
    reveal_strlit("on");
    reveal_strlit("enabled");
    reveal_strlit("0");
    reveal_strlit("false");
    reveal_strlit("no");
    reveal_strlit("off");
    reveal_strlit("disabled");
    assert("1"@[0] != "0"@[0] && "on"@[0] != "no"@[0] && "yes"@[0] != "off"@[0]);
    assert("1"@.len() == 1 && "true"@.len() == 4 && "yes"@.len() == 3 && "on"@.len() == 2
        && "enabled"@.len() == 7);
    assert("0"@.len() == 1 && "false"@.len() == 5 && "no"@.len() == 2 && "off"@.len() == 3
        && "disabled"@.len() == 8);
}

/// The backend to begin with is the one that is asked for, unless it is the
/// MI25 backend and that is disabled, or no backend is meant: it is `codex`
/// then.
pub proof fn the_first_backend_is_the_requested_one(value: Seq<char>, mi25_enabled: bool)
    ensures
        ({
            let first = first_backend(requested_backend(Some(value)), mi25_enabled);
            match backend_named(value) {
                Some(backend) => if backend == Backend::Mi25 && !mi25_enabled {
                    first == Backend::Codex
                } else {
                    first == backend
                },
                None => first == Backend::Codex,
            }
        }),
        first_backend(requested_backend(None), mi25_enabled) == Backend::Codex,
        allowed(Backend::OpenRouter, mi25_enabled) && allowed(Backend::Codex, mi25_enabled),
        allowed(Backend::Mi25, mi25_enabled) == mi25_enabled,
{
}

/// A text that is set is taken over as it is, and the usual one otherwise.
pub proof fn texts_are_taken_over(env: Environment, config: Config)
    requires
        is_config_of(env, config),
    ensures
        config.mi25_base_url@ == match env.mi25_base_url {
            Some(value) => value@,
            None => "http://127.0.0.1:8000/v1"@,
        },
        config.mi25_model@ == match env.mi25_model {
            Some(value) => value@,
            None => "local-model"@,
        },
        config.openrouter_base_url@ == match env.openrouter_base_url {
            Some(value) => value@,
            None => "https://openrouter.ai/api/v1"@,
        },
        config.openrouter_model@ == match env.openrouter_model {
            Some(value) => value@,
            None => "openai/gpt-4o-mini"@,
        },
        config.codex_bin@ == match env.codex_bin {
            Some(value) => value@,
            None => "codex"@,
        },
        config.history_path@ == match env.history_path {
            Some(value) => value@,
            None => "zuttomo-history.jsonl"@,
        },
        config.pair_host@ == match env.pair_host {
            Some(value) => value@,
            None => "0.0.0.0"@,
        },
        config.oss_url@ == match env.oss_url {
            Some(value) => value@,
            None => "https://limonene213u.github.io/ai-2026-computex/"@,
        },
{
}

/// A key and a directory are taken over without the white space around them,
/// and not at all where they are blank or not set.
pub proof fn key_and_directory_are_trimmed(
    env: Environment,
    config: Config,
    before: Seq<char>,
    value: Seq<char>,
    after: Seq<char>,
)
    requires
        is_config_of(env, config),
        crate::text::is_blank(before),
        crate::text::is_blank(after),
        value.len() > 0 ==> !crate::text::is_space(value[0]) && !crate::text::is_space(
            value.last(),
        ),
    ensures
        env.openrouter_api_key matches Some(key) && key@ == before + value + after
            ==> string_view(config.openrouter_api_key) == if value.len() > 0 {
            Some(value)
        } else {
            None
        },
        env.codex_workdir matches Some(dir) && dir@ == before + value + after ==> string_view(
            config.codex_workdir,
        ) == if value.len() > 0 {
            Some(value)
        } else {
            None
        },
        env.openrouter_api_key is None ==> config.openrouter_api_key is None,
        env.codex_workdir is None ==> config.codex_workdir is None,
{
    a_blank_value_is_none(before, value, after);
}

/// Every port and every number of seconds that fits is taken over; a larger
/// one, a value that is no number and none at all give the usual one.
pub proof fn port_and_timeout_are_taken_over(env: Environment, config: Config, n: nat)
    requires
        is_config_of(env, config),
    ensures
        env.pair_port matches Some(port) && port@ == crate::number::decimal(n)
            ==> config.pair_port as nat == if n <= 65535 {
            n
        } else {
            8787
        },
        env.http_timeout_secs matches Some(secs) && secs@ == crate::number::decimal(n)
            ==> config.http_timeout_secs as nat == if n <= u64::MAX {
            n
        } else {
            120
        },
        env.pair_port matches Some(port) && parsed_number(port@, 65535) is None
            ==> config.pair_port == 8787,
        env.http_timeout_secs matches Some(secs) && parsed_number(secs@, u64::MAX as nat) is None
            ==> config.http_timeout_secs == 120,
        env.pair_port is None ==> config.pair_port == 8787,
        env.http_timeout_secs is None ==> config.http_timeout_secs == 120,
{
    crate::number::a_number_is_read_within_its_bound(n, 65535);
    crate::number::a_number_is_read_within_its_bound(n, u64::MAX as nat);
}

/// The MI25 backend is enabled only where the environment says so, and the
/// backend that the environment names is the first one where it may be used.
pub proof fn the_environment_decides_the_backend(env: Environment, config: Config)
    requires
        is_config_of(env, config),
    ensures
        env.mi25_enabled is None ==> !config.mi25_enabled,
        env.mi25_enabled matches Some(value) ==> config.mi25_enabled == ({
            let key = lowercased(trimmed(value@));
            key == "1"@ || key == "true"@ || key == "yes"@ || key == "on"@ || key == "enabled"@
        }),
        env.default_backend is None ==> config.default_backend == Backend::Codex,
        env.default_backend matches Some(value) ==> config.default_backend == match backend_named(
            value@,
        ) {
            Some(backend) => if backend == Backend::Mi25 && !config.mi25_enabled {
                Backend::Codex
            } else {
                backend
            },
            None => Backend::Codex,
        },
{
    if let Some(value) = env.mi25_enabled {
        a_switch_knows_its_words(value@, false);
    }
}

} // verus!
