use zuttomo::backend::Backend;
use zuttomo::mode::{system_prompt, Mode};

const MODES: [Mode; 5] = [
    Mode::Chat,
    Mode::Question,
    Mode::ToTaiwanMandarin,
    Mode::ToJapanese,
    Mode::Pobo,
];

#[test]
fn backend_aliases_parse() {
    assert_eq!(Backend::from_name("mi25"), Some(Backend::Mi25));
    assert_eq!(Backend::from_name("or"), Some(Backend::OpenRouter));
    assert_eq!(Backend::from_name("codex-cli"), Some(Backend::Codex));
    assert_eq!(Backend::from_name("unknown"), None);
}

#[test]
fn backend_names_ignore_case_and_outer_space() {
    assert_eq!(Backend::from_name("  MI25\n"), Some(Backend::Mi25));
    assert_eq!(Backend::from_name("OpenRouter"), Some(Backend::OpenRouter));
    assert_eq!(Backend::from_name("OR"), Some(Backend::OpenRouter));
    assert_eq!(Backend::from_name("\u{3000}Codex\u{3000}"), Some(Backend::Codex));
    assert_eq!(Backend::from_name("CODEX-CLI"), Some(Backend::Codex));
    assert_eq!(Backend::from_name("mi 25"), None);
    assert_eq!(Backend::from_name("ＯＲ"), None);
    assert_eq!(Backend::from_name(""), None);
}

#[test]
fn backend_keys_are_taken_literally() {
    assert_eq!(Backend::from_key("codex"), Some(Backend::Codex));
    assert_eq!(Backend::from_key("CODEX"), None);
    assert_eq!(Backend::from_key(" codex"), None);
}

#[test]
fn a_backend_is_found_by_its_name() {
    for backend in [Backend::Mi25, Backend::OpenRouter, Backend::Codex] {
        assert_eq!(Backend::from_name(backend.name()), Some(backend));
    }
    assert_eq!(Backend::OpenRouter.name(), "openrouter");
}

#[test]
fn modes_have_their_names_and_limits() {
    let names: Vec<&str> = MODES.iter().map(|mode| mode.name()).collect();
    assert_eq!(names, ["chat", "question", "tw", "jp", "pobo"]);
    let limits: Vec<u32> = MODES.iter().map(|mode| mode.max_tokens()).collect();
    assert_eq!(limits, [900, 1600, 500, 700, 400]);
    let hundredths: Vec<u32> = MODES
        .iter()
        .map(|mode| mode.temperature_hundredths())
        .collect();
    assert_eq!(hundredths, [30, 25, 30, 30, 20]);
}

#[test]
fn temperatures_are_those_of_single_precision() {
    let temperature = |mode: Mode| mode.temperature_hundredths() as f32 / 100.0;
    assert_eq!(temperature(Mode::Question), 0.25f32);
    assert_eq!(temperature(Mode::Pobo), 0.2f32);
    assert_eq!(temperature(Mode::Chat), 0.3f32);
}

#[test]
fn each_mode_has_its_instructions() {
    assert!(system_prompt(Mode::Chat).starts_with("\n你是「りもこズッ友キラキラポボモフォ2.0」。\n"));
    assert!(system_prompt(Mode::Chat).ends_with("昨日的技術交流、今日的ズッ友。\n"));
    assert!(system_prompt(Mode::Question)
        .starts_with("\n你是「檸檬烯姐總合熱烈爆裂友情智慧板」的技術質問模式。\n"));
    assert!(system_prompt(Mode::ToTaiwanMandarin).starts_with("\n你是台灣華語翻譯模式。\n"));
    assert!(system_prompt(Mode::ToJapanese).starts_with("\n你是台灣華語到日本語的翻譯模式。\n"));
    assert!(system_prompt(Mode::Pobo).ends_with("ㄐㄧˋ ㄕㄨˋ ㄧㄡˇ ㄧˊ ㄓㄨㄤ ㄓˋ\n"));
}
