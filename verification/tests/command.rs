use zuttomo::command::{command_arg, parse_command, Command, Verb};
use zuttomo::mode::Mode;

#[test]
fn command_arg_requires_boundary() {
    assert_eq!(command_arg("/tw hello", "/tw"), Some("hello"));
    assert_eq!(command_arg("/tw", "/tw"), Some(""));
    assert_eq!(command_arg("/twist", "/tw"), None);
}

#[test]
fn any_white_space_ends_a_command() {
    assert_eq!(command_arg("/tw\u{3000} 你好 \t", "/tw"), Some("你好"));
    assert_eq!(command_arg("/tw ", "/tw"), Some(""));
    assert_eq!(command_arg("/t", "/tw"), None);
    assert_eq!(command_arg("", ""), Some(""));
}

#[test]
fn lines_are_commands() {
    let text = |s: &str| s.to_string();
    assert_eq!(parse_command(" \n"), Command::Nothing);
    assert_eq!(parse_command("/exit\n"), Command::Exit);
    assert_eq!(parse_command(" /quit "), Command::Exit);
    assert_eq!(parse_command("/help"), Command::Help);
    assert_eq!(parse_command("/aa"), Command::Art);
    assert_eq!(parse_command("/model"), Command::Model(text("")));
    assert_eq!(parse_command("/model  or "), Command::Model(text("or")));
    assert_eq!(parse_command("/history"), Command::History);
    assert_eq!(parse_command("/clear"), Command::Clear);
    assert_eq!(parse_command("/prompt"), Command::Prompt);
    assert_eq!(parse_command("/export md"), Command::Export(text("md")));
    assert_eq!(parse_command("/pair"), Command::Pair);
    assert_eq!(parse_command("/exit now"), Command::Unknown(text("/exit now")));
    assert_eq!(parse_command("/models"), Command::Unknown(text("/models")));
    assert_eq!(parse_command("/"), Command::Unknown(text("/")));
    assert_eq!(parse_command("你好 /tw"), Command::Say(text("你好 /tw")));
}

#[test]
fn a_verb_takes_its_text() {
    let verbs = [
        ("/chat", Verb::Chat, Mode::Chat),
        ("/question", Verb::Question, Mode::Question),
        ("/tw", Verb::Tw, Mode::ToTaiwanMandarin),
        ("/me", Verb::Me, Mode::ToTaiwanMandarin),
        ("/jp", Verb::Jp, Mode::ToJapanese),
        ("/you", Verb::You, Mode::ToJapanese),
        ("/pobo", Verb::Pobo, Mode::Pobo),
    ];
    for (word, verb, mode) in verbs {
        assert_eq!(verb.mode(), mode);
        assert_eq!(parse_command(word), Command::Turn(verb, String::new()));
        assert_eq!(
            parse_command(&format!("{word}\t text  more ")),
            Command::Turn(verb, "text  more".to_string())
        );
        assert_eq!(
            parse_command(&format!("{word}x")),
            Command::Unknown(format!("{word}x"))
        );
    }
}
