use zuttomo::history::{
    export_markdown, history_listing, history_record, load_history, message_from_fields,
    message_from_value, parse_history_line, HistoryFields, HistoryLine,
};
use zuttomo::message::Message;
use zuttomo::text::lines;

fn message(role: &str, mode: &str, content: &str) -> Message {
    Message {
        role: role.to_string(),
        mode: mode.to_string(),
        content: content.to_string(),
    }
}

fn line(text: &str) -> HistoryLine {
    HistoryLine {
        text: text.to_string(),
        complete: None,
    }
}

#[test]
fn history_line_supports_legacy_without_mode() {
    let msg = parse_history_line(r#"{"role":"user","content":"hello"}"#, None).unwrap();
    assert_eq!(msg.role, "user");
    assert_eq!(msg.mode, "unknown");
    assert_eq!(msg.content, "hello");
}

#[test]
fn a_record_is_compact_json() {
    assert_eq!(
        history_record(&message("user", "tw", "漢字 \"a\\b\"\n\t\u{8}\u{c}\r\u{1}\u{1f}\u{7f}/")),
        "{\"role\":\"user\",\"mode\":\"tw\",\"content\":\"漢字 \\\"a\\\\b\\\"\\n\\t\\b\\f\\r\\u0001\\u001f\u{7f}/\"}\n"
    );
}

#[test]
fn a_record_gives_its_message_back() {
    for content in ["", "hello", "a\nb", "\"}{\\", "\u{0}\u{1f}\u{2028}漢😀", " x "] {
        let original = message("assistant", "jp", content);
        let record = history_record(&original);
        assert_eq!(record.matches('\n').count(), 1);
        let text = record.trim_end_matches('\n');
        assert_eq!(parse_history_line(text, None), Some(original.clone()));
        assert_eq!(
            parse_history_line(text, Some(original.clone())),
            Some(original)
        );
    }
}

#[test]
fn different_messages_have_different_records() {
    let a = history_record(&message("a\",\"mode\":\"b", "", ""));
    let b = history_record(&message("a", "b", ""));
    assert_ne!(a, b);
}

#[test]
fn a_complete_record_counts_before_the_line() {
    let complete = message("user", "chat", "hi");
    assert_eq!(
        parse_history_line(r#"["user","chat","hi"]"#, Some(complete.clone())),
        Some(complete)
    );
    assert_eq!(parse_history_line(r#"["user","chat","hi"]"#, None), None);
}

#[test]
fn lines_without_a_message_give_none() {
    for text in [
        "no json",
        "{}",
        "null",
        "7",
        r#"{"role":"user"}"#,
        r#"{"content":"x"}"#,
        r#"{"role":1,"content":"x"}"#,
        r#"{"role":"user","content":["x"]}"#,
        r#"{"role":"user","content":"x"} y"#,
    ] {
        assert_eq!(parse_history_line(text, None), None);
    }
}

#[test]
fn a_mode_that_is_no_text_is_unknown() {
    assert_eq!(
        parse_history_line(r#"{"role":"user","mode":3,"content":"x","more":[1,{}]}"#, None),
        Some(message("user", "unknown", "x"))
    );
}

#[test]
fn fields_make_a_message() {
    let fields = |role: Option<&str>, mode: Option<&str>, content: Option<&str>| HistoryFields {
        role: role.map(str::to_string),
        mode: mode.map(str::to_string),
        content: content.map(str::to_string),
    };
    assert_eq!(
        message_from_fields(fields(Some("r"), Some("m"), Some("c"))),
        Some(message("r", "m", "c"))
    );
    assert_eq!(
        message_from_fields(fields(Some("r"), None, Some(""))),
        Some(message("r", "unknown", ""))
    );
    assert_eq!(message_from_fields(fields(None, Some("m"), Some("c"))), None);
    assert_eq!(message_from_fields(fields(Some("r"), Some("m"), None)), None);
}

#[test]
fn loading_passes_over_blank_and_broken_lines() {
    let lines = vec![
        line("  {\"role\":\"user\",\"content\":\"a\"} \r"),
        line(""),
        line(" \u{3000}"),
        line("broken"),
        HistoryLine {
            text: "[\"user\",\"chat\",\"b\"]".to_string(),
            complete: Some(message("user", "chat", "b")),
        },
        HistoryLine {
            text: " ".to_string(),
            complete: Some(message("user", "chat", "c")),
        },
    ];
    assert_eq!(
        load_history(lines),
        [message("user", "unknown", "a"), message("user", "chat", "b")]
    );
}

#[test]
fn what_was_written_is_loaded() {
    let messages = vec![
        message("user", "chat", "一\n二"),
        message("assistant", "chat", ""),
        message("user", "tw", "\\\""),
    ];
    let file: String = messages.iter().map(history_record).collect();
    assert_eq!(load_history(file.lines().map(line).collect()), messages);
}

#[test]
fn written_records_follow_what_the_file_held() {
    let mut lines = vec![
        line(r#"{"role":"user","content":"old"}"#),
        line("broken"),
    ];
    let earlier = load_history(vec![
        line(r#"{"role":"user","content":"old"}"#),
        line("broken"),
    ]);
    let added = vec![message("user", "jp", "a"), message("assistant", "jp", "b")];
    for new in &added {
        lines.push(line(history_record(new).trim_end_matches('\n')));
    }
    let mut expected = earlier;
    expected.extend(added);
    assert_eq!(expected.len(), 3);
    assert_eq!(load_history(lines), expected);
}

#[test]
fn a_stored_message_comes_back_last() {
    let load = |file: &str| load_history(lines(file).into_iter().map(line).collect());
    let stored = message(" ro\"le\n", "\r\n", "  一\n\"二\"\\\u{85}\r ");
    for file in [
        "",
        "\n",
        "{\"role\":\"user\",\"content\":\"old\"}\r\nbroken\n\n",
        "{\"role\":\"user\",\"mode\":\"tw\",\"content\":\"old\"}\n",
    ] {
        let mut expected = load(file);
        expected.push(stored.clone());
        assert_eq!(load(&format!("{file}{}", history_record(&stored))), expected);
    }
}

#[test]
fn a_record_without_a_mode_is_read_with_the_mode_unknown() {
    for text in ["hello", "", "漢\"\\\n\u{1}"] {
        let complete = message("user", "tw", text);
        let record = history_record(&complete).replace(r#""mode":"tw","#, "");
        let expected = message("user", "unknown", text);
        assert_eq!(
            parse_history_line(record.trim_end_matches('\n'), None),
            Some(expected.clone())
        );
        let file = format!("{record}{}", history_record(&complete));
        assert_eq!(
            load_history(lines(&file).into_iter().map(line).collect()),
            [expected, complete]
        );
    }
}

#[test]
fn a_parsed_value_gives_its_message() {
    let value = |text: &str| serde_json::from_str::<serde_json::Value>(text).unwrap();
    assert_eq!(
        message_from_value(&value(r#"{"role":"a","mode":"b","content":"c"}"#)),
        Some(message("a", "b", "c"))
    );
    assert_eq!(
        message_from_value(&value(r#"{"role":"a","mode":null,"content":"c"}"#)),
        Some(message("a", "unknown", "c"))
    );
    assert_eq!(message_from_value(&value(r#"["a","b","c"]"#)), None);
}

#[test]
fn the_export_is_markdown() {
    assert_eq!(export_markdown(&[]), "# zuttomo history\n\n");
    assert_eq!(
        export_markdown(&[message("user", "tw", "a\nb"), message("assistant", "tw", "漢")]),
        "# zuttomo history\n\n## user (tw)\n\na\nb\n\n## assistant (tw)\n\n漢\n\n"
    );
}

#[test]
fn the_listing_is_numbered_and_aligned() {
    assert_eq!(history_listing(&[], 30), "history is empty\n");
    let history = vec![
        message("user", "tw", "a\nb"),
        message("assistant", "question", &"長".repeat(97)),
    ];
    assert_eq!(
        history_listing(&history, 30),
        format!(
            "  1. user      tw       a b\n  2. assistant question {}...\n",
            "長".repeat(96)
        )
    );
    assert!(history_listing(&history, 1).starts_with("  2. assistant "));
    assert_eq!(history_listing(&history, 0), "");
}
