use zuttomo::message::{preview, trim_history, Message};
use zuttomo::mode::Mode;
use zuttomo::number::{decimal_text, parse_number};
use zuttomo::text::{
    align_left, align_right, flatten_lines, is_whitespace, join, lines, nonempty_trimmed, same_text,
    split, split_once, starts_with, strip_prefix, trim, trim_end, trim_end_matches,
};

#[test]
fn white_space_is_that_of_unicode() {
    for c in '\0'..=char::MAX {
        assert_eq!(is_whitespace(c), c.is_whitespace());
    }
}

#[test]
fn trimming_agrees_with_std() {
    for text in [
        "", " ", "a", " a", "a ", " a b ", "\u{3000}漢字\u{a0}", "\r\n\tx\u{2028}", "\u{200b} ",
    ] {
        assert_eq!(trim(text), text.trim());
        assert_eq!(trim_end(text), text.trim_end());
        assert_eq!(trim(trim(text)), trim(text));
    }
}

#[test]
fn trimmed_text_may_be_nothing() {
    assert_eq!(nonempty_trimmed(" \t"), None);
    assert_eq!(nonempty_trimmed(" x "), Some("x".to_string()));
}

#[test]
fn trailing_characters_are_cut() {
    assert_eq!(trim_end_matches("http://h/v1///", '/'), "http://h/v1");
    assert_eq!(trim_end_matches("///", '/'), "");
    assert_eq!(trim_end_matches("a/b", '/'), "a/b");
}

#[test]
fn texts_are_compared_by_their_characters() {
    assert!(same_text("漢字", "漢字"));
    assert!(!same_text("漢字", "漢子"));
    assert!(!same_text("a", "ab"));
    assert!(starts_with("漢字", "漢"));
    assert!(!starts_with("漢", "漢字"));
    assert_eq!(strip_prefix("漢字です", "漢字"), Some("です"));
    assert_eq!(strip_prefix("漢字", ""), Some("漢字"));
    assert_eq!(strip_prefix("字", "漢"), None);
}

#[test]
fn texts_are_split_and_joined() {
    assert_eq!(split("a&b&&漢", '&'), ["a", "b", "", "漢"]);
    assert_eq!(split("", '&'), [""]);
    assert_eq!(split("&", '&'), ["", ""]);
    assert_eq!(split_once("a=b=c", '='), Some(("a", "b=c")));
    assert_eq!(split_once("a", '='), None);
    let list = vec!["a".to_string(), "".to_string(), "b".to_string()];
    assert_eq!(join(&list, " "), "a  b");
    assert_eq!(join(&Vec::new(), " "), "");
}

#[test]
fn texts_have_lines() {
    assert!(lines("").is_empty());
    assert_eq!(lines("\n"), [""]);
    assert_eq!(lines("a\n漢"), ["a", "漢"]);
    assert_eq!(lines("a\r\n\r\n\r\r\nb\r"), ["a", "", "\r", "b\r"]);
    assert_eq!(lines("a\n\nb\n"), ["a", "", "b"]);
    for (front, back) in [("", "x"), ("a\n", ""), ("a\r\n\n", "b\nc"), ("\n", "\r\n")] {
        let mut expected = lines(front);
        expected.extend(lines(back));
        assert_eq!(lines(&format!("{front}{back}")), expected);
    }
}

#[test]
fn texts_are_aligned_by_characters() {
    assert_eq!(align_right("7", 3), format!("{:>3}", "7"));
    assert_eq!(align_left("漢字", 4), format!("{:<4}", "漢字"));
    assert_eq!(align_right("1234", 3), "1234");
    assert_eq!(align_left("1234", 3), "1234");
    assert_eq!(flatten_lines("a\nb\r\n漢"), "a b\r 漢");
}

#[test]
fn numbers_are_written_in_decimal() {
    for n in [0u64, 7, 10, 99, 8787, 65535, u64::MAX] {
        assert_eq!(decimal_text(n), n.to_string());
        assert_eq!(parse_number(&decimal_text(n), u64::MAX), Some(n));
    }
}

#[test]
fn numbers_are_read_as_std_reads_them() {
    for text in [
        "", "0", "+", "-", "+5", "-5", "++5", "007", " 7", "7 ", "65535", "65536", "1_0", "٣",
        "99999999999999999999999999", "000000000000000000000000000001", "12a",
    ] {
        let expected = text.parse::<u16>().ok().map(|n| n as u64);
        assert_eq!(parse_number(text, 65535), expected);
        assert_eq!(parse_number(text, u64::MAX), text.parse::<u64>().ok());
    }
    assert_eq!(parse_number("18446744073709551615", u64::MAX), Some(u64::MAX));
    assert_eq!(parse_number("18446744073709551616", u64::MAX), None);
}

#[test]
fn previews_end_with_an_ellipsis() {
    assert_eq!(preview("漢字です", 4), "漢字です");
    assert_eq!(preview("漢字です", 2), "漢字...");
    assert_eq!(preview("a", 0), "...");
    assert_eq!(preview("", 0), "");
}

#[test]
fn the_last_messages_are_kept() {
    let history: Vec<Message> = (0..5)
        .map(|n| Message::new("user", Mode::Chat, n.to_string()))
        .collect();
    assert_eq!(trim_history(&history, 2), &history[3..]);
    assert_eq!(trim_history(&history, 5), &history[..]);
    assert_eq!(trim_history(&history, 9), &history[..]);
    assert!(trim_history(&history, 0).is_empty());
    assert_eq!(history[3].role, "user");
    assert_eq!(history[3].mode, "chat");
    assert_eq!(history[3].content, "3");
}
