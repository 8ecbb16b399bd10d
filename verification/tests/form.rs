use zuttomo::form::{from_hex_digit, parse_form_text, percent_decode, percent_decode_bytes};

#[test]
fn form_text_is_percent_decoded() {
    assert_eq!(
        parse_form_text(
            "ignored&text=%E5%93%87%EF%BC%8C%E9%80%99%E5%BE%88%E6%9C%89%E8%B6%A3%EF%BC%81"
        )
        .as_deref(),
        Some("哇，這很有趣！")
    );
    assert_eq!(
        parse_form_text("text=hello+world").as_deref(),
        Some("hello world")
    );
}

#[test]
fn hex_digits_have_values() {
    assert_eq!(from_hex_digit(b'0'), Some(0));
    assert_eq!(from_hex_digit(b'9'), Some(9));
    assert_eq!(from_hex_digit(b'a'), Some(10));
    assert_eq!(from_hex_digit(b'F'), Some(15));
    assert_eq!(from_hex_digit(b'g'), None);
    assert_eq!(from_hex_digit(b'/'), None);
    assert_eq!(from_hex_digit(b':'), None);
    assert_eq!(from_hex_digit(b'@'), None);
}

#[test]
fn incomplete_escapes_stand_for_themselves() {
    assert_eq!(percent_decode("%"), "%");
    assert_eq!(percent_decode("%4"), "%4");
    assert_eq!(percent_decode("%4g"), "%4g");
    assert_eq!(percent_decode("%41"), "A");
    assert_eq!(percent_decode("%%41"), "%A");
    assert_eq!(percent_decode("a%2Bb+c"), "a+b c");
    assert_eq!(percent_decode("漢字"), "漢字");
}

#[test]
fn bytes_that_are_no_text_are_replaced() {
    assert_eq!(percent_decode("a%FFb"), "a\u{fffd}b");
    assert_eq!(percent_decode_bytes(b"a%FFb"), [b'a', 0xff, b'b']);
}

#[test]
fn a_valid_beginning_stays_before_other_bytes() {
    assert_eq!(percent_decode("漢%E6%BC%A2%E6%BC"), "漢漢\u{fffd}");
    assert_eq!(percent_decode_bytes("é+%C3".as_bytes()), [0xc3, 0xa9, b' ', 0xc3]);
}

#[test]
fn one_to_three_bytes_are_replaced_together() {
    assert_eq!(percent_decode("Hello+%F0%90%80World"), "Hello \u{fffd}World");
    assert_eq!(percent_decode("%FF"), "\u{fffd}");
    assert_eq!(percent_decode("%80a%C0漢"), "\u{fffd}a\u{fffd}漢");
}

#[test]
fn text_without_percent_signs_is_decoded_by_itself() {
    for a in ["", "a+b", "漢字é+😀", "++", "no signs"] {
        assert_eq!(percent_decode(a), a.replace('+', " "));
        for b in ["", "+", "%", "%41", "%FF%41", "%E6%BC", "41", "漢%A2+"] {
            assert_eq!(
                percent_decode(&format!("{a}{b}")),
                format!("{}{}", percent_decode(a), percent_decode(b))
            );
        }
    }
}

#[test]
fn an_encoded_text_comes_back() {
    let text = "哇 a+b&c=d%é_-.*~\n";
    let mut encoded = String::new();
    for byte in text.bytes() {
        match byte {
            b' ' => encoded.push('+'),
            b'0'..=b'9' | b'a'..=b'z' | b'A'..=b'Z' | b'*' | b'-' | b'.' | b'_' => {
                encoded.push(byte as char)
            }
            _ => encoded.push_str(&format!("%{byte:02X}")),
        }
    }
    assert_eq!(percent_decode(&encoded), text);
    assert_eq!(
        parse_form_text(&format!("text={encoded}")).as_deref(),
        Some(text.trim())
    );
}

#[test]
fn the_first_text_that_says_something_counts() {
    assert_eq!(parse_form_text("text=&text=+&text=b&text=c").as_deref(), Some("b"));
    assert_eq!(parse_form_text("text=a=b").as_deref(), Some("a=b"));
    assert_eq!(parse_form_text("Text=a&texts=b&text"), None);
    assert_eq!(parse_form_text(""), None);
    assert_eq!(parse_form_text("text=%20%0A"), None);
}
