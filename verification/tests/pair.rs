use zuttomo::html::pair_form_page;
use zuttomo::pair::{
    bind_address, http_response, not_found_response, page_response, pair_display_url,
    serves_every_address, submit_response, submitted_text, take_submission, PairAction, RequestHeader,
};

#[test]
fn the_shown_address_can_be_reached() {
    assert_eq!(
        pair_display_url("0.0.0.0", 8787, Some("192.168.0.7")),
        "http://192.168.0.7:8787"
    );
    assert_eq!(pair_display_url("::", 80, None), "http://127.0.0.1:80");
    assert_eq!(
        pair_display_url("example.org", 65535, Some("192.168.0.7")),
        "http://example.org:65535"
    );
    assert!(serves_every_address("0.0.0.0"));
    assert!(serves_every_address("::"));
    assert!(!serves_every_address("127.0.0.1"));
    assert_eq!(bind_address("0.0.0.0", 8787), "0.0.0.0:8787");
}

#[test]
fn the_header_gives_the_length_of_the_body() {
    let mut header = RequestHeader::new();
    assert!(header.take_line("Host: x\r\n"));
    assert_eq!(header.content_length, 0);
    assert!(header.take_line("Content-Length: 12 \r\n"));
    assert_eq!(header.content_length, 12);
    assert!(header.take_line("content-length: 99\r\n"));
    assert_eq!(header.content_length, 12);
    assert!(header.take_line("Content-Length:34\r\n"));
    assert_eq!(header.content_length, 34);
    assert!(header.take_line(" Content-Length: 5\r\n"));
    assert_eq!(header.content_length, 34);
    assert!(!header.take_line("\r\n"));
    assert_eq!(header.content_length, 34);
    assert!(header.take_line("Content-Length: many\r\n"));
    assert_eq!(header.content_length, 0);
    assert!(!header.take_line(""));
}

#[test]
fn requests_are_told_apart() {
    let header = RequestHeader { content_length: 9 };
    assert_eq!(header.action("GET / HTTP/1.1\r\n"), PairAction::ShowForm);
    assert_eq!(header.action("POST /submit HTTP/1.1\r\n"), PairAction::TakeForm(9));
    assert_eq!(header.action("GET /x HTTP/1.1\r\n"), PairAction::NotFound);
    assert_eq!(header.action("POST / HTTP/1.1\r\n"), PairAction::NotFound);
    assert_eq!(header.action("POST /submit\r\n"), PairAction::NotFound);
    assert_eq!(header.action("GET /"), PairAction::NotFound);
    assert_eq!(header.action(""), PairAction::NotFound);
}

#[test]
fn a_response_names_the_length_in_bytes() {
    assert_eq!(
        http_response("200 OK", "text/html", "漢字"),
        "HTTP/1.1 200 OK\r\nContent-Type: text/html; charset=utf-8\r\nContent-Length: 6\r\nConnection: close\r\n\r\n漢字"
    );
    assert_eq!(
        not_found_response(),
        "HTTP/1.1 404 Not Found\r\nContent-Type: text/plain; charset=utf-8\r\nContent-Length: 9\r\nConnection: close\r\n\r\nnot found"
    );
}

#[test]
fn the_form_is_a_page() {
    assert_eq!(
        page_response(Some("你好"), "u"),
        http_response("200 OK", "text/html", &pair_form_page(Some("你好"), "u"))
    );
}

#[test]
fn a_submitted_text_becomes_the_latest() {
    let mut latest = None;
    assert!(!take_submission(&mut latest, b"text=+"));
    assert_eq!(latest, None);
    assert!(take_submission(&mut latest, b"text=%E4%BD%A0%E5%A5%BD"));
    assert_eq!(latest.as_deref(), Some("你好"));
    assert!(!take_submission(&mut latest, b"other=1"));
    assert_eq!(latest.as_deref(), Some("你好"));
    assert_eq!(submitted_text(b"text=a\xff").as_deref(), Some("a\u{fffd}"));
}

#[test]
fn the_partner_is_told_what_happened() {
    let page = |message: &str| {
        format!(
            "{}<p><strong>{message}</strong></p>",
            pair_form_page(Some("你好"), "u")
        )
    };
    assert_eq!(
        submit_response(Some("你好"), "u", true),
        http_response(
            "200 OK",
            "text/html",
            &page("收到！請回到りもこ的CLI輸入 /you。")
        )
    );
    assert_eq!(
        submit_response(Some("你好"), "u", false),
        http_response("200 OK", "text/html", &page("沒有收到文字，請再試一次。"))
    );
}
