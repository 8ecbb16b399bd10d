use zuttomo::html::{html_escape, pair_form_page};

#[test]
fn markup_is_escaped() {
    assert_eq!(
        html_escape("<a href=\"x\">&amp;'漢</a>"),
        "&lt;a href=&quot;x&quot;&gt;&amp;amp;'漢&lt;/a&gt;"
    );
    assert_eq!(html_escape(""), "");
}

#[test]
fn different_texts_have_different_escapes() {
    assert_ne!(html_escape("<"), html_escape("&lt;"));
    assert_ne!(html_escape("\""), html_escape("'"));
}

#[test]
fn the_page_shows_the_latest_input_and_the_link() {
    let page = pair_form_page(Some("<你好>"), "https://example.org/?a=1&b=\"2\"");
    assert!(page.starts_with("<!doctype html>\n<html lang=\"zh-Hant\">\n"));
    assert!(page.contains("body { font-family: system-ui, sans-serif; margin: 24px; line-height: 1.5; }\n"));
    assert!(page.contains("<div class=\"latest\">&lt;你好&gt;</div>\n<section class=\"oss\">\n"));
    assert!(page.contains(
        "\n<a href=\"https://example.org/?a=1&amp;b=&quot;2&quot;\" target=\"_blank\" rel=\"noopener noreferrer\">Open tools for local AI / 為本地 AI 打造開源工具</a>\n"
    ));
    assert!(page.ends_with("</section>\n</body>\n</html>"));
}

#[test]
fn the_page_says_that_there_is_no_input() {
    let page = pair_form_page(None, "x");
    assert!(page.contains("<div class=\"latest\">まだ入力はありません。</div>"));
}
