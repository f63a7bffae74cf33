use f1scraper::text::{join_with_spaces, parse_u16, render_decimal, split_segments, strip_html_suffix};

#[test]
fn split_keeps_empty_pieces() {
    assert_eq!(
        split_segments("/en/results.html/1950"),
        vec!["", "en", "results.html", "1950"]
    );
    assert_eq!(split_segments(""), vec![""]);
    assert_eq!(split_segments("a//b/"), vec!["a", "", "b", ""]);
}

#[test]
fn strip_removes_repeated_extensions_only_at_the_end() {
    assert_eq!(strip_html_suffix("nino-farina.html"), "nino-farina");
    assert_eq!(strip_html_suffix("a.html.html"), "a");
    assert_eq!(strip_html_suffix("results.html.x"), "results.html.x");
    assert_eq!(strip_html_suffix("italy"), "italy");
    assert_eq!(strip_html_suffix(".html"), "");
}

#[test]
fn parse_u16_accepts_what_std_accepts() {
    for s in ["0", "100", "+12", "65535", "007", "", "+", "-1", "65536", "1a", " 1"] {
        assert_eq!(parse_u16(s), s.parse::<u16>().ok(), "text {s:?}");
    }
}

#[test]
fn render_decimal_writes_plain_digits() {
    assert_eq!(render_decimal(0), "0");
    assert_eq!(render_decimal(7), "7");
    assert_eq!(render_decimal(1950), "1950");
    assert_eq!(render_decimal(65535), "65535");
}

#[test]
fn join_puts_one_space_between_parts() {
    let parts = vec!["Nino".to_string(), "Farina".to_string(), "FAR".to_string()];
    assert_eq!(join_with_spaces(&parts), "Nino Farina FAR");
    assert_eq!(join_with_spaces(&vec![]), "");
    assert_eq!(join_with_spaces(&vec!["x".to_string()]), "x");
}

#[test]
fn trim_removes_what_std_removes() {
    for s in ["", "  ", " a ", "\n\t Italy \r\n", "\u{a0}x\u{3000}", "\u{2003}a b\u{85}", "ab", "\u{200b}a"] {
        assert_eq!(f1scraper::text::trim(s), s.trim(), "text {s:?}");
    }
}
