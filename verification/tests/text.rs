use diffsplitter::calendar::{format_ns, parse_date_to_ns};
use diffsplitter::text::{
    byte_len, has_prefix, html_escape, i64_text, parse_unsigned, same_text, take_chars,
    trim_end_slashes,
};

#[test]
fn date_parser_epoch() {
    assert_eq!(parse_date_to_ns("1970-01-01"), Some(0));
}

#[test]
fn date_parser_known_day() {
    // 2024-01-01 = 19723 days since epoch
    let want = 19723_i64 * 86_400 * 1_000_000_000;
    assert_eq!(parse_date_to_ns("2024-01-01"), Some(want));
}

#[test]
fn date_parser_rejects_bad_input() {
    assert_eq!(parse_date_to_ns(""), None);
    assert_eq!(parse_date_to_ns("2024/01/01"), None);
    assert_eq!(parse_date_to_ns("2024-13-01"), None);
    assert_eq!(parse_date_to_ns("2024-01-32"), None);
}

#[test]
fn date_parser_edges() {
    assert_eq!(parse_date_to_ns("1969-12-31"), None);
    assert_eq!(parse_date_to_ns("2024-00-10"), None);
    assert_eq!(parse_date_to_ns("2024-01-00"), None);
    assert_eq!(parse_date_to_ns("2024-1-01x"), None);
    assert_eq!(parse_date_to_ns("2024-02-29 "), None);
    assert_eq!(parse_date_to_ns("20é4-01-1"), None);
    assert_eq!(
        parse_date_to_ns("2024-02-29"),
        Some((19723 + 31 + 28) * 86_400 * 1_000_000_000)
    );
    // A day that its month does not have is no date.
    assert_eq!(parse_date_to_ns("2023-02-31"), None);
    assert_eq!(parse_date_to_ns("2023-02-29"), None);
    assert_eq!(parse_date_to_ns("2100-02-29"), None);
    assert_eq!(parse_date_to_ns("2024-04-31"), None);
    assert!(parse_date_to_ns("2000-02-29").is_some());
    // Nothing but digits and dashes.
    assert_eq!(parse_date_to_ns("2024-+1-01"), None);
    assert_eq!(parse_date_to_ns("2024-01-+1"), None);
    assert_eq!(parse_date_to_ns("+202-01-01"), None);
    assert_eq!(
        parse_date_to_ns("2262-04-11"),
        Some(106_751 * 86_400 * 1_000_000_000)
    );
    // There is no number of nanoseconds for a later date.
    assert_eq!(parse_date_to_ns("2262-04-12"), None);
    assert_eq!(parse_date_to_ns("9999-12-31"), None);
}

#[test]
fn format_ns_epoch() {
    assert_eq!(format_ns(0), "1970-01-01T00:00:00Z");
}

#[test]
fn format_ns_known() {
    // 2024-05-03T12:34:56Z = 1714739696
    let ns = 1_714_739_696_i64 * 1_000_000_000;
    assert_eq!(format_ns(ns), "2024-05-03T12:34:56Z");
}

#[test]
fn format_ns_edges() {
    assert_eq!(format_ns(-1), "1969-12-31T23:59:59Z");
    assert_eq!(format_ns(951_782_400_000_000_000), "2000-02-29T00:00:00Z");
    assert_eq!(format_ns(i64::MAX), "2262-04-11T23:47:16Z");
    assert_eq!(format_ns(i64::MIN), "1677-09-21T00:12:43Z");
}

#[test]
fn written_dates_read_back() {
    for day in [0_i64, 58, 59, 11_016, 19_723, 36_524, 106_751] {
        let ns = day * 86_400 * 1_000_000_000;
        let text = format_ns(ns);
        assert_eq!(parse_date_to_ns(&text[..10]), Some(ns));
    }
}

#[test]
fn html_escape_basics() {
    assert_eq!(html_escape("a&b<c>\"d'"), "a&amp;b&lt;c&gt;&quot;d&#39;");
}

#[test]
fn html_escape_leaves_the_rest() {
    assert_eq!(html_escape(""), "");
    assert_eq!(html_escape("né — ok"), "né — ok");
    assert_ne!(html_escape("&lt;"), html_escape("<"));
}

#[test]
fn numbers_are_written_in_decimal() {
    assert_eq!(i64_text(0), "0");
    assert_eq!(i64_text(-1), "-1");
    assert_eq!(i64_text(i64::MIN), "-9223372036854775808");
    assert_eq!(i64_text(i64::MAX), "9223372036854775807");
}

#[test]
fn numbers_are_read() {
    assert_eq!(parse_unsigned("0", 10), Some(0));
    assert_eq!(parse_unsigned("+7", 10), Some(7));
    assert_eq!(parse_unsigned("007", 10), Some(7));
    assert_eq!(parse_unsigned("11", 10), None);
    assert_eq!(parse_unsigned("", 10), None);
    assert_eq!(parse_unsigned("+", 10), None);
    assert_eq!(parse_unsigned("++1", 10), None);
    assert_eq!(parse_unsigned("-1", 10), None);
    assert_eq!(parse_unsigned("1 ", 10), None);
    assert_eq!(
        parse_unsigned("18446744073709551615", u64::MAX),
        Some(u64::MAX)
    );
    assert_eq!(parse_unsigned("18446744073709551616", u64::MAX), None);
}

#[test]
fn texts_are_cut_by_characters() {
    assert_eq!(take_chars("héllo", 2), "hé");
    assert_eq!(take_chars("hé", 5), "hé");
    assert_eq!(trim_end_slashes("http://x//"), "http://x");
    assert_eq!(trim_end_slashes("///"), "");
    assert_eq!(trim_end_slashes("a/b"), "a/b");
    assert!(has_prefix("/_admin/x", "/_admin/"));
    assert!(!has_prefix("/_admin", "/_admin/"));
    assert_eq!(byte_len("né"), 3);
}

#[test]
fn texts_are_the_same_character_by_character() {
    assert!(same_text("", ""));
    assert!(same_text("né", "né"));
    assert!(!same_text("né", "n"));
    assert!(!same_text("n", "né"));
    assert!(!same_text("ab", "ba"));
}
