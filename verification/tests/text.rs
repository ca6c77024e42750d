use openai_codex_proxy::ranking::text_order;
use openai_codex_proxy::text;

fn strings(items: &[&str]) -> Vec<String> {
    items.iter().map(|s| s.to_string()).collect()
}

#[test]
fn trims_every_kind_of_white_space() {
    assert_eq!(text::trim(" \t\r\n a b \u{a0}\u{2003}\u{3000}"), "a b");
    assert_eq!(text::trim("\u{200b}a"), "\u{200b}a");
    assert_eq!(text::trim("   "), "");
    assert_eq!(text::trim(""), "");
}

#[test]
fn trims_as_std_does() {
    for n in 0..0x3100u32 {
        if let Some(c) = char::from_u32(n) {
            let s = format!("{c}x{c}");
            assert_eq!(text::trim(&s), s.trim());
        }
    }
}

#[test]
fn trims_quotes_only() {
    assert_eq!(text::trim_quotes("\"plus\""), "plus");
    assert_eq!(text::trim_quotes("\"\"a\"b\""), "a\"b");
    assert_eq!(text::trim_quotes(" \"a\""), " \"a");
}

#[test]
fn lowers_ascii_letters_only() {
    assert_eq!(text::to_lower("ChatGPT É"), "chatgpt É");
}

#[test]
fn compares_strings() {
    assert!(text::same("abc", "abc"));
    assert!(!text::same("abc", "abd"));
    assert!(!text::same("abc", "ab"));
}

#[test]
fn finds_parts() {
    assert!(text::contains("gpt-5-codex", "codex"));
    assert!(text::contains("abc", ""));
    assert!(!text::contains("code", "codex"));
    assert!(!text::contains("", "a"));
}

#[test]
fn splits_and_joins() {
    assert_eq!(text::split("a,,b", ','), strings(&["a", "", "b"]));
    assert_eq!(text::split("", ','), strings(&[""]));
    assert_eq!(text::join(&strings(&["a", "b", "c"]), "\n\n"), "a\n\nb\n\nc");
    assert_eq!(text::join(&strings(&[]), "x"), "");
}

#[test]
fn strips_prefixes() {
    assert_eq!(text::strip_prefix("Bearer abc", "Bearer "), Some("abc"));
    assert_eq!(text::strip_prefix("bearer abc", "Bearer "), None);
    assert_eq!(text::strip_prefix("Bear", "Bearer "), None);
}

#[test]
fn takes_what_follows_the_last() {
    assert_eq!(text::strip_to_last("rust-v0.1.2", 'v'), Some("0.1.2"));
    assert_eq!(text::strip_to_last("vivid", 'v'), Some("id"));
    assert_eq!(text::strip_to_last("abc", 'v'), None);
}

#[test]
fn writes_integers_in_decimal() {
    for n in [0, 7, 10, -1, 429, i64::MIN, i64::MAX] {
        assert_eq!(text::int_string(n), n.to_string());
    }
}

#[test]
fn reads_signed_integers_as_std_does() {
    for s in [
        "0", "-0", "+5", "-5", "", "+", "-", "1 ", " 1", "0x1", "9223372036854775807",
        "9223372036854775808", "-9223372036854775808", "-9223372036854775809", "00012",
        "99999999999999999999999999", "1_000", "\u{661}",
    ] {
        assert_eq!(text::parse_signed(s), s.parse::<i64>().ok(), "{s:?}");
    }
}

#[test]
fn reads_unsigned_integers_as_std_does() {
    for s in ["0", "-0", "+5", "-5", "", "+", "255", "256", "000255", "300", "a"] {
        let expected = s.parse::<u8>().ok().map(u64::from);
        assert_eq!(text::parse_unsigned(s, 255), expected, "{s:?}");
    }
    for s in ["18446744073709551615", "18446744073709551616"] {
        assert_eq!(text::parse_unsigned(s, u64::MAX), s.parse::<u64>().ok());
    }
}

#[test]
fn orders_texts_as_std_does() {
    let items = ["", "a", "ab", "b", "B", "é", "\u{ffff}", "\u{10000}", "a\u{0}"];
    for x in items {
        for y in items {
            assert_eq!(text::comes_before(x, y), x < y, "{x:?} {y:?}");
        }
    }
}

#[test]
fn order_of_texts_is_total_and_transitive() {
    let items = ["b", "a", "c"];
    assert!(text::comes_before(items[1], items[0]));
    assert!(text::comes_before(items[0], items[2]));
    assert!(text::comes_before(items[1], items[2]));
    assert!(!text::comes_before(items[1], items[1]));
}

#[test]
fn sorts_texts_stably() {
    let order = text_order(&strings(&["b", "a", "b", "a"]));
    assert_eq!(order, vec![1, 3, 0, 2]);
}

#[test]
fn writes_options_as_debug_does() {
    assert_eq!(text::debug_text(&None), "None");
    let tricky = Some("a\"b\\c\n\u{7f}é".to_string());
    assert_eq!(text::debug_text(&tricky), format!("{tricky:?}"));
}
