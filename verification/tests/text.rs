use prompt_stream::text::chars_of;
use prompt_stream::text::matches_keyword;
use prompt_stream::text::parse_bool;
use prompt_stream::text::parse_usize;
use prompt_stream::text::text_equals;
use prompt_stream::text::to_ascii_lower;
use prompt_stream::text::trim;
use prompt_stream::text::white_space;

#[test]
fn chars_come_in_order() {
    assert_eq!(chars_of("héllo"), vec!['h', 'é', 'l', 'l', 'o']);
    assert_eq!(chars_of(""), Vec::<char>::new());
}

#[test]
fn equal_texts_are_told_from_others() {
    assert!(text_equals("", ""));
    assert!(text_equals("prompt", "prompt"));
    assert!(text_equals("naïve", "naïve"));
    assert!(!text_equals("prompt", "prompts"));
    assert!(!text_equals("prompt", "Prompt"));
    assert!(!text_equals("a", ""));
}

#[test]
fn white_space_is_what_the_standard_library_says() {
    for code in 0..=0x10FFFFu32 {
        if let Some(c) = char::from_u32(code) {
            assert_eq!(white_space(c), c.is_whitespace(), "U+{:04X}", code);
        }
    }
}

#[test]
fn trim_removes_white_space_at_both_ends() {
    assert_eq!(trim("  hello  "), "hello");
    assert_eq!(trim("\n\t hello world \r\n"), "hello world");
    assert_eq!(trim("hello"), "hello");
    assert_eq!(trim(""), "");
    assert_eq!(trim(" \n\t "), "");
    assert_eq!(trim("\u{a0}\u{3000}x y\u{2003}"), "x y");
    assert_eq!(trim("  a\n    b\n  "), "a\n    b");
}

#[test]
fn trim_agrees_with_the_standard_library() {
    let samples = [
        "",
        " ",
        "a",
        " a",
        "a ",
        " a b ",
        "\u{85}a\u{85}",
        "\u{200b}a",
        "\u{feff}a ",
        "\t\n\x0b\x0c\r a \u{1680}\u{2028}\u{2029}\u{202f}\u{205f}",
        "é ",
        " 日本語 ",
    ];
    for sample in samples {
        assert_eq!(trim(sample), sample.trim(), "{:?}", sample);
    }
}

#[test]
fn letters_are_lowered_one_by_one() {
    assert_eq!(to_ascii_lower('A'), 'a');
    assert_eq!(to_ascii_lower('Z'), 'z');
    assert_eq!(to_ascii_lower('m'), 'm');
    assert_eq!(to_ascii_lower('@'), '@');
    assert_eq!(to_ascii_lower('['), '[');
    assert_eq!(to_ascii_lower('É'), 'É');
    assert_eq!(to_ascii_lower('\u{212a}'), '\u{212a}');
}

#[test]
fn keywords_match_in_any_case() {
    assert!(matches_keyword("user", "user"));
    assert!(matches_keyword("USER", "user"));
    assert!(matches_keyword("UsEr", "user"));
    assert!(matches_keyword("JSON-Object", "json-object"));
    assert!(!matches_keyword("users", "user"));
    assert!(!matches_keyword("use", "user"));
    assert!(!matches_keyword(" user", "user"));
    assert!(!matches_keyword("", "user"));
    assert!(!matches_keyword("user", "USER"));
}

#[test]
fn truth_values_are_spelled_exactly() {
    assert_eq!(parse_bool("true"), Some(true));
    assert_eq!(parse_bool("false"), Some(false));
    assert_eq!(parse_bool("True"), None);
    assert_eq!(parse_bool("FALSE"), None);
    assert_eq!(parse_bool("1"), None);
    assert_eq!(parse_bool(""), None);
    assert_eq!(parse_bool(" true"), None);
    assert_eq!(parse_bool("yes"), None);
}

#[test]
fn numerals_are_read_in_base_ten() {
    assert_eq!(parse_usize("0"), Some(0));
    assert_eq!(parse_usize("7"), Some(7));
    assert_eq!(parse_usize("4096"), Some(4096));
    assert_eq!(parse_usize("+12"), Some(12));
    assert_eq!(parse_usize("007"), Some(7));
    assert_eq!(parse_usize(""), None);
    assert_eq!(parse_usize("+"), None);
    assert_eq!(parse_usize("-1"), None);
    assert_eq!(parse_usize("++1"), None);
    assert_eq!(parse_usize("1+"), None);
    assert_eq!(parse_usize("12a"), None);
    assert_eq!(parse_usize(" 12"), None);
    assert_eq!(parse_usize("12 "), None);
    assert_eq!(parse_usize("1_000"), None);
    assert_eq!(parse_usize("1.0"), None);
    assert_eq!(parse_usize("٣"), None);
}

#[test]
fn numerals_stop_at_the_largest_number() {
    let largest = usize::MAX.to_string();
    assert_eq!(parse_usize(&largest), Some(usize::MAX));
    let mut beyond = largest.clone();
    beyond.push('0');
    assert_eq!(parse_usize(&beyond), None);
    let next = (usize::MAX as u128 + 1).to_string();
    assert_eq!(parse_usize(&next), None);
    assert_eq!(parse_usize("99999999999999999999999999999999999999"), None);
    assert_eq!(parse_usize("99999999999999999999999999999999999999x"), None);
}

#[test]
fn numerals_are_read_as_the_standard_library_reads_them() {
    let samples = [
        "", "0", "00", "+0", "-0", "+", "-", "1", "+1", "-1", "18446744073709551615",
        "18446744073709551616", "+18446744073709551615", "0018446744073709551615", "12ab", "ab",
        "1 2", "１２", "4294967295", "4294967296",
    ];
    for sample in samples {
        assert_eq!(parse_usize(sample), sample.parse::<usize>().ok(), "{:?}", sample);
    }
}

#[test]
fn truth_values_are_read_as_the_standard_library_reads_them() {
    let samples = ["", "true", "false", "TRUE", "False", "t", "0", "1", "true ", "truefalse"];
    for sample in samples {
        assert_eq!(parse_bool(sample), sample.parse::<bool>().ok(), "{:?}", sample);
    }
}

#[test]
fn keywords_match_as_they_do_when_every_letter_is_lowered() {
    let keywords = ["system", "user", "assistant", "json-object", "json_object", "text", "true"];
    let mut folding: Vec<char> = Vec::new();
    for code in 0..=0x10FFFFu32 {
        if let Some(c) = char::from_u32(code) {
            let lowered: String = c.to_lowercase().collect();
            if lowered.is_ascii() || lowered != c.to_string() {
                folding.push(c);
            }
        }
    }
    assert!(folding.contains(&'K'));
    assert!(folding.contains(&'\u{212a}'));
    for keyword in keywords {
        for at in 0..keyword.len() {
            for c in &folding {
                let mut chars: Vec<char> = keyword.chars().collect();
                chars[at] = *c;
                let written: String = chars.into_iter().collect();
                assert_eq!(
                    matches_keyword(&written, keyword),
                    written.to_lowercase() == keyword,
                    "{:?}",
                    written
                );
            }
        }
    }
}
