use weee::error::ErrorKind;
use weee::replace::replace_in_content;
use weee::text::{
    append_from, char_to_digit, chars_of, decimal_string, digit_to_char, matches_at,
    occurrences_up_to, parse_unsigned, push_decimal, replace_limited, string_of,
};

fn chars(text: &str) -> Vec<char> {
    text.chars().collect()
}

fn text(chars: &Vec<char>) -> String {
    chars.iter().collect()
}

#[test]
fn strings_and_characters_convert_both_ways() {
    assert_eq!(chars_of("a\u{e9}z"), vec!['a', '\u{e9}', 'z']);
    assert_eq!(chars_of(""), Vec::<char>::new());
    assert_eq!(string_of(&vec!['v', '1', '\u{1F389}']), "v1\u{1F389}");
    let mut out = chars("ab");
    append_from(&mut out, &chars("wxyz"), 2);
    assert_eq!(text(&out), "abyz");
}

#[test]
fn numbers_are_written_in_decimal() {
    assert_eq!(decimal_string(0), "0");
    assert_eq!(decimal_string(7), "7");
    assert_eq!(decimal_string(5646), "5646");
    assert_eq!(decimal_string(u64::MAX), "18446744073709551615");
    let mut out = chars("v");
    push_decimal(&mut out, 120);
    assert_eq!(text(&out), "v120");
    assert_eq!(digit_to_char(0), '0');
    assert_eq!(digit_to_char(9), '9');
    assert_eq!(char_to_digit('4'), Some(4));
    assert_eq!(char_to_digit('a'), None);
}

#[test]
fn numbers_are_read_as_the_standard_library_reads_them() {
    let samples = [
        "0",
        "7",
        "007",
        "+5",
        "+",
        "-",
        "",
        "-1",
        "++1",
        "1+",
        " 1",
        "1 ",
        "12a",
        "18446744073709551615",
        "18446744073709551616",
        "99999999999999999999999",
        "+18446744073709551615",
        "\u{662}",
    ];
    for sample in samples {
        assert_eq!(parse_unsigned(&chars(sample)), sample.parse::<u64>().ok(), "{:?}", sample);
    }
    assert_eq!(parse_unsigned(&chars("5645")), Some(5645));
    assert_eq!(parse_unsigned(&chars("+5")), Some(5));
    assert_eq!(parse_unsigned(&chars("-1")), None);
}

#[test]
fn occurrences_are_found_where_they_stand() {
    let content = chars("abcabc");
    assert!(matches_at(&content, &chars("abc"), 0));
    assert!(matches_at(&content, &chars("abc"), 3));
    assert!(!matches_at(&content, &chars("abc"), 1));
    assert!(!matches_at(&content, &chars("abc"), 4));
    assert!(matches_at(&content, &chars(""), 6));
    assert!(!matches_at(&content, &chars("c"), 6));
}

#[test]
fn occurrences_are_counted_up_to_the_cap() {
    let content = chars("1.2.3 and 1.2.3 and 1.2.3");
    assert_eq!(occurrences_up_to(&content, &chars("1.2.3"), 10), 3);
    assert_eq!(occurrences_up_to(&content, &chars("1.2.3"), 2), 2);
    assert_eq!(occurrences_up_to(&content, &chars("1.2.3"), 0), 0);
    assert_eq!(occurrences_up_to(&content, &chars("1.2.4"), 10), 0);
    assert_eq!(occurrences_up_to(&chars("aaaa"), &chars("aa"), 10), 2);
    assert_eq!(occurrences_up_to(&chars("abc"), &chars(""), 10), 4);
    assert_eq!(occurrences_up_to(&chars(""), &chars(""), 10), 1);
    assert_eq!(occurrences_up_to(&chars(""), &chars("a"), 10), 0);
}

#[test]
fn replacing_agrees_with_the_standard_library() {
    let contents = ["", "a", "aaa", "aaaa", "abcabc", "xaxbxc", "1.2.3 1.2.3 1.2.30", "\u{e9}t\u{e9}"];
    let patterns = ["", "a", "aa", "abc", "x", "1.2.3", "\u{e9}", "zz"];
    let substitutes = ["", "-", "aa", "1.2.4"];
    for content in contents {
        for pattern in patterns {
            assert_eq!(
                occurrences_up_to(&chars(content), &chars(pattern), u64::MAX),
                content.matches(pattern).count() as u64,
                "{:?} in {:?}",
                pattern,
                content
            );
            for substitute in substitutes {
                let all = replace_limited(&chars(content), &chars(pattern), &chars(substitute), None);
                assert_eq!(text(&all), content.replace(pattern, substitute));
                for limit in 0..5u64 {
                    let some = replace_limited(
                        &chars(content),
                        &chars(pattern),
                        &chars(substitute),
                        Some(limit),
                    );
                    assert_eq!(
                        text(&some),
                        content.replacen(pattern, substitute, limit as usize),
                        "{:?} for {:?} in {:?}, {} times",
                        substitute,
                        pattern,
                        content,
                        limit
                    );
                }
            }
        }
    }
}

#[test]
fn limited_replacement_leaves_the_rest_untouched() {
    let content = "v=1.2.3; w=1.2.3; x=1.2.3";
    let changed = replace_limited(&chars(content), &chars("1.2.3"), &chars("1.2.10"), Some(2));
    assert_eq!(text(&changed), "v=1.2.10; w=1.2.10; x=1.2.3");
    assert_eq!(changed.len() + 2 * 5, content.len() + 2 * 6);
    let changed = replace_limited(&chars(content), &chars("1.2.3"), &chars("1.2.10"), Some(0));
    assert_eq!(text(&changed), content);
}

#[test]
fn single_occurrence_is_replaced_without_a_count() {
    let content = "[project]\nname = \"simple\"\nversion = \"14.23.5645\"\n";
    let changed =
        replace_in_content(content, "version = \"14.23.5645\"", "version = \"14.24.0\"", None);
    assert_eq!(changed.unwrap(), "[project]\nname = \"simple\"\nversion = \"14.24.0\"\n");
}

#[test]
fn missing_old_version_is_reported() {
    let content = "[project]\nname = \"simple\"\nversion = \"1.0.0\"\n";
    let error =
        replace_in_content(content, "version = \"14.23.5645\"", "version = \"14.24.0\"", None)
            .unwrap_err();
    assert_eq!(error.kind, ErrorKind::OldVersionNotFound);
    assert_eq!(error.title, "FileDoesNotContainOldVersion");
    assert_eq!(error.description, "Changed files has no old version in it's content");
    assert!(error.payload.is_empty());
}

#[test]
fn fewer_occurrences_than_expected_are_reported() {
    let content = "version = \"1.0.0\"\n";
    let error =
        replace_in_content(content, "version = \"1.0.0\"", "version = \"1.0.1\"", Some(2))
            .unwrap_err();
    assert_eq!(error.kind, ErrorKind::InsufficientMatches);
    assert_eq!(error.title, "NotEnoughOldVersionMatches");
}

#[test]
fn expected_count_replaces_that_many_and_no_more() {
    let content = "a 1.0 b 1.0 c 1.0";
    assert_eq!(replace_in_content(content, "1.0", "2.0", Some(2)).unwrap(), "a 2.0 b 2.0 c 1.0");
    assert_eq!(replace_in_content(content, "1.0", "2.0", Some(3)).unwrap(), "a 2.0 b 2.0 c 2.0");
    assert_eq!(replace_in_content(content, "1.0", "2.0", Some(0)).unwrap(), content);
    assert_eq!(replace_in_content(content, "1.0", "2.0", None).unwrap(), "a 2.0 b 2.0 c 2.0");
    assert_eq!(
        replace_in_content(content, "1.0", "2.0", Some(4)).unwrap_err().kind,
        ErrorKind::InsufficientMatches
    );
    assert_eq!(replace_in_content("abc", "x", "y", Some(0)).unwrap(), "abc");
}
