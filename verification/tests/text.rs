use quoteme::numbers::{parse_bounded, parse_u32, parse_usize, to_decimal, to_padded_decimal};
use quoteme::pieces::{
    contains, ends_with, find_from, join, split, split_entries, starts_with, Separator,
};
use quoteme::sorting::text_may_lead;
use quoteme::text::{
    chars_of, is_blank, is_whitespace, same_ignoring_ascii_case, same_text, text_of,
    to_ascii_lower, to_ascii_lowercase, trim,
};

fn strings(list: &[&str]) -> Vec<String> {
    list.iter().map(|s| s.to_string()).collect()
}

#[test]
fn white_space_is_that_of_std() {
    for u in 0..=0x10ffff_u32 {
        if let Some(c) = char::from_u32(u) {
            assert_eq!(is_whitespace(c), c.is_whitespace(), "{:x}", u);
        }
    }
}

#[test]
fn trimming_is_that_of_std() {
    for s in ["", " ", "a", " a b ", "\u{2003}x\u{3000}", "\n\t", "ab\u{200b} "] {
        assert_eq!(trim(s), s.trim());
        assert_eq!(is_blank(s), s.trim().is_empty());
    }
}

#[test]
fn ascii_case_is_that_of_std() {
    for u in 0..=0x10ffff_u32 {
        if let Some(c) = char::from_u32(u) {
            assert_eq!(to_ascii_lower(c), c.to_ascii_lowercase());
        }
    }
    assert_eq!(to_ascii_lowercase("ÄbC"), "Äbc");
    assert!(same_ignoring_ascii_case("RAlt", "ralt"));
    assert!(!same_ignoring_ascii_case("Ä", "ä"));
}

#[test]
fn texts_and_characters() {
    assert_eq!(chars_of("aé"), vec!['a', 'é']);
    assert_eq!(text_of(&vec!['a', 'b', 'c'], 1, 3), "bc");
    assert!(same_text("ab", "ab"));
    assert!(!same_text("ab", "ac"));
    assert!(!same_text("ab", "abc"));
}

#[test]
fn cutting_and_joining() {
    assert_eq!(split("a+b++", Separator::At('+')), strings(&["a", "b", "", ""]));
    assert_eq!(split("", Separator::At('+')), strings(&[""]));
    assert_eq!(split_entries(" a , b\n,c", Separator::LineOrComma), strings(&["a", "b", "c"]));
    assert_eq!(split_entries("  x \t y", Separator::White), strings(&["x", "y"]));
    assert_eq!(split("a/b\\c", Separator::Slash), strings(&["a", "b", "c"]));
    assert_eq!(join(&strings(&["a", "b", "c"]), ", "), "a, b, c");
    assert_eq!(join(&Vec::new(), ", "), "");
}

#[test]
fn searching() {
    let hay = chars_of("abcabc");
    let needle = chars_of("bc");
    assert_eq!(find_from(&hay, &needle, 0), Some(1));
    assert_eq!(find_from(&hay, &needle, 2), Some(4));
    assert_eq!(find_from(&hay, &needle, 5), None);
    assert_eq!(find_from(&hay, &Vec::new(), 6), Some(6));
    assert!(contains("abc", "bc") && !contains("abc", "cb"));
    assert!(starts_with("abc", "ab") && !starts_with("a", "ab"));
    assert!(ends_with("abc", "bc") && !ends_with("c", "bc"));
}

#[test]
fn numbers_are_read_as_std_reads_them() {
    for s in ["", "0", "007", "+5", "+", "-1", "18446744073709551615", "18446744073709551616", "1 ", "٣"] {
        assert_eq!(parse_bounded(s, u64::MAX), s.parse::<u64>().ok(), "{:?}", s);
        assert_eq!(parse_u32(s), s.parse::<u32>().ok(), "{:?}", s);
        assert_eq!(parse_usize(s), s.parse::<usize>().ok(), "{:?}", s);
    }
    assert_eq!(parse_bounded("10", 9), None);
    assert_eq!(parse_bounded("9", 9), Some(9));
}

#[test]
fn numbers_are_written_as_std_writes_them() {
    for n in [0, 9, 10, 99, 1234, u64::MAX] {
        assert_eq!(to_decimal(n), n.to_string());
        assert_eq!(parse_bounded(&to_decimal(n), u64::MAX), Some(n));
        assert_eq!(to_padded_decimal(n, 3, '0'), format!("{:03}", n));
        assert_eq!(to_padded_decimal(n, 3, ' '), format!("{:>3}", n));
    }
}

#[test]
fn texts_are_ordered_as_std_orders_them() {
    let list = ["b", "", "ab", "ä", "a", "B", "ab\u{10000}", "ab\u{ffff}"];
    for a in list {
        for b in list {
            assert_eq!(text_may_lead(a, b), a <= b, "{:?} {:?}", a, b);
        }
    }
}
