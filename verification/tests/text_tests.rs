use rw_fetch::text::chars_of;
use rw_fetch::text::is_space_char;
use rw_fetch::text::join;
use rw_fetch::text::pad_right;
use rw_fetch::text::push_decimal;
use rw_fetch::text::push_digit;
use rw_fetch::text::push_repeated;
use rw_fetch::text::remove_all;
use rw_fetch::text::same_text;
use rw_fetch::text::split_lines;
use rw_fetch::text::string_of;
use rw_fetch::text::trim;
use rw_fetch::text::truncate_chars;

fn strings(items: &[&str]) -> Vec<String> {
    items.iter().map(|s| s.to_string()).collect()
}

#[test]
fn chars_of_and_string_of_are_inverse() {
    let chars = chars_of("héllo │");
    assert_eq!(chars, vec!['h', 'é', 'l', 'l', 'o', ' ', '│']);
    assert_eq!(string_of(&chars, 0, chars.len()), "héllo │");
    assert_eq!(string_of(&chars, 1, 3), "él");
    assert_eq!(string_of(&chars, 2, 2), "");
    assert_eq!(chars_of(""), Vec::<char>::new());
}

#[test]
fn push_decimal_writes_base_ten() {
    let mut out = String::from("n=");
    push_decimal(&mut out, 0);
    push_decimal(&mut out, 7);
    push_decimal(&mut out, 10);
    push_decimal(&mut out, 1234567890);
    assert_eq!(out, "n=07101234567890");
    let mut big = String::new();
    push_decimal(&mut big, u128::MAX);
    assert_eq!(big, "340282366920938463463374607431768211455");
}

#[test]
fn push_digit_writes_one_digit() {
    let mut out = String::new();
    for d in 0..10u64 {
        push_digit(&mut out, d);
    }
    assert_eq!(out, "0123456789");
}

#[test]
fn push_repeated_appends_copies() {
    let mut out = String::from("a");
    push_repeated(&mut out, '-', 3);
    push_repeated(&mut out, 'x', 0);
    assert_eq!(out, "a---");
}

#[test]
fn pad_right_counts_characters() {
    assert_eq!(pad_right("OS", 5), "OS   ");
    assert_eq!(pad_right("Kernel", 6), "Kernel");
    assert_eq!(pad_right("Terminal Font", 4), "Terminal Font");
    assert_eq!(pad_right("", 2), "  ");
    assert_eq!(pad_right("é│", 4), "é│  ");
    assert_eq!(pad_right("é│", 4), format!("{:<width$}", "é│", width = 4));
}

#[test]
fn join_puts_the_separator_between() {
    assert_eq!(join(&strings(&[]), ", "), "");
    assert_eq!(join(&strings(&["a"]), ", "), "a");
    assert_eq!(join(&strings(&["a", "b", "c"]), ", "), "a, b, c");
    assert_eq!(join(&strings(&["a", "", "c"]), " "), "a  c");
}

#[test]
fn truncate_chars_keeps_the_first_characters() {
    assert_eq!(truncate_chars("hello", 3), "hel");
    assert_eq!(truncate_chars("hello", 5), "hello");
    assert_eq!(truncate_chars("hello", 50), "hello");
    assert_eq!(truncate_chars("hello", 0), "");
    assert_eq!(truncate_chars("héllo", 2), "hé");
}

#[test]
fn same_text_compares_characters() {
    assert!(same_text("small", "small"));
    assert!(same_text("", ""));
    assert!(!same_text("small", "smalL"));
    assert!(!same_text("small", "smal"));
    assert!(!same_text("", "x"));
}

#[test]
fn is_space_char_agrees_with_the_standard_library() {
    let mut c = 0u32;
    while c <= 0x10ffff {
        if let Some(ch) = char::from_u32(c) {
            assert_eq!(is_space_char(ch), ch.is_whitespace(), "for U+{:04X}", c);
        }
        c += 1;
    }
}

#[test]
fn trim_drops_white_space_at_both_ends() {
    assert_eq!(trim("  a b \n"), "a b");
    assert_eq!(trim("a"), "a");
    assert_eq!(trim(""), "");
    assert_eq!(trim(" \t\r\n "), "");
    assert_eq!(trim("\u{a0}x\u{3000}"), "x");
    for sample in ["  a b \n", "\n\n", "x  ", "  x", " x y  z ", "\u{2003}é \u{85}"] {
        assert_eq!(trim(sample), sample.trim());
    }
}

#[test]
fn remove_all_takes_every_occurrence_out() {
    assert_eq!(remove_all("iTerm.app", ".app"), "iTerm");
    assert_eq!(remove_all(".app.app", ".app"), "");
    assert_eq!(remove_all("a.app.b.appc", ".app"), "a.bc");
    assert_eq!(remove_all("aaa", "aa"), "a");
    assert_eq!(remove_all("abc", ""), "abc");
    assert_eq!(remove_all("", ".app"), "");
    assert_eq!(remove_all(".ap", ".app"), ".ap");
    for sample in ["Apple_Terminal", ".app", "x.app.appy", "..app", ".a.ap.app", "aXaXa"] {
        assert_eq!(remove_all(sample, ".app"), sample.replace(".app", ""));
        assert_eq!(remove_all(sample, "aXa"), sample.replace("aXa", ""));
    }
}

#[test]
fn split_lines_splits_at_line_feeds() {
    assert_eq!(split_lines(""), Vec::<String>::new());
    assert_eq!(split_lines("a"), strings(&["a"]));
    assert_eq!(split_lines("a\n"), strings(&["a"]));
    assert_eq!(split_lines("a\nb"), strings(&["a", "b"]));
    assert_eq!(split_lines("a\r\nb\r\n"), strings(&["a", "b"]));
    assert_eq!(split_lines("\n"), strings(&[""]));
    assert_eq!(split_lines("\n\n"), strings(&["", ""]));
    assert_eq!(split_lines("a\rb"), strings(&["a\rb"]));
    assert_eq!(split_lines("a\r"), strings(&["a\r"]));
    assert_eq!(split_lines("a\r\r\nb"), strings(&["a\r", "b"]));
    for sample in ["", "x", "x\n", "\nx", "a\n\nb\n", "a\r\n\r\nb", "\r", "\r\n", "a\n\r", "é\n│"] {
        let expected: Vec<String> = sample.lines().map(String::from).collect();
        assert_eq!(split_lines(sample), expected, "for {:?}", sample);
    }
}
