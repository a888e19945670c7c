use hedit::text::{
    position, push_decimal, same_chars, split_fields, split_lines, split_words, to_chars, to_text,
    trimmed, without_leading,
};

fn strings(parts: Vec<&[char]>) -> Vec<String> {
    parts.into_iter().map(to_text).collect()
}

#[test]
fn chars_and_text_round_trip() {
    let chars = to_chars("héllo\t世界");
    assert_eq!(chars, vec!['h', 'é', 'l', 'l', 'o', '\t', '世', '界']);
    assert_eq!(to_text(&chars), "héllo\t世界");
    assert_eq!(to_chars(""), Vec::<char>::new());
}

#[test]
fn same_chars_compares_every_character() {
    assert!(same_chars(&to_chars("abc"), &to_chars("abc")));
    assert!(!same_chars(&to_chars("abc"), &to_chars("abd")));
    assert!(!same_chars(&to_chars("abc"), &to_chars("ab")));
    assert!(same_chars(&to_chars(""), &to_chars("")));
}

#[test]
fn trimmed_removes_whitespace_at_both_ends() {
    assert_eq!(to_text(trimmed(&to_chars("  a b \t\r\n"))), "a b");
    assert_eq!(to_text(trimmed(&to_chars("\u{a0}\u{2003}x\u{3000}"))), "x");
    assert_eq!(to_text(trimmed(&to_chars("   "))), "");
    assert_eq!(to_text(trimmed(&to_chars(""))), "");
    assert_eq!(to_text(trimmed(&to_chars("\u{200b}x"))), "\u{200b}x");
}

#[test]
fn trimmed_agrees_with_std() {
    for s in ["", " ", "a", " a", "a ", "\t a \u{85}", "\u{1680}b\u{2028}\u{2029}", "\u{feff}c"] {
        assert_eq!(to_text(trimmed(&to_chars(s))), s.trim());
    }
}

#[test]
fn position_finds_the_first_occurrence() {
    assert_eq!(position(&to_chars("a(b(c"), '('), 1);
    assert_eq!(position(&to_chars("abc"), '('), 3);
    assert_eq!(position(&to_chars(""), '('), 0);
}

#[test]
fn split_lines_follows_line_feeds() {
    assert_eq!(strings(split_lines(&to_chars("a\nb\r\nc"))), vec!["a", "b", "c"]);
    assert_eq!(strings(split_lines(&to_chars("a\n"))), vec!["a"]);
    assert_eq!(strings(split_lines(&to_chars("a\n\n"))), vec!["a", ""]);
    assert_eq!(strings(split_lines(&to_chars(""))), Vec::<String>::new());
    assert_eq!(strings(split_lines(&to_chars("\n"))), vec![""]);
    assert_eq!(strings(split_lines(&to_chars("a\r"))), vec!["a\r"]);
    assert_eq!(strings(split_lines(&to_chars("a\r\r\nb"))), vec!["a\r", "b"]);
}

#[test]
fn split_lines_agrees_with_std() {
    for s in ["", "\n", "a", "a\n", "a\r\n", "a\r", "\r\n\r\n", "x\ny\n\nz", "\r", "a\n\rb"] {
        let expected: Vec<String> = s.lines().map(|l| l.to_string()).collect();
        assert_eq!(strings(split_lines(&to_chars(s))), expected);
    }
}

#[test]
fn split_words_gives_the_runs_without_whitespace() {
    assert_eq!(strings(split_words(&to_chars("1.2.3.4  a.com\t# x"))), vec!["1.2.3.4", "a.com", "#", "x"]);
    assert_eq!(strings(split_words(&to_chars("   "))), Vec::<String>::new());
    assert_eq!(strings(split_words(&to_chars("one"))), vec!["one"]);
}

#[test]
fn split_words_agrees_with_std() {
    for s in ["", " a", "a b", "\u{a0}a\u{2009}b\u{3000}", "a\n\tb  c "] {
        let expected: Vec<String> = s.split_whitespace().map(|l| l.to_string()).collect();
        assert_eq!(strings(split_words(&to_chars(s))), expected);
    }
}

#[test]
fn split_fields_keeps_empty_fields() {
    assert_eq!(strings(split_fields(&to_chars("1.2..3"), '.')), vec!["1", "2", "", "3"]);
    assert_eq!(strings(split_fields(&to_chars(""), '.')), vec![""]);
    assert_eq!(strings(split_fields(&to_chars("."), '.')), vec!["", ""]);
    assert_eq!(strings(split_fields(&to_chars("abc"), '.')), vec!["abc"]);
}

#[test]
fn without_leading_removes_the_whole_run() {
    assert_eq!(to_text(without_leading(&to_chars("vv1.2"), 'v')), "1.2");
    assert_eq!(to_text(without_leading(&to_chars("1.2v"), 'v')), "1.2v");
    assert_eq!(to_text(without_leading(&to_chars("vvv"), 'v')), "");
}

#[test]
fn push_decimal_writes_the_number() {
    let mut out = String::from("n=");
    push_decimal(&mut out, 0);
    assert_eq!(out, "n=0");
    push_decimal(&mut out, 9);
    push_decimal(&mut out, 10);
    push_decimal(&mut out, 4096);
    assert_eq!(out, "n=09104096");
    let mut big = String::new();
    push_decimal(&mut big, usize::MAX);
    assert_eq!(big, usize::MAX.to_string());
}
