use rcat::decimal::{decimal_len, push_decimal};
use rcat::lines::split_lines;
use rcat::{
    fold_empty_lines, number_lines, render_non_printing, strip_carriage_returns, LineNumbers,
    NonPrintChars,
};

fn longest_newline_run(text: &str) -> usize {
    let mut longest: usize = 0;
    let mut run: usize = 0;
    for c in text.chars() {
        if c == '\n' {
            run += 1;
            if run > longest {
                longest = run;
            }
        } else {
            run = 0;
        }
    }
    longest
}

#[test]
fn fold_keeps_two_of_each_run() {
    assert_eq!(fold_empty_lines(""), "");
    assert_eq!(fold_empty_lines("\n"), "\n");
    assert_eq!(fold_empty_lines("\n\n"), "\n\n");
    assert_eq!(fold_empty_lines("\n\n\n"), "\n\n");
    assert_eq!(fold_empty_lines("\n\n\n\n\n\n"), "\n\n");
    assert_eq!(fold_empty_lines("a\n\n\nb\n\n\n\nc\n"), "a\n\nb\n\nc\n");
    assert_eq!(fold_empty_lines("a\nb\n\nc"), "a\nb\n\nc");
}

#[test]
fn fold_counts_a_run_anew_after_another_character() {
    assert_eq!(fold_empty_lines("\n\n \n\n"), "\n\n \n\n");
    assert_eq!(fold_empty_lines("\n\n\n\t\n\n\n"), "\n\n\t\n\n");
}

#[test]
fn fold_is_idempotent() {
    for text in ["", "\n\n\n\n", "a\n\n\n\nb\n\n\n", "x\n\ny", "\n\n\na\n\n\n\n\n\nb"] {
        let once = fold_empty_lines(text);
        let twice = fold_empty_lines(&once);
        assert_eq!(twice, once);
        assert!(longest_newline_run(&once) <= 2);
    }
}

#[test]
fn fold_handles_a_very_long_run() {
    let text = "a".to_string() + &"\n".repeat(1000) + "b";
    assert_eq!(fold_empty_lines(&text), "a\n\nb");
}

#[test]
fn strip_takes_out_every_carriage_return() {
    assert_eq!(strip_carriage_returns("a\r\nb\rc\r\r"), "a\nbc");
    assert_eq!(strip_carriage_returns("plain"), "plain");
    assert_eq!(strip_carriage_returns(""), "");
}

#[test]
fn number_off_is_identity() {
    assert_eq!(number_lines("a\nb", LineNumbers::Off), "a\nb");
    assert_eq!(number_lines("", LineNumbers::Off), "");
}

#[test]
fn number_default_pads_by_the_digits_of_the_index() {
    assert_eq!(
        number_lines("a\nb\nc", LineNumbers::Default),
        "    1  a\n    2  b\n    3  c\n"
    );
    let eleven = "x\n".repeat(11);
    let out = number_lines(&eleven, LineNumbers::Default);
    let lines: Vec<&str> = out.lines().collect();
    assert_eq!(lines.len(), 11);
    assert_eq!(lines[0], "    1   x");
    assert_eq!(lines[8], "    9   x");
    assert_eq!(lines[9], "    10   x");
    assert_eq!(lines[10], "    11  x");
}

#[test]
fn number_default_numbers_each_line_in_order() {
    let text = "one\n\nthree\nfour\n\n";
    let out = number_lines(text, LineNumbers::Default);
    let lines: Vec<&str> = out.lines().collect();
    assert_eq!(lines.len(), text.lines().count());
    for (i, line) in lines.iter().enumerate() {
        assert!(line.starts_with(&format!("    {}  ", i + 1)));
        assert!(line.ends_with(text.lines().nth(i).unwrap()));
    }
}

#[test]
fn number_width_follows_the_line_count() {
    let hundred = "y\n".repeat(100);
    let out = number_lines(&hundred, LineNumbers::Default);
    let lines: Vec<&str> = out.lines().collect();
    assert_eq!(lines.len(), 100);
    assert_eq!(lines[0], "    1    y");
    assert_eq!(lines[9], "    10    y");
    assert_eq!(lines[10], "    11   y");
    assert_eq!(lines[99], "    100   y");
}

#[test]
fn number_omit_blank_leaves_empty_lines_bare() {
    assert_eq!(
        number_lines("a\n\n\nb\n\nc", LineNumbers::OmitBlank),
        "    1  a\n\n\n    2  b\n\n    3  c\n"
    );
    assert_eq!(number_lines("\n\n", LineNumbers::OmitBlank), "\n\n");
    assert_eq!(number_lines(" \n", LineNumbers::OmitBlank), "    1   \n");
}

#[test]
fn number_omit_blank_counts_the_filled_lines() {
    let text = "a\n\nb\nc\n\n\nd\n";
    let out = number_lines(text, LineNumbers::OmitBlank);
    let written: Vec<&str> = out.lines().collect();
    let given: Vec<&str> = text.lines().collect();
    assert_eq!(written.len(), given.len());
    let mut filled: usize = 0;
    for (line, source) in written.iter().zip(given.iter()) {
        if source.is_empty() {
            assert_eq!(*line, "");
        } else {
            filled += 1;
            assert_eq!(*line, format!("    {}  {}", filled, source));
        }
    }
    assert_eq!(filled, 4);
}

#[test]
fn number_lines_of_more_than_one_byte_per_character() {
    assert_eq!(
        number_lines("\u{e9}t\u{e9}\n\u{1F600}", LineNumbers::Default),
        "    1  \u{e9}t\u{e9}\n    2  \u{1F600}\n"
    );
}

#[test]
fn number_omit_blank_lays_out_for_all_lines() {
    let text = "\n".repeat(9) + "a\nb";
    let out = number_lines(&text, LineNumbers::OmitBlank);
    assert_eq!(out, "\n".repeat(9) + "    1   a\n    2   b\n");
}

#[test]
fn render_marks() {
    assert_eq!(render_non_printing("a\tb\x0c\n", NonPrintChars::Off), "a\tb\x0c\n");
    assert_eq!(render_non_printing("a\tb\x0c\n", NonPrintChars::Default), "a\tb\x0c\n");
    assert_eq!(render_non_printing("a\tb\x0c\n", NonPrintChars::EOL), "a\tb\x0c$\n");
    assert_eq!(
        render_non_printing("a\tb\x0c\n", NonPrintChars::TabsAndFormFeeds),
        "a^Ib^L\n"
    );
    assert_eq!(render_non_printing("a\tb\x0c\n", NonPrintChars::Both), "a^Ib^L$\n");
    assert_eq!(render_non_printing("", NonPrintChars::Both), "");
}

#[test]
fn render_end_marks_every_line_feed() {
    let text = "\n\na\n$\nb";
    let out = render_non_printing(text, NonPrintChars::EOL);
    assert_eq!(out, "$\n$\na$\n$$\nb");
    let chars: Vec<char> = out.chars().collect();
    for i in 0..chars.len() {
        if chars[i] == '\n' {
            assert!(i >= 1 && chars[i - 1] == '$');
        }
    }
    assert_eq!(
        out.chars().filter(|c| *c == '\n').count(),
        text.chars().filter(|c| *c == '\n').count()
    );
}

#[test]
fn render_keeps_other_characters() {
    assert_eq!(render_non_printing("^I$ \u{e9}\u{1F600}", NonPrintChars::Both), "^I$ \u{e9}\u{1F600}");
}

#[test]
fn split_lines_cases() {
    assert_eq!(split_lines(""), Vec::<String>::new());
    assert_eq!(split_lines("\n"), vec!["".to_string()]);
    assert_eq!(split_lines("a"), vec!["a".to_string()]);
    assert_eq!(split_lines("a\n"), vec!["a".to_string()]);
    assert_eq!(split_lines("a\n\n"), vec!["a".to_string(), "".to_string()]);
    assert_eq!(split_lines("a\nb"), vec!["a".to_string(), "b".to_string()]);
    assert_eq!(
        split_lines("\n\nab\n c"),
        vec!["".to_string(), "".to_string(), "ab".to_string(), " c".to_string()]
    );
}

#[test]
fn split_lines_agrees_with_std_without_carriage_returns() {
    for text in ["", "\n", "a\nb\n", "a\n\n\nb", "\n\n", "last line open", "x\n y\n\nz\n"] {
        let expected: Vec<String> = text.lines().map(|l| l.to_string()).collect();
        assert_eq!(split_lines(text), expected);
    }
}

#[test]
fn decimal_notation() {
    for (n, expected) in [
        (0usize, "0"),
        (7, "7"),
        (9, "9"),
        (10, "10"),
        (99, "99"),
        (100, "100"),
        (12345, "12345"),
        (4294967295, "4294967295"),
    ] {
        let mut out = String::from("n=");
        push_decimal(&mut out, n);
        assert_eq!(out, format!("n={}", expected));
        assert_eq!(decimal_len(n), expected.len());
    }
    let mut out = String::new();
    push_decimal(&mut out, usize::MAX);
    assert_eq!(out, usize::MAX.to_string());
    assert_eq!(decimal_len(usize::MAX), usize::MAX.to_string().len());
}
