use catr::config::Config;
use catr::numbering::{format_numbered, right_justify, u64_to_string};
use catr::render::{emit_line, join_lines, render_input, render_lines};

fn plain() -> Config {
    Config::new(Vec::new(), false, false).unwrap()
}

fn numbered() -> Config {
    Config::new(Vec::new(), true, false).unwrap()
}

fn nonblank() -> Config {
    Config::new(Vec::new(), false, true).unwrap()
}

fn lines(xs: &[&str]) -> Vec<String> {
    xs.iter().map(|s| s.to_string()).collect()
}

#[test]
fn unnumbered_reproduces_input() {
    let input = lines(&["hello", "world"]);
    assert_eq!(render_input(&plain(), &input), "hello\nworld\n");
}

#[test]
fn unnumbered_keeps_blank_lines() {
    let input = lines(&["a", "", "", "b"]);
    assert_eq!(render_lines(&plain(), &input), input);
    assert_eq!(render_input(&plain(), &input), "a\n\n\nb\n");
}

#[test]
fn number_mode_numbers_every_line() {
    let input = lines(&["hello", "world"]);
    assert_eq!(render_input(&numbered(), &input), "     1\thello\n     2\tworld\n");
}

#[test]
fn number_mode_counts_blank_lines() {
    let input = lines(&["", "x", ""]);
    assert_eq!(render_input(&numbered(), &input), "     1\t\n     2\tx\n     3\t\n");
}

#[test]
fn nonblank_mode_skips_blank_lines() {
    let input = lines(&["a", "", "b"]);
    assert_eq!(render_input(&nonblank(), &input), "     1\ta\n\n     2\tb\n");
}

#[test]
fn nonblank_mode_counter_unmoved_by_blank_runs() {
    let input = lines(&["", "", "a", "", "", "b"]);
    assert_eq!(render_input(&nonblank(), &input), "\n\n     1\ta\n\n\n     2\tb\n");
}

#[test]
fn empty_input_renders_empty() {
    let input: Vec<String> = Vec::new();
    assert_eq!(render_lines(&plain(), &input), Vec::<String>::new());
    assert_eq!(render_input(&numbered(), &input), "");
    assert_eq!(render_input(&nonblank(), &input), "");
}

#[test]
fn counter_field_is_six_wide() {
    assert_eq!(format_numbered(1, "x"), "     1\tx");
    assert_eq!(format_numbered(99999, "x"), " 99999\tx");
    assert_eq!(format_numbered(123456, "x"), "123456\tx");
}

#[test]
fn counter_wider_than_field_is_not_truncated() {
    assert_eq!(format_numbered(1234567, "x"), "1234567\tx");
}

#[test]
fn decimal_rendering_is_exact() {
    assert_eq!(u64_to_string(0), "0");
    assert_eq!(u64_to_string(7), "7");
    assert_eq!(u64_to_string(905), "905");
    assert_eq!(u64_to_string(100000), "100000");
    assert_eq!(u64_to_string(u64::MAX), "18446744073709551615");
}

#[test]
fn right_justify_pads_on_the_left() {
    assert_eq!(right_justify("ab", 6), "    ab");
    assert_eq!(right_justify("", 3), "   ");
    assert_eq!(right_justify("abcdefgh", 6), "abcdefgh");
}

#[test]
fn blank_line_keeps_counter_in_nonblank_mode() {
    let (out, next) = emit_line(false, true, 5, "");
    assert_eq!(out, "");
    assert_eq!(next, 5);

    let (out, next) = emit_line(false, true, 5, "text");
    assert_eq!(out, "     5\ttext");
    assert_eq!(next, 6);
}

#[test]
fn blank_line_advances_counter_in_number_mode() {
    let (out, next) = emit_line(true, false, 3, "");
    assert_eq!(out, "     3\t");
    assert_eq!(next, 4);
}

#[test]
fn join_lines_adds_one_newline_each() {
    assert_eq!(join_lines(&lines(&["a", "b"])), "a\nb\n");
    assert_eq!(join_lines(&lines(&[""])), "\n");
    assert_eq!(join_lines(&Vec::new()), "");
}
