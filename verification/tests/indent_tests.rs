use sociable_weaver::strings::indent_by;
use sociable_weaver::strings::make_padding;
use sociable_weaver::strings::pad_and_append_if_not_empty;

#[test]
fn return_the_same_string_when_provided_no_indentation() {
    let text = "Hello\nWorld".to_string();
    let result = indent_by(text, &None);
    assert_eq!(result, "Hello\nWorld");
}

#[test]
fn return_the_text_indented_by_four_spaces() {
    let text = "Hello\nWorld".to_string();
    let result = indent_by(text, &Some(4));
    let expected = "    Hello\n    World";
    assert_eq!(result, expected);
}

#[test]
fn return_the_text_indented_by_four_spaces_skipping_blank_lines() {
    let text = "Hello\n\nWorld".to_string();
    let result = indent_by(text, &Some(4));
    let expected = "    Hello\n\n    World";
    assert_eq!(result, expected);
}

#[test]
fn strings_return_the_text_indented_by_four_spaces_skipping_blank_lines() {
    let text = "\nHello\n\nWorld".to_string();
    let result = indent_by(text, &Some(4));
    let expected = "\n    Hello\n\n    World";
    assert_eq!(result, expected);
}

#[test]
fn return_the_text_indented_by_four_spaces_preserve_trailing_new_line() {
    let text = "Hello\nWorld\n".to_string();
    let result = indent_by(text, &Some(4));
    let expected = "    Hello\n    World\n";
    assert_eq!(result, expected);
}

#[test]
fn return_the_unicode_text_indented_by_four_spaces() {
    let text = "Hello\nKöln".to_string();
    let result = indent_by(text, &Some(4));
    let expected = "    Hello\n    Köln";
    assert_eq!(result, expected);
}

#[test]
fn indent_zero_prefixes_nothing_and_keeps_every_line() {
    let text = "Hello\n\nWorld\n".to_string();
    let result = indent_by(text, &Some(0));
    assert_eq!(result, "Hello\n\nWorld\n");
}

#[test]
fn indent_keeps_the_newline_count() {
    let text = "a\n\nb\nc\n".to_string();
    let before = text.chars().filter(|c| *c == '\n').count();
    let result = indent_by(text, &Some(3));
    let after = result.chars().filter(|c| *c == '\n').count();
    assert_eq!(before, after);
    assert_eq!(result, "   a\n\n   b\n   c\n");
}

#[test]
fn indent_empty_text_stays_empty() {
    let result = indent_by(String::new(), &Some(5));
    assert_eq!(result, "");
}

#[test]
fn make_padding_builds_exactly_that_many_spaces() {
    assert_eq!(make_padding(0), "");
    assert_eq!(make_padding(3), "   ");
}

#[test]
fn pad_and_append_skips_empty_lines() {
    let mut out = String::from("x");
    pad_and_append_if_not_empty("  ", "", &mut out);
    assert_eq!(out, "x");
    pad_and_append_if_not_empty("  ", "line", &mut out);
    assert_eq!(out, "x  line");
}
