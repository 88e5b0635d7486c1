use move_ts::format::{gen_doc_string, gen_doc_string_opt, indent, trim_lines};
use move_ts::text::{
    concat2, join_strings, replace_char_str, split_lines, split_on, starts_with, str_eq, trim_end_str,
    trim_str,
};

#[test]
fn doc_of_one_line_is_compact() {
    assert_eq!(gen_doc_string("  Hello  "), "/** Hello */\n");
    assert_eq!(gen_doc_string("Hello\n"), "/** Hello */\n");
}

#[test]
fn doc_of_empty_text_is_empty() {
    assert_eq!(gen_doc_string(""), "");
    assert_eq!(gen_doc_string_opt(&None), "");
}

#[test]
fn doc_of_optional_text_is_doc_of_text() {
    assert_eq!(gen_doc_string_opt(&Some("A key.".to_string())), "/** A key. */\n");
}

#[test]
fn doc_of_several_lines_is_a_block() {
    assert_eq!(
        gen_doc_string("  First line.  \n    Second line.\n\n  Third."),
        "/**\n * First line.\n *   Second line.\n * \n * Third.\n */\n"
    );
}

#[test]
fn doc_of_module_marker() {
    assert_eq!(
        gen_doc_string("Module errors.\n\n@module"),
        "/**\n * Module errors.\n * \n * @module\n */\n"
    );
}

#[test]
fn trim_lines_strips_common_indent_and_trailing_space() {
    assert_eq!(trim_lines("    a  \n      b\n    c"), "a\n  b\nc");
    assert_eq!(trim_lines("  a\n \n  b"), "a\n\nb");
    assert_eq!(trim_lines(""), "");
    assert_eq!(trim_lines("   \n  "), "\n");
    assert_eq!(trim_lines("a\n"), "a\n");
}

#[test]
fn trim_lines_twice_is_trim_lines_once() {
    let inputs = ["    a  \n      b\n    c", "  a\n \n  b", "x", "", "\t\tq \n\t r\n", " * a\n * b"];
    for input in inputs {
        let once = trim_lines(input);
        assert_eq!(trim_lines(&once), once);
    }
}

#[test]
fn block_comment_keeps_its_lines_when_dedented_again() {
    let block = gen_doc_string("First.\nSecond.");
    assert_eq!(block, "/**\n * First.\n * Second.\n */\n");
    assert_eq!(trim_lines(&block), block);
}

#[test]
fn indent_shifts_non_empty_lines() {
    assert_eq!(indent("a\n\nb\n"), "  a\n\n  b");
    assert_eq!(indent(""), "");
    assert_eq!(indent("x: number;"), "  x: number;");
    assert_eq!(indent("a\r\nb"), "  a\n  b");
}

#[test]
fn lines_follow_line_feeds() {
    assert_eq!(split_lines("foo\nbar\n\r\nbaz\r"), vec!["foo", "bar", "", "baz\r"]);
    assert_eq!(split_lines(""), Vec::<String>::new());
    assert_eq!(split_lines("\n"), vec![""]);
    assert_eq!(split_lines("a"), vec!["a"]);
}

#[test]
fn split_keeps_every_piece() {
    assert_eq!(split_on("a\nb\n", '\n'), vec!["a", "b", ""]);
    assert_eq!(split_on("", '\n'), vec![""]);
    assert_eq!(split_on("a.b.c", '.'), vec!["a", "b", "c"]);
}

#[test]
fn join_puts_separator_between() {
    let parts = vec!["a".to_string(), "b".to_string(), "c".to_string()];
    assert_eq!(join_strings(&parts, ", "), "a, b, c");
    assert_eq!(join_strings(&Vec::new(), ", "), "");
    assert_eq!(join_strings(&vec!["a".to_string()], ", "), "a");
}

#[test]
fn trim_removes_unicode_whitespace() {
    assert_eq!(trim_str(" \t a b \u{a0}\u{3000}\n"), "a b");
    assert_eq!(trim_str("   "), "");
    assert_eq!(trim_end_str("  a  "), "  a");
    assert_eq!(trim_str("\u{200b}a"), "\u{200b}a");
}

#[test]
fn small_text_helpers() {
    assert_eq!(concat2("ab", "cd"), "abcd");
    assert!(str_eq("p.U64", "p.U64"));
    assert!(!str_eq("p.U64", "p.U128"));
    assert!(starts_with("ReadonlyArray<x>", "ReadonlyArray"));
    assert!(!starts_with("Read", "ReadonlyArray"));
    assert_eq!(replace_char_str("args.to.x", '.', "__"), "args__to__x");
}

#[test]
fn comment_of_a_comment_keeps_every_line() {
    let first = gen_doc_string("  First.\n    Second.  \nThird.");
    assert_eq!(first, "/**\n *   First.\n *     Second.\n * Third.\n */\n");
    let second = gen_doc_string(&first);
    let first_lines = split_lines(&first);
    let second_lines = split_lines(&second);
    assert_eq!(second_lines.len(), first_lines.len() + 2);
    assert_eq!(second_lines[0], "/**");
    assert_eq!(second_lines[second_lines.len() - 1], " */");
    for (k, line) in first_lines.iter().enumerate() {
        assert_eq!(second_lines[k + 1], format!(" * {}", line));
    }
}

#[test]
fn comment_of_a_comment_drops_the_blank_of_an_empty_line() {
    let first = gen_doc_string("a\n\nb");
    assert_eq!(first, "/**\n * a\n * \n * b\n */\n");
    let second = gen_doc_string(&first);
    assert_eq!(second, "/**\n * /**\n *  * a\n *  *\n *  * b\n *  */\n */\n");
}
