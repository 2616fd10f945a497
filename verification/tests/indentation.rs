//! Tests for the indentation renderer: ordinal headers, plain margins,
//! continuation lines, and the skipping of empty leading lines.

use reporter::Indented;

#[test]
fn lib_one_digit() {
    let input = "verify\nthis";
    let expected = "    2: verify\n       this";

    let mut w = Indented::numbered(2);
    w.write_str(input);

    assert_eq!(expected, w.finish());
}

#[test]
fn lib_two_digits() {
    let input = "verify\nthis";
    let expected = "   12: verify\n       this";

    let mut w = Indented::numbered(12);
    w.write_str(input);

    assert_eq!(expected, w.finish());
}

#[test]
fn lib_no_digits() {
    let input = "verify\nthis";
    let expected = "    verify\n    this";

    let mut w = Indented::plain();
    w.write_str(input);

    assert_eq!(expected, w.finish());
}

#[test]
fn report_one_digit() {
    let input = "verify\nthis";
    let expected = "    2: verify\n       this";

    let mut w = Indented::numbered(2);
    w.write_str(input);

    assert_eq!(expected, w.finish());
}

#[test]
fn report_two_digits() {
    let input = "verify\nthis";
    let expected = "   12: verify\n       this";

    let mut w = Indented::numbered(12);
    w.write_str(input);

    assert_eq!(expected, w.finish());
}

#[test]
fn report_no_digits() {
    let input = "verify\nthis";
    let expected = "    verify\n    this";

    let mut w = Indented::plain();
    w.write_str(input);

    assert_eq!(expected, w.finish());
}

#[test]
fn strategy_one_digit() {
    let input = "verify\nthis";
    let expected = "    2: verify\n       this";

    let mut w = Indented::numbered(2);
    w.write_str(input);

    assert_eq!(expected, w.finish());
}

#[test]
fn strategy_two_digits() {
    let input = "verify\nthis";
    let expected = "   12: verify\n       this";

    let mut w = Indented::numbered(12);
    w.write_str(input);

    assert_eq!(expected, w.finish());
}

#[test]
fn strategy_no_digits() {
    let input = "verify\nthis";
    let expected = "    verify\n    this";

    let mut w = Indented::plain();
    w.write_str(input);

    assert_eq!(expected, w.finish());
}

#[test]
fn five_digit_ordinal_no_padding() {
    let mut w = Indented::numbered(12345);
    w.write_str("x");
    assert_eq!("12345: x", w.finish());
}

#[test]
fn six_digit_ordinal_widens_column() {
    let mut w = Indented::numbered(123456);
    w.write_str("x");
    assert_eq!("123456: x", w.finish());
}

#[test]
fn zero_ordinal() {
    let mut w = Indented::numbered(0);
    w.write_str("first");
    assert_eq!("    0: first", w.finish());
}

#[test]
fn empty_block_writes_nothing() {
    let mut w = Indented::plain();
    w.write_str("");
    assert_eq!("", w.finish());
}

#[test]
fn whitespace_only_block_writes_nothing() {
    let mut w = Indented::numbered(3);
    w.write_str(" \t \n   \n");
    assert_eq!("", w.finish());
}

#[test]
fn leading_empty_lines_skipped() {
    let mut w = Indented::plain();
    w.write_str("\n\n  \nfoo");
    assert_eq!("    foo", w.finish());
}

#[test]
fn first_line_trimmed_continuations_kept() {
    let mut w = Indented::numbered(7);
    w.write_str("  spaced  \n  kept  ");
    assert_eq!("    7: spaced\n         kept  ", w.finish());
}

#[test]
fn second_write_continues_first_line() {
    let mut w = Indented::plain();
    w.write_str("ab");
    w.write_str("cd\nef");
    assert_eq!("    abcd\n    ef", w.finish());
}

#[test]
fn empty_interior_line_gets_margin() {
    let mut w = Indented::plain();
    w.write_str("a\n\nb");
    assert_eq!("    a\n    \n    b", w.finish());
}
