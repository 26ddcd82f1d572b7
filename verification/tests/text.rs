use lumbermill::json::{push_escaped_char, push_json_escaped};
use lumbermill::text::{decimal_len, push_decimal, push_zero_padded};

fn decimal(n: u64) -> String {
    let mut out = String::from(">");
    push_decimal(&mut out, n);
    out
}

fn padded(n: u64, width: usize) -> String {
    let mut out = String::from(">");
    push_zero_padded(&mut out, n, width);
    out
}

fn escaped(s: &str) -> String {
    let mut out = String::from(">");
    push_json_escaped(&mut out, s);
    out
}

#[test]
fn decimal_digits() {
    assert_eq!(decimal(0), ">0");
    assert_eq!(decimal(7), ">7");
    assert_eq!(decimal(10), ">10");
    assert_eq!(decimal(9001), ">9001");
    assert_eq!(decimal(4_294_967_295), ">4294967295");
    assert_eq!(decimal(u64::MAX), ">18446744073709551615");
}

#[test]
fn decimal_lengths() {
    assert_eq!(decimal_len(0), 1);
    assert_eq!(decimal_len(9), 1);
    assert_eq!(decimal_len(10), 2);
    assert_eq!(decimal_len(99), 2);
    assert_eq!(decimal_len(100), 3);
    assert_eq!(decimal_len(u64::MAX), 20);
}

#[test]
fn zero_padding_fills_up_to_the_width() {
    assert_eq!(padded(0, 2), ">00");
    assert_eq!(padded(7, 2), ">07");
    assert_eq!(padded(59, 2), ">59");
    assert_eq!(padded(5, 3), ">005");
    assert_eq!(padded(50, 3), ">050");
    assert_eq!(padded(999, 3), ">999");
}

#[test]
fn zero_padding_never_cuts_a_number() {
    assert_eq!(padded(123, 2), ">123");
    assert_eq!(padded(5, 0), ">5");
    assert_eq!(padded(5, 1), ">5");
    assert_eq!(padded(1000, 3), ">1000");
}

#[test]
fn plain_text_is_not_escaped() {
    assert_eq!(escaped(""), ">");
    assert_eq!(escaped("logmsg"), ">logmsg");
    assert_eq!(escaped("a b/c'd"), ">a b/c'd");
    assert_eq!(escaped("caf\u{e9} \u{1f600} \u{7f}"), ">caf\u{e9} \u{1f600} \u{7f}");
}

#[test]
fn quotes_and_backslashes_get_a_backslash() {
    assert_eq!(escaped("say \"hi\""), ">say \\\"hi\\\"");
    assert_eq!(escaped("C:\\logs"), ">C:\\\\logs");
    assert_eq!(escaped("\\\""), ">\\\\\\\"");
}

#[test]
fn control_characters_are_escaped() {
    assert_eq!(escaped("a\nb"), ">a\\nb");
    assert_eq!(escaped("a\rb"), ">a\\rb");
    assert_eq!(escaped("a\tb"), ">a\\tb");
    assert_eq!(escaped("\u{8}\u{c}"), ">\\b\\f");
    assert_eq!(escaped("\u{0}"), ">\\u0000");
    assert_eq!(escaped("\u{1}\u{b}\u{1b}\u{1f}"), ">\\u0001\\u000b\\u001b\\u001f");
    assert_eq!(escaped("\u{a}\u{e}\u{f}\u{10}\u{1a}"), ">\\n\\u000e\\u000f\\u0010\\u001a");
    assert_eq!(escaped(" "), "> ");
}

#[test]
fn one_character_at_a_time() {
    let mut out = String::new();
    for c in ['a', '"', '\\', '\n', '\u{1e}', '\u{20ac}'] {
        push_escaped_char(&mut out, c);
    }
    assert_eq!(out, "a\\\"\\\\\\n\\u001e\u{20ac}");
}
