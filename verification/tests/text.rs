use config_struct::text::{
    contains_char, decimal_text, float_text_ok, push_decimal, push_digits, push_escaped, push_escaped_char, push_spaces,
    push_upper,
};

fn decimal(n: i128) -> String {
    let mut out = String::new();
    push_decimal(&mut out, n);
    out
}

fn escaped(s: &str, quote: char) -> String {
    let mut out = String::new();
    push_escaped(&mut out, s, quote);
    out
}

#[test]
fn decimal_of_small_numbers() {
    assert_eq!(decimal(0), "0");
    assert_eq!(decimal(5), "5");
    assert_eq!(decimal(10), "10");
    assert_eq!(decimal(-1), "-1");
    assert_eq!(decimal(1234567890), "1234567890");
}

#[test]
fn decimal_of_the_bounds_of_the_integer_types() {
    assert_eq!(decimal(i8::MIN as i128), "-128");
    assert_eq!(decimal(u8::MAX as i128), "255");
    assert_eq!(decimal(i64::MIN as i128), "-9223372036854775808");
    assert_eq!(decimal(i64::MAX as i128), "9223372036854775807");
    assert_eq!(decimal(u64::MAX as i128), "18446744073709551615");
    assert_eq!(decimal(i128::MIN), "-170141183460469231731687303715884105728");
    assert_eq!(decimal(i128::MAX), "170141183460469231731687303715884105727");
}

#[test]
fn decimal_agrees_with_the_standard_rendering() {
    for n in [-1000i128, -999, -10, -9, 9, 99, 100, 101, 65535, 4294967296] {
        assert_eq!(decimal(n), n.to_string());
    }
}

#[test]
fn digits_are_appended_to_what_is_there() {
    let mut out = String::from("n = ");
    push_digits(&mut out, 42);
    assert_eq!(out, "n = 42");
}

#[test]
fn spaces_are_appended() {
    let mut out = String::from("|");
    push_spaces(&mut out, 0);
    assert_eq!(out, "|");
    push_spaces(&mut out, 4);
    assert_eq!(out, "|    ");
}

#[test]
fn plain_text_is_not_escaped() {
    assert_eq!(escaped("Application", '"'), "Application");
    assert_eq!(escaped("", '"'), "");
    assert_eq!(escaped("héllo wörld ✓", '"'), "héllo wörld ✓");
}

#[test]
fn quotes_and_backslashes_are_escaped() {
    assert_eq!(escaped("say \"hi\"", '"'), "say \\\"hi\\\"");
    assert_eq!(escaped("a\\b", '"'), "a\\\\b");
    assert_eq!(escaped("it's", '"'), "it's");
    assert_eq!(escaped("it's", '\''), "it\\'s");
    assert_eq!(escaped("\"", '\''), "\"");
}

#[test]
fn control_characters_are_escaped() {
    assert_eq!(escaped("a\nb", '"'), "a\\nb");
    assert_eq!(escaped("a\rb", '"'), "a\\rb");
    assert_eq!(escaped("a\tb", '"'), "a\\tb");
    assert_eq!(escaped("a\0b", '"'), "a\\0b");
}

#[test]
fn one_character_is_escaped() {
    let mut out = String::from("x");
    push_escaped_char(&mut out, '\'', '\'');
    push_escaped_char(&mut out, 'y', '\'');
    assert_eq!(out, "x\\'y");
}

#[test]
fn a_character_is_found_where_it_stands() {
    assert!(contains_char("1.5", '.'));
    assert!(contains_char(".", '.'));
    assert!(!contains_char("15", '.'));
    assert!(!contains_char("", '.'));
}

#[test]
fn ascii_letters_are_put_in_upper_case() {
    let mut out = String::new();
    push_upper(&mut out, "Config");
    assert_eq!(out, "CONFIG");
    let mut out = String::new();
    push_upper(&mut out, "my_config2");
    assert_eq!(out, "MY_CONFIG2");
    let mut out = String::new();
    push_upper(&mut out, "straße{z}`a");
    assert_eq!(out, "STRAßE{Z}`A");
}

#[test]
fn finite_numbers_in_decimal_are_told() {
    for text in ["0", "12", "-12", "0.5", "-0.5", "12.25", "-0", "007"] {
        assert!(decimal_text(text), "{}", text);
        assert!(float_text_ok(text), "{}", text);
    }
    for text in ["", "-", ".", "-.", "1.", ".1", "1..2", "1.2.3", "1-2", "-1-", "1e3", "a", "1a", "NaN"] {
        assert!(!decimal_text(text), "{:?}", text);
    }
}

#[test]
fn the_texts_of_floats_are_told() {
    for text in ["NaN", "inf", "-inf", "1.5"] {
        assert!(float_text_ok(text), "{}", text);
    }
    for text in ["nan", "-NaN", "+inf", "Infinity", "inf ", ""] {
        assert!(!float_text_ok(text), "{:?}", text);
    }
}
