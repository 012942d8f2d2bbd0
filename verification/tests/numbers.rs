use postfix_interp::number::{parse_i128, parse_i64, render_int};
use postfix_interp::text::{chars_of, string_of};

#[test]
fn plain_numerals_are_read() {
    assert_eq!(parse_i64("0"), Some(0));
    assert_eq!(parse_i64("7"), Some(7));
    assert_eq!(parse_i64("42"), Some(42));
    assert_eq!(parse_i64("007"), Some(7));
    assert_eq!(parse_i64("1234567890"), Some(1234567890));
}

#[test]
fn signed_numerals_are_read() {
    assert_eq!(parse_i64("-5"), Some(-5));
    assert_eq!(parse_i64("+5"), Some(5));
    assert_eq!(parse_i64("-0"), Some(0));
    assert_eq!(parse_i64("-007"), Some(-7));
}

#[test]
fn other_texts_are_no_numerals() {
    assert_eq!(parse_i64(""), None);
    assert_eq!(parse_i64("-"), None);
    assert_eq!(parse_i64("+"), None);
    assert_eq!(parse_i64("--5"), None);
    assert_eq!(parse_i64("+-5"), None);
    assert_eq!(parse_i64("5-"), None);
    assert_eq!(parse_i64(" 5"), None);
    assert_eq!(parse_i64("5 "), None);
    assert_eq!(parse_i64("1_000"), None);
    assert_eq!(parse_i64("12a"), None);
    assert_eq!(parse_i64("a12"), None);
    assert_eq!(parse_i64("1.5"), None);
    assert_eq!(parse_i64("٣"), None);
}

#[test]
fn sixty_four_bit_bounds_are_kept() {
    assert_eq!(parse_i64("9223372036854775807"), Some(i64::MAX));
    assert_eq!(parse_i64("-9223372036854775808"), Some(i64::MIN));
    assert_eq!(parse_i64("9223372036854775808"), None);
    assert_eq!(parse_i64("-9223372036854775809"), None);
    assert_eq!(parse_i64("0000000000000000000009223372036854775807"), Some(i64::MAX));
    assert_eq!(parse_i64("99999999999999999999999999999999999999999999"), None);
}

#[test]
fn wide_bounds_are_kept() {
    assert_eq!(parse_i128("170141183460469231731687303715884105727"), Some(i128::MAX));
    assert_eq!(parse_i128("-170141183460469231731687303715884105728"), Some(i128::MIN));
    assert_eq!(parse_i128("170141183460469231731687303715884105728"), None);
    assert_eq!(parse_i128("-170141183460469231731687303715884105729"), None);
    assert_eq!(parse_i128("9223372036854775808"), Some(9223372036854775808));
    assert_eq!(parse_i128("1701411834604692317316873037158841057270"), None);
    assert_eq!(parse_i128("x"), None);
}

#[test]
fn integers_are_written_in_decimal() {
    assert_eq!(render_int(0), "0");
    assert_eq!(render_int(7), "7");
    assert_eq!(render_int(10), "10");
    assert_eq!(render_int(-1), "-1");
    assert_eq!(render_int(1000), "1000");
    assert_eq!(render_int(-120), "-120");
    assert_eq!(render_int(i128::MAX), "170141183460469231731687303715884105727");
    assert_eq!(render_int(i128::MIN), "-170141183460469231731687303715884105728");
}

#[test]
fn written_integers_are_read_back() {
    for n in [0i128, 1, -1, 9, 10, 99, 100, -100, 12345, i64::MAX as i128, i64::MIN as i128] {
        assert_eq!(parse_i128(&render_int(n)), Some(n));
    }
    assert_eq!(parse_i128(&render_int(i128::MAX)), Some(i128::MAX));
    assert_eq!(parse_i128(&render_int(i128::MIN)), Some(i128::MIN));
}

#[test]
fn characters_of_a_text_come_in_order() {
    assert_eq!(chars_of("abc"), vec!['a', 'b', 'c']);
    assert_eq!(chars_of(""), Vec::<char>::new());
    assert_eq!(chars_of("é√"), vec!['é', '√']);
}

#[test]
fn string_is_made_of_the_chosen_characters() {
    let chars = vec!['a', 'b', 'c', 'd'];
    assert_eq!(string_of(&chars, 1, 3), "bc");
    assert_eq!(string_of(&chars, 0, 4), "abcd");
    assert_eq!(string_of(&chars, 2, 2), "");
}
