use hex_view::byte_mapping::{as_char, CODEPAGE_0850, NIL};
use hex_view::hex::{push_hex_byte, push_hex_digit, push_hex_number};
use hex_view::line::{fmt_bytes_as_char, fmt_bytes_as_hex, fmt_line};
use hex_view::padding::Padding;
use hex_view::text::push_separator;

#[test]
fn hex_digits_are_upper_case() {
    let mut text = String::new();
    for value in 0..16u8 {
        push_hex_digit(&mut text, value);
    }
    assert_eq!(text, "0123456789ABCDEF");
}

#[test]
fn a_byte_takes_two_digits() {
    let mut text = String::from("x");
    push_hex_byte(&mut text, 0x00);
    push_hex_byte(&mut text, 0x0A);
    push_hex_byte(&mut text, 0xA0);
    push_hex_byte(&mut text, 0xFF);
    push_hex_byte(&mut text, 0x4F);
    assert_eq!(text, "x000AA0FF4F");
}

#[test]
fn a_number_is_filled_with_zeros_up_to_its_width() {
    let mut text = String::new();
    push_hex_number(&mut text, 0, 8);
    assert_eq!(text, "00000000");

    let mut text = String::new();
    push_hex_number(&mut text, 0xA0, 8);
    assert_eq!(text, "000000A0");

    let mut text = String::new();
    push_hex_number(&mut text, 0xDEADBEEF, 8);
    assert_eq!(text, "DEADBEEF");

    let mut text = String::new();
    push_hex_number(&mut text, 0x1F, 1);
    assert_eq!(text, "1F");

    let mut text = String::new();
    push_hex_number(&mut text, 0, 0);
    assert_eq!(text, "0");

    let mut text = String::new();
    push_hex_number(&mut text, 7, 3);
    assert_eq!(text, "007");
}

#[test]
fn a_number_wider_than_its_width_keeps_all_digits() {
    let mut text = String::new();
    push_hex_number(&mut text, 0x1_0000_0000, 8);
    assert_eq!(text, "100000000");

    let mut text = String::new();
    push_hex_number(&mut text, u128::MAX, 8);
    assert_eq!(text, "FFFFFFFFFFFFFFFFFFFFFFFFFFFFFFFF");
    assert_eq!(text, format!("{:08X}", u128::MAX));
}

#[test]
fn numbers_agree_with_the_standard_formatting() {
    for value in [0u128, 1, 15, 16, 255, 256, 4095, 65536, 0xFFFF_FFFF, 0x1234_5678_9ABC_DEF0] {
        let mut text = String::new();
        push_hex_number(&mut text, value, 8);
        assert_eq!(text, format!("{:08X}", value));
    }
}

#[test]
fn a_separator_is_pushed_only_where_wanted() {
    let mut text = String::from("ab");
    push_separator(&mut text, '\n', false);
    assert_eq!(text, "ab");
    push_separator(&mut text, '\n', true);
    assert_eq!(text, "ab\n");
}

#[test]
fn the_builtin_code_page_shows_ascii_as_it_is() {
    for byte in 0x20..0x7Fu8 {
        assert_eq!(as_char(byte, &CODEPAGE_0850), byte as char);
    }
}

#[test]
fn the_builtin_code_page_has_a_placeholder_for_control_characters() {
    assert_eq!(NIL, '.');
    for byte in 0x00..0x20u8 {
        assert_eq!(as_char(byte, &CODEPAGE_0850), NIL);
    }
    assert_eq!(as_char(0x7F, &CODEPAGE_0850), NIL);
}

#[test]
fn the_builtin_code_page_is_code_page_850_above_ascii() {
    assert_eq!(as_char(0x80, &CODEPAGE_0850), '\u{00C7}');
    assert_eq!(as_char(0x9F, &CODEPAGE_0850), '\u{0192}');
    assert_eq!(as_char(0xB0, &CODEPAGE_0850), '\u{2591}');
    assert_eq!(as_char(0xE1, &CODEPAGE_0850), '\u{00DF}');
    assert_eq!(as_char(0xFE, &CODEPAGE_0850), '\u{25A0}');
    assert_eq!(as_char(0xFF, &CODEPAGE_0850), '\u{00A0}');
}

#[test]
fn a_byte_beyond_the_end_of_a_short_table_gets_the_placeholder() {
    let table = ['x', 'y', 'z'];
    assert_eq!(as_char(0, &table), 'x');
    assert_eq!(as_char(2, &table), 'z');
    assert_eq!(as_char(3, &table), '.');
    assert_eq!(as_char(255, &table), '.');
    assert_eq!(as_char(0, &[]), '.');
}

#[test]
fn hex_columns_are_separated_by_one_space() {
    let mut out = String::new();
    fmt_bytes_as_hex(&mut out, &[0x00, 0x7F, 0xFF], &Padding::default());
    assert_eq!(out, "00 7F FF");
}

#[test]
fn hex_columns_draw_two_spaces_for_a_placeholder() {
    let mut out = String::new();
    fmt_bytes_as_hex(&mut out, &[0x61], &Padding::new(2, 1));
    assert_eq!(out, "      61   ");

    let mut out = String::new();
    fmt_bytes_as_hex(&mut out, &[], &Padding::new(1, 1));
    assert_eq!(out, "     ");

    let mut out = String::new();
    fmt_bytes_as_hex(&mut out, &[], &Padding::from_right(1));
    assert_eq!(out, "  ");
}

#[test]
fn hex_columns_of_no_slots_are_empty() {
    let mut out = String::from(">");
    fmt_bytes_as_hex(&mut out, &[], &Padding::default());
    assert_eq!(out, ">");
}

#[test]
fn char_columns_draw_one_space_for_a_placeholder() {
    let mut out = String::from(">");
    fmt_bytes_as_char(&mut out, &CODEPAGE_0850, &[0x61, 0x00, 0x62], &Padding::new(2, 3));
    assert_eq!(out, ">  a.b   ");
}

#[test]
fn char_columns_use_the_given_table() {
    let mut table = ['?'; 256];
    table[0x61] = 'A';
    let mut out = String::new();
    fmt_bytes_as_char(&mut out, &table, &[0x61, 0x62], &Padding::default());
    assert_eq!(out, "A?");
}

#[test]
fn a_line_has_an_address_and_both_columns() {
    let mut out = String::new();
    fmt_line(&mut out, 0x10, &CODEPAGE_0850, &[0x48, 0x69], &Padding::new(1, 1));
    assert_eq!(out, "00000010     48 69     |  Hi  |");
}

#[test]
fn a_line_is_appended_to_what_is_there() {
    let mut out = String::from("head\n");
    fmt_line(&mut out, 0xABCDEF012, &CODEPAGE_0850, &[0x21], &Padding::default());
    assert_eq!(out, "head\nABCDEF012  21  | ! |");
}

#[test]
fn a_line_without_slots_has_empty_columns() {
    let mut out = String::new();
    fmt_line(&mut out, 0, &CODEPAGE_0850, &[], &Padding::default());
    assert_eq!(out, "00000000    |  |");
}
