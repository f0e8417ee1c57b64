//! Upper-case hexadecimal text for bytes and addresses.

use vstd::prelude::*;
use vstd::arithmetic::power::pow;

verus! {

/// The sixteen hexadecimal digits in the order of their values.
pub const HEX_DIGITS: [char; 16] = [
    '0', '1', '2', '3', '4', '5', '6', '7', '8', '9', 'A', 'B', 'C', 'D', 'E', 'F',
];

/// The digit that stands for `value`, which is below sixteen.
pub open spec fn hex_digit(value: nat) -> char
    recommends
        value < 16,
{
    HEX_DIGITS@[value as int]
}

/// The two digits of a byte, high nibble first.
pub open spec fn hex_byte(byte: u8) -> Seq<char> {
    seq![hex_digit((byte / 16) as nat), hex_digit((byte % 16) as nat)]
}

/// The digits of `value`, most significant first, with zeros in front
/// where the number has fewer than `width` digits.
pub open spec fn hex_number(value: nat, width: nat) -> Seq<char>
    decreases value, width,
{
    if value < 16 && width <= 1 {
        seq![hex_digit(value)]
    } else {
        hex_number(value / 16, if width > 0 { (width - 1) as nat } else { 0 }).push(
            hex_digit(value % 16),
        )
    }
}

/// Appends the digit of `value` to `text`.
pub fn push_hex_digit(text: &mut String, value: u8)
    requires
        value < 16,
    ensures
        final(text)@ == old(text)@.push(hex_digit(value as nat)),
{
    text.push(HEX_DIGITS[value as usize]);
}

/// Appends the two digits of `byte` to `text`.
pub fn push_hex_byte(text: &mut String, byte: u8)
    ensures
        final(text)@ == old(text)@ + hex_byte(byte),
{
    push_hex_digit(text, byte / 16);
    push_hex_digit(text, byte % 16);
}

/// Appends `value` to `text` in at least `width` digits.
pub fn push_hex_number(text: &mut String, value: u128, width: usize)
    ensures
        final(text)@ == old(text)@ + hex_number(value as nat, width as nat),
    decreases value, width,
{
    if value >= 16 || width > 1 {
        let rest: usize = if width > 0 { width - 1 } else { 0 };
        push_hex_number(text, value / 16, rest);
    }
    push_hex_digit(text, (value % 16) as u8);
}

/// A number has at least one digit and at least `width` of them.
pub proof fn lemma_hex_number_len(value: nat, width: nat)
    ensures
        hex_number(value, width).len() >= 1,
        hex_number(value, width).len() >= width,
    decreases value, width,
{
    if !(value < 16 && width <= 1) {
        lemma_hex_number_len(value / 16, if width > 0 { (width - 1) as nat } else { 0 });
    }
}

/// A number has no more digits than a larger one in the same width.
pub proof fn lemma_hex_number_len_monotonic(smaller: nat, larger: nat, width: nat)
    requires
        smaller <= larger,
    ensures
        hex_number(smaller, width).len() <= hex_number(larger, width).len(),
    decreases larger, width,
{
    if smaller < 16 && width <= 1 {
        lemma_hex_number_len(larger, width);
    } else {
        lemma_hex_number_len_monotonic(
            smaller / 16,
            larger / 16,
            if width > 0 {
                (width - 1) as nat
            } else {
                0
            },
        );
    }
}

/// A number below sixteen to the power of `width` has exactly `width`
/// digits.
pub proof fn lemma_hex_number_fits(value: nat, width: nat)
    requires
        width >= 1,
        value < pow(16, width),
    ensures
        hex_number(value, width).len() == width,
    decreases width,
{
    reveal(pow);
    if width == 1 {
        assert(pow(16, 1) == 16) by {
            reveal_with_fuel(pow, 2);
        }
    } else {
        assert(pow(16, width) == 16 * pow(16, (width - 1) as nat));
        assert(value / 16 < pow(16, (width - 1) as nat)) by (nonlinear_arith)
            requires
                value < 16 * pow(16, (width - 1) as nat),
        ;
        lemma_hex_number_fits(value / 16, (width - 1) as nat);
    }
}

} // verus!
