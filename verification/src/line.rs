//! One row of a dump: the address, the hexadecimal columns and the
//! character columns. Every column is a slot of fixed width, and a
//! placeholder slot is as wide as one that shows a byte.

use vstd::prelude::*;
use vstd::arithmetic::power::pow;
use crate::byte_mapping::{as_char, display_char};
use crate::hex::{hex_byte, hex_number, lemma_hex_number_fits, push_hex_byte, push_hex_number};
use crate::padding::Padding;
use crate::text::{join, lemma_join_len, lemma_join_next, push_separator};

verus! {

/// The number of digits that an address has at least.
pub const ADDRESS_WIDTH: usize = 8;

/// The text of slot number `slot` in the hexadecimal columns of a row that
/// shows `bytes` behind `left` placeholders: two digits for a byte, two
/// spaces for a placeholder.
pub open spec fn hex_slot(bytes: Seq<u8>, left: nat, slot: int) -> Seq<char> {
    if left <= slot < left + bytes.len() {
        hex_byte(bytes[slot - left])
    } else {
        seq![' ', ' ']
    }
}

/// The slots of the hexadecimal columns of a row: `left` placeholders, the
/// bytes, and `right` placeholders.
pub open spec fn hex_slots(bytes: Seq<u8>, left: nat, right: nat) -> Seq<Seq<char>> {
    Seq::new(left + bytes.len() + right, |slot: int| hex_slot(bytes, left, slot))
}

/// The hexadecimal columns of a row: its slots with one space between
/// neighbours.
pub open spec fn hex_columns(bytes: Seq<u8>, left: nat, right: nat) -> Seq<char> {
    join(hex_slots(bytes, left, right), ' ')
}

/// The character of slot number `slot` in the character columns: the
/// display character of a byte, a space for a placeholder.
pub open spec fn char_slot(bytes: Seq<u8>, codepage: Seq<char>, left: nat, slot: int) -> char {
    if left <= slot < left + bytes.len() {
        display_char(bytes[slot - left], codepage)
    } else {
        ' '
    }
}

/// The character columns of a row: one character for each slot.
pub open spec fn char_columns(bytes: Seq<u8>, codepage: Seq<char>, left: nat, right: nat) -> Seq<
    char,
> {
    Seq::new(left + bytes.len() + right, |slot: int| char_slot(bytes, codepage, left, slot))
}

/// A whole row: the address, two spaces, the hexadecimal columns, two
/// spaces, and the character columns between `| ` and ` |`.
pub open spec fn line(address: nat, codepage: Seq<char>, bytes: Seq<u8>, left: nat, right: nat) -> Seq<
    char,
> {
    hex_number(address, ADDRESS_WIDTH as nat) + seq![' ', ' '] + hex_columns(bytes, left, right)
        + seq![' ', ' ', '|', ' '] + char_columns(bytes, codepage, left, right) + seq![' ', '|']
}

/// The columns of a row are as wide as its slots are many, whatever the
/// slots show: three characters for each slot but the last in the
/// hexadecimal columns, which takes two, and one for each in the character
/// columns.
pub proof fn lemma_columns_len(bytes: Seq<u8>, codepage: Seq<char>, left: nat, right: nat)
    ensures
        hex_columns(bytes, left, right).len() == if left + bytes.len() + right == 0 {
            0
        } else {
            3 * (left + bytes.len() + right) - 1
        },
        char_columns(bytes, codepage, left, right).len() == left + bytes.len() + right,
{
    lemma_join_len(hex_slots(bytes, left, right), ' ', 2);
}

/// The length of a row: the digits of its address, four characters for
/// each slot, and seven more. An address below sixteen to the eighth has
/// eight digits.
pub proof fn lemma_line_len(address: nat, codepage: Seq<char>, bytes: Seq<u8>, left: nat, right: nat)
    requires
        left + bytes.len() + right > 0,
    ensures
        line(address, codepage, bytes, left, right).len() == hex_number(
            address,
            ADDRESS_WIDTH as nat,
        ).len() + 4 * (left + bytes.len() + right) + 7,
        address < 0x1_0000_0000 ==> line(address, codepage, bytes, left, right).len() == 4 * (left
            + bytes.len() + right) + 15,
{
    lemma_columns_len(bytes, codepage, left, right);
    if address < 0x1_0000_0000 {
        assert(pow(16, 8) == 0x1_0000_0000) by {
            reveal_with_fuel(pow, 9);
        }
        lemma_hex_number_fits(address, 8);
    }
}

/// Appends a placeholder slot of the hexadecimal columns, behind a space
/// where `separated` says that a slot stands before it.
fn push_blank_slot(out: &mut String, separated: bool)
    ensures
        final(out)@ == (if separated {
            old(out)@.push(' ')
        } else {
            old(out)@
        }) + seq![' ', ' '],
{
    push_separator(out, ' ', separated);
    out.push(' ');
    out.push(' ');
}

/// Appends the hexadecimal columns of a row to `out`.
pub fn fmt_bytes_as_hex(out: &mut String, bytes: &[u8], padding: &Padding)
    ensures
        final(out)@ == old(out)@ + hex_columns(bytes@, padding.left as nat, padding.right as nat),
{
    let ghost start = out@;
    let ghost left = padding.left as nat;
    let ghost slots = hex_slots(bytes@, left, padding.right as nat);
    let mut separated: bool = false;

    let mut i: usize = 0;
    while i < padding.left
        invariant
            i <= padding.left,
            left == padding.left,
            separated == (i > 0),
            slots == hex_slots(bytes@, left, padding.right as nat),
            out@ == start + join(slots.take(i as int), ' '),
        decreases padding.left - i,
    {
        proof {
            lemma_join_next(slots, ' ', i as int);
        }
        push_blank_slot(out, separated);
        separated = true;
        i += 1;
    }

    let mut j: usize = 0;
    while j < bytes.len()
        invariant
            j <= bytes.len(),
            left == padding.left,
            separated == (left + j > 0),
            slots == hex_slots(bytes@, left, padding.right as nat),
            out@ == start + join(slots.take(left + j), ' '),
        decreases bytes.len() - j,
    {
        proof {
            lemma_join_next(slots, ' ', left + j);
        }
        push_separator(out, ' ', separated);
        push_hex_byte(out, bytes[j]);
        separated = true;
        j += 1;
    }

    let ghost shown = left + bytes@.len();
    let mut k: usize = 0;
    while k < padding.right
        invariant
            k <= padding.right,
            left == padding.left,
            shown == left + bytes@.len(),
            separated == (shown + k > 0),
            slots == hex_slots(bytes@, left, padding.right as nat),
            out@ == start + join(slots.take(shown + k), ' '),
        decreases padding.right - k,
    {
        proof {
            lemma_join_next(slots, ' ', shown + k);
        }
        push_blank_slot(out, separated);
        separated = true;
        k += 1;
    }
    assert(slots.take(shown + k) =~= slots);
}

/// Appends the character columns of a row to `out`.
pub fn fmt_bytes_as_char(out: &mut String, cp: &[char], bytes: &[u8], padding: &Padding)
    ensures
        final(out)@ == old(out)@ + char_columns(
            bytes@,
            cp@,
            padding.left as nat,
            padding.right as nat,
        ),
{
    let ghost start = out@;
    let ghost left = padding.left as nat;
    let ghost columns = char_columns(bytes@, cp@, left, padding.right as nat);

    let mut i: usize = 0;
    while i < padding.left
        invariant
            i <= padding.left,
            left == padding.left,
            columns == char_columns(bytes@, cp@, left, padding.right as nat),
            out@ == start + columns.take(i as int),
        decreases padding.left - i,
    {
        out.push(' ');
        i += 1;
    }

    let mut j: usize = 0;
    while j < bytes.len()
        invariant
            j <= bytes.len(),
            left == padding.left,
            columns == char_columns(bytes@, cp@, left, padding.right as nat),
            out@ == start + columns.take(left + j),
        decreases bytes.len() - j,
    {
        out.push(as_char(bytes[j], cp));
        j += 1;
    }

    let ghost shown = left + bytes@.len();
    let mut k: usize = 0;
    while k < padding.right
        invariant
            k <= padding.right,
            left == padding.left,
            shown == left + bytes@.len(),
            columns == char_columns(bytes@, cp@, left, padding.right as nat),
            out@ == start + columns.take(shown + k),
        decreases padding.right - k,
    {
        out.push(' ');
        k += 1;
    }
}

/// Appends a whole row to `out`. The address is wider than `usize`: the
/// rows of a dump that starts high in the address range go on beyond it.
pub fn fmt_line(out: &mut String, address: u128, cp: &[char], bytes: &[u8], padding: &Padding)
    ensures
        final(out)@ == old(out)@ + line(
            address as nat,
            cp@,
            bytes@,
            padding.left as nat,
            padding.right as nat,
        ),
{
    push_hex_number(out, address, ADDRESS_WIDTH);

    out.push(' ');
    out.push(' ');
    fmt_bytes_as_hex(out, bytes, padding);
    out.push(' ');
    out.push(' ');

    out.push('|');
    out.push(' ');
    fmt_bytes_as_char(out, cp, bytes, padding);
    out.push(' ');
    out.push('|');
}

} // verus!
