//! The lines of a dump: its rows are the lines of its text.

use vstd::prelude::*;
use crate::hex::{hex_digit, hex_number};
use crate::layout::{lemma_row_count, Configuration};
use crate::line::{char_columns, hex_columns, hex_slots, line, ADDRESS_WIDTH};
use crate::text::join;

verus! {

/// How often `ch` stands in `text`.
pub open spec fn occurrences(text: Seq<char>, ch: char) -> nat
    decreases text.len(),
{
    if text.len() == 0 {
        0
    } else {
        occurrences(text.drop_last(), ch) + if text.last() == ch {
            1nat
        } else {
            0nat
        }
    }
}

/// A character stands in two texts put together as often as in both.
proof fn lemma_occurrences_add(first: Seq<char>, second: Seq<char>, ch: char)
    ensures
        occurrences(first + second, ch) == occurrences(first, ch) + occurrences(second, ch),
    decreases second.len(),
{
    if second.len() == 0 {
        assert(first + second =~= first);
    } else {
        assert((first + second).drop_last() =~= first + second.drop_last());
        lemma_occurrences_add(first, second.drop_last(), ch);
    }
}

/// A character that no place of a text holds does not stand in it.
proof fn lemma_occurrences_none(text: Seq<char>, ch: char)
    requires
        forall|i: int| 0 <= i < text.len() ==> text[i] != ch,
    ensures
        occurrences(text, ch) == 0,
    decreases text.len(),
{
    if text.len() > 0 {
        lemma_occurrences_none(text.drop_last(), ch);
    }
}

/// In joined text, a character that stands in no piece stands where the
/// separators are, if it is the separator, and nowhere else.
proof fn lemma_occurrences_join(parts: Seq<Seq<char>>, separator: char, ch: char)
    requires
        forall|i: int| 0 <= i < parts.len() ==> occurrences(#[trigger] parts[i], ch) == 0,
    ensures
        occurrences(join(parts, separator), ch) == if separator == ch && parts.len() > 0 {
            parts.len() - 1
        } else {
            0
        },
    decreases parts.len(),
{
    if parts.len() > 1 {
        let before = join(parts.drop_last(), separator);
        lemma_occurrences_join(parts.drop_last(), separator, ch);
        lemma_occurrences_add(before.push(separator), parts.last(), ch);
        assert(before.push(separator).drop_last() =~= before);
    }
}

/// No line feed stands in a number.
proof fn lemma_hex_number_one_line(value: nat, width: nat)
    ensures
        occurrences(hex_number(value, width), '\n') == 0,
    decreases value, width,
{
    let digit = hex_digit(value % 16);
    assert(digit != '\n');
    if value < 16 && width <= 1 {
        lemma_occurrences_none(seq![digit], '\n');
    } else {
        let rest = hex_number(value / 16, if width > 0 { (width - 1) as nat } else { 0 });
        lemma_hex_number_one_line(value / 16, if width > 0 { (width - 1) as nat } else { 0 });
        assert(rest.push(digit).drop_last() =~= rest);
    }
}

/// A row is one line, where the code page holds no line feed.
proof fn lemma_line_one_line(
    address: nat,
    codepage: Seq<char>,
    bytes: Seq<u8>,
    left: nat,
    right: nat,
)
    requires
        forall|i: int| 0 <= i < codepage.len() ==> codepage[i] != '\n',
    ensures
        occurrences(line(address, codepage, bytes, left, right), '\n') == 0,
{
    let number = hex_number(address, ADDRESS_WIDTH as nat);
    let hex = hex_columns(bytes, left, right);
    let chars = char_columns(bytes, codepage, left, right);
    let slots = hex_slots(bytes, left, right);
    lemma_hex_number_one_line(address, ADDRESS_WIDTH as nat);
    assert forall|i: int| 0 <= i < slots.len() implies occurrences(#[trigger] slots[i], '\n')
        == 0 by {
        lemma_occurrences_none(slots[i], '\n');
    }
    lemma_occurrences_join(slots, ' ', '\n');
    lemma_occurrences_none(chars, '\n');
    lemma_occurrences_none(seq![' ', ' '], '\n');
    lemma_occurrences_none(seq![' ', ' ', '|', ' '], '\n');
    lemma_occurrences_none(seq![' ', '|'], '\n');
    lemma_occurrences_add(number, seq![' ', ' '], '\n');
    lemma_occurrences_add(number + seq![' ', ' '], hex, '\n');
    lemma_occurrences_add(number + seq![' ', ' '] + hex, seq![' ', ' ', '|', ' '], '\n');
    lemma_occurrences_add(
        number + seq![' ', ' '] + hex + seq![' ', ' ', '|', ' '],
        chars,
        '\n',
    );
    lemma_occurrences_add(
        number + seq![' ', ' '] + hex + seq![' ', ' ', '|', ' '] + chars,
        seq![' ', '|'],
        '\n',
    );
}

/// The rows of a dump are the lines of its text: where the code page holds
/// no line feed, the text has one line feed less than the dump has rows.
pub proof fn lemma_rows_are_lines(c: Configuration)
    requires
        c.row_width > 0,
        forall|i: int| 0 <= i < c.codepage.len() ==> c.codepage[i] != '\n',
    ensures
        occurrences(c.text(), '\n') == c.row_count() - 1,
{
    let rows = c.rows();
    lemma_row_count(c);
    assert forall|i: int| 0 <= i < rows.len() implies occurrences(#[trigger] rows[i], '\n')
        == 0 by {
        let row = i as nat;
        lemma_line_one_line(
            c.row_address(row),
            c.codepage,
            c.row_bytes(row),
            c.row_left(row),
            c.row_right(row),
        );
    }
    lemma_occurrences_join(rows, '\n', '\n');
}

/// A dump does not end with a line feed: it ends with the bar that closes
/// its last row.
pub proof fn lemma_text_ends_with_bar(c: Configuration)
    requires
        c.row_width > 0,
    ensures
        c.text().len() > 0,
        c.text().last() == '|',
{
    let rows = c.rows();
    lemma_row_count(c);
    let row = (c.row_count() - 1) as nat;
    assert(rows.last() == c.row(row));
    assert(c.row(row).len() > 0 && c.row(row).last() == '|');
    if rows.len() > 1 {
        assert(c.text() == join(rows.drop_last(), '\n').push('\n') + rows.last());
    }
}

} // verus!
