//! The length of a dump, and how it grows when the rows get narrower.

use vstd::prelude::*;
use vstd::arithmetic::power::pow;
use crate::hex::{hex_number, lemma_hex_number_fits, lemma_hex_number_len_monotonic};
use crate::layout::{lemma_row_count, lemma_row_slots, Configuration};
use crate::line::{lemma_line_len, ADDRESS_WIDTH};
use crate::text::{join, lemma_join_next};

verus! {

/// The digits that `count` addresses take together: the addresses start
/// at `first` and go up by `step`.
pub open spec fn address_digits(first: nat, step: nat, count: nat) -> nat
    decreases count,
{
    if count == 0 {
        0
    } else {
        address_digits(first, step, (count - 1) as nat) + hex_number(
            first + (count - 1) as nat * step,
            ADDRESS_WIDTH as nat,
        ).len()
    }
}

/// The digits of `head + tail` addresses are those of the first `head`
/// and those of the `tail` that follow them.
proof fn lemma_address_digits_split(first: nat, step: nat, head: nat, tail: nat)
    ensures
        address_digits(first, step, head + tail) == address_digits(first, step, head)
            + address_digits(first + head * step, step, tail),
    decreases tail,
{
    if tail > 0 {
        let shorter = (tail - 1) as nat;
        lemma_address_digits_split(first, step, head, shorter);
        assert(first + (head + shorter) * step == first + head * step + shorter * step)
            by (nonlinear_arith);
    }
}

/// Addresses that go up in smaller steps from a start far enough ahead
/// take no fewer digits than as many addresses that end where they end.
proof fn lemma_address_digits_monotonic(
    low: nat,
    wide_step: nat,
    high: nat,
    narrow_step: nat,
    count: nat,
)
    requires
        narrow_step <= wide_step,
        low + count * wide_step <= high + count * narrow_step,
    ensures
        address_digits(low, wide_step, count) <= address_digits(high, narrow_step, count),
    decreases count,
{
    if count > 0 {
        let fewer = (count - 1) as nat;
        assert(low + fewer * wide_step <= high + fewer * narrow_step) by (nonlinear_arith)
            requires
                narrow_step <= wide_step,
                low + count * wide_step <= high + count * narrow_step,
                fewer == count - 1,
        ;
        lemma_address_digits_monotonic(low, wide_step, high, narrow_step, fewer);
        lemma_hex_number_len_monotonic(
            low + fewer * wide_step,
            high + fewer * narrow_step,
            ADDRESS_WIDTH as nat,
        );
    }
}

/// The length of the first `count` rows with the line feeds between them.
proof fn lemma_rows_len(c: Configuration, count: nat)
    requires
        c.row_width > 0,
        c.effective_length() > 0,
        1 <= count <= c.row_count(),
    ensures
        join(c.rows().take(count as int), '\n').len() == address_digits(
            c.row_address(0),
            c.row_width,
            count,
        ) + count * (4 * c.row_width + 8) - 1,
    decreases count,
{
    let last = (count - 1) as nat;
    lemma_row_count(c);
    lemma_row_slots(c, last);
    lemma_line_len(
        c.row_address(last),
        c.codepage,
        c.row_bytes(last),
        c.row_left(last),
        c.row_right(last),
    );
    lemma_join_next(c.rows(), '\n', last as int);
    assert(count * (4 * c.row_width + 8) == last * (4 * c.row_width + 8) + 4 * c.row_width + 8)
        by (nonlinear_arith)
        requires
            last == count - 1,
    ;
    if count > 1 {
        lemma_rows_len(c, last);
    } else {
        assert(address_digits(c.row_address(0), c.row_width, 0) == 0);
    }
}

/// The length of a dump that shows anything: the digits of the row
/// addresses, four characters for each slot, and eight more for each row
/// but the last, which takes seven.
pub proof fn lemma_text_len(c: Configuration)
    requires
        c.row_width > 0,
        c.effective_length() > 0,
    ensures
        c.text().len() == address_digits(c.row_address(0), c.row_width, c.row_count())
            + c.row_count() * (4 * c.row_width + 8) - 1,
{
    lemma_row_count(c);
    lemma_rows_len(c, c.row_count());
    assert(c.rows().take(c.row_count() as int) =~= c.rows());
}

/// Addresses below sixteen to the eighth take eight digits each.
proof fn lemma_address_digits_short(first: nat, step: nat, count: nat)
    requires
        first + count * step <= 0x1_0000_0000,
        step > 0,
    ensures
        address_digits(first, step, count) == 8 * count,
    decreases count,
{
    if count > 0 {
        let fewer = (count - 1) as nat;
        assert(first + fewer * step + step == first + count * step) by (nonlinear_arith)
            requires
                fewer == count - 1,
        ;
        lemma_address_digits_short(first, step, fewer);
        assert(pow(16, 8) == 0x1_0000_0000) by {
            reveal_with_fuel(pow, 9);
        }
        lemma_hex_number_fits(first + fewer * step, 8);
    }
}

/// The length of a dump whose rows all end at or below sixteen to the
/// eighth: four characters for each slot, and sixteen more for each row but
/// the last, which takes fifteen.
pub proof fn lemma_text_len_short_addresses(c: Configuration)
    requires
        c.row_width > 0,
        c.effective_length() > 0,
        c.address_offset + c.data.len() + c.end_padding() <= 0x1_0000_0000,
    ensures
        c.text().len() == c.row_count() * (4 * c.row_width + 16) - 1,
{
    lemma_row_count(c);
    lemma_text_len(c);
    assert(0 * c.row_width == 0) by (nonlinear_arith);
    lemma_address_digits_short(c.row_address(0), c.row_width, c.row_count());
    assert(c.row_count() * (4 * c.row_width + 16) == 8 * c.row_count() + c.row_count() * (4
        * c.row_width + 8)) by (nonlinear_arith);
}

/// Narrower rows make a longer dump unless they save padding: of two
/// dumps of the same bytes at the same address, the one with the smaller
/// row width has more characters, where it starts with as much padding as
/// the other and ends with no less. This holds in particular where both
/// layouts are free of padding.
pub proof fn lemma_narrower_rows_longer_text(wide: Configuration, narrow: Configuration)
    requires
        narrow.address_offset == wide.address_offset,
        narrow.codepage == wide.codepage,
        narrow.data == wide.data,
        0 < narrow.row_width < wide.row_width,
        wide.effective_length() > 0,
        narrow.begin_padding() == wide.begin_padding(),
        narrow.end_padding() >= wide.end_padding(),
    ensures
        wide.text().len() < narrow.text().len(),
{
    let w: int = wide.row_width as int;
    let v: int = narrow.row_width as int;
    let m: int = wide.row_count() as int;
    let n: int = narrow.row_count() as int;
    let first: nat = wide.row_address(0);
    lemma_row_count(wide);
    lemma_row_count(narrow);
    lemma_text_len(wide);
    lemma_text_len(narrow);
    assert(m < n) by (nonlinear_arith)
        requires
            m * w <= n * v,
            0 < v < w,
            m >= 1,
            n >= 1,
    ;
    let extra: nat = (n - m) as nat;
    lemma_address_digits_split(first, narrow.row_width, extra, wide.row_count());
    assert(first + m * w <= first + extra * v + m * v) by (nonlinear_arith)
        requires
            m * w <= n * v,
            extra == n - m,
    ;
    lemma_address_digits_monotonic(
        first,
        wide.row_width,
        first + extra * narrow.row_width,
        narrow.row_width,
        wide.row_count(),
    );
    assert(m * (4 * w + 8) + 8 <= n * (4 * v + 8)) by (nonlinear_arith)
        requires
            m * w <= n * v,
            m + 1 <= n,
    ;
}

} // verus!
