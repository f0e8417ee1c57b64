//! The layout of a dump: how a buffer that starts at an arbitrary address
//! is cut into rows that are aligned in address space.
//!
//! Seen from the row boundary at or below the first byte, the dump occupies
//! a run of cells: the begin padding, the bytes, the end padding. Row
//! number `r` shows the cells from `r * row_width` up to, and without,
//! `(r + 1) * row_width`.

use vstd::prelude::*;
use vstd::arithmetic::div_mod::{
    lemma_fundamental_div_mod,
    lemma_fundamental_div_mod_converse,
    lemma_mod_multiples_basic,
    lemma_mod_multiples_vanish,
};
use crate::line::line;
use crate::padding::{begin_padding, end_padding, lemma_begin_padding, lemma_end_padding};
use crate::text::join;

verus! {

/// What a view renders, as mathematical values.
pub struct Configuration {
    /// The address of the first byte.
    pub address_offset: nat,
    /// The table of display characters.
    pub codepage: Seq<char>,
    /// The bytes to show.
    pub data: Seq<u8>,
    /// The number of columns in a row.
    pub row_width: nat,
}

impl Configuration {
    /// The placeholder columns before the first byte.
    pub open spec fn begin_padding(self) -> nat {
        begin_padding(self.address_offset, self.row_width)
    }

    /// The cells from the row boundary below the first byte to the last
    /// byte.
    pub open spec fn effective_length(self) -> nat {
        self.begin_padding() + self.data.len()
    }

    /// The placeholder columns after the last byte.
    pub open spec fn end_padding(self) -> nat {
        end_padding(self.effective_length(), self.row_width)
    }

    /// The number of rows: as many as it takes to hold the effective
    /// length, and one row where there is nothing to hold.
    pub open spec fn row_count(self) -> nat {
        if self.effective_length() == 0 {
            1
        } else {
            ((self.effective_length() + self.row_width - 1) / (self.row_width as int)) as nat
        }
    }

    /// The address that row number `row` is labelled with.
    pub open spec fn row_address(self, row: nat) -> nat {
        (self.address_offset - self.begin_padding() + row * self.row_width) as nat
    }

    /// The placeholder columns before the bytes of row number `row`.
    pub open spec fn row_left(self, row: nat) -> nat {
        if row == 0 {
            self.begin_padding()
        } else {
            0
        }
    }

    /// The placeholder columns after the bytes of row number `row`.
    pub open spec fn row_right(self, row: nat) -> nat {
        if row + 1 == self.row_count() {
            self.end_padding()
        } else {
            0
        }
    }

    /// The index in the data of the first byte of row number `row`.
    pub open spec fn row_start(self, row: nat) -> nat {
        if row == 0 {
            0
        } else {
            (row * self.row_width - self.begin_padding()) as nat
        }
    }

    /// The index in the data behind the last byte of row number `row`.
    pub open spec fn row_end(self, row: nat) -> nat {
        if (row + 1) * self.row_width - self.begin_padding() < self.data.len() {
            ((row + 1) * self.row_width - self.begin_padding()) as nat
        } else {
            self.data.len()
        }
    }

    /// The bytes of row number `row`.
    pub open spec fn row_bytes(self, row: nat) -> Seq<u8> {
        self.data.subrange(self.row_start(row) as int, self.row_end(row) as int)
    }

    /// The text of row number `row`.
    pub open spec fn row(self, row: nat) -> Seq<char> {
        line(
            self.row_address(row),
            self.codepage,
            self.row_bytes(row),
            self.row_left(row),
            self.row_right(row),
        )
    }

    /// The text of all rows, first row first.
    pub open spec fn rows(self) -> Seq<Seq<char>> {
        Seq::new(self.row_count(), |row: int| self.row(row as nat))
    }

    /// The whole dump: the rows with a line feed between each two and none
    /// at the end.
    pub open spec fn text(self) -> Seq<char> {
        join(self.rows(), '\n')
    }
}

/// The cells of whole rows: a row more adds one row width.
proof fn lemma_whole_rows(rows: int, width: int)
    by (nonlinear_arith)
    requires
        rows >= 0,
        width > 0,
    ensures
        rows * width >= 0,
        (rows + 1) * width == rows * width + width,
        rows >= 1 ==> rows * width >= width,
{
}

/// Rows and their cells are ordered alike.
proof fn lemma_rows_ordered(fewer: int, more: int, width: int)
    by (nonlinear_arith)
    requires
        width > 0,
    ensures
        fewer <= more <==> fewer * width <= more * width,
        fewer < more <==> fewer * width < more * width,
{
}

/// The rows hold the effective length and the end padding exactly, and the
/// last row holds at least one cell of the effective length: the number of
/// rows is the effective length divided by the row width and rounded up,
/// and one for a dump of nothing.
pub proof fn lemma_row_count(c: Configuration)
    requires
        c.row_width > 0,
    ensures
        c.rows().len() == c.row_count() >= 1,
        c.begin_padding() < c.row_width,
        c.begin_padding() <= c.address_offset,
        c.end_padding() < c.row_width,
        c.effective_length() == 0 ==> c.row_count() == 1 && c.end_padding() == 0,
        c.effective_length() > 0 ==> c.effective_length() + c.end_padding() == c.row_count()
            * c.row_width,
        c.effective_length() > 0 ==> (c.row_count() - 1) * c.row_width < c.effective_length()
            <= c.row_count() * c.row_width,
{
    lemma_begin_padding(c.address_offset, c.row_width);
    lemma_end_padding(c.effective_length(), c.row_width);
    let w: int = c.row_width as int;
    let e: int = c.effective_length() as int;
    if e > 0 {
        let q: int = e / w;
        let r: int = e % w;
        lemma_fundamental_div_mod(e, w);
        assert(q * w == w * q) by (nonlinear_arith);
        assert(q >= 0) by (nonlinear_arith)
            requires
                e == w * q + r,
                r < w,
                e > 0,
                w > 0,
        ;
        lemma_whole_rows(q, w);
        if r == 0 {
            lemma_fundamental_div_mod_converse(e + w - 1, w, q, w - 1);
            assert(c.row_count() == q);
            lemma_rows_ordered(q - 1, q, w);
        } else {
            lemma_fundamental_div_mod_converse(e + w - 1, w, q + 1, r - 1);
            assert(c.row_count() == q + 1);
            assert(c.end_padding() == w - r) by {
                lemma_fundamental_div_mod_converse(w - r, w, 0, w - r);
            }
        }
    } else {
        lemma_fundamental_div_mod_converse(0, w, 0, 0);
    }
}

/// A dump whose effective length fits into one row width has a single row,
/// which shows all bytes between both paddings.
pub proof fn lemma_single_row(c: Configuration)
    requires
        c.row_width > 0,
        c.effective_length() <= c.row_width,
    ensures
        c.row_count() == 1,
        c.row_left(0) == c.begin_padding(),
        c.row_right(0) == c.end_padding(),
        c.row_start(0) == 0,
        c.row_end(0) == c.data.len(),
        c.row_address(0) == c.address_offset - c.begin_padding(),
{
    lemma_row_count(c);
    lemma_whole_rows(0, c.row_width as int);
    if c.effective_length() > 0 {
        lemma_rows_ordered(c.row_count() - 1, 1, c.row_width as int);
    }
}

/// A row whose cells all lie within the effective length is no last row
/// with end padding: it shows bytes up to its last cell.
pub proof fn lemma_full_row(c: Configuration, row: nat)
    requires
        c.row_width > 0,
        (row + 1) * c.row_width <= c.effective_length(),
    ensures
        row < c.row_count(),
        c.row_right(row) == 0,
        c.row_end(row) == (row + 1) * c.row_width - c.begin_padding(),
        c.row_start(row) + c.row_width == c.row_end(row) + c.row_left(row),
        c.row_address(row) == c.address_offset - c.begin_padding() + row * c.row_width,
{
    lemma_row_count(c);
    lemma_whole_rows(row as int, c.row_width as int);
    lemma_rows_ordered(row as int + 1, c.row_count() as int, c.row_width as int);
}

/// Where `row` rows are full and the next one is not, the dump ends there
/// if the effective length is a multiple of the row width, and has one row
/// more if it is not: the last row, which shows the bytes that are left.
pub proof fn lemma_last_row(c: Configuration, row: nat)
    requires
        c.row_width > 0,
        c.effective_length() > 0,
        row * c.row_width <= c.effective_length() < (row + 1) * c.row_width,
    ensures
        c.end_padding() == 0 ==> c.row_count() == row,
        c.end_padding() != 0 ==> {
            &&& c.row_count() == row + 1
            &&& row * c.row_width < c.effective_length()
            &&& c.row_right(row) == c.end_padding()
            &&& c.row_end(row) == c.data.len()
            &&& c.row_address(row) == c.address_offset - c.begin_padding() + row * c.row_width
        },
{
    lemma_row_count(c);
    lemma_end_padding(c.effective_length(), c.row_width);
    let w: int = c.row_width as int;
    let n: int = c.row_count() as int;
    let r: int = row as int;
    lemma_whole_rows(r, w);
    lemma_rows_ordered(n - 1, r + 1, w);
    lemma_rows_ordered(r, n, w);
    lemma_rows_ordered(n, r + 1, w);
    if c.effective_length() == r * w {
        lemma_mod_multiples_basic(r, w);
    }
}

/// Every row of a dump that shows anything has exactly as many slots as
/// the row is wide: its bytes and the placeholders on both sides. So all
/// rows of a dump are aligned. (A dump of no bytes at an aligned address is
/// one row without slots.)
pub proof fn lemma_row_slots(c: Configuration, row: nat)
    requires
        c.row_width > 0,
        c.effective_length() > 0,
        row < c.row_count(),
    ensures
        c.row_start(row) <= c.row_end(row) <= c.data.len(),
        c.row_bytes(row).len() == c.row_end(row) - c.row_start(row),
        c.row_left(row) + c.row_bytes(row).len() + c.row_right(row) == c.row_width,
{
    lemma_row_count(c);
    let w: int = c.row_width as int;
    let n: int = c.row_count() as int;
    let r: int = row as int;
    lemma_whole_rows(r, w);
    if (row + 1) * c.row_width <= c.effective_length() {
        lemma_full_row(c, row);
    } else {
        lemma_rows_ordered(r, n - 1, w);
        lemma_last_row(c, row);
    }
}

/// The rows show every byte once and in its place: the first row starts
/// with the first byte, each row goes on where the one before it ended, and
/// the last row ends with the last byte. Every row is labelled with a
/// multiple of the row width, and a byte stands as many slots behind the
/// label as its address lies above it.
pub proof fn lemma_rows_tile_data(c: Configuration, row: nat)
    requires
        c.row_width > 0,
        row < c.row_count(),
    ensures
        c.row_start(0) == 0,
        row + 1 < c.row_count() ==> c.row_end(row) == c.row_start(row + 1),
        row + 1 == c.row_count() ==> c.row_end(row) == c.data.len(),
        c.row_address(row) % c.row_width == 0,
        c.row_address(row) + c.row_left(row) == c.address_offset + c.row_start(row),
{
    lemma_row_count(c);
    lemma_begin_padding(c.address_offset, c.row_width);
    let w: int = c.row_width as int;
    let n: int = c.row_count() as int;
    let r: int = row as int;
    let base: int = c.address_offset - c.begin_padding();
    lemma_whole_rows(r, w);
    assert(c.row_address(row) % c.row_width == 0) by {
        lemma_mod_multiples_vanish(r, base, w);
        assert(base + r * w == w * r + base) by (nonlinear_arith);
    }
    if r + 1 < n {
        lemma_rows_ordered(r + 1, n - 1, w);
        lemma_full_row(c, row);
    }
}

} // verus!
