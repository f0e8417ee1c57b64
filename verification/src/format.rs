//! The view of a buffer, its builder, and the rendering of the dump.

use vstd::prelude::*;
use vstd::arithmetic::div_mod::{lemma_fundamental_div_mod, lemma_fundamental_div_mod_converse};
use crate::byte_mapping::CODEPAGE_0850;
use crate::layout::{lemma_full_row, lemma_last_row, lemma_single_row, Configuration};
use crate::line::fmt_line;
use crate::padding::{calculate_begin_padding, calculate_end_padding, Padding};
use crate::text::{join, lemma_join_next, push_separator};

verus! {

/// The number of columns in a row where none is chosen.
pub const DEFAULT_ROW_WIDTH: usize = 16;

/// Why a view cannot be rendered.
#[derive(Clone, Copy, Debug, PartialEq, Eq, Structural)]
pub enum FormatError {
    /// The row width is zero: no row can hold a byte.
    InvalidRowWidth,
}

/// How to show a buffer: the bytes, the address of the first one, the width
/// of a row and the table of display characters.
pub struct HexView<'a> {
    address_offset: usize,
    codepage: &'a [char],
    data: &'a [u8],
    row_width: usize,
}

impl<'a> View for HexView<'a> {
    type V = Configuration;

    closed spec fn view(&self) -> Configuration {
        Configuration {
            address_offset: self.address_offset as nat,
            codepage: self.codepage@,
            data: self.data@,
            row_width: self.row_width as nat,
        }
    }
}

/// The remainder of `begin_padding + data_len` by `row_width`, computed
/// without forming the sum.
fn effective_remainder(begin_padding: usize, data_len: usize, row_width: usize) -> (remainder:
    usize)
    requires
        begin_padding < row_width,
    ensures
        remainder == (begin_padding + data_len) % (row_width as int),
        remainder < row_width,
{
    let rest: usize = data_len % row_width;
    proof {
        let w: int = row_width as int;
        let q: int = data_len as int / w;
        lemma_fundamental_div_mod(data_len as int, w);
        if begin_padding >= row_width - rest {
            assert(begin_padding + data_len == (q + 1) * w + (begin_padding + rest - w))
                by (nonlinear_arith)
                requires
                    data_len == w * q + rest,
            ;
            lemma_fundamental_div_mod_converse(
                begin_padding + data_len,
                w,
                q + 1,
                begin_padding + rest - w,
            );
        } else {
            lemma_fundamental_div_mod_converse(
                begin_padding + data_len,
                w,
                q,
                begin_padding + rest,
            );
        }
    }
    if begin_padding >= row_width - rest {
        begin_padding - (row_width - rest)
    } else {
        begin_padding + rest
    }
}

impl<'a> HexView<'a> {
    /// A view of `data` at address zero, in rows of sixteen columns, with
    /// the built-in code page.
    pub fn new(data: &'a [u8]) -> (view: HexView<'a>)
        ensures
            view@ == (Configuration {
                address_offset: 0,
                codepage: CODEPAGE_0850@,
                data: data@,
                row_width: DEFAULT_ROW_WIDTH as nat,
            }),
    {
        HexView {
            address_offset: 0,
            codepage: &CODEPAGE_0850,
            data: data,
            row_width: DEFAULT_ROW_WIDTH,
        }
    }

    /// The address of the first byte.
    pub fn address_offset(&self) -> (offset: usize)
        ensures
            offset == self@.address_offset,
    {
        self.address_offset
    }

    /// The table of display characters.
    pub fn codepage(&self) -> (codepage: &'a [char])
        ensures
            codepage@ == self@.codepage,
    {
        self.codepage
    }

    /// The bytes that the view shows.
    pub fn data(&self) -> (data: &'a [u8])
        ensures
            data@ == self@.data,
    {
        self.data
    }

    /// The number of columns in a row.
    pub fn row_width(&self) -> (width: usize)
        ensures
            width == self@.row_width,
    {
        self.row_width
    }

    /// Appends the dump to `out`. A view whose row width is zero has no
    /// dump: it is refused, and `out` stays as it is.
    pub fn fmt(&self, out: &mut String) -> (result: Result<(), FormatError>)
        ensures
            self@.row_width == 0 ==> result == Err::<(), FormatError>(FormatError::InvalidRowWidth)
                && final(out)@ == old(out)@,
            self@.row_width > 0 ==> result == Ok::<(), FormatError>(()) && final(out)@ == old(out)@
                + self@.text(),
    {
        if self.row_width == 0 {
            return Err(FormatError::InvalidRowWidth);
        }
        let ghost c = self@;
        let ghost start = out@;
        let ghost rows = c.rows();

        let data_len: usize = self.data.len();
        let begin_padding: usize = calculate_begin_padding(self.address_offset, self.row_width);
        let remainder: usize = effective_remainder(begin_padding, data_len, self.row_width);
        let end_padding: usize = calculate_end_padding(remainder, self.row_width);
        assert(end_padding == c.end_padding()) by {
            lemma_fundamental_div_mod_converse(
                remainder as int,
                self.row_width as int,
                0,
                remainder as int,
            );
        }
        let mut address: u128 = (self.address_offset - begin_padding) as u128;

        if data_len <= self.row_width - begin_padding {
            proof {
                lemma_single_row(c);
                assert(self.data@ =~= c.row_bytes(0));
            }
            let padding = Padding::new(begin_padding, end_padding);
            fmt_line(out, address, self.codepage, self.data, &padding);
            return Ok(());
        }
        let mut offset: usize = 0;
        let mut separated: bool = false;
        let ghost mut done: nat = 0;

        if begin_padding != 0 {
            proof {
                lemma_full_row(c, 0);
            }
            let slice = &self.data[0..self.row_width - begin_padding];
            fmt_line(out, address, self.codepage, slice, &Padding::from_left(begin_padding));
            offset = self.row_width - begin_padding;
            address += self.row_width as u128;
            separated = true;
            proof {
                done = 1;
                assert(1 * c.row_width == c.row_width) by (nonlinear_arith);
            }
        }
        while data_len - offset >= self.row_width
            invariant
                c == self@,
                rows == c.rows(),
                c.row_width > 0,
                data_len == self.data@.len(),
                begin_padding == c.begin_padding(),
                begin_padding < c.row_width,
                begin_padding <= self.address_offset,
                offset <= data_len,
                done <= c.row_count(),
                done == 0 ==> begin_padding == 0,
                offset == done * c.row_width - begin_padding,
                address == self.address_offset - begin_padding + done * c.row_width,
                separated == (done > 0),
                out@ == start + join(rows.take(done as int), '\n'),
            decreases data_len - offset,
        {
            proof {
                assert((done + 1) * c.row_width == done * c.row_width + c.row_width)
                    by (nonlinear_arith);
                lemma_full_row(c, done);
                lemma_join_next(rows, '\n', done as int);
            }
            let slice = &self.data[offset..offset + self.row_width];
            push_separator(out, '\n', separated);
            fmt_line(out, address, self.codepage, slice, &Padding::default());
            offset += self.row_width;
            address += self.row_width as u128;
            separated = true;
            proof {
                done = done + 1;
            }
        }
        proof {
            assert((done + 1) * c.row_width == done * c.row_width + c.row_width)
                by (nonlinear_arith);
            lemma_last_row(c, done);
        }

        if end_padding != 0 {
            proof {
                lemma_join_next(rows, '\n', done as int);
            }
            let slice = &self.data[offset..data_len];
            push_separator(out, '\n', separated);
            fmt_line(out, address, self.codepage, slice, &Padding::from_right(end_padding));
            proof {
                done = done + 1;
            }
        }
        assert(rows.take(done as int) =~= rows);
        Ok(())
    }

    /// The dump as a string of its own, or the reason why there is none.
    pub fn render(&self) -> (result: Result<String, FormatError>)
        ensures
            self@.row_width == 0 ==> result == Err::<String, FormatError>(
                FormatError::InvalidRowWidth,
            ),
            self@.row_width > 0 ==> result is Ok && result->Ok_0@ == self@.text(),
    {
        let mut out = String::new();
        match self.fmt(&mut out) {
            Ok(()) => Ok(out),
            Err(error) => Err(error),
        }
    }
}

/// Rendering depends on the configuration alone: views that show the same
/// bytes at the same address, in rows of the same width and with the same
/// table, are refused alike or have the same dump. So has one view that is
/// rendered twice.
pub proof fn lemma_same_configuration_same_dump(first: HexView, second: HexView)
    requires
        first@ == second@,
    ensures
        first@.row_width == 0 <==> second@.row_width == 0,
        first@.text() == second@.text(),
{
}

/// Collects the settings of a [`HexView`] step by step. Building never
/// fails: a row width of zero is accepted here and refused when the view is
/// rendered.
pub struct HexViewBuilder<'a> {
    hex_view: HexView<'a>,
}

impl<'a> View for HexViewBuilder<'a> {
    type V = Configuration;

    closed spec fn view(&self) -> Configuration {
        self.hex_view@
    }
}

impl<'a> HexViewBuilder<'a> {
    /// Starts with the settings of [`HexView::new`].
    pub fn new(data: &'a [u8]) -> (builder: HexViewBuilder<'a>)
        ensures
            builder@ == (Configuration {
                address_offset: 0,
                codepage: CODEPAGE_0850@,
                data: data@,
                row_width: DEFAULT_ROW_WIDTH as nat,
            }),
    {
        HexViewBuilder { hex_view: HexView::new(data) }
    }

    /// Sets the address of the first byte.
    pub fn address_offset(self, offset: usize) -> (builder: HexViewBuilder<'a>)
        ensures
            builder@ == (Configuration { address_offset: offset as nat, ..self@ }),
    {
        let mut builder = self;
        builder.hex_view.address_offset = offset;
        builder
    }

    /// Sets the table of display characters.
    pub fn codepage<'b: 'a>(self, codepage: &'b [char]) -> (builder: HexViewBuilder<'a>)
        ensures
            builder@ == (Configuration { codepage: codepage@, ..self@ }),
    {
        let mut builder = self;
        builder.hex_view.codepage = codepage;
        builder
    }

    /// Sets the number of columns in a row.
    pub fn row_width(self, width: usize) -> (builder: HexViewBuilder<'a>)
        ensures
            builder@ == (Configuration { row_width: width as nat, ..self@ }),
    {
        let mut builder = self;
        builder.hex_view.row_width = width;
        builder
    }

    /// The view with the settings collected so far.
    pub fn finish(self) -> (view: HexView<'a>)
        ensures
            view@ == self@,
    {
        self.hex_view
    }
}

} // verus!
