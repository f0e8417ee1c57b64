//! Padding arithmetic: how many placeholder columns a row needs before its
//! first byte and after its last one.

use vstd::prelude::*;
use vstd::arithmetic::div_mod::{lemma_fundamental_div_mod, lemma_mod_multiples_basic};

verus! {

/// The placeholder columns of one row: `left` of them are drawn before the
/// row's bytes and `right` of them after. A value lives for one row only.
#[derive(Clone, Copy, Debug)]
pub struct Padding {
    pub left: usize,
    pub right: usize,
}

impl Padding {
    /// Padding on both sides.
    pub fn new(left_padding: usize, right_padding: usize) -> (padding: Padding)
        ensures
            padding.left == left_padding,
            padding.right == right_padding,
    {
        Padding { left: left_padding, right: right_padding }
    }

    /// Padding before the bytes only.
    pub fn from_left(left_padding: usize) -> (padding: Padding)
        ensures
            padding.left == left_padding,
            padding.right == 0,
    {
        Padding { left: left_padding, right: 0 }
    }

    /// Padding after the bytes only.
    pub fn from_right(right_padding: usize) -> (padding: Padding)
        ensures
            padding.left == 0,
            padding.right == right_padding,
    {
        Padding { left: 0, right: right_padding }
    }
}

impl Default for Padding {
    /// No padding on either side.
    fn default() -> (padding: Padding)
        ensures
            padding.left == 0,
            padding.right == 0,
    {
        Padding { left: 0, right: 0 }
    }
}

/// Placeholder columns in front of the first byte of a dump whose first byte
/// lives at `address_offset`: the distance to the row boundary below it.
pub open spec fn begin_padding(address_offset: nat, row_width: nat) -> nat
    recommends
        row_width > 0,
{
    address_offset % row_width
}

/// Placeholder columns behind the last byte of a dump that occupies
/// `effective_length` columns counted from a row boundary: what is missing
/// to the next boundary, and nothing when the dump ends on one.
pub open spec fn end_padding(effective_length: nat, row_width: nat) -> nat
    recommends
        row_width > 0,
{
    ((row_width - effective_length % row_width) % (row_width as int)) as nat
}

/// The begin padding is smaller than a row, vanishes for an aligned address,
/// and taking it off the address gives a multiple of the row width.
pub proof fn lemma_begin_padding(address_offset: nat, row_width: nat)
    requires
        row_width > 0,
    ensures
        begin_padding(address_offset, row_width) < row_width,
        begin_padding(address_offset, row_width) <= address_offset,
        address_offset % row_width == 0 ==> begin_padding(address_offset, row_width) == 0,
        (address_offset - begin_padding(address_offset, row_width)) % (row_width as int) == 0,
{
    let a: int = address_offset as int;
    let w: int = row_width as int;
    lemma_fundamental_div_mod(a, w);
    lemma_mod_multiples_basic(a / w, w);
    assert(a - a % w == w * (a / w));
    assert(w * (a / w) == (a / w) * w) by (nonlinear_arith);
    assert(a / w >= 0) by (nonlinear_arith)
        requires
            a >= 0,
            w > 0,
    ;
}

/// The end padding is smaller than a row, vanishes exactly when the length
/// is a multiple of the row width, and fills the length up to such a
/// multiple.
pub proof fn lemma_end_padding(effective_length: nat, row_width: nat)
    requires
        row_width > 0,
    ensures
        end_padding(effective_length, row_width) < row_width,
        end_padding(effective_length, row_width) == 0 <==> effective_length % row_width == 0,
        (effective_length + end_padding(effective_length, row_width)) % row_width == 0,
{
    let n: int = effective_length as int;
    let w: int = row_width as int;
    let r: int = n % w;
    lemma_fundamental_div_mod(n, w);
    if r == 0 {
        assert((w - r) % w == 0) by (nonlinear_arith)
            requires
                r == 0,
                w > 0,
        ;
    } else {
        assert((w - r) % w == w - r) by (nonlinear_arith)
            requires
                0 < r < w,
        ;
        lemma_mod_multiples_basic(n / w + 1, w);
        assert(n + (w - r) == (n / w + 1) * w) by (nonlinear_arith)
            requires
                n == w * (n / w) + r,
        ;
    }
}

/// Computes the begin padding for a dump that starts at `address_offset`.
pub fn calculate_begin_padding(address_offset: usize, row_width: usize) -> (padding: usize)
    requires
        row_width != 0,
    ensures
        padding == begin_padding(address_offset as nat, row_width as nat),
        padding < row_width,
        padding <= address_offset,
        address_offset % row_width == 0 ==> padding == 0,
        (address_offset - padding) % (row_width as int) == 0,
{
    proof {
        lemma_begin_padding(address_offset as nat, row_width as nat);
    }
    address_offset % row_width
}

/// Computes the end padding for a dump that occupies `data_size` columns
/// counted from a row boundary.
pub fn calculate_end_padding(data_size: usize, row_width: usize) -> (padding: usize)
    requires
        row_width != 0,
    ensures
        padding == end_padding(data_size as nat, row_width as nat),
        padding < row_width,
        padding == 0 <==> data_size % row_width == 0,
        (data_size + padding) % (row_width as int) == 0,
{
    proof {
        lemma_end_padding(data_size as nat, row_width as nat);
    }
    (row_width - data_size % row_width) % row_width
}

} // verus!
