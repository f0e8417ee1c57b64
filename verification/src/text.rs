//! Joining pieces of text with a separator, and the primitive that grows a
//! string.

use vstd::prelude::*;

verus! {

/// Appends one character to a string. `String::push` puts `ch` behind the
/// characters that the string holds and changes none of them.
pub assume_specification[ String::push ](text: &mut String, ch: char)
    ensures
        final(text)@ == old(text)@.push(ch),
;

/// The pieces in their order, with one `separator` between each two
/// neighbours and none at either end.
pub open spec fn join(parts: Seq<Seq<char>>, separator: char) -> Seq<char>
    decreases parts.len(),
{
    if parts.len() == 0 {
        Seq::empty()
    } else if parts.len() == 1 {
        parts[0]
    } else {
        join(parts.drop_last(), separator).push(separator) + parts.last()
    }
}

/// Joining one piece more appends a separator and the piece, or the piece
/// alone where it is the first.
pub proof fn lemma_join_next(parts: Seq<Seq<char>>, separator: char, count: int)
    requires
        0 <= count < parts.len(),
    ensures
        join(parts.take(count + 1), separator) == if count == 0 {
            parts[0]
        } else {
            join(parts.take(count), separator).push(separator) + parts[count]
        },
{
    assert(parts.take(count + 1).drop_last() =~= parts.take(count));
}

/// The length of joined text whose pieces all have the length `piece`.
pub proof fn lemma_join_len(parts: Seq<Seq<char>>, separator: char, piece: nat)
    requires
        forall|i: int| 0 <= i < parts.len() ==> (#[trigger] parts[i]).len() == piece,
    ensures
        join(parts, separator).len() == if parts.len() == 0 {
            0
        } else {
            parts.len() * piece + parts.len() - 1
        },
    decreases parts.len(),
{
    if parts.len() > 1 {
        lemma_join_len(parts.drop_last(), separator, piece);
        assert(parts.len() * piece == (parts.len() - 1) * piece + piece) by (nonlinear_arith);
    }
}

/// Appends `separator` to `text` where `wanted` says so.
pub fn push_separator(text: &mut String, separator: char, wanted: bool)
    ensures
        final(text)@ == if wanted {
            old(text)@.push(separator)
        } else {
            old(text)@
        },
{
    if wanted {
        text.push(separator);
    }
}

} // verus!
