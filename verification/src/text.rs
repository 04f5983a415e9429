//! The diagnostic text of a graph: one line for each existing vertex.
//!
//! A line reads `4 -> [(0, 500), (1, -7)]`: the vertex's id, an arrow, and
//! the adjacency list with each entry as `(neighbour, weight)`.

use crate::adjacency::Edge;
use vstd::prelude::*;

verus! {

/// The decimal digit `d`, for `d` below ten.
pub open spec fn digit_text(d: nat) -> Seq<char> {
    if d == 0 {
        "0"@
    } else if d == 1 {
        "1"@
    } else if d == 2 {
        "2"@
    } else if d == 3 {
        "3"@
    } else if d == 4 {
        "4"@
    } else if d == 5 {
        "5"@
    } else if d == 6 {
        "6"@
    } else if d == 7 {
        "7"@
    } else if d == 8 {
        "8"@
    } else {
        "9"@
    }
}

/// `n` in decimal, without leading zeros.
pub open spec fn decimal_text(n: nat) -> Seq<char>
    decreases n,
{
    if n < 10 {
        digit_text(n)
    } else {
        decimal_text(n / 10) + digit_text(n % 10)
    }
}

/// `w` in decimal, with a minus sign where it is negative.
pub open spec fn signed_text(w: int) -> Seq<char> {
    if w < 0 {
        "-"@ + decimal_text((-w) as nat)
    } else {
        decimal_text(w as nat)
    }
}

/// An entry: `(neighbour, weight)`.
pub open spec fn entry_text(e: Edge) -> Seq<char> {
    "("@ + decimal_text(e.0 as nat) + ", "@ + signed_text(e.1 as int) + ")"@
}

/// The entries of `list` in their order, separated by a comma and a space.
pub open spec fn entries_text(list: Seq<Edge>) -> Seq<char>
    decreases list.len(),
{
    if list.len() == 0 {
        Seq::empty()
    } else if list.len() == 1 {
        entry_text(list[0])
    } else {
        entries_text(list.drop_last()) + ", "@ + entry_text(list.last())
    }
}

/// An adjacency list: its entries in square brackets.
pub open spec fn list_text(list: Seq<Edge>) -> Seq<char> {
    "["@ + entries_text(list) + "]"@
}

/// The line of the vertex `id` with the adjacency list `list`.
pub open spec fn line_text(id: nat, list: Seq<Edge>) -> Seq<char> {
    decimal_text(id) + " -> "@ + list_text(list) + "\n"@
}

/// The lines of the existing vertices among `slots`, by ascending id.
pub open spec fn lines_text(slots: Seq<Option<Seq<Edge>>>) -> Seq<char>
    decreases slots.len(),
{
    if slots.len() == 0 {
        Seq::empty()
    } else {
        lines_text(slots.drop_last()) + match slots.last() {
            Some(list) => line_text((slots.len() - 1) as nat, list),
            None => Seq::empty(),
        }
    }
}

/// The digit `d` as text.
fn digit_str(d: u64) -> (s: &'static str)
    requires
        d < 10,
    ensures
        s@ == digit_text(d as nat),
{
    match d {
        0 => "0",
        1 => "1",
        2 => "2",
        3 => "3",
        4 => "4",
        5 => "5",
        6 => "6",
        7 => "7",
        8 => "8",
        _ => "9",
    }
}

/// Appends `n` in decimal to `out`.
pub(crate) fn push_decimal(out: &mut String, n: u64)
    ensures
        final(out)@ == old(out)@ + decimal_text(n as nat),
    decreases n,
{
    if n >= 10 {
        push_decimal(out, n / 10);
    }
    out.append(digit_str(n % 10));
    assert(out@ =~= old(out)@ + decimal_text(n as nat));
}

/// Appends `w` in decimal to `out`, with its sign where it is negative.
pub(crate) fn push_signed(out: &mut String, w: i32)
    ensures
        final(out)@ == old(out)@ + signed_text(w as int),
{
    if w < 0 {
        out.append("-");
        let magnitude: u64 = (-(w as i64)) as u64;
        push_decimal(out, magnitude);
    } else {
        push_decimal(out, w as u64);
    }
    assert(out@ =~= old(out)@ + signed_text(w as int));
}

/// Appends the entry `e` to `out`.
pub(crate) fn push_entry(out: &mut String, e: Edge)
    ensures
        final(out)@ == old(out)@ + entry_text(e),
{
    out.append("(");
    push_decimal(out, e.0 as u64);
    out.append(", ");
    push_signed(out, e.1);
    out.append(")");
    assert(out@ =~= old(out)@ + entry_text(e));
}

/// Appends the adjacency list `list` to `out`.
pub(crate) fn push_list(out: &mut String, list: &Vec<Edge>)
    ensures
        final(out)@ == old(out)@ + list_text(list@),
{
    out.append("[");
    let mut i: usize = 0;
    assert(list@.take(0) =~= Seq::<Edge>::empty());
    while i < list.len()
        invariant
            i <= list@.len(),
            out@ == old(out)@ + "["@ + entries_text(list@.take(i as int)),
        decreases list@.len() - i,
    {
        if i > 0 {
            out.append(", ");
        }
        push_entry(out, list[i]);
        proof {
            let before = list@.take(i as int);
            let after = list@.take(i + 1);
            assert(after.drop_last() =~= before);
            assert(after.last() == list@[i as int]);
            assert(after[0] == list@[0]);
            assert(out@ =~= old(out)@ + "["@ + entries_text(after));
        }
        i += 1;
    }
    assert(list@.take(i as int) =~= list@);
    out.append("]");
    assert(out@ =~= old(out)@ + list_text(list@));
}

/// Appends the line of the vertex `id` to `out`.
pub(crate) fn push_line(out: &mut String, id: usize, list: &Vec<Edge>)
    ensures
        final(out)@ == old(out)@ + line_text(id as nat, list@),
{
    push_decimal(out, id as u64);
    out.append(" -> ");
    push_list(out, list);
    out.append("\n");
    assert(out@ =~= old(out)@ + line_text(id as nat, list@));
}

} // verus!
