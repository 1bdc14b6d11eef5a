use vstd::prelude::*;

use crate::palette::reset_escape;
use crate::text::{hex_address, push_hex_address};

verus! {

/// The number of chunk glyphs in one row of the color map.
pub const ROW_LENGTH: u64 = 80;

/// A byte address as shown at the end of a row of the color map: a space, then
/// the address in hex in orange.
pub open spec fn address_label(addr: nat) -> Seq<char> {
    seq![' ', '\x1b', '[', '3', '8', ';', '5', ';', '2', '0', '8', 'm'] + hex_address(addr)
        + reset_escape()
}

/// What goes before the glyph of chunk `index`, which starts at byte `start`:
/// a new row begins every `ROW_LENGTH` chunks, and each row but the first is
/// preceded by a label with its start address, which ends the row before.
pub open spec fn row_prefix_text(index: nat, start: nat) -> Seq<char> {
    if index % (ROW_LENGTH as nat) != 0 {
        Seq::empty()
    } else if index == 0 {
        seq!['\n']
    } else {
        address_label(start) + seq!['\n']
    }
}

/// The address that labels the last row after `chunks` chunks of
/// `chunk_size` bytes: the start of that row, plus the bytes of the chunks
/// beyond a multiple of `ROW_LENGTH`.
pub open spec fn closing_address(chunks: nat, chunk_size: nat) -> nat {
    ((chunks - 1) as nat / (ROW_LENGTH as nat)) * (ROW_LENGTH as nat) * chunk_size + (chunks % (
    ROW_LENGTH as nat)) * chunk_size
}

fn push_address_label(out: &mut String, addr: u64)
    ensures
        final(out)@ == old(out)@ + address_label(addr as nat),
{
    proof {
        reveal_strlit(" \x1b[38;5;208m");
        reveal_strlit("\x1b[0m");
    }
    out.append(" \x1b[38;5;208m");
    push_hex_address(out, addr);
    out.append("\x1b[0m");
    assert(final(out)@ =~= old(out)@ + address_label(addr as nat));
}

/// The text before the glyph of chunk `index`, which starts at byte `start`.
pub fn row_prefix(index: u64, start: u64) -> (out: String)
    ensures
        out@ == row_prefix_text(index as nat, start as nat),
{
    let mut out = String::new();
    if index % ROW_LENGTH == 0 {
        if index != 0 {
            push_address_label(&mut out, start);
        }
        proof { reveal_strlit("\n"); }
        out.append("\n");
    }
    assert(out@ =~= row_prefix_text(index as nat, start as nat));
    out
}

/// The label that closes the color map after `chunks` chunks of `chunk_size`
/// bytes; nothing where no chunk was scored.
pub fn closing_label(chunks: u64, chunk_size: u64) -> (out: String)
    requires
        chunks * chunk_size <= u64::MAX,
    ensures
        chunks == 0 ==> out@ == Seq::<char>::empty(),
        chunks > 0 ==> out@ == address_label(closing_address(chunks as nat, chunk_size as nat)),
{
    let mut out = String::new();
    if chunks > 0 {
        let rows = (chunks - 1) / ROW_LENGTH;
        let rest = chunks % ROW_LENGTH;
        assert(rows * ROW_LENGTH + rest <= chunks);
        assert((rows * ROW_LENGTH + rest) * chunk_size <= chunks * chunk_size) by (nonlinear_arith)
            requires
                rows * ROW_LENGTH + rest <= chunks,
        ;
        assert((rows * ROW_LENGTH + rest) * chunk_size == rows * ROW_LENGTH * chunk_size + rest
            * chunk_size) by (nonlinear_arith);
        let addr = rows * ROW_LENGTH * chunk_size + rest * chunk_size;
        push_address_label(&mut out, addr);
    }
    assert(chunks == 0 ==> out@ =~= Seq::<char>::empty());
    out
}

} // verus!
