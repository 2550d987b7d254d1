//! Naming the virtual terminal that the broker takes.
use vstd::prelude::*;

use crate::bytes::{append_bytes, ascii, literal_bytes};

verus! {

/// The decimal digits of `n`, in ASCII, without leading zeros.
pub open spec fn decimal(n: nat) -> Seq<u8>
    decreases n,
{
    if n < 10 {
        seq![(48 + n) as u8]
    } else {
        decimal(n / 10).push((48 + n % 10) as u8)
    }
}

/// Path, relative to `/dev`, of the tty with 0-based index `index`.
pub open spec fn tty_path(index: u32) -> Seq<u8> {
    ascii("ttyv"@) + decimal(index as nat)
}

/// Appends the decimal digits of `n` to `v`.
fn push_decimal(v: &mut Vec<u8>, n: u32)
    ensures
        final(v)@ == old(v)@ + decimal(n as nat),
    decreases n,
{
    if n >= 10 {
        push_decimal(v, n / 10);
    }
    v.push((48 + n % 10) as u8);
    assert(final(v)@ =~= old(v)@ + decimal(n as nat));
}

/// The path, relative to `/dev`, of the tty with index `index`: `ttyv` and
/// the index in decimal.
pub fn tty_name(index: u32) -> (r: Vec<u8>)
    ensures
        r@ == tty_path(index),
{
    proof {
        reveal_strlit("ttyv");
    }
    let mut r: Vec<u8> = Vec::new();
    append_bytes(&mut r, literal_bytes("ttyv"));
    push_decimal(&mut r, index);
    r
}

/// The index of the tty of the VT with 1-based number `vt_num`, as the
/// kernel's free-VT query reports it; `None` for a number below 1.
pub fn tty_of_vt(vt_num: i32) -> (r: Option<u32>)
    ensures
        vt_num >= 1 ==> r == Some((vt_num - 1) as u32),
        vt_num < 1 ==> r is None,
{
    if vt_num >= 1 {
        Some((vt_num - 1) as u32)
    } else {
        None
    }
}

} // verus!
