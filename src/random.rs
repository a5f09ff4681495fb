use vstd::prelude::*;

verus! {

/// Relies on `quad_rand::gen_range::<u16>`: it scales a 32-bit draw from the global
/// generator into `low..high` in exact floating point and truncates, so for
/// `low < high` the result lies in `low..high`.
#[verifier::external_body]
fn gen_range_u16(low: u16, high: u16) -> (r: u16)
    ensures
        low < high ==> low <= r < high,
{
    quad_rand::gen_range(low, high)
}

/// A pseudo-random byte from the inclusive range `lo..=hi`.
pub fn draw_byte(lo: u8, hi: u8) -> (r: u8)
    requires
        lo <= hi,
    ensures
        lo <= r <= hi,
{
    let v = gen_range_u16(lo as u16, hi as u16 + 1);
    v as u8
}

} // verus!
