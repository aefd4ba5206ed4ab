use vstd::prelude::*;

verus! {

/// Turns a uniform draw into a random byte. The draw is a fraction of the
/// unit interval in 32-bit fixed point (`fraction / 2^32`); the byte is that
/// fraction of 255, rounded down, so it lies in `0..=254`.
pub fn random(fraction: u32) -> (r: u8)
    ensures
        r == (fraction as int * 255) / 0x1_0000_0000,
        r <= 254,
{
    let scaled: u64 = fraction as u64 * 255;
    assert(scaled / 0x1_0000_0000 <= 254) by (nonlinear_arith)
        requires
            scaled == fraction as int * 255,
            fraction < 0x1_0000_0000,
    ;
    (scaled / 0x1_0000_0000) as u8
}

} // verus!
