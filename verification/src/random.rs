//! The sequencer's source of chance.

use vstd::prelude::*;

verus! {

/// Draws a whole number from `low..=high` with `rand`'s `Rng::gen_range` on
/// the thread-local generator. Believed of it: the number drawn lies in the
/// range. `gen_range` panics on an empty range, which `low <= high` rules
/// out. The generator itself panics if the operating system gives it no
/// seed; no argument can rule that out.
#[verifier::external_body]
pub(crate) fn random_in_range(low: i32, high: i32) -> (drawn: i32)
    requires
        low <= high,
    ensures
        low <= drawn <= high,
{
    rand::Rng::gen_range(&mut rand::thread_rng(), low..=high)
}

/// Draws 32 random bits with `rand::random`. Nothing is believed of them.
/// The generator behind it panics if the operating system gives it no seed.
#[verifier::external_body]
pub(crate) fn random_bits() -> (drawn: u32) {
    rand::random::<u32>()
}

/// The part of `extent` that the fraction `bits / 2^32` cuts off, rounded
/// down.
pub open spec fn fraction_of(bits: u32, extent: u64) -> int {
    (bits as int * extent as int) / 0x1_0000_0000
}

/// A fraction of an extent stays below the extent, or at 0 where the extent
/// is 0.
pub proof fn lemma_fraction_below_extent(bits: u32, extent: u64)
    ensures
        0 <= fraction_of(bits, extent) <= extent,
        extent > 0 ==> fraction_of(bits, extent) < extent,
{
    let product = bits as int * extent as int;
    assert(0 <= product <= 0xffff_ffff * extent) by (nonlinear_arith)
        requires
            product == bits as int * extent as int,
            0 <= bits <= 0xffff_ffff,
            0 <= extent,
    ;
}

/// Scales `extent` by the fraction `bits / 2^32`, rounding down.
pub fn scale_fraction(bits: u32, extent: u64) -> (scaled: u64)
    ensures
        scaled == fraction_of(bits, extent),
        scaled <= extent,
        extent > 0 ==> scaled < extent,
{
    proof {
        lemma_fraction_below_extent(bits, extent);
    }
    assert(0 <= bits as int * extent as int <= 0xffff_ffff * 0xffff_ffff_ffff_ffff) by (nonlinear_arith)
        requires
            0 <= bits <= 0xffff_ffff,
            0 <= extent <= 0xffff_ffff_ffff_ffff,
    ;
    let product: u128 = bits as u128 * extent as u128;
    (product / 0x1_0000_0000) as u64
}

} // verus!
