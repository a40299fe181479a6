//! Checked integer conversions of literals.

use vstd::prelude::*;

verus! {

/// The error of a conversion whose result does not fit its type.
#[derive(Debug, Clone, Copy, PartialEq, Eq, Structural)]
pub struct Overflow;

/// `-value` as a signed 64-bit integer, or `Overflow` when `value` is above 2^63.
pub fn neg(value: u64) -> (r: Result<i64, Overflow>)
    ensures
        value <= 0x8000_0000_0000_0000 ==> r == Ok::<i64, Overflow>((-(value as int)) as i64),
        value > 0x8000_0000_0000_0000 ==> r == Err::<i64, Overflow>(Overflow),
{
    if value <= 0x7fff_ffff_ffff_ffff {
        Ok(-(value as i64))
    } else if value == 0x8000_0000_0000_0000 {
        Ok(i64::MIN)
    } else {
        Err(Overflow)
    }
}

} // verus!
