//! Q16.16 fixed-point numbers.

use vstd::prelude::*;

verus! {

/// Number of raw units in the value one.
pub const SCALE: i32 = 65536;

/// A real number held as a multiple of 1/65536: the value is `raw / 65536`.
#[derive(Debug, Clone, Copy, PartialEq, Eq, Structural)]
pub struct Fixed {
    pub raw: i32,
}

impl Fixed {
    /// The whole number `n`, exactly.
    pub fn from_int(n: i16) -> (f: Fixed)
        ensures
            f.raw == n * SCALE,
    {
        Fixed { raw: (n as i32) * SCALE }
    }
}

/// The raw units of each entry of `values`, as mathematical integers.
pub open spec fn raws(values: Seq<Fixed>) -> Seq<int> {
    Seq::new(values.len(), |i: int| values[i].raw as int)
}

} // verus!
