//! Bytes with their receive times.
use crate::sensors::Timestamp;
use vstd::prelude::*;

verus! {

/// The sum of the first `n` bytes.
pub open spec fn byte_sum(bytes: Seq<(u8, Timestamp)>, n: nat) -> nat
    decreases n,
{
    if n == 0 {
        0
    } else {
        byte_sum(bytes, (n - 1) as nat) + bytes[n - 1].0 as nat
    }
}

/// Whether bytes stand in the order of their receive times.
pub open spec fn ordered(bytes: Seq<(u8, Timestamp)>) -> bool {
    forall|i: int, j: int|
        0 <= i <= j < bytes.len() ==> (#[trigger] bytes[i]).1.0 <= (#[trigger] bytes[j]).1.0
}

} // verus!
