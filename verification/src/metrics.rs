use vstd::prelude::*;

verus! {

/// Whole mebibytes in a byte count, rounded down: how memory sizes are reported.
pub fn bytes_to_mebibytes(bytes: u64) -> (res: u64)
    ensures
        res == bytes / 1048576,
        res * 1048576 <= bytes < (res + 1) * 1048576,
{
    bytes / (1024 * 1024)
}

} // verus!
