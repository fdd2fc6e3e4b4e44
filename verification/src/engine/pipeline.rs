//! Frame ingestion for the grid-sizing front end.
use vstd::prelude::*;

verus! {

/// The number of bytes that RGBA data of `width` x `height` pixels holds,
/// or `None` where that number does not fit in a `usize`.
pub fn expected_rgba_len(width: usize, height: usize) -> (len: Option<usize>)
    ensures
        width * height * 4 <= usize::MAX ==> len == Some((width * height * 4) as usize),
        width * height * 4 > usize::MAX ==> len.is_none(),
{
    match width.checked_mul(height) {
        Some(pixels) => pixels.checked_mul(4),
        None => {
            proof {
                assert(width * height * 4 > usize::MAX) by (nonlinear_arith)
                    requires width * height > usize::MAX;
            }
            None
        }
    }
}

} // verus!
