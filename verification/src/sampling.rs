//! Drawing the samples that a batch is made of.
//!
//! A sample is drawn by asking the generator for a number between 0 and the
//! size of the data set. The generator counts both ends in, so one draw in
//! `len + 1` names no sample.
use vstd::prelude::*;

verus! {

/// One call of `alea::u64_in_range`, which returns `min` plus a number below
/// `max + 1 - min`: a number from `min` to `max`, both included. It panics
/// unless `min < max`, and `max + 1` must not overflow. Which number comes
/// back depends on the seed of the generator, so nothing else is claimed.
#[verifier::external_body]
fn draw_in_range(min: u64, max: u64) -> (drawn: u64)
    requires
        min < max,
        max < u64::MAX,
    ensures
        min <= drawn <= max,
{
    alea::u64_in_range(min, max)
}

/// The sample of a data set of `len` samples that the number `drawn` names:
/// the sample at that position, if there is one.
pub fn sample_at(drawn: u64, len: usize) -> (sample: Option<usize>)
    ensures
        match sample {
            Some(at) => drawn < len && at == drawn,
            None => drawn >= len,
        },
{
    if drawn < len as u64 {
        Some(drawn as usize)
    } else {
        None
    }
}

/// Draws a number from 0 to `len` and returns the sample that it names. There
/// is none when the data set is empty, when `len` is the largest `u64`, for
/// which nothing is drawn, and when the draw is `len` itself.
pub fn draw_sample(len: usize) -> (sample: Option<usize>)
    ensures
        sample matches Some(at) ==> at < len,
        len == 0 || len == u64::MAX ==> sample is None,
{
    if len == 0 || len as u64 == u64::MAX {
        return None;
    }
    let drawn: u64 = draw_in_range(0, len as u64);
    sample_at(drawn, len)
}

} // verus!
