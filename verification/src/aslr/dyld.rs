//! The load bias of the executable, from the slide that the dynamic loader
//! reports for the main image.

use vstd::prelude::*;
use crate::error::Error;

verus! {

/// A signed slide as an unsigned offset: the same number where it is not
/// negative, and its two's complement in 64 bits where it is.
pub open spec fn slide_as_offset(slide: isize) -> u64 {
    if slide >= 0 {
        slide as u64
    } else {
        (slide + 0x1_0000_0000_0000_0000) as u64
    }
}

/// The load bias that the slide `slide` of the main image stands for. The
/// loader always knows the main image, so this cannot fail.
pub fn read_aslr_offset(slide: isize) -> (offset: Result<u64, Error>)
    ensures
        offset == Ok::<u64, Error>(slide_as_offset(slide)),
{
    if slide >= 0 {
        Ok(slide as u64)
    } else {
        let below: u64 = (-(slide + 1)) as u64;
        Ok(u64::MAX - below)
    }
}

} // verus!
