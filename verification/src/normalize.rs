//! From absolute addresses to addresses relative to the image on disk.

use vstd::prelude::*;
use crate::error::Error;
use crate::frame::FrameAddress;

verus! {

/// The address relative to an image that was loaded with bias `aslr_offset`,
/// for the absolute address `absolute`: their difference, and an error where
/// the address lies below the bias.
pub open spec fn relative_to(absolute: u64, aslr_offset: u64) -> Result<u64, Error> {
    if absolute >= aslr_offset {
        Ok((absolute - aslr_offset) as u64)
    } else {
        Err(Error::NormalizationUnderflow { absolute, offset: aslr_offset })
    }
}

/// Reduces an absolute address to one relative to the image loaded with bias
/// `aslr_offset`.
///
/// An address below the bias belongs to another image, or the bias is wrong:
/// that is reported, never wrapped around.
pub fn normalize_address(absolute: u64, aslr_offset: u64) -> (relative: Result<u64, Error>)
    ensures
        relative == relative_to(absolute, aslr_offset),
        absolute >= aslr_offset ==> relative == Ok::<u64, Error>((absolute - aslr_offset) as u64),
        absolute < aslr_offset ==> relative is Err,
{
    if absolute >= aslr_offset {
        Ok(absolute - aslr_offset)
    } else {
        Err(Error::NormalizationUnderflow { absolute, offset: aslr_offset })
    }
}

/// The relative address to look `frame` up by in the image loaded with bias
/// `aslr_offset`: its lookup address, reduced by the bias.
pub fn normalize_frame(frame: FrameAddress, aslr_offset: u64) -> (relative: Result<u64, Error>)
    ensures
        relative == relative_to(frame.spec_address_for_lookup(), aslr_offset),
{
    normalize_address(frame.address_for_lookup(), aslr_offset)
}

/// Adding the bias back to a relative address gives the absolute address it
/// came from: nothing is rounded and nothing wraps.
pub proof fn lemma_normalization_is_exact(absolute: u64, aslr_offset: u64)
    ensures
        match relative_to(absolute, aslr_offset) {
            Ok(relative) => relative + aslr_offset == absolute,
            Err(_) => absolute < aslr_offset,
        },
{
}

} // verus!
