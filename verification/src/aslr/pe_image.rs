//! The load bias of the executable, from the headers of its loaded PE image.
//!
//! The image begins with a DOS header. Its last field, `e_lfanew`, is the
//! offset of the NT headers: a signature, a file header of twenty bytes and
//! an optional header, which for a 64-bit image holds the preferred base
//! address twenty-four bytes in. All fields are little-endian.

use vstd::prelude::*;
use crate::error::Error;

verus! {

/// `MZ`, the first two bytes of a DOS header.
pub const DOS_MAGIC: u64 = 0x5A4D;

/// Where `e_lfanew` stands in the DOS header.
pub const LFANEW_AT: usize = 60;

/// The length of a DOS header.
pub const DOS_HEADER_LEN: usize = 64;

/// `PE\0\0`, the first four bytes of the NT headers.
pub const NT_SIGNATURE: u64 = 0x0000_4550;

/// The first two bytes of the optional header of a 64-bit image.
pub const PE32_PLUS_MAGIC: u64 = 0x020B;

/// Where the optional header stands in the NT headers.
pub const OPTIONAL_HEADER_AT: usize = 24;

/// Where the preferred base address stands in the NT headers.
pub const IMAGE_BASE_AT: usize = 48;

/// The length of the NT headers up to the end of the preferred base address.
pub const NT_HEADERS_LEN: usize = 56;

/// The largest offset that `e_lfanew`, a signed field of 32 bits, can hold.
pub const LFANEW_MAX: u64 = 0x7FFF_FFFF;

/// The number that the `width` bytes of `bytes` from `at` on write,
/// least significant byte first.
pub open spec fn little_endian(bytes: Seq<u8>, at: int, width: nat) -> nat
    decreases width,
{
    if width == 0 {
        0
    } else {
        bytes[at] as nat + 256 * little_endian(bytes, at + 1, (width - 1) as nat)
    }
}

/// Why an image gives no load bias.
#[derive(Clone, Copy, Debug, PartialEq, Eq, Structural)]
pub enum ImageFault {
    /// There is no image: the module handle is null.
    NoModule,
    /// The bytes end before the DOS header does.
    Truncated,
    /// The DOS header does not begin with `MZ`.
    NotDosHeader,
    /// The NT headers lie outside the bytes, or `e_lfanew` is negative.
    HeadersOutOfBounds,
    /// The NT headers do not begin with `PE\0\0`.
    NotNtHeaders,
    /// The optional header is not that of a 64-bit image.
    NotPe32Plus,
    /// The image was loaded below its preferred base address.
    BelowPreferredBase,
}

/// The load bias of the image whose first bytes are `image` and which was
/// loaded at `base`: the distance from the preferred base address in its
/// headers up to `base`.
pub open spec fn load_bias(base: u64, image: Seq<u8>) -> Result<u64, ImageFault> {
    let headers = little_endian(image, LFANEW_AT as int, 4);
    let preferred = little_endian(image, headers + IMAGE_BASE_AT, 8);
    if base == 0 {
        Err(ImageFault::NoModule)
    } else if image.len() < DOS_HEADER_LEN {
        Err(ImageFault::Truncated)
    } else if little_endian(image, 0, 2) != DOS_MAGIC {
        Err(ImageFault::NotDosHeader)
    } else if headers > LFANEW_MAX || headers + NT_HEADERS_LEN > image.len() {
        Err(ImageFault::HeadersOutOfBounds)
    } else if little_endian(image, headers as int, 4) != NT_SIGNATURE {
        Err(ImageFault::NotNtHeaders)
    } else if little_endian(image, headers + OPTIONAL_HEADER_AT, 2) != PE32_PLUS_MAGIC {
        Err(ImageFault::NotPe32Plus)
    } else if base < preferred {
        Err(ImageFault::BelowPreferredBase)
    } else {
        Ok((base - preferred) as u64)
    }
}

impl ImageFault {
    /// What the error for this fault says.
    pub open spec fn message(self) -> Seq<char> {
        match self {
            ImageFault::NoModule => "Failed to get module handle"@,
            ImageFault::Truncated => "image ends inside its DOS header"@,
            ImageFault::NotDosHeader => "image has no DOS header"@,
            ImageFault::HeadersOutOfBounds => "NT headers lie outside the image"@,
            ImageFault::NotNtHeaders => "image has no NT headers"@,
            ImageFault::NotPe32Plus => "image is not a 64-bit image"@,
            ImageFault::BelowPreferredBase => "image is loaded below its preferred base"@,
        }
    }

    /// The platform error for this fault.
    pub fn to_error(self) -> (error: Error)
        ensures
            error matches Error::PlatformError(text) && text@ == self.message(),
    {
        let text = match self {
            ImageFault::NoModule => "Failed to get module handle",
            ImageFault::Truncated => "image ends inside its DOS header",
            ImageFault::NotDosHeader => "image has no DOS header",
            ImageFault::HeadersOutOfBounds => "NT headers lie outside the image",
            ImageFault::NotNtHeaders => "image has no NT headers",
            ImageFault::NotPe32Plus => "image is not a 64-bit image",
            ImageFault::BelowPreferredBase => "image is loaded below its preferred base",
        };
        Error::PlatformError(text.to_owned())
    }
}

/// How many bytes of an image, counted from its beginning, hold all that
/// [`load_bias`] reads, going by the DOS header in the first bytes `image`
/// of it.
pub open spec fn extent(image: Seq<u8>) -> Result<usize, ImageFault> {
    let headers = little_endian(image, LFANEW_AT as int, 4);
    if image.len() < DOS_HEADER_LEN {
        Err(ImageFault::Truncated)
    } else if little_endian(image, 0, 2) != DOS_MAGIC {
        Err(ImageFault::NotDosHeader)
    } else if headers > LFANEW_MAX {
        Err(ImageFault::HeadersOutOfBounds)
    } else {
        Ok((headers + NT_HEADERS_LEN) as usize)
    }
}

/// How many bytes of an image have to be at hand for its load bias to be
/// read, going by the DOS header in the first bytes `image` of it.
pub fn image_extent(image: &[u8]) -> (needed: Result<usize, ImageFault>)
    ensures
        needed == extent(image@),
{
    if image.len() < DOS_HEADER_LEN {
        return Err(ImageFault::Truncated);
    }
    if read_little_endian(image, 0, 2) != DOS_MAGIC {
        return Err(ImageFault::NotDosHeader);
    }
    let headers: u64 = read_little_endian(image, LFANEW_AT, 4);
    if headers > LFANEW_MAX {
        return Err(ImageFault::HeadersOutOfBounds);
    }
    Ok(headers as usize + NT_HEADERS_LEN)
}

/// An image of which as many bytes are at hand as its extent asks for is
/// never found too short: its headers lie within the bytes.
pub proof fn lemma_extent_suffices(base: u64, image: Seq<u8>)
    requires
        extent(image) matches Ok(needed) && needed <= image.len(),
    ensures
        !(load_bias(base, image) matches Err(ImageFault::Truncated)),
        !(load_bias(base, image) matches Err(ImageFault::HeadersOutOfBounds)),
{
}

/// Reads the `width` bytes of `bytes` from `at` on as one number, least
/// significant byte first.
pub(crate) fn read_little_endian(bytes: &[u8], at: usize, width: usize) -> (number: u64)
    requires
        width <= 8,
        at + width <= bytes.len(),
    ensures
        number == little_endian(bytes@, at as int, width as nat),
{
    let mut number: u64 = 0;
    let mut left: usize = width;
    while left > 0
        invariant
            left <= width <= 8,
            at + width <= bytes.len(),
            number == little_endian(bytes@, at + left, (width - left) as nat),
            number < pow256((width - left) as nat),
        decreases left,
    {
        proof {
            lemma_pow256((width - left) as nat);
        }
        left -= 1;
        number = bytes[at + left] as u64 + 256 * number;
    }
    number
}

/// 256 to the power of `n`.
pub open spec fn pow256(n: nat) -> nat
    decreases n,
{
    if n == 0 {
        1
    } else {
        256 * pow256((n - 1) as nat)
    }
}

/// The powers of 256 up to the eighth, the first that does not fit 64 bits.
proof fn lemma_pow256(n: nat)
    requires
        n <= 8,
    ensures
        pow256(n) <= 0x1_0000_0000_0000_0000,
        n < 8 ==> 256 * pow256(n) <= 0x1_0000_0000_0000_0000,
{
    reveal_with_fuel(pow256, 10);
}

/// The load bias of the image that was loaded at `base` and whose first
/// bytes, as they stand in memory, are `image`.
pub fn load_bias_of(base: u64, image: &[u8]) -> (bias: Result<u64, ImageFault>)
    ensures
        bias == load_bias(base, image@),
{
    if base == 0 {
        return Err(ImageFault::NoModule);
    }
    if image.len() < DOS_HEADER_LEN {
        return Err(ImageFault::Truncated);
    }
    if read_little_endian(image, 0, 2) != DOS_MAGIC {
        return Err(ImageFault::NotDosHeader);
    }
    let headers: u64 = read_little_endian(image, LFANEW_AT, 4);
    if headers > LFANEW_MAX || headers > (image.len() - NT_HEADERS_LEN) as u64 {
        return Err(ImageFault::HeadersOutOfBounds);
    }
    let headers: usize = headers as usize;
    if read_little_endian(image, headers, 4) != NT_SIGNATURE {
        return Err(ImageFault::NotNtHeaders);
    }
    if read_little_endian(image, headers + OPTIONAL_HEADER_AT, 2) != PE32_PLUS_MAGIC {
        return Err(ImageFault::NotPe32Plus);
    }
    let preferred: u64 = read_little_endian(image, headers + IMAGE_BASE_AT, 8);
    if base < preferred {
        return Err(ImageFault::BelowPreferredBase);
    }
    Ok(base - preferred)
}

/// The load bias of the image that was loaded at `base` and whose first
/// bytes are `image`, or the platform error that says why there is none.
pub fn read_aslr_offset(base: u64, image: &[u8]) -> (offset: Result<u64, Error>)
    ensures
        match load_bias(base, image@) {
            Ok(bias) => offset == Ok::<u64, Error>(bias),
            Err(fault) => offset matches Err(Error::PlatformError(text)) && text@
                == fault.message(),
        },
{
    match load_bias_of(base, image) {
        Ok(bias) => Ok(bias),
        Err(fault) => Err(fault.to_error()),
    }
}

} // verus!
