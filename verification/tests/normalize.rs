use hopframe::error::Error;
use hopframe::frame::FrameAddress;
use hopframe::normalize::{normalize_address, normalize_frame};

#[test]
fn address_above_the_offset_is_reduced_exactly() {
    assert_eq!(normalize_address(0x55b6_3ea4_d123, 0x55b6_3ea4_c000), Ok(0x1123));
    assert_eq!(normalize_address(u64::MAX, 1), Ok(u64::MAX - 1));
    assert_eq!(normalize_address(u64::MAX, 0), Ok(u64::MAX));
    assert_eq!(normalize_address(0x8000_0000_0000_0000, 0x7fff_ffff_ffff_ffff), Ok(1));
}

#[test]
fn address_equal_to_the_offset_is_zero() {
    assert_eq!(normalize_address(0x1000, 0x1000), Ok(0));
    assert_eq!(normalize_address(0, 0), Ok(0));
    assert_eq!(normalize_address(u64::MAX, u64::MAX), Ok(0));
}

#[test]
fn address_below_the_offset_is_an_error() {
    assert_eq!(
        normalize_address(0x0fff, 0x1000),
        Err(Error::NormalizationUnderflow { absolute: 0x0fff, offset: 0x1000 })
    );
    assert_eq!(
        normalize_address(0, u64::MAX),
        Err(Error::NormalizationUnderflow { absolute: 0, offset: u64::MAX })
    );
    assert_eq!(
        normalize_address(0, 1),
        Err(Error::NormalizationUnderflow { absolute: 0, offset: 1 })
    );
}

#[test]
fn underflow_never_wraps() {
    for absolute in 0..64u64 {
        for offset in 0..64u64 {
            match normalize_address(absolute, offset) {
                Ok(relative) => {
                    assert!(absolute >= offset);
                    assert_eq!(relative + offset, absolute);
                }
                Err(_) => assert!(absolute < offset),
            }
        }
    }
}

#[test]
fn frame_is_reduced_from_its_lookup_address() {
    let offset = 0x55b6_3ea4_c000;
    assert_eq!(
        normalize_frame(FrameAddress::InstructionPointer(0x55b6_3ea4_d123), offset),
        Ok(0x1123)
    );
    assert_eq!(
        normalize_frame(FrameAddress::ReturnAddress(0x55b6_3ea4_d123), offset),
        Ok(0x1122)
    );
    assert_eq!(normalize_frame(FrameAddress::ReturnAddress(offset + 1), offset), Ok(0));
    assert_eq!(
        normalize_frame(FrameAddress::ReturnAddress(offset), offset),
        Err(Error::NormalizationUnderflow { absolute: offset - 1, offset })
    );
    assert_eq!(normalize_frame(FrameAddress::InstructionPointer(offset), offset), Ok(0));
    assert_eq!(
        normalize_frame(FrameAddress::InstructionPointer(7), 8),
        Err(Error::NormalizationUnderflow { absolute: 7, offset: 8 })
    );
}
