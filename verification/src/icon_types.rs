//! The fixed mapping from a square pixel size to the ICNS container entry
//! type that holds it.  Only six sizes are supported; the 16, 32 and 128
//! pixel sizes use the legacy 24-bit RGB entry class while 64, 256 and 512
//! use the 32-bit RGBA entry class.  The asymmetry is a format compatibility
//! requirement and is kept visible in one table.

use vstd::prelude::*;

verus! {

/// The container entry types that this library produces, named by channel
/// class and pixel dimensions.
#[allow(non_camel_case_types)]
#[derive(Clone, Copy, Debug, PartialEq, Eq, Structural)]
pub enum IconType {
    RGB24_16x16,
    RGB24_32x32,
    RGBA32_64x64,
    RGB24_128x128,
    RGBA32_256x256,
    RGBA32_512x512,
}

/// The entry type for a square pixel size, or `None` where the size is
/// unsupported.
pub open spec fn icon_type_for(size: u32) -> Option<IconType> {
    if size == 16 {
        Some(IconType::RGB24_16x16)
    } else if size == 32 {
        Some(IconType::RGB24_32x32)
    } else if size == 64 {
        Some(IconType::RGBA32_64x64)
    } else if size == 128 {
        Some(IconType::RGB24_128x128)
    } else if size == 256 {
        Some(IconType::RGBA32_256x256)
    } else if size == 512 {
        Some(IconType::RGBA32_512x512)
    } else {
        None
    }
}

/// Whether a square pixel size has a container entry type.
pub open spec fn is_supported_size(size: u32) -> bool {
    icon_type_for(size) is Some
}

/// Maps a square pixel size to its container entry type; unsupported sizes
/// get `None` and are skipped by callers, never treated as fatal.
pub fn size_to_icon_type(size: u32) -> (entry: Option<IconType>)
    ensures
        entry == icon_type_for(size),
{
    match size {
        16 => Some(IconType::RGB24_16x16),
        32 => Some(IconType::RGB24_32x32),
        64 => Some(IconType::RGBA32_64x64),
        128 => Some(IconType::RGB24_128x128),
        256 => Some(IconType::RGBA32_256x256),
        512 => Some(IconType::RGBA32_512x512),
        _ => None,
    }
}

/// The mapper is total: every size in {16, 32, 64, 128, 256, 512} has a
/// defined entry type, and every other size is unsupported.
pub proof fn lemma_entry_type_total(size: u32)
    ensures
        is_supported_size(size) <==> (size == 16 || size == 32 || size == 64 || size == 128
            || size == 256 || size == 512),
{
}

} // verus!
