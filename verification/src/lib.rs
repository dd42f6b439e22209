//! Builds macOS multi-resolution icon archives (ICNS) from a single raster
//! image: resolving which square pixel sizes to produce, mapping each size to
//! its container entry type, resampling the source image once per size, and
//! packing the results into a serialized archive.

pub mod completion;
pub mod convert;
pub mod icon_types;
pub mod sizes;

pub use completion::{generate_completion, Shell};
pub use convert::{build_icns, ConvertError};
pub use icon_types::{size_to_icon_type, IconType};
pub use sizes::{get_preset_sizes, parse_custom_sizes, QualityPreset, SizeParseError};
