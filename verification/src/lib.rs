//! Hash40 identifiers and the pure pieces of the ARCropolis plugin API:
//! computing and reading hash40 values, reading API version strings, and the
//! results the runtime calls hand back.

pub mod api;
pub mod crc32;
pub mod hash40;
pub mod stream_path;
pub mod version;

pub use api::{loaded_file_size, Event};
pub use hash40::{hash40, Hash40};
pub use stream_path::{
    c_path_bytes, has_nul_byte, stream_path_of_file, stream_path_of_temp_file, TEMP_STREAM_PATH,
};
pub use version::{is_api_version, parse_api_version, ApiVersion};
