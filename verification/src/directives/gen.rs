use crate::cli::{accepted, parse_u32, parsed_u32};
use crate::storage::tar_gz_file::MAX_COMPRESSION;
use vstd::prelude::*;

verus! {

/// Error type for converting `&str` to a compression level
#[derive(Debug, Clone, Copy, PartialEq, Eq)]
pub enum CompressionArgError {
    /// The argument is not a 32-bit number
    NotInteger,
    /// Compression level must be between 0 and 9
    ValueOutOfRange { input: u32 },
}

/// The compression level that a parsed number stands for.
pub open spec fn compression_result(parsed: Option<u32>) -> Result<u32, CompressionArgError> {
    match parsed {
        None => Err(CompressionArgError::NotInteger),
        Some(level) => if level > MAX_COMPRESSION {
            Err(CompressionArgError::ValueOutOfRange { input: level })
        } else {
            Ok(level)
        },
    }
}

/// Compression level from a parsed number: between 0 and 9.
pub fn compression_from_parsed(parsed: Result<u32, std::num::ParseIntError>) -> (r: Result<
    u32,
    CompressionArgError,
>)
    ensures
        r == compression_result(accepted(parsed)),
{
    match parsed {
        Err(_) => Err(CompressionArgError::NotInteger),
        Ok(compression_level) => {
            if compression_level > MAX_COMPRESSION {
                Err(CompressionArgError::ValueOutOfRange { input: compression_level })
            } else {
                Ok(compression_level)
            }
        },
    }
}

/// Parse a compression level from `&str`
pub fn try_compression_from_str(arg: &str) -> (r: Result<u32, CompressionArgError>)
    ensures
        r == compression_result(parsed_u32(arg@)),
{
    compression_from_parsed(parse_u32(arg))
}

} // verus!
