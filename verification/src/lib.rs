//! Decoder for the FASTDOG1 container format: a fixed-layout header, a
//! zlib-compressed payload, and a trailing integrity length, decodable either
//! from a complete buffer or incrementally from arriving chunks.

pub mod base64;
pub mod bench;
pub mod clock;
pub mod codec;
pub mod stream;
pub mod text;
pub mod zlib;

pub use bench::benchmark_decode;
pub use bench::BenchmarkResult;
pub use codec::decode_binary_raw;
pub use codec::decode_fastdog_binary;
pub use codec::decode_fastdog_to_binary;
pub use codec::get_decode_stats;
pub use codec::get_format_info;
pub use codec::get_format_metadata;
pub use codec::validate_fastdog_format;
pub use codec::DecodeError;
pub use codec::DecodeResult;
pub use codec::DecodeStats;
pub use codec::FormatInfo;
pub use stream::StreamDecodeResult;
pub use stream::StreamDecoder;
