//! Extraction of audio streams from PPHD8 containers into standalone VAG files.
//!
//! - [`bytes`]: fixed-endianness decoding and encoding of 32-bit words.
//! - [`pphd8parser`]: the container reader, the stream extractor and the VAG encoder.
//! - [`work`]: the bookkeeping of a batch of containers processed together.
pub mod bytes;
pub mod pphd8parser;
pub mod work;
