//! Percent-encoding and decoding of arbitrary bytes, driven by sets of ASCII characters.
pub mod charset;
pub mod cli;
pub mod codec;
pub mod command;
pub mod hex;
pub mod preset;

pub use charset::AsciiCharset;
pub use preset::Preset;
