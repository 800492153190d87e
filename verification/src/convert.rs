//! Converters from built values to output formats.
pub mod toml;
