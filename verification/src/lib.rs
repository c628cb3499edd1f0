//! A small configuration library: TOML text is parsed into a typed value
//! tree, and the `dependencies` table of a configuration is reported as
//! rendered `key: value` lines.

pub mod deps;
pub mod parse;
pub mod render;
pub mod value;
