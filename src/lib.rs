//! Resolution of the required commit-message suffix from layered sources,
//! the minimal section parser that reads `.dot.ini` files, and the validator
//! that checks messages against the resolved suffix.

pub mod text;
pub mod ini;
pub mod resolve;
pub mod dot;

pub use dot::Dot;
pub use ini::read_ini_suffix;
pub use resolve::{
    resolve_worship_suffix_with_source, worship_suffix, worship_suffix_source, ResolvedSuffix,
    SuffixInputs, SuffixSource, DEFAULT_SUFFIX,
};
