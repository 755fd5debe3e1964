//! A line-oriented pattern search engine in the manner of grep.
//!
//! The library takes a compiled matcher and the bytes of each file, and
//! decides which lines are shown and how each output record is laid out:
//! inversion, counting, match limits, context windows, only-matching spans,
//! byte offsets, colour and record terminators. It also decides which
//! directory entries are searched and merges per-entry output in listing
//! order. Reading files and listing directories is left to the caller.

pub mod cli;
pub mod filter;
pub mod format;
pub mod lines;
pub mod search;
pub mod utils;
pub mod walk;
pub mod window;

pub use cli::CliArgs;
pub use search::{search_file, SearchConfig};
pub use utils::{build_regex, RegexConfig};
