//! gitnav: locating git repositories under a directory tree, caching the
//! result set with a time-to-live policy, and rendering a per-repository
//! summary for an external fuzzy selector.
//!
//! The core pieces are the bounded-depth scanner over a modelled directory
//! tree ([`scanner`]), the fingerprinted, TTL-gated cache layer with its
//! tab-separated entry text ([`cache`], [`records`]), and the preview
//! renderer with its relative-time formatter ([`preview`]). Configuration
//! shapes and rules live in [`config`]; the selector boundary in [`fzf`];
//! error kinds in [`errors`]. All I/O — the filesystem walk, cache files,
//! git repositories, the selector process — stays with the caller, which
//! hands the results in as plain values.

pub mod cache;
pub mod config;
pub mod errors;
mod exit_codes;
pub mod fzf;
pub mod output;
pub mod preview;
pub mod records;
pub mod scanner;
pub mod shell;
pub mod text;

pub use exit_codes::EXIT_SUCCESS;
pub use exit_codes::EXIT_GENERAL_ERROR;
pub use exit_codes::EXIT_USAGE_ERROR;
pub use exit_codes::EXIT_DATA_ERROR;
pub use exit_codes::EXIT_UNAVAILABLE;
pub use exit_codes::EXIT_IO_ERROR;
pub use exit_codes::EXIT_INTERRUPTED;
