//! Build-time archives of static files: every file of a directory tree is packed
//! into one byte buffer, optionally gzip-compressed, and indexed by a perfect hash
//! over the relative paths, so that a lookup takes a single probe.

pub mod archive;
pub mod compress;
pub mod expander;
pub mod laws;
pub mod perfect_hash;

pub use archive::{Archive, ArchiveEntry, BuildError, SourceFile};
pub use compress::{select_content, GzipStrategy};
pub use expander::{AttrOption, ConfigError, OptionValue, TgzArchiveExpander};
