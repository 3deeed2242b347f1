//! Flattens a set of files into one XML document.
//!
//! A run selects files by paths and globs, leaves out what exclusion
//! patterns match and what version control ignores, tells binary files from
//! text, and writes one `<file>` element for each file beneath a single
//! `<repository>` root.
//!
//! The library reads nothing from disk. A program looks up what the library
//! asks about and hands it over as plain values:
//!
//! 1. [`FlattenRepo::new`] prepares a run from a [`Config`].
//! 2. For each path of the run, the program fills in an [`EntryScan`];
//!    [`FlattenRepo::find_files`] turns the scans into the ordered list of
//!    files.
//! 3. For each file, the program reads the bytes into a [`FileSource`].
//!    [`FlattenRepo::generate_xml_from_files`] classifies each file and
//!    writes the document; [`XmlDocument`] does the same one file at a
//!    time.

pub mod config;
pub mod content;
pub mod discovery;
pub mod discovery_laws;
pub mod error;
pub mod escape;
pub mod paths;
pub mod pattern;
pub mod repo;
pub mod xml;

pub use config::{blank_line, merge_paths, Config};
pub use content::{
    can_decode, looks_binary, read_file_contents, FileType, BINARY_FILE_CHECK_SIZE,
};
pub use discovery::{
    consider, discover, is_ignored_by_git, Candidate, EntryScan, GlobEntry, VcsAnswer, Verdict,
};
pub use error::Error;
pub use escape::{xml_char, xml_safe};
pub use paths::{entry_pattern, relativize};
pub use pattern::{is_excluded, CompiledPattern};
pub use repo::FlattenRepo;
pub use xml::{build_document, FileSource, XmlDocument};
