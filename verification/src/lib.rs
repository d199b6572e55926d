//! Fuzzy search over large bodies of configuration-option documentation.
//!
//! Each tracked source is one large HTML page of term/definition pairs.
//! [`parsing`] turns such a page into option records and a version string;
//! [`codec`] and [`cache`] keep a source's data in a compressed on-disk
//! cache, judge its freshness and validity, and decide between fresh cache,
//! live fetch and stale cache; [`finder`] owns a fuzzy-match engine per
//! source, fed once by a background acquisition and queried incrementally.
//! The effectful edges (the network, the file system, the terminal) live
//! with the program around this library, behind the provider interface in
//! [`cache`].

pub mod cache;
pub mod codec;
pub mod config;
pub mod finder;
pub mod html;
pub mod parsing;
pub mod project_paths;
pub mod rewrite;
pub mod semver;
pub mod source;
pub mod text;
