//! A small personal web server's core: a self-invalidating content cache,
//! and the rules for resolving and rendering its pages.
//!
//! The cache holds the last value computed from a source file and re-derives
//! it only when the file has actually changed: a cheap metadata comparison
//! (size and modification time) is tried first, a content hash settles the
//! cases where metadata churned but the bytes did not, and every refresh is
//! debounced so a burst of requests probes the filesystem at most once per
//! interval. On any failure the last good value keeps being served.
//!
//! Around it stand the rules the server applies per request: validated URL
//! paths, markdown pages with a TOML front matter, stylesheet compilation,
//! and the routing decision itself. Reading files, locking, and HTTP are
//! left to the surrounding program.

pub mod cache;
pub mod digest;
pub mod markdown;
pub mod sass;
pub mod url;
pub mod web;

pub use cache::Cache;
pub use cache::CacheError;
pub use cache::Cacheable;
pub use cache::ComputeError;
pub use digest::Digest;
pub use digest::FileMeta;
pub use digest::FileState;
pub use digest::Load;
