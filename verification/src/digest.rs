//! Fingerprints of a source file's on-disk state, and the check that decides
//! whether a file has changed since a digest was recorded.
//!
//! A [`Digest`] pairs the file's metadata (size and modification time) with a
//! hash of its contents. Size and mtime alone serve as a fast "definitely
//! unchanged" signal that needs no content read; the hash is the
//! authoritative "content identical despite metadata churn" signal.

use vstd::prelude::*;

verus! {

/// Fingerprint of one on-disk file state: metadata plus a content hash.
#[derive(Clone, Copy, Debug, PartialEq, Eq, Structural)]
pub struct Digest {
    /// Modification time, in seconds since the epoch.
    pub mtime: i64,
    /// Size in bytes.
    pub size: u64,
    /// Non-cryptographic hash of the full contents.
    pub hash: u128,
}

/// The metadata half of a file's state, as one stat call reports it.
#[derive(Clone, Copy, Debug, PartialEq, Eq, Structural)]
pub struct FileMeta {
    /// Modification time, in seconds since the epoch.
    pub mtime: i64,
    /// Size in bytes.
    pub size: u64,
}

/// One filesystem probe's view of the source file.
pub enum FileState {
    /// The file could not be opened or read.
    Unreadable,
    /// The file was read: its metadata and its full text.
    Readable { meta: FileMeta, contents: String },
}

/// Outcome of checking the source against a previously known digest.
pub enum Load {
    /// The content is unchanged; remember this (possibly refreshed) digest.
    Unchanged(Digest),
    /// The content changed: the new digest and the new text.
    Changed(Digest, String),
    /// The source could not be read.
    Error,
}

/// The hash that fingerprints a file's contents.
pub uninterp spec fn content_hash(s: Seq<char>) -> u128;

/// Relies on twox_hash::xxh3::hash128: the result depends on the input bytes
/// alone, and hence on the characters of `s`.
#[verifier::external_body]
fn hash128_of(s: &str) -> (r: u128)
    ensures
        r == content_hash(s@),
{
    twox_hash::xxh3::hash128(s.as_bytes())
}

/// The digest of a freshly read file state.
pub open spec fn fresh_digest(meta: FileMeta, contents: Seq<char>) -> Digest {
    Digest { mtime: meta.mtime, size: meta.size, hash: content_hash(contents) }
}

/// Size and modification time both match the known digest: the fast path,
/// which treats the file as surely unchanged without reading it.
pub open spec fn meta_matches(prev: Option<Digest>, meta: FileMeta) -> bool {
    match prev {
        Some(d) => d.size == meta.size && d.mtime == meta.mtime,
        None => false,
    }
}

/// The known digest already carries the hash of these contents: the bytes
/// did not change even though the metadata did.
pub open spec fn hash_matches(prev: Option<Digest>, contents: Seq<char>) -> bool {
    match prev {
        Some(d) => d.hash == content_hash(contents),
        None => false,
    }
}

/// What one probe of the given file state reports against a known digest.
pub open spec fn probe_spec(prev: Option<Digest>, file: FileState) -> Load {
    match file {
        FileState::Unreadable => Load::Error,
        FileState::Readable { meta, contents } => if meta_matches(prev, meta) {
            Load::Unchanged(prev.unwrap())
        } else if hash_matches(prev, contents@) {
            Load::Unchanged(fresh_digest(meta, contents@))
        } else {
            Load::Changed(fresh_digest(meta, contents@), contents)
        },
    }
}

/// The probe reports changed content: readable, past the fast path, and with
/// a hash the known digest does not carry.
pub open spec fn probe_changed(prev: Option<Digest>, file: FileState) -> bool {
    probe_spec(prev, file) matches Load::Changed(_, _)
}

/// Fast path: the file is surely unchanged when size and mtime both match
/// the known digest. This is the one decision that may skip the content read.
pub fn meta_unchanged(prev: &Option<Digest>, meta: &FileMeta) -> (r: bool)
    ensures
        r == meta_matches(*prev, *meta),
{
    match prev {
        Some(d) => d.size == meta.size && d.mtime == meta.mtime,
        None => false,
    }
}

/// Hash freshly read contents and classify them against the known digest:
/// equal hashes confirm the content unchanged under a refreshed digest,
/// anything else is a change.
pub fn check_content(prev: &Option<Digest>, meta: &FileMeta, contents: String) -> (r: Load)
    ensures
        hash_matches(*prev, contents@) ==> r == Load::Unchanged(fresh_digest(*meta, contents@)),
        !hash_matches(*prev, contents@) ==> r == Load::Changed(
            fresh_digest(*meta, contents@),
            contents,
        ),
{
    let hash = hash128_of(contents.as_str());
    let digest = Digest { mtime: meta.mtime, size: meta.size, hash };
    match prev {
        Some(d) if d.hash == hash => Load::Unchanged(digest),
        _ => Load::Changed(digest, contents),
    }
}

/// Check a probed file state against the known digest. The contents are
/// consulted only past the fast path.
pub fn probe(prev: &Option<Digest>, file: FileState) -> (r: Load)
    ensures
        r == probe_spec(*prev, file),
{
    match file {
        FileState::Unreadable => Load::Error,
        FileState::Readable { meta, contents } => if meta_unchanged(prev, &meta) {
            Load::Unchanged(prev.unwrap())
        } else {
            check_content(prev, &meta, contents)
        },
    }
}

} // verus!
