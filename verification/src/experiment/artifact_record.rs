//! An artifact: an output of a run, addressed by the hash of its content.

use vstd::prelude::*;
use vstd::string::*;
use crate::experiment::{now, Timestamp};

verus! {

/// A stored artifact of a run. The hash has the form
/// `algorithm:hex_digest`.
#[derive(Debug, Clone)]
pub struct ArtifactRecord {
    run_id: String,
    key: String,
    cas_hash: String,
    size_bytes: u64,
    created_at: Timestamp,
}

/// An artifact as contracts see it.
pub struct ArtifactView {
    pub run_id: Seq<char>,
    pub key: Seq<char>,
    pub cas_hash: Seq<char>,
    pub size_bytes: u64,
    pub created_at: Timestamp,
}

impl View for ArtifactRecord {
    type V = ArtifactView;

    closed spec fn view(&self) -> ArtifactView {
        ArtifactView {
            run_id: self.run_id@,
            key: self.key@,
            cas_hash: self.cas_hash@,
            size_bytes: self.size_bytes,
            created_at: self.created_at,
        }
    }
}

impl ArtifactRecord {
    /// An artifact created at the given time.
    pub fn new_at(run_id: &str, key: &str, cas_hash: &str, size_bytes: u64, at: Timestamp) -> (r:
        ArtifactRecord)
        ensures
            r@ == (ArtifactView {
                run_id: run_id@,
                key: key@,
                cas_hash: cas_hash@,
                size_bytes,
                created_at: at,
            }),
    {
        ArtifactRecord {
            run_id: String::from_str(run_id),
            key: String::from_str(key),
            cas_hash: String::from_str(cas_hash),
            size_bytes,
            created_at: at,
        }
    }

    /// An artifact created now.
    pub fn new(run_id: &str, key: &str, cas_hash: &str, size_bytes: u64) -> (r: ArtifactRecord)
        ensures
            r@ == (ArtifactView {
                run_id: run_id@,
                key: key@,
                cas_hash: cas_hash@,
                size_bytes,
                created_at: r@.created_at,
            }),
    {
        Self::new_at(run_id, key, cas_hash, size_bytes, now())
    }

    /// The run id.
    pub fn run_id(&self) -> (s: &str)
        ensures
            s@ == self@.run_id,
    {
        self.run_id.as_str()
    }

    /// The name of the artifact.
    pub fn key(&self) -> (s: &str)
        ensures
            s@ == self@.key,
    {
        self.key.as_str()
    }

    /// The hash of the content.
    pub fn cas_hash(&self) -> (s: &str)
        ensures
            s@ == self@.cas_hash,
    {
        self.cas_hash.as_str()
    }

    /// The size in bytes.
    pub fn size_bytes(&self) -> (n: u64)
        ensures
            n == self@.size_bytes,
    {
        self.size_bytes
    }

    /// When the artifact was created.
    pub fn created_at(&self) -> (t: Timestamp)
        ensures
            t == self@.created_at,
    {
        self.created_at
    }
}

} // verus!
