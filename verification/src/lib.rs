//! Embedded columnar analytics engine.
//!
//! Typed column batches are held in an append-only store, cut into
//! byte-bounded morsels, filtered, aggregated and ranked. A cost model
//! chooses between the SIMD and the GPU path for each operation.

use vstd::prelude::*;

pub mod backend;
pub mod batch;
pub mod column;
pub mod error;
pub mod experiment;
pub mod gpu;
pub mod heap;
pub mod kernels;
pub mod kv;
pub mod query;
pub mod schema;
pub mod storage;
pub mod text;
pub mod topk;
pub mod transfer;
pub mod wasm;

pub use error::Error;

verus! {

/// Backend selection strategy.
#[derive(Debug, Clone, Copy, PartialEq, Eq, Structural)]
pub enum Backend {
    /// Decide per operation from the cost model.
    CostBased,
    /// Always run on the GPU.
    Gpu,
    /// Always run on the CPU SIMD path.
    Simd,
}

/// A database instance.
pub struct Database {
    backend: Backend,
    morsel_size_mb: usize,
}

impl Database {
    /// The settings this database was built with: the backend strategy and
    /// the morsel size in MiB.
    pub closed spec fn settings(&self) -> (Backend, usize) {
        (self.backend, self.morsel_size_mb)
    }

    /// Starts a builder with the default settings.
    pub fn builder() -> (b: DatabaseBuilder)
        ensures
            b.settings() == (Backend::CostBased, 128usize),
    {
        DatabaseBuilder { backend: Backend::CostBased, morsel_size_mb: 128 }
    }

    /// The backend strategy.
    pub fn backend(&self) -> (b: Backend)
        ensures
            b == self.settings().0,
    {
        self.backend
    }

    /// The morsel size in MiB.
    pub fn morsel_size_mb(&self) -> (n: usize)
        ensures
            n == self.settings().1,
    {
        self.morsel_size_mb
    }
}

/// Builder for [`Database`].
pub struct DatabaseBuilder {
    backend: Backend,
    morsel_size_mb: usize,
}

impl DatabaseBuilder {
    /// The settings collected so far.
    pub closed spec fn settings(&self) -> (Backend, usize) {
        (self.backend, self.morsel_size_mb)
    }

    /// Sets the backend strategy.
    pub fn backend(self, backend: Backend) -> (b: DatabaseBuilder)
        ensures
            b.settings() == (backend, self.settings().1),
    {
        DatabaseBuilder { backend, morsel_size_mb: self.morsel_size_mb }
    }

    /// Sets the morsel size in MiB.
    pub fn morsel_size_mb(self, size: usize) -> (b: DatabaseBuilder)
        ensures
            b.settings() == (self.settings().0, size),
    {
        DatabaseBuilder { backend: self.backend, morsel_size_mb: size }
    }

    /// Builds the database. Building never fails on the CPU path; the
    /// result type leaves room for a GPU start-up failure.
    pub fn build(self) -> (r: Result<Database, error::Error>)
        ensures
            r is Ok,
            r->Ok_0.settings() == self.settings(),
    {
        Ok(Database { backend: self.backend, morsel_size_mb: self.morsel_size_mb })
    }
}

impl Default for DatabaseBuilder {
    fn default() -> (b: DatabaseBuilder)
        ensures
            b.settings() == (Backend::CostBased, 128usize),
    {
        Database::builder()
    }
}

} // verus!
