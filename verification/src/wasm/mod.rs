//! The browser deployment: configuration, tables by name, and the parts
//! of remote reading that are decided without the network.

use vstd::prelude::*;
use vstd::string::*;

pub mod database;
pub mod http_range;
pub mod late_materialization;
pub mod streaming_parquet;

verus! {

/// The compute tier of a browser: the GPU where there is one, else SIMD
/// where the build has it, else scalar code.
pub fn compute_tier(webgpu: bool, simd128: bool) -> (tier: &'static str)
    ensures
        tier@ == if webgpu {
            "webgpu"@
        } else if simd128 {
            "simd128"@
        } else {
            "scalar"@
        },
{
    if webgpu {
        "webgpu"
    } else if simd128 {
        "simd128"
    } else {
        "scalar"
    }
}

/// Configuration of a database in the browser.
#[derive(Debug, Clone)]
pub struct DatabaseConfig {
    backend: String,
    cache_size_mb: usize,
}

impl DatabaseConfig {
    /// The backend and the cache size in MB.
    pub closed spec fn spec_parts(&self) -> (Seq<char>, usize) {
        (self.backend@, self.cache_size_mb)
    }

    /// The default configuration: the backend `auto` and 256 MB of cache.
    pub fn new() -> (c: DatabaseConfig)
        ensures
            c.spec_parts() == ("auto"@, 256usize),
    {
        DatabaseConfig { backend: String::from_str("auto"), cache_size_mb: 256 }
    }

    /// Sets the backend.
    pub fn backend(self, backend: &str) -> (c: DatabaseConfig)
        ensures
            c.spec_parts() == (backend@, self.spec_parts().1),
    {
        DatabaseConfig { backend: String::from_str(backend), cache_size_mb: self.cache_size_mb }
    }

    /// Sets the cache size in MB.
    pub fn cache_size_mb(self, size: usize) -> (c: DatabaseConfig)
        ensures
            c.spec_parts() == (self.spec_parts().0, size),
    {
        DatabaseConfig { backend: self.backend, cache_size_mb: size }
    }

    /// The backend.
    pub fn backend_name(&self) -> (s: &str)
        ensures
            s@ == self.spec_parts().0,
    {
        self.backend.as_str()
    }

    /// The cache size in MB.
    pub fn cache_size(&self) -> (n: usize)
        ensures
            n == self.spec_parts().1,
    {
        self.cache_size_mb
    }
}

impl Default for DatabaseConfig {
    fn default() -> (c: DatabaseConfig)
        ensures
            c.spec_parts() == ("auto"@, 256usize),
    {
        DatabaseConfig::new()
    }
}

} // verus!
