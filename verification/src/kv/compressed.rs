//! Transparent compression of the values of a key-value store.

use vstd::prelude::*;
use vstd::string::*;
use crate::error::{io_error_text, Error, ErrorKind};
use crate::kv::KvStore;

verus! {

#[verifier::external_type_specification]
#[verifier::external_body]
pub struct ExDecompressError(lz4_flex::block::DecompressError);

/// The LZ4 block of some bytes, with their length before it.
pub uninterp spec fn spec_lz4_compress(data: Seq<u8>) -> Seq<u8>;

/// The bytes of an LZ4 block with a length before it; nothing where the
/// input is no such block.
pub uninterp spec fn spec_lz4_decompress(data: Seq<u8>) -> Option<Seq<u8>>;

/// The ZSTD frame of some bytes at a compression level; nothing where the
/// encoder fails.
pub uninterp spec fn spec_zstd_encode(data: Seq<u8>, level: i32) -> Option<Seq<u8>>;

/// The bytes of a ZSTD frame; nothing where the input is no such frame.
pub uninterp spec fn spec_zstd_decode(data: Seq<u8>) -> Option<Seq<u8>>;

/// `lz4_flex::compress_prepend_size`. The contract names the result.
#[verifier::external_body]
fn lz4_compress(data: &[u8]) -> (r: Vec<u8>)
    ensures
        r@ == spec_lz4_compress(data@),
{
    lz4_flex::compress_prepend_size(data)
}

/// `lz4_flex::decompress_size_prepended`, with the checked decoder that the
/// crate builds by default: input that is no block is an error. The decoder
/// adds up each run of `0xFF` length bytes in 32 bits without a check, so
/// input with a run that could exceed them is left out. The contract names
/// the result.
#[verifier::external_body]
fn lz4_decompress(data: &[u8]) -> (r: Result<Vec<u8>, lz4_flex::block::DecompressError>)
    requires
        !spec_overlong_run(data@),
    ensures
        match r {
            Ok(v) => spec_lz4_decompress(data@) == Some(v@),
            Err(_) => spec_lz4_decompress(data@) is None,
        },
{
    lz4_flex::decompress_size_prepended(data)
}

/// The `Display` text of a `DecompressError`.
#[verifier::external_body]
fn lz4_error_text(e: &lz4_flex::block::DecompressError) -> String {
    e.to_string()
}

/// `zstd::encode_all` on a slice. The contract names the result.
#[verifier::external_body]
fn zstd_encode(data: &[u8], level: i32) -> (r: Result<Vec<u8>, std::io::Error>)
    ensures
        match r {
            Ok(v) => spec_zstd_encode(data@, level) == Some(v@),
            Err(_) => spec_zstd_encode(data@, level) is None,
        },
{
    zstd::encode_all(data, level)
}

/// `zstd::decode_all` on a slice. The contract names the result.
#[verifier::external_body]
fn zstd_decode(data: &[u8]) -> (r: Result<Vec<u8>, std::io::Error>)
    ensures
        match r {
            Ok(v) => spec_zstd_decode(data@) == Some(v@),
            Err(_) => spec_zstd_decode(data@) is None,
        },
{
    zstd::decode_all(data)
}

/// The ZSTD compression level of the store.
pub const ZSTD_LEVEL: i32 = 3;

/// The longest run of `0xFF` bytes accepted in LZ4 input. A length in a
/// block is the sum of a run of such bytes and the byte after it, held in
/// 32 bits: up to this many bytes, the sum fits.
pub const LZ4_RUN_LIMIT: usize = 16_843_008;

/// The number of `0xFF` bytes that end just before position `i`.
pub open spec fn spec_run_before(data: Seq<u8>, i: int) -> int
    decreases i,
{
    if 0 < i <= data.len() && data[i - 1] == 0xFFu8 {
        1 + spec_run_before(data, i - 1)
    } else {
        0
    }
}

/// Whether the bytes hold a run of `0xFF` bytes longer than
/// [`LZ4_RUN_LIMIT`].
pub open spec fn spec_overlong_run(data: Seq<u8>) -> bool {
    exists|i: int| 0 <= i <= data.len() && #[trigger] spec_run_before(data, i) > LZ4_RUN_LIMIT
}

/// Whether the bytes hold a run of `0xFF` bytes longer than
/// [`LZ4_RUN_LIMIT`].
pub fn has_overlong_run(data: &[u8]) -> (r: bool)
    ensures
        r == spec_overlong_run(data@),
{
    let mut run: usize = 0;
    let mut i: usize = 0;
    while i < data.len()
        invariant
            i <= data.len(),
            run == spec_run_before(data@, i as int),
            run <= i,
            forall|j: int| 0 <= j <= i ==> #[trigger] spec_run_before(data@, j) <= LZ4_RUN_LIMIT,
        decreases data.len() - i,
    {
        if data[i] == 0xFF {
            run = run + 1;
        } else {
            run = 0;
        }
        i += 1;
        assert(run == spec_run_before(data@, i as int));
        if run > LZ4_RUN_LIMIT {
            return true;
        }
    }
    false
}

/// Compression algorithm for the values of a store.
#[derive(Debug, Clone, Copy, PartialEq, Eq, Structural)]
pub enum Compression {
    /// LZ4: fast.
    Lz4,
    /// ZSTD: smaller, slower.
    Zstd,
}

impl Default for Compression {
    fn default() -> (c: Compression)
        ensures
            c == Compression::Lz4,
    {
        Compression::Lz4
    }
}

impl Compression {
    /// The compressed form of some bytes: empty for no bytes.
    pub open spec fn spec_compress(self, data: Seq<u8>) -> Option<Seq<u8>> {
        if data.len() == 0 {
            Some(Seq::empty())
        } else {
            match self {
                Compression::Lz4 => Some(spec_lz4_compress(data)),
                Compression::Zstd => spec_zstd_encode(data, ZSTD_LEVEL),
            }
        }
    }

    /// The bytes of a compressed form: none for an empty one. LZ4 input
    /// with an overlong run of `0xFF` bytes is no compressed form.
    pub open spec fn spec_decompress(self, data: Seq<u8>) -> Option<Seq<u8>> {
        if data.len() == 0 {
            Some(Seq::empty())
        } else {
            match self {
                Compression::Lz4 => if spec_overlong_run(data) {
                    None
                } else {
                    spec_lz4_decompress(data)
                },
                Compression::Zstd => spec_zstd_decode(data),
            }
        }
    }

    /// The name of the algorithm.
    pub fn as_str(&self) -> (s: &'static str)
        ensures
            s@ == match self {
                Compression::Lz4 => "lz4"@,
                Compression::Zstd => "zstd"@,
            },
    {
        match self {
            Compression::Lz4 => "lz4",
            Compression::Zstd => "zstd",
        }
    }

    /// Compresses the bytes. No bytes compress to no bytes. Fails with
    /// `StorageError` where the encoder fails.
    pub fn compress(&self, data: &[u8]) -> (r: Result<Vec<u8>, Error>)
        ensures
            match r {
                Ok(v) => self.spec_compress(data@) == Some(v@),
                Err(e) => self.spec_compress(data@) is None && e.spec_kind()
                    == ErrorKind::StorageError,
            },
    {
        if data.len() == 0 {
            return Ok(Vec::new());
        }
        match self {
            Compression::Lz4 => Ok(lz4_compress(data)),
            Compression::Zstd => match zstd_encode(data, ZSTD_LEVEL) {
                Ok(v) => Ok(v),
                Err(e) => {
                    let mut msg = String::from_str("ZSTD compression failed: ");
                    msg.append(io_error_text(&e).as_str());
                    Err(Error::StorageError(msg))
                },
            },
        }
    }

    /// Decompresses the bytes. No bytes decompress to no bytes. Fails with
    /// `StorageError` where the input is not a compressed form; LZ4 input
    /// with an overlong run of `0xFF` bytes is refused before it is decoded.
    pub fn decompress(&self, data: &[u8]) -> (r: Result<Vec<u8>, Error>)
        ensures
            match r {
                Ok(v) => self.spec_decompress(data@) == Some(v@),
                Err(e) => self.spec_decompress(data@) is None && e.spec_kind()
                    == ErrorKind::StorageError,
            },
    {
        if data.len() == 0 {
            return Ok(Vec::new());
        }
        match self {
            Compression::Lz4 => if has_overlong_run(data) {
                Err(
                    Error::StorageError(
                        String::from_str("LZ4 decompression failed: length run too long"),
                    ),
                )
            } else {
                match lz4_decompress(data) {
                    Ok(v) => Ok(v),
                    Err(e) => {
                        let mut msg = String::from_str("LZ4 decompression failed: ");
                        msg.append(lz4_error_text(&e).as_str());
                        Err(Error::StorageError(msg))
                    },
                }
            },
            Compression::Zstd => match zstd_decode(data) {
                Ok(v) => Ok(v),
                Err(e) => {
                    let mut msg = String::from_str("ZSTD decompression failed: ");
                    msg.append(io_error_text(&e).as_str());
                    Err(Error::StorageError(msg))
                },
            },
        }
    }
}

/// A store that compresses values on the way into another store and
/// decompresses them on the way out.
pub struct CompressedKvStore<S: KvStore> {
    inner: S,
    compression: Compression,
}

impl<S: KvStore> CompressedKvStore<S> {
    /// The store inside and the algorithm.
    pub closed spec fn spec_parts(&self) -> (S, Compression) {
        (self.inner, self.compression)
    }

    /// Wraps a store.
    pub fn new(inner: S, compression: Compression) -> (s: Self)
        ensures
            s.spec_parts() == (inner, compression),
    {
        CompressedKvStore { inner, compression }
    }

    /// The store inside.
    pub fn inner(&self) -> (s: &S)
        ensures
            *s == self.spec_parts().0,
    {
        &self.inner
    }

    /// The algorithm.
    pub fn compression(&self) -> (c: Compression)
        ensures
            c == self.spec_parts().1,
    {
        self.compression
    }
}

impl<S: KvStore> KvStore for CompressedKvStore<S> {
    closed spec fn spec_entries(&self) -> Map<Seq<char>, Seq<u8>> {
        self.inner.spec_entries()
    }

    closed spec fn spec_encode(&self, value: Seq<u8>) -> Option<Seq<u8>> {
        match self.compression.spec_compress(value) {
            Some(c) => self.inner.spec_encode(c),
            None => None,
        }
    }

    closed spec fn spec_decode(&self, held: Seq<u8>) -> Option<Seq<u8>> {
        match self.inner.spec_decode(held) {
            Some(c) => self.compression.spec_decompress(c),
            None => None,
        }
    }

    fn get(&self, key: &str) -> (r: Result<Option<Vec<u8>>, Error>) {
        match self.inner.get(key) {
            Ok(Some(compressed)) => match self.compression.decompress(compressed.as_slice()) {
                Ok(v) => Ok(Some(v)),
                Err(e) => Err(e),
            },
            Ok(None) => Ok(None),
            Err(e) => Err(e),
        }
    }

    fn set(&mut self, key: &str, value: Vec<u8>) -> (r: Result<(), Error>) {
        match self.compression.compress(value.as_slice()) {
            Ok(compressed) => self.inner.set(key, compressed),
            Err(e) => Err(e),
        }
    }

    fn delete(&mut self, key: &str) -> (r: Result<(), Error>) {
        self.inner.delete(key)
    }

    fn contains(&self, key: &str) -> (r: Result<bool, Error>) {
        self.inner.contains(key)
    }
}

} // verus!
