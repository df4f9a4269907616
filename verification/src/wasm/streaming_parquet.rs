//! Reading a Parquet file in ranges, footer first.
//!
//! A file ends with its metadata, the length of the metadata as four
//! bytes, least significant first, and the four bytes `PAR1`. The reader
//! asks for the last eight bytes, learns from them where the metadata
//! lies, and from the metadata where each row group and column chunk lies.
//! What is decided here is which bytes to ask for; the requests are made
//! by the caller.

use vstd::prelude::*;
use vstd::string::*;
use crate::error::{Error, ErrorKind};
use crate::wasm::http_range::ByteRange;

verus! {

/// The four bytes at both ends of a file: `PAR1`.
pub const PARQUET_MAGIC: [u8; 4] = [0x50, 0x41, 0x52, 0x31];

/// The bytes of the tail: the length of the metadata and the magic.
pub const FOOTER_METADATA_SIZE: u64 = 8;

/// The most bytes of metadata that the reader accepts: 10 MiB.
pub const MAX_FOOTER_SIZE: u64 = 10 * 1024 * 1024;

/// Metadata of a file.
#[derive(Debug, Clone)]
pub struct ParquetMetadata {
    pub num_rows: i64,
    pub row_groups: Vec<RowGroupMetadata>,
    pub schema: ParquetSchema,
}

/// Metadata of a row group.
#[derive(Debug, Clone)]
pub struct RowGroupMetadata {
    pub num_rows: i64,
    pub file_offset: u64,
    pub total_byte_size: u64,
    pub columns: Vec<ColumnChunkMetadata>,
}

/// Metadata of a column chunk.
#[derive(Debug, Clone)]
pub struct ColumnChunkMetadata {
    pub name: String,
    pub file_offset: u64,
    pub total_compressed_size: u64,
    pub statistics: Option<ColumnStatistics>,
}

/// Statistics of a column chunk, for predicate pushdown.
#[derive(Debug, Clone)]
pub struct ColumnStatistics {
    pub min: Vec<u8>,
    pub max: Vec<u8>,
    pub null_count: i64,
}

/// The names of the columns of a file.
#[derive(Debug, Clone)]
pub struct ParquetSchema {
    pub columns: Vec<String>,
}

impl Default for ParquetSchema {
    fn default() -> (s: ParquetSchema)
        ensures
            s.columns@.len() == 0,
    {
        ParquetSchema { columns: Vec::new() }
    }
}

/// The length of the metadata that a tail gives: its first four bytes,
/// least significant first.
pub open spec fn spec_footer_length(tail: Seq<u8>) -> int {
    tail[0] as int + 256 * (tail[1] as int) + 65536 * (tail[2] as int) + 16777216 * (tail[3] as int)
}

/// Whether a tail ends with the magic.
pub open spec fn spec_has_magic(tail: Seq<u8>) -> bool {
    tail[4] == 0x50 && tail[5] == 0x41 && tail[6] == 0x52 && tail[7] == 0x31
}

/// The range of the metadata of a file of `file_size` bytes with the
/// given tail; nothing where the tail is short or lacks the magic, where
/// the metadata is empty or longer than the reader accepts, or where it
/// would start before the file does.
pub open spec fn spec_footer_range(file_size: u64, tail: Seq<u8>) -> Option<ByteRange> {
    if tail.len() < 8 || !spec_has_magic(tail) {
        None
    } else {
        let length = spec_footer_length(tail);
        if length == 0 || length > MAX_FOOTER_SIZE || file_size < FOOTER_METADATA_SIZE + length {
            None
        } else {
            Some(
                ByteRange {
                    start: (file_size - FOOTER_METADATA_SIZE - length) as u64,
                    end: (file_size - FOOTER_METADATA_SIZE - 1) as u64,
                },
            )
        }
    }
}

/// The range of `size` bytes at `offset`; nothing where there is no byte
/// or where the range would pass the greatest offset.
pub open spec fn spec_chunk_range(offset: u64, size: u64) -> Option<ByteRange> {
    if size == 0 || offset + size - 1 > u64::MAX {
        None
    } else {
        Some(ByteRange { start: offset, end: (offset + size - 1) as u64 })
    }
}

/// The range of `size` bytes at `offset`.
pub fn chunk_range(offset: u64, size: u64) -> (r: Option<ByteRange>)
    ensures
        r == spec_chunk_range(offset, size),
{
    if size == 0 || size - 1 > u64::MAX - offset {
        None
    } else {
        Some(ByteRange { start: offset, end: offset + (size - 1) })
    }
}

/// A reader of one file.
#[derive(Debug)]
pub struct StreamingParquetReader {
    file_size: u64,
    metadata: Option<ParquetMetadata>,
}

impl StreamingParquetReader {
    /// The size of the file.
    pub closed spec fn spec_file_size(&self) -> u64 {
        self.file_size
    }

    /// The metadata, once it is loaded.
    pub closed spec fn spec_metadata(&self) -> Option<ParquetMetadata> {
        self.metadata
    }

    /// A reader of a file of the given size, without metadata yet.
    pub fn new(file_size: u64) -> (r: StreamingParquetReader)
        ensures
            r.spec_file_size() == file_size,
            r.spec_metadata() is None,
    {
        StreamingParquetReader { file_size, metadata: None }
    }

    /// The size of the file.
    pub fn file_size(&self) -> (n: u64)
        ensures
            n == self.spec_file_size(),
    {
        self.file_size
    }

    /// The metadata, once it is loaded.
    pub fn metadata(&self) -> (m: Option<&ParquetMetadata>)
        ensures
            match m {
                Some(d) => self.spec_metadata() == Some(*d),
                None => self.spec_metadata() is None,
            },
    {
        match &self.metadata {
            Some(m) => Some(m),
            None => None,
        }
    }

    /// The range of the tail: the last eight bytes. Fails with `Io` when
    /// the file has fewer.
    pub fn tail_range(&self) -> (r: Result<ByteRange, Error>)
        ensures
            match r {
                Ok(range) => self.spec_file_size() >= 8 && range == (ByteRange {
                    start: (self.spec_file_size() - 8) as u64,
                    end: (self.spec_file_size() - 1) as u64,
                }),
                Err(e) => self.spec_file_size() < 8 && e.spec_kind() == ErrorKind::Io,
            },
    {
        if self.file_size < FOOTER_METADATA_SIZE {
            return Err(Error::Io(String::from_str("Invalid Parquet file: too short")));
        }
        Ok(
            ByteRange {
                start: self.file_size - FOOTER_METADATA_SIZE,
                end: self.file_size - 1,
            },
        )
    }

    /// The range of the metadata, from the tail: see [`spec_footer_range`].
    /// Fails with `Io` where there is none.
    pub fn footer_range(&self, tail: &[u8]) -> (r: Result<ByteRange, Error>)
        ensures
            match r {
                Ok(range) => spec_footer_range(self.spec_file_size(), tail@) == Some(range),
                Err(e) => spec_footer_range(self.spec_file_size(), tail@) is None && e.spec_kind()
                    == ErrorKind::Io,
            },
    {
        if tail.len() < 8 {
            return Err(Error::Io(String::from_str("Invalid Parquet file: short tail")));
        }
        if tail[4] != 0x50 || tail[5] != 0x41 || tail[6] != 0x52 || tail[7] != 0x31 {
            return Err(Error::Io(String::from_str("Invalid Parquet file: missing magic number")));
        }
        let length: u64 = tail[0] as u64 + 256 * (tail[1] as u64) + 65536 * (tail[2] as u64)
            + 16777216 * (tail[3] as u64);
        if length > MAX_FOOTER_SIZE {
            return Err(Error::Io(String::from_str("Footer too large")));
        }
        if length == 0 || self.file_size < FOOTER_METADATA_SIZE + length {
            return Err(Error::Io(String::from_str("Invalid Parquet file: footer out of bounds")));
        }
        Ok(
            ByteRange {
                start: self.file_size - FOOTER_METADATA_SIZE - length,
                end: self.file_size - FOOTER_METADATA_SIZE - 1,
            },
        )
    }

    /// Reads the metadata from its bytes. The format of the metadata is
    /// not read yet: every file is taken to have no row group.
    pub fn parse_footer(&self, data: &[u8]) -> (m: ParquetMetadata)
        ensures
            m.num_rows == 0,
            m.row_groups@.len() == 0,
            m.schema.columns@.len() == 0,
    {
        ParquetMetadata { num_rows: 0, row_groups: Vec::new(), schema: ParquetSchema::default() }
    }

    /// Keeps the metadata.
    pub fn set_metadata(&mut self, metadata: ParquetMetadata)
        ensures
            final(self).spec_file_size() == old(self).spec_file_size(),
            final(self).spec_metadata() == Some(metadata),
    {
        self.metadata = Some(metadata);
    }

    /// The range of a row group. Fails with `InvalidInput` when the
    /// metadata is not loaded, when there is no such row group, or when
    /// the row group has no byte or passes the greatest offset.
    pub fn row_group_range(&self, index: usize) -> (r: Result<ByteRange, Error>)
        ensures
            match r {
                Ok(range) => self.spec_metadata() matches Some(m) && index < m.row_groups@.len()
                    && spec_chunk_range(
                    m.row_groups@[index as int].file_offset,
                    m.row_groups@[index as int].total_byte_size,
                ) == Some(range),
                Err(e) => e.spec_kind() == ErrorKind::InvalidInput && match self.spec_metadata() {
                    Some(m) => index >= m.row_groups@.len() || spec_chunk_range(
                        m.row_groups@[index as int].file_offset,
                        m.row_groups@[index as int].total_byte_size,
                    ) is None,
                    None => true,
                },
            },
    {
        let metadata = match &self.metadata {
            Some(m) => m,
            None => {
                return Err(
                    Error::InvalidInput(
                        String::from_str("Metadata not loaded. Call read_metadata() first"),
                    ),
                );
            },
        };
        if index >= metadata.row_groups.len() {
            return Err(Error::InvalidInput(String::from_str("Row group index out of bounds")));
        }
        let group = &metadata.row_groups[index];
        match chunk_range(group.file_offset, group.total_byte_size) {
            Some(range) => Ok(range),
            None => Err(Error::InvalidInput(String::from_str("Row group has no byte range"))),
        }
    }

    /// The ranges of column chunks of a row group, in the order asked for.
    /// Fails with `InvalidInput` when the metadata is not loaded, when
    /// there is no such row group or column, or when a chunk has no byte
    /// or passes the greatest offset.
    pub fn column_ranges(&self, row_group_index: usize, column_indices: &[usize]) -> (r: Result<
        Vec<ByteRange>,
        Error,
    >)
        ensures
            r matches Err(e) ==> e.spec_kind() == ErrorKind::InvalidInput,
            r matches Ok(ranges) ==> self.spec_metadata() matches Some(m) && row_group_index
                < m.row_groups@.len() && ranges@.len() == column_indices@.len() && forall|j: int|
                0 <= j < ranges@.len() ==> (#[trigger] column_indices@[j])
                    < m.row_groups@[row_group_index as int].columns@.len() && spec_chunk_range(
                    m.row_groups@[row_group_index as int].columns@[column_indices@[j] as int].file_offset,
                    m.row_groups@[row_group_index as int].columns@[column_indices@[j] as int].total_compressed_size,
                ) == Some(ranges@[j]),
    {
        let metadata = match &self.metadata {
            Some(m) => m,
            None => {
                return Err(Error::InvalidInput(String::from_str("Metadata not loaded")));
            },
        };
        if row_group_index >= metadata.row_groups.len() {
            return Err(Error::InvalidInput(String::from_str("Row group index out of bounds")));
        }
        let group = &metadata.row_groups[row_group_index];
        let n = column_indices.len();
        let mut ranges: Vec<ByteRange> = Vec::with_capacity(n);
        let mut j: usize = 0;
        while j < n
            invariant
                n == column_indices@.len(),
                j <= n,
                ranges@.len() == j,
                forall|t: int|
                    0 <= t < j ==> (#[trigger] column_indices@[t]) < group.columns@.len()
                        && spec_chunk_range(
                        group.columns@[column_indices@[t] as int].file_offset,
                        group.columns@[column_indices@[t] as int].total_compressed_size,
                    ) == Some(ranges@[t]),
            decreases n - j,
        {
            let c = column_indices[j];
            if c >= group.columns.len() {
                return Err(Error::InvalidInput(String::from_str("Column index out of bounds")));
            }
            let chunk = &group.columns[c];
            match chunk_range(chunk.file_offset, chunk.total_compressed_size) {
                Some(range) => {
                    ranges.push(range);
                },
                None => {
                    return Err(
                        Error::InvalidInput(String::from_str("Column chunk has no byte range")),
                    );
                },
            }
            j += 1;
        }
        Ok(ranges)
    }
}

} // verus!
