//! The error type shared by every component.

use vstd::prelude::*;
use vstd::string::*;

verus! {

#[verifier::external_type_specification]
#[verifier::external_body]
pub struct ExIoError(std::io::Error);

/// The `Display` text of a `std::io::Error`.
#[verifier::external_body]
pub(crate) fn io_error_text(e: &std::io::Error) -> String {
    e.to_string()
}

/// A failure of the engine.
#[derive(Debug)]
pub enum Error {
    /// GPU initialisation failed; the SIMD path remains available.
    GpuInitFailed(String),
    /// GPU memory ran out although morsels bound every transfer.
    VramExhausted(String),
    /// The GPU and the SIMD path disagreed on a result.
    BackendMismatch {
        /// Result computed on the GPU.
        gpu_result: String,
        /// Result computed on the SIMD path.
        simd_result: String,
    },
    /// The query text or a literal in it could not be parsed.
    ParseError(String),
    /// A storage operation failed.
    StorageError(String),
    /// A batch does not have the schema of the store it is appended to.
    SchemaMismatch(String),
    /// The operation is outside what a columnar, append-only store does.
    Unsupported(String),
    /// An argument names something that does not exist or is out of range.
    InvalidInput(String),
    /// The kernel exists in the interface but has no implementation yet.
    NotImplemented(String),
    /// The consumer side of the transfer queue is gone.
    QueueClosed,
    /// An I/O failure, carried as text.
    Io(String),
    /// A failure of the columnar format layer, carried as text.
    Arrow(String),
    /// Any other failure.
    Other(String),
}

/// The kind of an [`Error`], without its payload.
#[derive(Debug, Clone, Copy, PartialEq, Eq, Structural)]
pub enum ErrorKind {
    GpuInitFailed,
    VramExhausted,
    BackendMismatch,
    ParseError,
    StorageError,
    SchemaMismatch,
    Unsupported,
    InvalidInput,
    NotImplemented,
    QueueClosed,
    Io,
    Arrow,
    Other,
}

impl Error {
    /// The kind of this error.
    pub open spec fn spec_kind(&self) -> ErrorKind {
        match self {
            Error::GpuInitFailed(_) => ErrorKind::GpuInitFailed,
            Error::VramExhausted(_) => ErrorKind::VramExhausted,
            Error::BackendMismatch { .. } => ErrorKind::BackendMismatch,
            Error::ParseError(_) => ErrorKind::ParseError,
            Error::StorageError(_) => ErrorKind::StorageError,
            Error::SchemaMismatch(_) => ErrorKind::SchemaMismatch,
            Error::Unsupported(_) => ErrorKind::Unsupported,
            Error::InvalidInput(_) => ErrorKind::InvalidInput,
            Error::NotImplemented(_) => ErrorKind::NotImplemented,
            Error::QueueClosed => ErrorKind::QueueClosed,
            Error::Io(_) => ErrorKind::Io,
            Error::Arrow(_) => ErrorKind::Arrow,
            Error::Other(_) => ErrorKind::Other,
        }
    }

    /// The text an error carries; for a backend mismatch, the GPU result.
    pub open spec fn spec_detail(&self) -> Seq<char> {
        match self {
            Error::GpuInitFailed(m) => m@,
            Error::VramExhausted(m) => m@,
            Error::BackendMismatch { gpu_result, .. } => gpu_result@,
            Error::ParseError(m) => m@,
            Error::StorageError(m) => m@,
            Error::SchemaMismatch(m) => m@,
            Error::Unsupported(m) => m@,
            Error::InvalidInput(m) => m@,
            Error::NotImplemented(m) => m@,
            Error::QueueClosed => Seq::empty(),
            Error::Io(m) => m@,
            Error::Arrow(m) => m@,
            Error::Other(m) => m@,
        }
    }

    /// The text shown to a user: a prefix naming the kind, the detail, and
    /// for some kinds a line of guidance.
    pub open spec fn spec_message(&self) -> Seq<char> {
        match self {
            Error::GpuInitFailed(m) => "GPU initialization failed: "@ + m@
                + "\nFalling back to SIMD backend"@,
            Error::VramExhausted(m) => "VRAM exhausted: "@ + m@
                + "\nMorsel-based paging failed to prevent OOM. Please report this issue."@,
            Error::BackendMismatch { gpu_result, simd_result } =>
                "Backend equivalence failed: GPU result != SIMD result\nGPU: "@ + gpu_result@
                    + "\nSIMD: "@ + simd_result@,
            Error::ParseError(m) => "SQL parse error: "@ + m@,
            Error::StorageError(m) => "Storage error: "@ + m@,
            Error::SchemaMismatch(m) => "Schema mismatch: "@ + m@,
            Error::Unsupported(m) => "Unsupported: "@ + m@,
            Error::InvalidInput(m) => "Invalid input: "@ + m@,
            Error::NotImplemented(m) => "Not implemented: "@ + m@,
            Error::QueueClosed => "GPU transfer queue closed (receiver dropped)"@,
            Error::Io(m) => "IO error: "@ + m@,
            Error::Arrow(m) => "Arrow error: "@ + m@,
            Error::Other(m) => m@,
        }
    }

    /// The kind of this error.
    pub fn kind(&self) -> (k: ErrorKind)
        ensures
            k == self.spec_kind(),
    {
        match self {
            Error::GpuInitFailed(_) => ErrorKind::GpuInitFailed,
            Error::VramExhausted(_) => ErrorKind::VramExhausted,
            Error::BackendMismatch { .. } => ErrorKind::BackendMismatch,
            Error::ParseError(_) => ErrorKind::ParseError,
            Error::StorageError(_) => ErrorKind::StorageError,
            Error::SchemaMismatch(_) => ErrorKind::SchemaMismatch,
            Error::Unsupported(_) => ErrorKind::Unsupported,
            Error::InvalidInput(_) => ErrorKind::InvalidInput,
            Error::NotImplemented(_) => ErrorKind::NotImplemented,
            Error::QueueClosed => ErrorKind::QueueClosed,
            Error::Io(_) => ErrorKind::Io,
            Error::Arrow(_) => ErrorKind::Arrow,
            Error::Other(_) => ErrorKind::Other,
        }
    }

    /// The text shown to a user.
    pub fn message(&self) -> (s: String)
        ensures
            s@ == self.spec_message(),
    {
        match self {
            Error::GpuInitFailed(m) => String::from_str("GPU initialization failed: ").concat(
                m.as_str(),
            ).concat("\nFalling back to SIMD backend"),
            Error::VramExhausted(m) => String::from_str("VRAM exhausted: ").concat(
                m.as_str(),
            ).concat(
                "\nMorsel-based paging failed to prevent OOM. Please report this issue.",
            ),
            Error::BackendMismatch { gpu_result, simd_result } => String::from_str(
                "Backend equivalence failed: GPU result != SIMD result\nGPU: ",
            ).concat(gpu_result.as_str()).concat("\nSIMD: ").concat(simd_result.as_str()),
            Error::ParseError(m) => String::from_str("SQL parse error: ").concat(m.as_str()),
            Error::StorageError(m) => String::from_str("Storage error: ").concat(m.as_str()),
            Error::SchemaMismatch(m) => String::from_str("Schema mismatch: ").concat(m.as_str()),
            Error::Unsupported(m) => String::from_str("Unsupported: ").concat(m.as_str()),
            Error::InvalidInput(m) => String::from_str("Invalid input: ").concat(m.as_str()),
            Error::NotImplemented(m) => String::from_str("Not implemented: ").concat(m.as_str()),
            Error::QueueClosed => String::from_str("GPU transfer queue closed (receiver dropped)"),
            Error::Io(m) => String::from_str("IO error: ").concat(m.as_str()),
            Error::Arrow(m) => String::from_str("Arrow error: ").concat(m.as_str()),
            Error::Other(m) => m.clone(),
        }
    }
}

impl From<std::io::Error> for Error {
    /// An I/O failure becomes an `Io` error that carries its text.
    fn from(e: std::io::Error) -> (r: Error)
        ensures
            r.spec_kind() == ErrorKind::Io,
    {
        Error::Io(io_error_text(&e))
    }
}

impl vstd::std_specs::convert::FromSpecImpl<std::io::Error> for Error {
    open spec fn obeys_from_spec() -> bool {
        false
    }

    open spec fn from_spec(e: std::io::Error) -> Error {
        arbitrary()
    }
}

} // verus!
