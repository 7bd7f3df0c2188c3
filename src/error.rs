//! Errors of the stream layer and of the gzip framing.
use vstd::prelude::*;

verus! {

/// The I/O error kind that a stream error is reported as.
#[derive(Clone, Copy, Debug, PartialEq, Eq, Structural)]
pub enum ErrorKind {
    InvalidInput,
    UnexpectedEof,
}

/// A failure of a stream adapter.
#[derive(Clone, Copy, Debug, PartialEq, Eq, Structural)]
pub enum StreamError {
    /// The gzip header is malformed, or the input ended inside it.
    InvalidHeader,
    /// A gzip header or trailer checksum does not match the data.
    ChecksumMismatch,
    /// The DEFLATE engine rejected its input.
    CorruptDeflate,
    /// The input ended inside the gzip trailer.
    UnexpectedEof,
}

pub open spec fn spec_kind(e: StreamError) -> ErrorKind {
    match e {
        StreamError::UnexpectedEof => ErrorKind::UnexpectedEof,
        _ => ErrorKind::InvalidInput,
    }
}

impl StreamError {
    /// The I/O error kind for this error.
    pub fn kind(&self) -> (r: ErrorKind)
        ensures
            r == spec_kind(*self),
    {
        match self {
            StreamError::UnexpectedEof => ErrorKind::UnexpectedEof,
            _ => ErrorKind::InvalidInput,
        }
    }

    /// The message reported with this error.
    pub fn message(&self) -> (r: &'static str)
        ensures
            *self == StreamError::InvalidHeader ==> r == "invalid gzip header",
            *self == StreamError::ChecksumMismatch ==> r
                == "corrupt gzip stream does not have a matching checksum",
            *self == StreamError::CorruptDeflate ==> r == "corrupt deflate stream",
            *self == StreamError::UnexpectedEof ==> r == "unexpected end of file",
    {
        match self {
            StreamError::InvalidHeader => "invalid gzip header",
            StreamError::ChecksumMismatch => "corrupt gzip stream does not have a matching checksum",
            StreamError::CorruptDeflate => "corrupt deflate stream",
            StreamError::UnexpectedEof => "unexpected end of file",
        }
    }
}

} // verus!
