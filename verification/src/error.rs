//! The failures that reading and writing objects can report.

use crate::kind::ObjectType;
use vstd::prelude::*;

verus! {

/// Why a stream of bytes is not an object.
#[derive(Clone, Debug, PartialEq, Eq)]
pub enum CodecError {
    /// The stream ends before the space after the type, or before the NUL
    /// after the length.
    MalformedHeader,
    /// The header's type is none of the four known names.
    UnknownType { token: Vec<u8> },
    /// The header's length field denotes no number that fits in `usize`.
    InvalidLength,
    /// The content is not as long as the header declares.
    SizeMismatch { declared: usize, actual: usize },
    /// The header is sound, but objects of this kind have no structure yet.
    UnimplementedStructure { kind: ObjectType },
}

/// A `CodecError` as a mathematical value.
pub enum CodecErrorView {
    MalformedHeader,
    UnknownType { token: Seq<u8> },
    InvalidLength,
    SizeMismatch { declared: nat, actual: nat },
    UnimplementedStructure { kind: ObjectType },
}

impl View for CodecError {
    type V = CodecErrorView;

    open spec fn view(&self) -> CodecErrorView {
        match *self {
            CodecError::MalformedHeader => CodecErrorView::MalformedHeader,
            CodecError::UnknownType { token } => CodecErrorView::UnknownType { token: token@ },
            CodecError::InvalidLength => CodecErrorView::InvalidLength,
            CodecError::SizeMismatch { declared, actual } => CodecErrorView::SizeMismatch {
                declared: declared as nat,
                actual: actual as nat,
            },
            CodecError::UnimplementedStructure { kind } => CodecErrorView::UnimplementedStructure {
                kind,
            },
        }
    }
}

/// Why the store could not hand over or take an object's bytes.
#[derive(Clone, Copy, Debug, PartialEq, Eq, Structural)]
pub enum StoreError {
    /// No object is kept under the digest.
    NotFound,
    /// The bytes could not be read, written, compressed or decompressed.
    IOFailure,
}

/// Any failure of this library.
#[derive(Clone, Debug, PartialEq, Eq)]
pub enum Error {
    Codec(CodecError),
    Store(StoreError),
    /// Two sinks behind one writer took different numbers of bytes from the
    /// same write.
    SinkDivergence { first: usize, second: usize },
}

/// An `Error` as a mathematical value.
pub enum ErrorView {
    Codec(CodecErrorView),
    Store(StoreError),
    SinkDivergence { first: usize, second: usize },
}

impl View for Error {
    type V = ErrorView;

    open spec fn view(&self) -> ErrorView {
        match *self {
            Error::Codec(e) => ErrorView::Codec(e@),
            Error::Store(e) => ErrorView::Store(e),
            Error::SinkDivergence { first, second } => ErrorView::SinkDivergence { first, second },
        }
    }
}

} // verus!
