use vstd::prelude::*;

verus! {

/// Terminal decode failures. None of these is retried internally: once a
/// stream reports one, the stream is exhausted and must not be pulled again.
#[derive(Clone, Copy, PartialEq, Eq, Structural, Debug)]
pub enum DecodeError {
    /// The source ended in the middle of a 512-byte header record.
    TruncatedHeader,
    /// The source ended in the middle of a skip or a content read.
    UnexpectedEnd,
    /// A header's stored checksum does not match the computed sum.
    ChecksumMismatch,
    /// A numeric header field could not be parsed as an octal number.
    InvalidNumericField,
    /// Two continuation records of the same kind describe one upcoming entry.
    DuplicateContinuation,
    /// A sparse fragment begins while consumed data is not 512-byte aligned.
    MisalignedFragment,
    /// A sparse fragment starts before the end of the previous one.
    OutOfOrderFragment,
    /// Sparse fragments consume more data than the header declared.
    OverrunFragment,
    /// A byte position does not fit in 64 bits.
    OffsetOverflow,
    /// The sparse fragment list does not account for the declared sizes.
    SparseSizeMismatch,
    /// An entry stream was requested while the source is not at position 0.
    NotAtStart,
}

impl DecodeError {
    /// A short human-readable description of the failure.
    pub fn describe(&self) -> (r: &'static str)
    {
        match self {
            DecodeError::TruncatedHeader => "failed to read entire header block",
            DecodeError::UnexpectedEnd => "unexpected end of stream",
            DecodeError::ChecksumMismatch => "archive header checksum mismatch",
            DecodeError::InvalidNumericField => "invalid numeric field in header",
            DecodeError::DuplicateContinuation => {
                "two continuation records describing the same member"
            }
            DecodeError::MisalignedFragment => {
                "previous block in sparse file was not aligned to 512-byte boundary"
            }
            DecodeError::OutOfOrderFragment => "out of order or overlapping sparse blocks",
            DecodeError::OverrunFragment => {
                "sparse file consumed more data than the header listed"
            }
            DecodeError::OffsetOverflow => "more bytes listed than a 64-bit offset can hold",
            DecodeError::SparseSizeMismatch => {
                "mismatch in sparse file chunks and size in header"
            }
            DecodeError::NotAtStart => "stream must be at position 0",
        }
    }
}

}
