//! Failure taxonomy of the decoder.
//!
//! Every decode step fails fast: the first error encountered ends the parse,
//! and none of the variants is recoverable within a single parse attempt.

use vstd::prelude::*;

verus! {

/// The ways a parse can fail.
///
/// Ill-formed UTF-16 text in a directory record is deliberately *not* an
/// error: record names are decoded lossily, because the format does not
/// guarantee well-formed text. Structural faults, listed here, are fatal.
#[derive(Clone, Copy, Debug, PartialEq, Eq, Structural)]
pub enum ParseError {
    /// The buffer does not begin with the expected 8-byte signature
    /// (including the case of a buffer shorter than the signature).
    SignatureMismatch,
    /// A block or record read would exceed the bounds of the buffer, or an
    /// allocation-index lookup lies outside the allocation index.
    OutOfRange,
    /// The two redundantly stored root-offset header fields disagree.
    InconsistentHeader,
    /// The root directory name is not valid UTF-8.
    InvalidEncoding,
    /// A directory page carries a non-zero mode tag: an internal (non-leaf)
    /// page, which this decoder does not support.
    UnsupportedPageMode,
}

impl ParseError {
    /// The human-readable description belonging to each failure.
    pub open spec fn spec_message(&self) -> Seq<char> {
        match self {
            ParseError::SignatureMismatch => "Signature does not match a DS_Store file"@,
            ParseError::OutOfRange => "Failed to parse block: offset out of range"@,
            ParseError::InconsistentHeader => "Root block offsets do not match"@,
            ParseError::InvalidEncoding => "Root node name contains illegal UTF-8 sequence"@,
            ParseError::UnsupportedPageMode => "Internal directory pages are not supported"@,
        }
    }

    /// A human-readable description of the failure.
    pub fn message(&self) -> (r: String)
        ensures
            r@ == self.spec_message(),
            r@.len() > 0,
    {
        let s = match self {
            ParseError::SignatureMismatch => "Signature does not match a DS_Store file",
            ParseError::OutOfRange => "Failed to parse block: offset out of range",
            ParseError::InconsistentHeader => "Root block offsets do not match",
            ParseError::InvalidEncoding => "Root node name contains illegal UTF-8 sequence",
            ParseError::UnsupportedPageMode => "Internal directory pages are not supported",
        };
        proof {
            reveal_strlit("Signature does not match a DS_Store file");
            reveal_strlit("Failed to parse block: offset out of range");
            reveal_strlit("Root block offsets do not match");
            reveal_strlit("Root node name contains illegal UTF-8 sequence");
            reveal_strlit("Internal directory pages are not supported");
        }
        s.to_owned()
    }
}

} // verus!
