use vstd::prelude::*;

verus! {

/// A scalar whose text breaks its grammar.
#[derive(Debug, Clone, Copy, PartialEq, Eq, Structural)]
pub enum ParseError {
    /// The text does not follow the grammar at all.
    Format,
    /// A locator whose scheme is not the one allowed.
    Scheme,
}

/// A structural or codec failure while decoding a document value.
#[derive(Debug, Clone, Copy, PartialEq, Eq, Structural)]
pub enum DecodeError {
    /// Text that is not unpadded base64url.
    Encoding,
    /// A signature whose declared algorithm disagrees with its length.
    AlgMismatch,
    /// A signature whose length is no digest size.
    UnsupportedLength,
    /// A content map that is neither inline nor a reference.
    AmbiguousContent,
    /// The reserved structured-text body encoding.
    Unimplemented,
    /// An algorithm or encoding label that is not known.
    UnknownLabel,
    /// A field whose value has the wrong kind (text where bytes are due, ...).
    InvalidType,
    /// A required field is absent.
    MissingField,
    /// A scalar field whose text breaks its grammar.
    Scalar(ParseError),
}

/// The view of a decoding result.
pub open spec fn view_result<T: View, E>(r: Result<T, E>) -> Result<T::V, E> {
    match r {
        Ok(t) => Ok(t@),
        Err(e) => Err(e),
    }
}

} // verus!
