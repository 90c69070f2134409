use vstd::prelude::*;

verus! {

/// Why a document, or one of its elements, could not be decoded, with the name that
/// locates the failure.
#[derive(Debug, PartialEq, Eq)]
pub enum DecodeError {
    /// A node's tag (or a collection's name) is not the one its context requires; holds
    /// the one required.
    UnexpectedTag(String),
    /// A required attribute (`name`, `enabled`, `testname`, `elementType`) is absent;
    /// holds its name.
    MissingAttribute(String),
    /// Text could not be read as the requested boolean or integer; holds the name of the
    /// property or attribute that held it.
    TypeMismatch(String),
    /// A composite node has the wrong number of element children for its shape; holds the
    /// shape.
    ArityMismatch(String),
    /// A required named sub-property is not among a node's children; holds the name sought.
    MissingChild(String),
    /// An `elementType` discriminator names no shape that fits; holds the discriminator.
    UnknownVariant(String),
    /// A sibling-group has an odd number of children, or the document's wrapper is malformed.
    MalformedTree,
}

/// The view of a decoding error: the same kind, with the name as characters.
pub enum DecodeErrorView {
    UnexpectedTag(Seq<char>),
    MissingAttribute(Seq<char>),
    TypeMismatch(Seq<char>),
    ArityMismatch(Seq<char>),
    MissingChild(Seq<char>),
    UnknownVariant(Seq<char>),
    MalformedTree,
}

impl View for DecodeError {
    type V = DecodeErrorView;

    open spec fn view(&self) -> DecodeErrorView {
        match self {
            DecodeError::UnexpectedTag(s) => DecodeErrorView::UnexpectedTag(s@),
            DecodeError::MissingAttribute(s) => DecodeErrorView::MissingAttribute(s@),
            DecodeError::TypeMismatch(s) => DecodeErrorView::TypeMismatch(s@),
            DecodeError::ArityMismatch(s) => DecodeErrorView::ArityMismatch(s@),
            DecodeError::MissingChild(s) => DecodeErrorView::MissingChild(s@),
            DecodeError::UnknownVariant(s) => DecodeErrorView::UnknownVariant(s@),
            DecodeError::MalformedTree => DecodeErrorView::MalformedTree,
        }
    }
}

/// The view of a decoding result: the decoded value's view, or the error's.
pub open spec fn view_result<T: View>(r: Result<T, DecodeError>) -> Result<T::V, DecodeErrorView> {
    match r {
        Ok(v) => Ok(v@),
        Err(e) => Err(e@),
    }
}

} // verus!
