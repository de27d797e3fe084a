//! Layout core of a typesetting-language compiler.
//!
//! The crate turns a tree of layout nodes into concrete geometric boxes
//! (frames) positioned within page regions, and hosts the mechanism by which
//! document markup invokes layout-affecting functions (padding, boxes) with
//! validated, deduplicated arguments.
//!
//! Lengths mix an absolute part with a part relative to a reference size that
//! is only known once layout finishes; the padding node reconciles the two by
//! a shrink pass (content sizing) and a grow pass (frame re-inflation) whose
//! exact inverse relationship is proved in [`pad`].
use vstd::prelude::*;

pub mod size;
pub mod syntax;
pub mod sides;
pub mod pad;
pub mod map;
pub mod layout;
pub mod args;
pub mod scope;

use crate::syntax::Span;

verus! {

/// The kind of a typesetting error, used by contracts to pin down exactly
/// which failure a function reports.
#[derive(Clone, Copy, PartialEq, Eq, Structural, Debug)]
pub enum ErrorKind {
    /// A free-form error created from a bare message.
    Message,
    /// A required argument was absent from a call.
    MissingArgument,
    /// An argument was present but its value had the wrong kind.
    TypeMismatch,
    /// Remapping the keys of an argument map produced a collision.
    DuplicateArgument,
    /// An identifier does not follow identifier syntax.
    InvalidIdent,
    /// A layout call was handed an empty region sequence.
    EmptyRegions,
    /// A call names a function that the scope does not know.
    UnknownFunction,
}

/// The error type for typesetting.
#[derive(Debug)]
pub struct TypesetError {
    /// What failed.
    pub kind: ErrorKind,
    /// A human-readable message.
    pub message: String,
    /// Where in the source the failure happened, if known.
    pub span: Option<Span>,
}

impl TypesetError {
    /// Create a new typesetting error from a bare message.
    pub fn with_message(message: String) -> (r: TypesetError)
        ensures
            r.kind == ErrorKind::Message,
            r.message == message,
            r.span is None,
    {
        TypesetError { kind: ErrorKind::Message, message, span: None }
    }

    /// Create an error of the given kind, carrying a source span.
    pub fn with_kind(kind: ErrorKind, message: String, span: Option<Span>) -> (r: TypesetError)
        ensures
            r.kind == kind,
            r.message == message,
            r.span == span,
    {
        TypesetError { kind, message, span }
    }
}

/// The result type for typesetting.
pub type TypesetResult<T> = Result<T, TypesetError>;

} // verus!
