//! Source spans, spanned values and identifiers.
use vstd::prelude::*;

use crate::{ErrorKind, TypesetError};

verus! {

/// A region of the source text, for diagnostic pointing.
#[derive(Clone, Copy, PartialEq, Eq, Structural, Debug)]
pub struct Span {
    /// Byte offset of the first character.
    pub start: u64,
    /// Byte offset one past the last character.
    pub end: u64,
}

impl Span {
    /// Create a span from its two offsets.
    pub fn new(start: u64, end: u64) -> (r: Span)
        ensures
            r.start == start,
            r.end == end,
    {
        Span { start, end }
    }
}

/// A value together with the source span it came from.
#[derive(Clone, Copy, PartialEq, Eq, Structural, Debug)]
pub struct Spanned<T> {
    /// The value itself.
    pub v: T,
    /// Where the value stood in the source.
    pub span: Span,
}

impl<T> Spanned<T> {
    /// Attach a span to a value.
    pub fn new(v: T, span: Span) -> (r: Spanned<T>)
        ensures
            r.v == v,
            r.span == span,
    {
        Spanned { v, span }
    }
}

/// Whether a byte may begin an identifier: an ASCII letter or an underscore.
pub open spec fn ident_start_byte(b: u8) -> bool {
    (0x41 <= b <= 0x5a) || (0x61 <= b <= 0x7a) || b == 0x5f
}

/// Whether a byte may continue an identifier: a start byte, an ASCII digit,
/// or a hyphen.
pub open spec fn ident_continue_byte(b: u8) -> bool {
    ident_start_byte(b) || (0x30 <= b <= 0x39) || b == 0x2d
}

/// Whether a byte string follows identifier syntax.
pub open spec fn ident_bytes_valid(s: Seq<u8>) -> bool {
    &&& s.len() > 0
    &&& ident_start_byte(s[0])
    &&& forall|i: int| 1 <= i < s.len() ==> ident_continue_byte(#[trigger] s[i])
}

/// An identifier naming a function in a call, validated on construction.
#[derive(Clone, Debug)]
pub struct Ident {
    bytes: Vec<u8>,
}

impl Ident {
    /// The bytes of the identifier.
    pub closed spec fn view(&self) -> Seq<u8> {
        self.bytes@
    }

    /// A constructed identifier always follows identifier syntax.
    pub open spec fn wf(&self) -> bool {
        ident_bytes_valid(self@)
    }

    /// Validate a byte string as an identifier; invalid syntax is rejected
    /// before any layout is attempted.
    pub fn new(bytes: Vec<u8>) -> (r: Result<Ident, TypesetError>)
        ensures
            match r {
                Ok(id) => id@ == bytes@ && id.wf(),
                Err(e) => !ident_bytes_valid(bytes@) && e.kind == ErrorKind::InvalidIdent,
            },
    {
        if bytes.len() == 0 {
            return Err(
                TypesetError::with_kind(
                    ErrorKind::InvalidIdent,
                    "invalid identifier: empty".to_string(),
                    None,
                ),
            );
        }
        let mut i: usize = 0;
        while i < bytes.len()
            invariant
                0 < bytes@.len(),
                0 <= i <= bytes@.len(),
                i > 0 ==> ident_start_byte(bytes@[0]),
                forall|j: int| 1 <= j < i ==> ident_continue_byte(#[trigger] bytes@[j]),
            decreases bytes@.len() - i,
        {
            let b = bytes[i];
            let ok = if i == 0 {
                (0x41 <= b && b <= 0x5a) || (0x61 <= b && b <= 0x7a) || b == 0x5f
            } else {
                (0x41 <= b && b <= 0x5a) || (0x61 <= b && b <= 0x7a) || b == 0x5f || (0x30 <= b
                    && b <= 0x39) || b == 0x2d
            };
            if !ok {
                return Err(
                    TypesetError::with_kind(
                        ErrorKind::InvalidIdent,
                        "invalid identifier syntax".to_string(),
                        None,
                    ),
                );
            }
            i = i + 1;
        }
        Ok(Ident { bytes })
    }

    /// Read the identifier's bytes.
    pub fn as_bytes(&self) -> (r: &Vec<u8>)
        ensures
            r@ == self@,
    {
        &self.bytes
    }
}

/// Whether two byte strings hold the same bytes.
pub fn bytes_eq(a: &Vec<u8>, b: &Vec<u8>) -> (r: bool)
    ensures
        r <==> a@ == b@,
{
    if a.len() != b.len() {
        assert(a@ != b@);
        return false;
    }
    let mut i: usize = 0;
    while i < a.len()
        invariant
            a@.len() == b@.len(),
            0 <= i <= a@.len(),
            forall|j: int| 0 <= j < i ==> a@[j] == b@[j],
        decreases a@.len() - i,
    {
        if a[i] != b[i] {
            return false;
        }
        i = i + 1;
    }
    proof {
        assert(a@ =~= b@);
    }
    true
}

} // verus!
