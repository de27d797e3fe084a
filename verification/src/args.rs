//! Positional and keyword argument containers with typed, one-shot
//! extraction: every accessor removes what it reads, so stale data cannot be
//! read twice.
use vstd::prelude::*;

use crate::layout::{content_wf, Content};
use crate::map::{eq_structural, ConsistentMap};
use crate::size::{Length, MAX_UNITS, SCALE};
use crate::syntax::Spanned;
use crate::{ErrorKind, TypesetError};

verus! {

/// The name of a keyword argument that the built-in constructors know.
#[derive(Clone, Copy, Debug)]
pub enum ArgKey {
    /// Left side inset.
    Left,
    /// Top side inset.
    Top,
    /// Right side inset.
    Right,
    /// Bottom side inset.
    Bottom,
    /// Horizontal axis shorthand.
    X,
    /// Vertical axis shorthand.
    Y,
    /// Catch-all shorthand for every side.
    Rest,
    /// The body content of a call.
    Body,
    /// Width of a box.
    Width,
    /// Height of a box.
    Height,
}

impl PartialEq for ArgKey {
    fn eq(&self, other: &ArgKey) -> bool {
        match (self, other) {
            (ArgKey::Left, ArgKey::Left) => true,
            (ArgKey::Top, ArgKey::Top) => true,
            (ArgKey::Right, ArgKey::Right) => true,
            (ArgKey::Bottom, ArgKey::Bottom) => true,
            (ArgKey::X, ArgKey::X) => true,
            (ArgKey::Y, ArgKey::Y) => true,
            (ArgKey::Rest, ArgKey::Rest) => true,
            (ArgKey::Body, ArgKey::Body) => true,
            (ArgKey::Width, ArgKey::Width) => true,
            (ArgKey::Height, ArgKey::Height) => true,
            _ => false,
        }
    }
}

impl vstd::std_specs::cmp::PartialEqSpecImpl for ArgKey {
    open spec fn obeys_eq_spec() -> bool {
        true
    }

    open spec fn eq_spec(&self, other: &ArgKey) -> bool {
        *self == *other
    }
}

/// Argument-key equality is the structural equality the map reasons over.
pub proof fn lemma_argkey_eq_structural()
    ensures
        eq_structural::<ArgKey>(),
{
}

/// The target type of a typed extraction; each target states which value
/// kinds coerce to it.
#[derive(Clone, Copy, PartialEq, Eq, Structural, Debug)]
pub enum TargetKind {
    /// Accepts only a numeric literal.
    Number,
    /// Accepts only a length literal.
    Size,
    /// Accepts a length literal (absolute) or a numeric literal (a relative
    /// scale): a call site may write a fixed measurement or a proportional
    /// one in the same argument slot.
    ScaleSize,
    /// Accepts only a content block.
    Content,
}

/// A parsed argument value.
#[derive(Debug)]
pub enum Value {
    /// A numeric literal, as a fraction in thousandths.
    Number(i64),
    /// A length literal, in absolute units.
    Size(i64),
    /// A content block.
    Content(Content),
}

/// Every value lies in the admitted ranges.
pub open spec fn value_wf(v: Value) -> bool {
    match v {
        Value::Number(n) => 0 <= n <= SCALE,
        Value::Size(a) => 0 <= a <= MAX_UNITS,
        Value::Content(c) => content_wf(c),
    }
}

/// Whether a value coerces to a target type.
pub open spec fn coercible(v: Value, t: TargetKind) -> bool {
    match t {
        TargetKind::Number => v is Number,
        TargetKind::Size => v is Size,
        TargetKind::ScaleSize => v is Number || v is Size,
        TargetKind::Content => v is Content,
    }
}

/// What a value yields as a scale-size: a numeric literal becomes a purely
/// relative length, a length literal a purely absolute one.
pub open spec fn scale_size_of(v: Value) -> Option<Length> {
    match v {
        Value::Number(n) => Some(Length { rel: n, abs: 0 }),
        Value::Size(a) => Some(Length { rel: 0, abs: a }),
        Value::Content(_) => None,
    }
}

/// What a value yields as a pure size: only a length literal coerces.
pub open spec fn size_of(v: Value) -> Option<i64> {
    match v {
        Value::Size(a) => Some(a),
        _ => None,
    }
}

/// What a value yields as a number: only a numeric literal coerces.
pub open spec fn number_of(v: Value) -> Option<i64> {
    match v {
        Value::Number(n) => Some(n),
        _ => None,
    }
}

/// Whether a value coerces to a target type.
pub fn value_coercible(v: &Value, t: TargetKind) -> (r: bool)
    ensures
        r == coercible(*v, t),
{
    match t {
        TargetKind::Number => matches!(v, Value::Number(_)),
        TargetKind::Size => matches!(v, Value::Size(_)),
        TargetKind::ScaleSize => matches!(v, Value::Number(_) | Value::Size(_)),
        TargetKind::Content => matches!(v, Value::Content(_)),
    }
}

/// The first position holding a value that coerces to the target, if any.
pub open spec fn find_idx(s: Seq<Spanned<Value>>, t: TargetKind) -> Option<int>
    decreases s.len(),
{
    if s.len() == 0 {
        None
    } else if coercible(s[0].v, t) {
        Some(0)
    } else {
        match find_idx(s.drop_first(), t) {
            Some(i) => Some(i + 1),
            None => None,
        }
    }
}

/// Characterize `find_idx` by a scan: where every position before `i` fails
/// to coerce, a coercing position `i` is the one found, and a full failing
/// scan finds none.
pub proof fn lemma_find_idx_char(s: Seq<Spanned<Value>>, t: TargetKind, i: int)
    requires
        0 <= i <= s.len(),
        forall|j: int| 0 <= j < i ==> !coercible((#[trigger] s[j]).v, t),
    ensures
        i < s.len() && coercible(s[i].v, t) ==> find_idx(s, t) == Some(i),
        i == s.len() ==> find_idx(s, t) is None,
    decreases s.len(),
{
    if s.len() == 0 {
    } else if coercible(s[0].v, t) {
        assert(i == 0 || !coercible(s[0].v, t));
    } else {
        if i >= 1 {
            assert forall|j: int| 0 <= j < i - 1 implies !coercible(
                (#[trigger] s.drop_first()[j]).v,
                t,
            ) by {
                assert(s.drop_first()[j] == s[j + 1]);
            }
            lemma_find_idx_char(s.drop_first(), t, i - 1);
            if i < s.len() {
                assert(s.drop_first()[i - 1] == s[i]);
            }
        }
    }
}

/// What a found position satisfies: it lies in range and coerces, and a
/// failed scan means no position coerces.
pub proof fn lemma_find_idx_props(s: Seq<Spanned<Value>>, t: TargetKind)
    ensures
        match find_idx(s, t) {
            Some(i) => 0 <= i < s.len() && coercible(s[i].v, t),
            None => forall|j: int| 0 <= j < s.len() ==> !coercible((#[trigger] s[j]).v, t),
        },
    decreases s.len(),
{
    if s.len() > 0 && !coercible(s[0].v, t) {
        lemma_find_idx_props(s.drop_first(), t);
        match find_idx(s.drop_first(), t) {
            Some(i) => {
                assert(s.drop_first()[i] == s[i + 1]);
            },
            None => {
                assert forall|j: int| 0 <= j < s.len() implies !coercible(
                    (#[trigger] s[j]).v,
                    t,
                ) by {
                    if j > 0 {
                        assert(s.drop_first()[j - 1] == s[j]);
                    }
                }
            },
        }
    }
}

/// The positional and keyword arguments of one function call. Positional
/// values are order-significant and consumed front to back; keyword values
/// are key-unique, redundant bindings having been collapsed by the
/// deduplicating map.
#[derive(Debug)]
pub struct Args {
    /// Positional arguments.
    pub pos: Vec<Spanned<Value>>,
    /// Keyword arguments.
    pub named: ConsistentMap<ArgKey, Spanned<Value>>,
}

impl Args {
    /// All held values lie in the admitted ranges and the keyword map is
    /// well-formed.
    pub open spec fn wf(self) -> bool {
        &&& self.named.wf()
        &&& forall|i: int| 0 <= i < self.pos@.len() ==> value_wf((#[trigger] self.pos@[i]).v)
        &&& forall|k: ArgKey| self.named@.contains_key(k) ==> value_wf(
            (#[trigger] self.named@[k]).v,
        )
    }

    /// Create an argument container from its two collections.
    pub fn new(pos: Vec<Spanned<Value>>, named: ConsistentMap<ArgKey, Spanned<Value>>) -> (r: Args)
        ensures
            r.pos@ == pos@,
            r.named@ == named@,
            r.named.wf() == named.wf(),
    {
        Args { pos, named }
    }

    /// Remove and hand back the first positional value that coerces to the
    /// target, scanning past those that do not.
    fn find_take(&mut self, t: TargetKind) -> (r: Option<Spanned<Value>>)
        requires
            old(self).wf(),
        ensures
            final(self).wf(),
            final(self).named@ == old(self).named@,
            match find_idx(old(self).pos@, t) {
                Some(i) => r == Some(old(self).pos@[i]) && final(self).pos@ == old(
                    self,
                ).pos@.remove(i),
                None => r is None && final(self).pos@ == old(self).pos@,
            },
    {
        let ghost s = self.pos@;
        let mut i: usize = 0;
        while i < self.pos.len()
            invariant
                self.wf(),
                s == self.pos@,
                s == old(self).pos@,
                self.named@ == old(self).named@,
                0 <= i <= s.len(),
                forall|j: int| 0 <= j < i ==> !coercible((#[trigger] s[j]).v, t),
            decreases s.len() - i,
        {
            if value_coercible(&self.pos[i].v, t) {
                proof {
                    lemma_find_idx_char(s, t, i as int);
                }
                let sv = self.pos.remove(i);
                proof {
                    assert forall|j: int|
                        0 <= j < self.pos@.len() implies value_wf(
                        (#[trigger] self.pos@[j]).v,
                    ) by {
                        assert(self.pos@ == s.remove(i as int));
                        if j < i as int {
                            assert(self.pos@[j] == s[j]);
                        } else {
                            assert(self.pos@[j] == s[j + 1]);
                        }
                    }
                }
                return Some(sv);
            }
            i = i + 1;
        }
        proof {
            lemma_find_idx_char(s, t, s.len() as int);
        }
        None
    }

    /// Remove the keyword argument bound to a key and coerce it to a
    /// scale-size; absence is not an error, but a value of the wrong kind
    /// is.
    pub fn named_scale_size(&mut self, key: ArgKey) -> (r: Result<Option<Length>, TypesetError>)
        requires
            old(self).wf(),
        ensures
            final(self).wf(),
            final(self).pos@ == old(self).pos@,
            match r {
                Ok(opt) => match opt {
                    Some(l) => {
                        &&& old(self).named@.contains_key(key)
                        &&& Some(l) == scale_size_of(old(self).named@[key].v)
                        &&& l.wf()
                        &&& final(self).named@ == old(self).named@.remove(key)
                    },
                    None => {
                        &&& !old(self).named@.contains_key(key)
                        &&& final(self).named@ == old(self).named@
                    },
                },
                Err(e) => {
                    &&& old(self).named@.contains_key(key)
                    &&& scale_size_of(old(self).named@[key].v) is None
                    &&& e.kind == ErrorKind::TypeMismatch
                    &&& e.span == Some(old(self).named@[key].span)
                    &&& final(self).named@ == old(self).named@.remove(key)
                },
            },
    {
        proof {
            lemma_argkey_eq_structural();
        }
        match self.named.remove(&key) {
            None => Ok(None),
            Some(sv) => match sv.v {
                Value::Number(n) => Ok(Some(Length { rel: n, abs: 0 })),
                Value::Size(a) => Ok(Some(Length { rel: 0, abs: a })),
                Value::Content(_) => Err(
                    TypesetError::with_kind(
                        ErrorKind::TypeMismatch,
                        "expected size or number, found content".to_string(),
                        Some(sv.span),
                    ),
                ),
            },
        }
    }

    /// Remove the keyword argument bound to a key and coerce it to a pure
    /// size; only a length literal coerces.
    pub fn named_size(&mut self, key: ArgKey) -> (r: Result<Option<i64>, TypesetError>)
        requires
            old(self).wf(),
        ensures
            final(self).wf(),
            final(self).pos@ == old(self).pos@,
            match r {
                Ok(opt) => match opt {
                    Some(a) => {
                        &&& old(self).named@.contains_key(key)
                        &&& Some(a) == size_of(old(self).named@[key].v)
                        &&& 0 <= a <= MAX_UNITS
                        &&& final(self).named@ == old(self).named@.remove(key)
                    },
                    None => {
                        &&& !old(self).named@.contains_key(key)
                        &&& final(self).named@ == old(self).named@
                    },
                },
                Err(e) => {
                    &&& old(self).named@.contains_key(key)
                    &&& size_of(old(self).named@[key].v) is None
                    &&& e.kind == ErrorKind::TypeMismatch
                    &&& e.span == Some(old(self).named@[key].span)
                    &&& final(self).named@ == old(self).named@.remove(key)
                },
            },
    {
        proof {
            lemma_argkey_eq_structural();
        }
        match self.named.remove(&key) {
            None => Ok(None),
            Some(sv) => match sv.v {
                Value::Size(a) => Ok(Some(a)),
                _ => Err(
                    TypesetError::with_kind(
                        ErrorKind::TypeMismatch,
                        "expected size, found another kind".to_string(),
                        Some(sv.span),
                    ),
                ),
            },
        }
    }

    /// Remove the keyword argument bound to a key and coerce it to a
    /// scale-size; here the argument is required, so absence is an error
    /// too.
    pub fn extract_keyword_scale_size(&mut self, key: ArgKey) -> (r: Result<Length, TypesetError>)
        requires
            old(self).wf(),
        ensures
            final(self).wf(),
            final(self).pos@ == old(self).pos@,
            match r {
                Ok(l) => {
                    &&& old(self).named@.contains_key(key)
                    &&& Some(l) == scale_size_of(old(self).named@[key].v)
                    &&& l.wf()
                    &&& final(self).named@ == old(self).named@.remove(key)
                },
                Err(e) => {
                    ||| {
                        &&& !old(self).named@.contains_key(key)
                        &&& e.kind == ErrorKind::MissingArgument
                        &&& final(self).named@ == old(self).named@
                    }
                    ||| {
                        &&& old(self).named@.contains_key(key)
                        &&& scale_size_of(old(self).named@[key].v) is None
                        &&& e.kind == ErrorKind::TypeMismatch
                        &&& final(self).named@ == old(self).named@.remove(key)
                    }
                },
            },
    {
        match self.named_scale_size(key) {
            Ok(Some(l)) => Ok(l),
            Ok(None) => Err(
                TypesetError::with_kind(
                    ErrorKind::MissingArgument,
                    "missing required argument".to_string(),
                    None,
                ),
            ),
            Err(e) => Err(e),
        }
    }

    /// Remove and coerce the first remaining positional argument to a
    /// number; only a numeric literal coerces.
    pub fn extract_positional_number(&mut self) -> (r: Result<i64, TypesetError>)
        requires
            old(self).wf(),
        ensures
            final(self).wf(),
            final(self).named@ == old(self).named@,
            match r {
                Ok(n) => {
                    &&& old(self).pos@.len() > 0
                    &&& Some(n) == number_of(old(self).pos@[0].v)
                    &&& 0 <= n <= SCALE
                    &&& final(self).pos@ == old(self).pos@.remove(0)
                },
                Err(e) => final(self).pos@ == old(self).pos@ && (
                (old(self).pos@.len() == 0 && e.kind == ErrorKind::MissingArgument) || (old(
                    self,
                ).pos@.len() > 0 && number_of(old(self).pos@[0].v) is None && e.kind
                    == ErrorKind::TypeMismatch && e.span == Some(old(self).pos@[0].span))),
            },
    {
        if self.pos.len() == 0 {
            return Err(
                TypesetError::with_kind(
                    ErrorKind::MissingArgument,
                    "missing required argument".to_string(),
                    None,
                ),
            );
        }
        let kind_ok = value_coercible(&self.pos[0].v, TargetKind::Number);
        if !kind_ok {
            let span = self.pos[0].span;
            return Err(
                TypesetError::with_kind(
                    ErrorKind::TypeMismatch,
                    "expected number, found another kind".to_string(),
                    Some(span),
                ),
            );
        }
        let ghost s = self.pos@;
        let sv = self.pos.remove(0);
        proof {
            assert forall|j: int| 0 <= j < self.pos@.len() implies value_wf(
                (#[trigger] self.pos@[j]).v,
            ) by {
                assert(self.pos@[j] == s[j + 1]);
            }
        }
        match sv.v {
            Value::Number(n) => Ok(n),
            _ => {
                proof {
                    assert(false);
                }
                Err(TypesetError::with_message("unreachable".to_string()))
            },
        }
    }

    /// Remove and coerce the first remaining positional argument to a
    /// scale-size; a missing argument and a front value of the wrong kind
    /// are errors, and only a coerced value is consumed.
    pub fn extract_positional_scale_size(&mut self) -> (r: Result<Length, TypesetError>)
        requires
            old(self).wf(),
        ensures
            final(self).wf(),
            final(self).named@ == old(self).named@,
            match r {
                Ok(l) => {
                    &&& old(self).pos@.len() > 0
                    &&& Some(l) == scale_size_of(old(self).pos@[0].v)
                    &&& l.wf()
                    &&& final(self).pos@ == old(self).pos@.remove(0)
                },
                Err(e) => final(self).pos@ == old(self).pos@ && (
                (old(self).pos@.len() == 0 && e.kind == ErrorKind::MissingArgument) || (old(
                    self,
                ).pos@.len() > 0 && scale_size_of(old(self).pos@[0].v) is None && e.kind
                    == ErrorKind::TypeMismatch && e.span == Some(old(self).pos@[0].span))),
            },
    {
        if self.pos.len() == 0 {
            return Err(
                TypesetError::with_kind(
                    ErrorKind::MissingArgument,
                    "missing required argument".to_string(),
                    None,
                ),
            );
        }
        let kind_ok = value_coercible(&self.pos[0].v, TargetKind::ScaleSize);
        if !kind_ok {
            let span = self.pos[0].span;
            return Err(
                TypesetError::with_kind(
                    ErrorKind::TypeMismatch,
                    "expected size or number, found content".to_string(),
                    Some(span),
                ),
            );
        }
        let ghost s = self.pos@;
        let sv = self.pos.remove(0);
        proof {
            assert forall|j: int| 0 <= j < self.pos@.len() implies value_wf(
                (#[trigger] self.pos@[j]).v,
            ) by {
                assert(self.pos@[j] == s[j + 1]);
            }
        }
        match sv.v {
            Value::Number(n) => Ok(Length { rel: n, abs: 0 }),
            Value::Size(a) => Ok(Length { rel: 0, abs: a }),
            Value::Content(_) => {
                proof {
                    assert(false);
                }
                Err(TypesetError::with_message("unreachable".to_string()))
            },
        }
    }

    /// Remove the first positional scale-size, scanning past values of
    /// other kinds; absence is not an error.
    pub fn find_scale_size(&mut self) -> (r: Option<Length>)
        requires
            old(self).wf(),
        ensures
            final(self).wf(),
            final(self).named@ == old(self).named@,
            match find_idx(old(self).pos@, TargetKind::ScaleSize) {
                Some(i) => {
                    &&& r == scale_size_of(old(self).pos@[i].v)
                    &&& r is Some
                    &&& r->Some_0.wf()
                    &&& final(self).pos@ == old(self).pos@.remove(i)
                },
                None => r is None && final(self).pos@ == old(self).pos@,
            },
    {
        proof {
            lemma_find_idx_props(self.pos@, TargetKind::ScaleSize);
        }
        match self.find_take(TargetKind::ScaleSize) {
            None => None,
            Some(sv) => match sv.v {
                Value::Number(n) => Some(Length { rel: n, abs: 0 }),
                Value::Size(a) => Some(Length { rel: 0, abs: a }),
                Value::Content(_) => {
                    proof {
                        assert(false);
                    }
                    None
                },
            },
        }
    }

    /// Remove and hand back the first positional content block; a call
    /// without one is missing its required body.
    pub fn expect_content(&mut self) -> (r: Result<Content, TypesetError>)
        requires
            old(self).wf(),
        ensures
            final(self).wf(),
            final(self).named@ == old(self).named@,
            match r {
                Ok(c) => {
                    &&& content_wf(c)
                    &&& match find_idx(old(self).pos@, TargetKind::Content) {
                        Some(i) => old(self).pos@[i].v == Value::Content(c)
                            && final(self).pos@ == old(self).pos@.remove(i),
                        None => false,
                    }
                },
                Err(e) => {
                    &&& find_idx(old(self).pos@, TargetKind::Content) is None
                    &&& e.kind == ErrorKind::MissingArgument
                    &&& final(self).pos@ == old(self).pos@
                },
            },
    {
        proof {
            lemma_find_idx_props(self.pos@, TargetKind::Content);
        }
        match self.find_take(TargetKind::Content) {
            None => Err(
                TypesetError::with_kind(
                    ErrorKind::MissingArgument,
                    "missing required argument: body".to_string(),
                    None,
                ),
            ),
            Some(sv) => match sv.v {
                Value::Content(c) => Ok(c),
                _ => {
                    proof {
                        assert(false);
                    }
                    Err(TypesetError::with_message("unreachable".to_string()))
                },
            },
        }
    }
}

} // verus!
