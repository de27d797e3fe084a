//! Function dispatch: maps a call-site identifier to the constructor of a
//! built-in layout node.
use vstd::prelude::*;

use crate::args::{size_of, ArgKey, Args, Value};
use crate::layout::{BoxNode, Content, LayoutStyle};
use crate::pad::{spec_pad_construct, PadNode};
use crate::size::Size;
use crate::syntax::{bytes_eq, Ident, Spanned};
use crate::{ErrorKind, TypesetError};

verus! {

/// The style/VM context a constructor may consult.
#[derive(Clone, Copy, PartialEq, Eq, Structural, Debug)]
pub struct Vm {
    /// The base style of the document being built.
    pub style: LayoutStyle,
}

/// The constructor of one built-in node kind; the set of kinds is closed,
/// so dispatch is a tagged variant rather than an open table.
#[derive(Clone, Copy, PartialEq, Eq, Structural, Debug)]
pub enum NodeCtor {
    /// Constructs a padding node.
    Pad,
    /// Constructs a box leaf.
    Boxed,
}

/// The binding an identifier resolves to among registered entries; entries
/// nearer the front shadow later ones.
pub open spec fn spec_lookup(s: Seq<(Ident, NodeCtor)>, name: Seq<u8>) -> Option<NodeCtor>
    decreases s.len(),
{
    if s.len() == 0 {
        None
    } else if s[0].0@ == name {
        Some(s[0].1)
    } else {
        spec_lookup(s.drop_first(), name)
    }
}

/// Characterize `spec_lookup` by a scan: where every entry before `i`
/// misses the name, a hit at `i` is the binding found, and a full missing
/// scan finds none.
proof fn lemma_lookup_char(s: Seq<(Ident, NodeCtor)>, name: Seq<u8>, i: int)
    requires
        0 <= i <= s.len(),
        forall|j: int| 0 <= j < i ==> (#[trigger] s[j]).0@ != name,
    ensures
        i < s.len() && s[i].0@ == name ==> spec_lookup(s, name) == Some(s[i].1),
        i == s.len() ==> spec_lookup(s, name) is None,
    decreases s.len(),
{
    if s.len() == 0 {
    } else if s[0].0@ == name {
        assert(i == 0 || s[0].0@ != name);
    } else {
        if i >= 1 {
            assert forall|j: int| 0 <= j < i - 1 implies (#[trigger] s.drop_first()[j]).0@
                != name by {
                assert(s.drop_first()[j] == s[j + 1]);
            }
            lemma_lookup_char(s.drop_first(), name, i - 1);
            if i < s.len() {
                assert(s.drop_first()[i - 1] == s[i]);
            }
        }
    }
}

/// The byte name under which the padding constructor is registered.
pub open spec fn pad_name() -> Seq<u8> {
    seq![112u8, 97u8, 100u8]
}

/// The byte name under which the box constructor is registered.
pub open spec fn box_name() -> Seq<u8> {
    seq![98u8, 111u8, 120u8]
}

/// A scope mapping identifiers to node constructors.
#[derive(Debug)]
pub struct Scope {
    entries: Vec<(Ident, NodeCtor)>,
}

impl Scope {
    /// The binding an identifier resolves to in this scope.
    pub closed spec fn lookup(self, name: Seq<u8>) -> Option<NodeCtor> {
        spec_lookup(self.entries@, name)
    }

    /// Create an empty scope.
    pub fn new() -> (r: Scope)
        ensures
            forall|n: Seq<u8>| r.lookup(n) is None,
    {
        Scope { entries: Vec::new() }
    }

    /// Register a constructor under a name; a new registration of a name
    /// shadows an older one.
    pub fn insert(&mut self, name: Ident, ctor: NodeCtor)
        ensures
            forall|n: Seq<u8>| final(self).lookup(n) == if n == name@ {
                Some(ctor)
            } else {
                old(self).lookup(n)
            },
    {
        let ghost s0 = self.entries@;
        self.entries.insert(0, (name, ctor));
        proof {
            assert(self.entries@.drop_first() =~= s0);
            assert(self.entries@[0] == (name, ctor));
        }
    }

    /// Look an identifier up.
    pub fn get(&self, name: &Ident) -> (r: Option<NodeCtor>)
        ensures
            r == self.lookup(name@),
    {
        let mut i: usize = 0;
        while i < self.entries.len()
            invariant
                0 <= i <= self.entries@.len(),
                forall|j: int| 0 <= j < i ==> (#[trigger] self.entries@[j]).0@ != name@,
            decreases self.entries@.len() - i,
        {
            if bytes_eq(self.entries[i].0.as_bytes(), name.as_bytes()) {
                proof {
                    lemma_lookup_char(self.entries@, name@, i as int);
                }
                return Some(self.entries[i].1);
            }
            i = i + 1;
        }
        proof {
            lemma_lookup_char(self.entries@, name@, self.entries@.len() as int);
        }
        None
    }

    /// The scope holding the standard constructors, `pad` and `box`.
    pub fn with_std() -> (r: Scope)
        ensures
            r.lookup(pad_name()) == Some(NodeCtor::Pad),
            r.lookup(box_name()) == Some(NodeCtor::Boxed),
    {
        let mut scope = Scope::new();
        let mut pad_bytes: Vec<u8> = Vec::new();
        pad_bytes.push(112);
        pad_bytes.push(97);
        pad_bytes.push(100);
        proof {
            assert(pad_bytes@ =~= pad_name());
            assert(crate::syntax::ident_bytes_valid(pad_bytes@)) by {
                assert(pad_bytes@[0] == 112);
                assert forall|i: int| 1 <= i < pad_bytes@.len() implies
                    crate::syntax::ident_continue_byte(#[trigger] pad_bytes@[i]) by {
                    if i == 1 {
                        assert(pad_bytes@[1] == 97);
                    } else {
                        assert(pad_bytes@[2] == 100);
                    }
                }
            }
        }
        let pad_ident = match Ident::new(pad_bytes) {
            Ok(id) => id,
            Err(_) => {
                proof {
                    assert(false);
                }
                return scope;
            },
        };
        let mut box_bytes: Vec<u8> = Vec::new();
        box_bytes.push(98);
        box_bytes.push(111);
        box_bytes.push(120);
        proof {
            assert(box_bytes@ =~= box_name());
            assert(crate::syntax::ident_bytes_valid(box_bytes@)) by {
                assert(box_bytes@[0] == 98);
                assert forall|i: int| 1 <= i < box_bytes@.len() implies
                    crate::syntax::ident_continue_byte(#[trigger] box_bytes@[i]) by {
                    if i == 1 {
                        assert(box_bytes@[1] == 111);
                    } else {
                        assert(box_bytes@[2] == 120);
                    }
                }
            }
        }
        let box_ident = match Ident::new(box_bytes) {
            Ok(id) => id,
            Err(_) => {
                proof {
                    assert(false);
                }
                return scope;
            },
        };
        scope.insert(box_ident, NodeCtor::Boxed);
        scope.insert(pad_ident, NodeCtor::Pad);
        proof {
            assert(pad_name()[0] != box_name()[0]);
            assert(pad_name() != box_name());
        }
        scope
    }

    /// Dispatch a call: resolve the identifier to a constructor and let it
    /// build a node from the arguments; an unknown identifier is an error
    /// and leaves the arguments untouched.
    pub fn construct(&self, vm: &Vm, name: &Ident, args: &mut Args) -> (r: Result<
        Content,
        TypesetError,
    >)
        requires
            old(args).wf(),
        ensures
            final(args).wf(),
            match self.lookup(name@) {
                None => {
                    &&& r is Err
                    &&& r->Err_0.kind == ErrorKind::UnknownFunction
                    &&& final(args).pos@ == old(args).pos@
                    &&& final(args).named@ == old(args).named@
                },
                Some(NodeCtor::Pad) => match r {
                    Ok(c) => {
                        &&& spec_pad_construct(old(args).pos@, old(args).named@) is Ok
                        &&& c matches Content::Pad(b) && *b == spec_pad_construct(
                            old(args).pos@,
                            old(args).named@,
                        )->Ok_0 && b.wf()
                    },
                    Err(e) => {
                        &&& spec_pad_construct(old(args).pos@, old(args).named@) is Err
                        &&& e.kind == spec_pad_construct(old(args).pos@, old(args).named@)->Err_0
                    },
                },
                Some(NodeCtor::Boxed) => match r {
                    Ok(c) => {
                        &&& spec_box_construct(old(args).named@) is Ok
                        &&& c matches Content::Boxed(b) && b == spec_box_construct(
                            old(args).named@,
                        )->Ok_0
                    },
                    Err(e) => {
                        &&& spec_box_construct(old(args).named@) is Err
                        &&& e.kind == spec_box_construct(old(args).named@)->Err_0
                    },
                },
            },
    {
        match self.get(name) {
            None => Err(
                TypesetError::with_kind(
                    ErrorKind::UnknownFunction,
                    "unknown function".to_string(),
                    None,
                ),
            ),
            Some(NodeCtor::Pad) => PadNode::construct(vm, args),
            Some(NodeCtor::Boxed) => BoxNode::construct(vm, args),
        }
    }
}

/// What a keyword lookup of a pure size yields: `None` stands for a type
/// mismatch, `Some(None)` for an absent key.
pub open spec fn spec_named_size(m: Map<ArgKey, Spanned<Value>>, k: ArgKey) -> Option<
    Option<i64>,
> {
    if m.contains_key(k) {
        match size_of(m[k].v) {
            Some(a) => Some(Some(a)),
            None => None,
        }
    } else {
        Some(None)
    }
}

/// What constructing a box leaf from an argument container yields: the
/// `width` and `height` keywords, each defaulting to zero.
pub open spec fn spec_box_construct(named0: Map<ArgKey, Spanned<Value>>) -> Result<
    BoxNode,
    ErrorKind,
> {
    let w = spec_named_size(named0, ArgKey::Width);
    let h = spec_named_size(named0, ArgKey::Height);
    if w is None || h is None {
        Err(ErrorKind::TypeMismatch)
    } else {
        let x = if w->Some_0 is Some {
            w->Some_0->Some_0
        } else {
            0
        };
        let y = if h->Some_0 is Some {
            h->Some_0->Some_0
        } else {
            0
        };
        Ok(BoxNode { size: (Size { x, y }) })
    }
}

impl BoxNode {
    /// Construct a box leaf from call arguments: the `width` and `height`
    /// keywords give its content size, each defaulting to zero.
    pub fn construct(vm: &Vm, args: &mut Args) -> (r: Result<Content, TypesetError>)
        requires
            old(args).wf(),
        ensures
            final(args).wf(),
            match r {
                Ok(c) => {
                    &&& spec_box_construct(old(args).named@) is Ok
                    &&& c matches Content::Boxed(b) && b == spec_box_construct(
                        old(args).named@,
                    )->Ok_0 && b.size.wf()
                },
                Err(e) => {
                    &&& spec_box_construct(old(args).named@) is Err
                    &&& e.kind == spec_box_construct(old(args).named@)->Err_0
                },
            },
    {
        let w = match args.named_size(ArgKey::Width) {
            Ok(o) => o,
            Err(e) => return Err(e),
        };
        let h = match args.named_size(ArgKey::Height) {
            Ok(o) => o,
            Err(e) => return Err(e),
        };
        let x = match w {
            Some(a) => a,
            None => 0,
        };
        let y = match h {
            Some(a) => a,
            None => 0,
        };
        Ok(Content::Boxed(BoxNode { size: Size { x, y } }))
    }
}

} // verus!
