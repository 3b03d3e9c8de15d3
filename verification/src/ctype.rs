//! The type classifier: maps a C type phrase — optionally `const`-qualified,
//! `struct`-tagged, or pointer-decorated — to a normalized descriptor.

use vstd::prelude::*;

use crate::error::Error;
use crate::text::{is_aws, slice, str_eq, strlen, trim, trim_spec};
use vstd::string::StrSliceExecFns;

verus! {

/// A C integer type.
#[derive(Copy, Clone, Debug, Eq, PartialEq, Ord, PartialOrd)]
pub enum IntKind {
    /// An `int`.
    Int,
    /// A `u_long`.
    ULong,
    /// A `char`.
    Char,
    /// A `uintptr_t`-sized unsigned integer.
    Uintptr,
}

/// A C type.
#[derive(Debug, Eq, PartialEq)]
pub enum TypeKind<'a> {
    /// `void`.
    Void,
    /// An integer.
    Int(IntKind),
    /// A pointer to a type.
    Pointer(Box<TypeKind<'a>>),
    /// A `struct`.
    Struct(&'a str),
    /// Some other type, carried through verbatim.
    Unknown(&'a str),
}

/// The base of a type descriptor, pointer decoration stripped.
pub enum BaseV {
    Void,
    Int(IntKind),
    Struct(Seq<char>),
    Unknown(Seq<char>),
}

/// A type descriptor: a base wrapped in some number of pointer layers.
pub struct TypeV {
    pub ptrs: nat,
    pub base: BaseV,
}

/// The descriptor a `TypeKind` stands for: pointer layers counted, the base
/// kept.
pub open spec fn type_kind_view<'a>(t: TypeKind<'a>) -> TypeV
    decreases t,
{
    match t {
        TypeKind::Void => TypeV { ptrs: 0, base: BaseV::Void },
        TypeKind::Int(k) => TypeV { ptrs: 0, base: BaseV::Int(k) },
        TypeKind::Pointer(b) => {
            let inner = type_kind_view(*b);
            TypeV { ptrs: inner.ptrs + 1, base: inner.base }
        },
        TypeKind::Struct(t) => TypeV { ptrs: 0, base: BaseV::Struct(t@) },
        TypeKind::Unknown(t) => TypeV { ptrs: 0, base: BaseV::Unknown(t@) },
    }
}

impl<'a> View for TypeKind<'a> {
    type V = TypeV;

    open spec fn view(&self) -> TypeV {
        type_kind_view(*self)
    }
}

/// Whether `s` opens with `const` as a whole word (ended by whitespace, a
/// `*`, or the end of the phrase).
pub open spec fn starts_const(s: Seq<char>) -> bool {
    s.len() >= 5 && s.subrange(0, 5) == "const"@ && (s.len() == 5 || is_aws(s[5]) || s[5] == '*')
}

/// Whether `s` opens with `struct` as a whole word.
pub open spec fn starts_struct(s: Seq<char>) -> bool {
    s.len() >= 6 && s.subrange(0, 6) == "struct"@ && (s.len() == 6 || is_aws(s[6]))
}

/// The base a known spelling stands for; other spellings are opaque.
pub open spec fn base_spec(b: Seq<char>) -> BaseV {
    if b == "void"@ {
        BaseV::Void
    } else if b == "int"@ {
        BaseV::Int(IntKind::Int)
    } else if b == "u_long"@ {
        BaseV::Int(IntKind::ULong)
    } else if b == "char"@ {
        BaseV::Int(IntKind::Char)
    } else if b == "size_t"@ || b == "uintptr_t"@ {
        BaseV::Int(IntKind::Uintptr)
    } else {
        BaseV::Unknown(b)
    }
}

/// `o` with `k` more pointer layers.
pub open spec fn add_ptrs(o: Option<TypeV>, k: nat) -> Option<TypeV> {
    match o {
        Some(t) => Some(TypeV { ptrs: t.ptrs + k, base: t.base }),
        None => None,
    }
}

/// What classifying a C type phrase yields: leading whitespace, `const`
/// qualifiers and `*` tokens are consumed — each `*` adding a pointer layer —
/// then a `struct` tag or a base spelling resolves the phrase.
pub open spec fn type_spec(s: Seq<char>) -> Option<TypeV>
    decreases s.len(),
{
    if s.len() == 0 {
        None
    } else if is_aws(s[0]) {
        type_spec(s.subrange(1, s.len() as int))
    } else if s[0] == '*' {
        add_ptrs(type_spec(s.subrange(1, s.len() as int)), 1)
    } else if starts_const(s) {
        type_spec(s.subrange(5, s.len() as int))
    } else if starts_struct(s) {
        let tag = trim_spec(s.subrange(6, s.len() as int));
        if tag.len() == 0 {
            None
        } else {
            Some(TypeV { ptrs: 0, base: BaseV::Struct(tag) })
        }
    } else {
        Some(TypeV { ptrs: 0, base: base_spec(trim_spec(s)) })
    }
}

impl<'a> TypeKind<'a> {
    /// Classifies a C type phrase; fails only on a phrase with no base, such
    /// as an empty one or a lone qualifier.
    pub fn parse(s: &'a str) -> (r: Result<TypeKind<'a>, Error>)
        ensures
            match r {
                Ok(t) => type_spec(s@) == Some(t@),
                Err(e) => type_spec(s@) is None && e == Error::EmptyType,
            },
    {
        let n = strlen(s);
        let mut i: usize = 0;
        let mut ptrs: usize = 0;
        proof {
            assert(s@.subrange(0, n as int) =~= s@);
        }
        loop
            invariant
                0 <= i <= n,
                ptrs <= i,
                n == s@.len(),
                type_spec(s@) == add_ptrs(
                    type_spec(s@.subrange(i as int, n as int)),
                    ptrs as nat,
                ),
            ensures
                0 <= i < n,
                ptrs <= i,
                n == s@.len(),
                type_spec(s@) == add_ptrs(
                    type_spec(s@.subrange(i as int, n as int)),
                    ptrs as nat,
                ),
                !is_aws(s@[i as int]),
                s@[i as int] != '*',
                !starts_const(s@.subrange(i as int, n as int)),
            decreases n - i,
        {
            if i >= n {
                proof {
                    assert(s@.subrange(i as int, n as int).len() == 0);
                }
                return Err(Error::EmptyType);
            }
            let c = s.get_char(i);
            proof {
                assert(s@.subrange(i as int, n as int)[0] == s@[i as int]);
                assert(s@.subrange(i as int, n as int).subrange(1, (n - i) as int) =~= s@.subrange(
                    i + 1,
                    n as int,
                ));
            }
            if c == ' ' || c == '\t' || c == '\n' || c == '\r' || c == '\x0c' {
                i = i + 1;
            } else if c == '*' {
                ptrs = ptrs + 1;
                i = i + 1;
            } else {
                let is_const = n - i >= 5 && str_eq(slice(s, i, i + 5), "const") && (i + 5 == n || {
                    let b = s.get_char(i + 5);
                    b == ' ' || b == '\t' || b == '\n' || b == '\r' || b == '\x0c' || b == '*'
                });
                proof {
                    let sub = s@.subrange(i as int, n as int);
                    if n - i >= 5 {
                        assert(sub.subrange(0, 5) =~= s@.subrange(i as int, i + 5));
                        if sub.len() > 5 {
                            assert(sub[5] == s@[i + 5]);
                        }
                    }
                    assert(is_const == starts_const(sub));
                    if is_const {
                        assert(sub.subrange(5, sub.len() as int) =~= s@.subrange(i + 5, n as int));
                    }
                }
                if is_const {
                    i = i + 5;
                } else {
                    break;
                }
            }
        }
        // `i` now sits on the first character of the tag or base.
        let is_struct = n - i >= 6 && str_eq(slice(s, i, i + 6), "struct") && (i + 6 == n || {
            let b = s.get_char(i + 6);
            b == ' ' || b == '\t' || b == '\n' || b == '\r' || b == '\x0c'
        });
        proof {
            let sub = s@.subrange(i as int, n as int);
            assert(sub[0] == s@[i as int]);
            if n - i >= 6 {
                assert(sub.subrange(0, 6) =~= s@.subrange(i as int, i + 6));
                if sub.len() > 6 {
                    assert(sub[6] == s@[i + 6]);
                }
            }
            assert(is_struct == starts_struct(sub));
            if is_struct {
                assert(sub.subrange(6, sub.len() as int) =~= s@.subrange(i + 6, n as int));
            }
        }
        if is_struct {
            let tag = trim(slice(s, i + 6, n));
            if strlen(tag) == 0 {
                return Err(Error::EmptyType);
            }
            Ok(wrap_ptrs(TypeKind::Struct(tag), ptrs))
        } else {
            let base = trim(slice(s, i, n));
            let kind: TypeKind<'a> = if str_eq(base, "void") {
                TypeKind::Void
            } else if str_eq(base, "int") {
                TypeKind::Int(IntKind::Int)
            } else if str_eq(base, "u_long") {
                TypeKind::Int(IntKind::ULong)
            } else if str_eq(base, "char") {
                TypeKind::Int(IntKind::Char)
            } else if str_eq(base, "size_t") {
                TypeKind::Int(IntKind::Uintptr)
            } else if str_eq(base, "uintptr_t") {
                TypeKind::Int(IntKind::Uintptr)
            } else {
                TypeKind::Unknown(base)
            };
            Ok(wrap_ptrs(kind, ptrs))
        }
    }
}

/// `t` wrapped in `k` pointer layers.
pub(crate) fn wrap_ptrs<'a>(t: TypeKind<'a>, k: usize) -> (r: TypeKind<'a>)
    ensures
        r@ == (TypeV { ptrs: (t@.ptrs + k) as nat, base: t@.base }),
{
    let mut out = t;
    let ghost t0 = t@;
    let mut j: usize = 0;
    while j < k
        invariant
            0 <= j <= k,
            out@ == (TypeV { ptrs: (t0.ptrs + j) as nat, base: t0.base }),
        decreases k - j,
    {
        out = TypeKind::Pointer(Box::new(out));
        j = j + 1;
    }
    out
}

} // verus!
