//! The feature-flag vocabulary of a specification line: twenty named bits,
//! parsed from a `|`-joined expression.

use vstd::prelude::*;

use crate::error::Error;
use crate::text::{find, find_p, lemma_find_p, slice, str_eq, strlen, trim, trim_spec, Pred};
use vstd::string::StringExecFns;

verus! {

/// Flags applied to a syscall.
#[derive(Debug, PartialEq, Eq, Structural, Clone, Copy)]
pub struct Flags {
    bits: u64,
}

impl View for Flags {
    type V = u64;

    closed spec fn view(&self) -> u64 {
        self.bits
    }
}

impl Flags {
    /// Always included.
    pub const STD: u64 = 0x1;

    /// FreeBSD compat.
    pub const COMPAT: u64 = 0x2;

    /// FreeBSD 4 compat.
    pub const COMPAT4: u64 = 0x4;

    /// FreeBSD 6 compat.
    pub const COMPAT6: u64 = 0x8;

    /// FreeBSD 7 compat.
    pub const COMPAT7: u64 = 0x10;

    /// FreeBSD 10 compat.
    pub const COMPAT10: u64 = 0x20;

    /// FreeBSD 11 compat.
    pub const COMPAT11: u64 = 0x40;

    /// FreeBSD 12 compat.
    pub const COMPAT12: u64 = 0x80;

    /// FreeBSD 13 compat.
    pub const COMPAT13: u64 = 0x100;

    /// FreeBSD 14 compat.
    pub const COMPAT14: u64 = 0x200;

    /// Obsolete and not included in the system.
    pub const OBSOL: u64 = 0x400;

    /// Reserved for non-FreeBSD use.
    pub const RESERVED: u64 = 0x800;

    /// Unimplemented, placeholder only.
    pub const UNIMPL: u64 = 0x1000;

    /// Implemented but as an LKM.
    pub const NOSTD: u64 = 0x2000;

    /// Like `STD`, but does not create a structure in `sys/sysproto.h`.
    pub const NOARGS: u64 = 0x4000;

    /// Like `STD`, but does not create a structure or prototype in
    /// `sys/sysproto.h`.
    pub const NODEF: u64 = 0x8000;

    /// Like `STD`, but does not create a prototype in `sys/sysproto.h`.
    pub const NOPROTO: u64 = 0x10000;

    /// Syscall is loadable.
    pub const NOTSTATIC: u64 = 0x20000;

    /// Syscall multiplexer.
    pub const SYSMUX: u64 = 0x40000;

    /// Syscall is allowed in capability mode.
    pub const CAPENABLED: u64 = 0x80000;
}

/// The bit a flag name stands for, if the name is in the vocabulary.
pub open spec fn flag_bit(s: Seq<char>) -> Option<u64> {
    if s == "STD"@ {
        Some(Flags::STD)
    } else if s == "COMPAT"@ {
        Some(Flags::COMPAT)
    } else if s == "COMPAT4"@ {
        Some(Flags::COMPAT4)
    } else if s == "COMPAT6"@ {
        Some(Flags::COMPAT6)
    } else if s == "COMPAT7"@ {
        Some(Flags::COMPAT7)
    } else if s == "COMPAT10"@ {
        Some(Flags::COMPAT10)
    } else if s == "COMPAT11"@ {
        Some(Flags::COMPAT11)
    } else if s == "COMPAT12"@ {
        Some(Flags::COMPAT12)
    } else if s == "COMPAT13"@ {
        Some(Flags::COMPAT13)
    } else if s == "COMPAT14"@ {
        Some(Flags::COMPAT14)
    } else if s == "OBSOL"@ {
        Some(Flags::OBSOL)
    } else if s == "RESERVED"@ {
        Some(Flags::RESERVED)
    } else if s == "UNIMPL"@ {
        Some(Flags::UNIMPL)
    } else if s == "NOSTD"@ {
        Some(Flags::NOSTD)
    } else if s == "NOARGS"@ {
        Some(Flags::NOARGS)
    } else if s == "NODEF"@ {
        Some(Flags::NODEF)
    } else if s == "NOPROTO"@ {
        Some(Flags::NOPROTO)
    } else if s == "NOTSTATIC"@ {
        Some(Flags::NOTSTATIC)
    } else if s == "SYSMUX"@ {
        Some(Flags::SYSMUX)
    } else if s == "CAPENABLED"@ {
        Some(Flags::CAPENABLED)
    } else {
        None
    }
}

/// What parsing a flag expression yields: the union of the named bits, each
/// `|`-separated segment trimmed and resolved by name.
pub open spec fn parse_flags_spec(s: Seq<char>) -> Option<u64>
    decreases s.len(),
{
    match find_p(s, Pred::Pipe.as_fn()) {
        None => flag_bit(trim_spec(s)),
        Some(i) => if 0 <= i < s.len() {
            match flag_bit(trim_spec(s.subrange(0, i))) {
                None => None,
                Some(b) => match parse_flags_spec(s.subrange(i + 1, s.len() as int)) {
                    None => None,
                    Some(m) => Some(b | m),
                },
            }
        } else {
            None
        },
    }
}

/// The first segment of a flag expression that names no known flag.
pub open spec fn flags_bad_token(s: Seq<char>) -> Seq<char>
    decreases s.len(),
{
    match find_p(s, Pred::Pipe.as_fn()) {
        None => trim_spec(s),
        Some(i) => if 0 <= i < s.len() {
            if flag_bit(trim_spec(s.subrange(0, i))) is None {
                trim_spec(s.subrange(0, i))
            } else {
                flags_bad_token(s.subrange(i + 1, s.len() as int))
            }
        } else {
            trim_spec(s)
        },
    }
}

pub proof fn lemma_or_assoc(a: u64, b: u64, c: u64)
    ensures
        (a | b) | c == a | (b | c),
{
    assert((a | b) | c == a | (b | c)) by (bit_vector);
}

/// The bit a flag name stands for, resolved against the vocabulary.
fn flag_from_name(s: &str) -> (r: Option<u64>)
    ensures
        r == flag_bit(s@),
{
    if str_eq(s, "STD") {
        Some(Flags::STD)
    } else if str_eq(s, "COMPAT") {
        Some(Flags::COMPAT)
    } else if str_eq(s, "COMPAT4") {
        Some(Flags::COMPAT4)
    } else if str_eq(s, "COMPAT6") {
        Some(Flags::COMPAT6)
    } else if str_eq(s, "COMPAT7") {
        Some(Flags::COMPAT7)
    } else if str_eq(s, "COMPAT10") {
        Some(Flags::COMPAT10)
    } else if str_eq(s, "COMPAT11") {
        Some(Flags::COMPAT11)
    } else if str_eq(s, "COMPAT12") {
        Some(Flags::COMPAT12)
    } else if str_eq(s, "COMPAT13") {
        Some(Flags::COMPAT13)
    } else if str_eq(s, "COMPAT14") {
        Some(Flags::COMPAT14)
    } else if str_eq(s, "OBSOL") {
        Some(Flags::OBSOL)
    } else if str_eq(s, "RESERVED") {
        Some(Flags::RESERVED)
    } else if str_eq(s, "UNIMPL") {
        Some(Flags::UNIMPL)
    } else if str_eq(s, "NOSTD") {
        Some(Flags::NOSTD)
    } else if str_eq(s, "NOARGS") {
        Some(Flags::NOARGS)
    } else if str_eq(s, "NODEF") {
        Some(Flags::NODEF)
    } else if str_eq(s, "NOPROTO") {
        Some(Flags::NOPROTO)
    } else if str_eq(s, "NOTSTATIC") {
        Some(Flags::NOTSTATIC)
    } else if str_eq(s, "SYSMUX") {
        Some(Flags::SYSMUX)
    } else if str_eq(s, "CAPENABLED") {
        Some(Flags::CAPENABLED)
    } else {
        None
    }
}

impl Flags {
    /// A flag set with no bit set.
    pub fn empty() -> (r: Flags)
        ensures
            r@ == 0u64,
    {
        Flags { bits: 0 }
    }

    /// A flag set with exactly the given bits set.
    pub fn from_bits(bits: u64) -> (r: Flags)
        ensures
            r@ == bits,
    {
        Flags { bits }
    }

    /// The raw bits.
    pub fn bits(&self) -> (r: u64)
        ensures
            r == self@,
    {
        self.bits
    }

    /// Whether every bit of `mask` is set.
    pub fn contains(&self, mask: u64) -> (r: bool)
        ensures
            r == (self@ & mask == mask),
    {
        self.bits & mask == mask
    }

    /// Whether any bit of `mask` is set.
    pub fn intersects(&self, mask: u64) -> (r: bool)
        ensures
            r == (self@ & mask != 0),
    {
        self.bits & mask != 0
    }

    /// Parses a `|`-joined flag expression; an unknown name fails, carrying
    /// the offending token.
    pub fn parse(s: &str) -> (r: Result<Flags, Error>)
        ensures
            match r {
                Ok(f) => parse_flags_spec(s@) == Some(f@),
                Err(e) => parse_flags_spec(s@) is None && (e matches Error::UnknownFlag(t)
                    && t@ == flags_bad_token(s@)),
            },
    {
        let mut rest: &str = s;
        let mut acc: u64 = 0;
        proof {
            assert forall|m: u64| #[trigger] (0u64 | m) == m by {
                assert(0u64 | m == m) by (bit_vector);
            }
        }
        loop
            invariant
                forall|m: u64|
                    parse_flags_spec(rest@) == Some(m) ==> parse_flags_spec(s@) == Some(acc | m),
                parse_flags_spec(rest@) is None ==> parse_flags_spec(s@) is None
                    && flags_bad_token(s@) == flags_bad_token(rest@),
            decreases rest@.len(),
        {
            match find(rest, Pred::Pipe) {
                Some(i) => {
                    proof {
                        lemma_find_p(rest@, Pred::Pipe.as_fn());
                    }
                    let n = strlen(rest);
                    let seg = slice(rest, 0, i);
                    let tok = trim(seg);
                    match flag_from_name(tok) {
                        Some(b) => {
                            let tail = slice(rest, i + 1, n);
                            proof {
                                assert forall|m: u64|
                                    parse_flags_spec(tail@) == Some(m) implies parse_flags_spec(
                                    s@,
                                ) == Some((acc | b) | m) by {
                                    assert(parse_flags_spec(rest@) == Some(b | m));
                                    lemma_or_assoc(acc, b, m);
                                }
                            }
                            acc = acc | b;
                            rest = tail;
                        },
                        None => {
                            return Err(Error::UnknownFlag(String::from_str(tok)));
                        },
                    }
                },
                None => {
                    let tok = trim(rest);
                    match flag_from_name(tok) {
                        Some(b) => {
                            return Ok(Flags { bits: acc | b });
                        },
                        None => {
                            return Err(Error::UnknownFlag(String::from_str(tok)));
                        },
                    }
                },
            }
        }
    }
}

} // verus!
