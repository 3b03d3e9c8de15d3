//! The code generator: one numeric constant and one function declaration per
//! eligible record, identifier repair applied to every emitted name.

use vstd::prelude::*;
use vstd::string::{StrSliceExecFns, StringExecFns};

use crate::ctype::{BaseV, IntKind, TypeKind, TypeV};
use crate::error::Error;
use crate::flags::Flags;
use crate::ident::{parse_ident, sanitize_ident, sanitize_spec, sanitize_type, sanitize_type_spec,
    ident_ok};
use crate::parse::{args_view, sc_next, ArgV, StepV, Syscall, SyscallV, Syscalls};

verus! {

/// The character a decimal digit displays as.
pub open spec fn digit_char(d: int) -> char {
    if d == 0 {
        '0'
    } else if d == 1 {
        '1'
    } else if d == 2 {
        '2'
    } else if d == 3 {
        '3'
    } else if d == 4 {
        '4'
    } else if d == 5 {
        '5'
    } else if d == 6 {
        '6'
    } else if d == 7 {
        '7'
    } else if d == 8 {
        '8'
    } else {
        '9'
    }
}

/// The decimal text of a number, most significant digit first.
pub open spec fn dec_str(n: int) -> Seq<char>
    decreases n,
{
    if n < 10 {
        seq![digit_char(n)]
    } else {
        dec_str(n / 10) + seq![digit_char(n % 10)]
    }
}

/// The digit's text.
fn digit_lit(d: u64) -> (r: &'static str)
    requires
        d < 10,
    ensures
        r@ == seq![digit_char(d as int)],
{
    proof {
        reveal_strlit("0");
        reveal_strlit("1");
        reveal_strlit("2");
        reveal_strlit("3");
        reveal_strlit("4");
        reveal_strlit("5");
        reveal_strlit("6");
        reveal_strlit("7");
        reveal_strlit("8");
        reveal_strlit("9");
    }
    if d == 0 {
        "0"
    } else if d == 1 {
        "1"
    } else if d == 2 {
        "2"
    } else if d == 3 {
        "3"
    } else if d == 4 {
        "4"
    } else if d == 5 {
        "5"
    } else if d == 6 {
        "6"
    } else if d == 7 {
        "7"
    } else if d == 8 {
        "8"
    } else {
        "9"
    }
}

/// Appends the decimal text of `n`.
fn push_dec(out: &mut String, n: u64)
    ensures
        final(out)@ == old(out)@ + dec_str(n as int),
    decreases n,
{
    if n < 10 {
        out.append(digit_lit(n));
    } else {
        push_dec(out, n / 10);
        out.append(digit_lit(n % 10));
        proof {
            assert(final(out)@ =~= old(out)@ + dec_str(n as int));
        }
    }
}

/// A character upper-cased, for the ASCII letters.
pub open spec fn upper_char(c: char) -> char {
    if 'a' as int <= c as int <= 'z' as int {
        ((c as int - 32) as u8) as char
    } else {
        c
    }
}

/// A name upper-cased character by character.
pub open spec fn upper_str(s: Seq<char>) -> Seq<char> {
    Seq::new(s.len(), |i: int| upper_char(s[i]))
}

/// Appends `s` upper-cased.
fn push_upper(out: &mut String, s: &str)
    ensures
        final(out)@ == old(out)@ + upper_str(s@),
{
    let n = s.unicode_len();
    let mut i: usize = 0;
    proof {
        assert(out@ =~= out@ + upper_str(s@.subrange(0, 0)));
    }
    let ghost base = out@;
    while i < n
        invariant
            0 <= i <= n,
            n == s@.len(),
            out@ == base + upper_str(s@.subrange(0, i as int)),
        decreases n - i,
    {
        let c = s.get_char(i);
        let u = c as u32;
        if u >= 97 && u <= 122 {
            let up: &'static str = if c == 'a' {
                "A"
            } else if c == 'b' {
                "B"
            } else if c == 'c' {
                "C"
            } else if c == 'd' {
                "D"
            } else if c == 'e' {
                "E"
            } else if c == 'f' {
                "F"
            } else if c == 'g' {
                "G"
            } else if c == 'h' {
                "H"
            } else if c == 'i' {
                "I"
            } else if c == 'j' {
                "J"
            } else if c == 'k' {
                "K"
            } else if c == 'l' {
                "L"
            } else if c == 'm' {
                "M"
            } else if c == 'n' {
                "N"
            } else if c == 'o' {
                "O"
            } else if c == 'p' {
                "P"
            } else if c == 'q' {
                "Q"
            } else if c == 'r' {
                "R"
            } else if c == 's' {
                "S"
            } else if c == 't' {
                "T"
            } else if c == 'u' {
                "U"
            } else if c == 'v' {
                "V"
            } else if c == 'w' {
                "W"
            } else if c == 'x' {
                "X"
            } else if c == 'y' {
                "Y"
            } else {
                "Z"
            };
            proof {
                reveal_strlit("A");
                reveal_strlit("B");
                reveal_strlit("C");
                reveal_strlit("D");
                reveal_strlit("E");
                reveal_strlit("F");
                reveal_strlit("G");
                reveal_strlit("H");
                reveal_strlit("I");
                reveal_strlit("J");
                reveal_strlit("K");
                reveal_strlit("L");
                reveal_strlit("M");
                reveal_strlit("N");
                reveal_strlit("O");
                reveal_strlit("P");
                reveal_strlit("Q");
                reveal_strlit("R");
                reveal_strlit("S");
                reveal_strlit("T");
                reveal_strlit("U");
                reveal_strlit("V");
                reveal_strlit("W");
                reveal_strlit("X");
                reveal_strlit("Y");
                reveal_strlit("Z");
                assert(up@ == seq![upper_char(s@[i as int])]);
            }
            out.append(up);
        } else {
            let one = crate::text::slice(s, i, i + 1);
            proof {
                assert(one@ =~= seq![upper_char(s@[i as int])]);
            }
            out.append(one);
        }
        proof {
            assert(out@ =~= base + upper_str(s@.subrange(0, i + 1)));
        }
        i = i + 1;
    }
    proof {
        assert(s@.subrange(0, n as int) =~= s@);
    }
}

/// The native spelling an argument type is emitted as: pointer layers
/// resolve to the pointee's own mapping, a struct tag or unknown spelling is
/// repaired as a type name.
pub open spec fn rtype_spec(t: TypeV) -> Option<Seq<char>> {
    match t.base {
        BaseV::Void => Some("c_void"@),
        BaseV::Int(IntKind::Int) => Some("c_int"@),
        BaseV::Int(IntKind::ULong) => Some("c_ulong"@),
        BaseV::Int(IntKind::Char) => Some("c_char"@),
        BaseV::Int(IntKind::Uintptr) => Some("usize"@),
        BaseV::Struct(v) => sanitize_type_spec(v),
        BaseV::Unknown(v) => sanitize_type_spec(v),
    }
}

/// The native spelling of an argument type.
fn rtype(t: &TypeKind<'_>) -> (r: Result<String, Error>)
    ensures
        match r {
            Ok(s) => rtype_spec(t@) == Some(s@),
            Err(_) => rtype_spec(t@) is None,
        },
    decreases *t,
{
    match t {
        TypeKind::Void => Ok(String::from_str("c_void")),
        TypeKind::Int(IntKind::Int) => Ok(String::from_str("c_int")),
        TypeKind::Int(IntKind::ULong) => Ok(String::from_str("c_ulong")),
        TypeKind::Int(IntKind::Char) => Ok(String::from_str("c_char")),
        TypeKind::Int(IntKind::Uintptr) => Ok(String::from_str("usize")),
        TypeKind::Pointer(b) => rtype(&**b),
        TypeKind::Struct(v) => sanitize_type(v),
        TypeKind::Unknown(v) => sanitize_type(v),
    }
}

/// One argument of the emitted signature: `name: type`.
pub open spec fn arg_sig(a: ArgV) -> Option<Seq<char>> {
    match (sanitize_spec(a.name), rtype_spec(a.typ)) {
        (Some(n), Some(t)) => Some(n + ": "@ + t),
        _ => None,
    }
}

/// The signature arguments after the first, each preceded by `, `.
pub open spec fn args_sig_rest(args: Seq<ArgV>) -> Option<Seq<char>>
    decreases args.len(),
{
    if args.len() == 0 {
        Some(Seq::empty())
    } else {
        match (arg_sig(args[0]), args_sig_rest(args.drop_first())) {
            (Some(a), Some(r)) => Some(", "@ + a + r),
            _ => None,
        }
    }
}

/// The full emitted signature argument list.
pub open spec fn args_sig(args: Seq<ArgV>) -> Option<Seq<char>> {
    if args.len() == 0 {
        Some(Seq::empty())
    } else {
        match (arg_sig(args[0]), args_sig_rest(args.drop_first())) {
            (Some(a), Some(r)) => Some(a + r),
            _ => None,
        }
    }
}

/// The emitted call arguments, each preceded by `, ` after the constant.
pub open spec fn args_call(args: Seq<ArgV>) -> Option<Seq<char>>
    decreases args.len(),
{
    if args.len() == 0 {
        Some(Seq::empty())
    } else {
        match (sanitize_spec(args[0].name), args_call(args.drop_first())) {
            (Some(n), Some(r)) => Some(", "@ + n + r),
            _ => None,
        }
    }
}

/// What one record is emitted as: a comment placeholder for an entry
/// filtered out upstream; otherwise the prefixed upper-cased constant and
/// the function declaration, every name repaired.
pub open spec fn emit_one(sc: SyscallV) -> Option<Seq<char>> {
    if sc.flags & Flags::RESERVED == Flags::RESERVED {
        Some("// Reserved: "@ + dec_str(sc.number as int) + "\n"@)
    } else {
        let cname = "SYS_"@ + upper_str(sc.name);
        if !ident_ok(cname) {
            None
        } else {
            match (sanitize_spec(sc.name), args_sig(sc.args), args_call(sc.args)) {
                (Some(fname), Some(sig), Some(call)) => Some(
                    "pub const "@ + cname + ": u64 = "@ + dec_str(sc.number as int) + ";\n"@
                        + "pub unsafe fn "@ + fname + "("@ + sig
                        + ") -> Result<(i64, i64), Errno> {\n    syscall!("@ + cname + call
                        + ")\n}\n"@,
                ),
                _ => None,
            }
        }
    }
}

/// What a sequence of records is emitted as.
pub open spec fn emit_all(scs: Seq<SyscallV>) -> Option<Seq<char>>
    decreases scs.len(),
{
    if scs.len() == 0 {
        Some(Seq::empty())
    } else {
        match (emit_one(scs[0]), emit_all(scs.drop_first())) {
            (Some(a), Some(r)) => Some(a + r),
            _ => None,
        }
    }
}

/// Every record of the table, in source order; `None` on any violation.
pub open spec fn collect_spec(data: Seq<char>) -> Option<Seq<SyscallV>>
    decreases data.len(),
    via collect_spec_dec
{
    match sc_next(data) {
        StepV::Fin => Some(Seq::empty()),
        StepV::Fail => None,
        StepV::Step(sc, rest) => match collect_spec(rest) {
            Some(r) => Some(seq![sc] + r),
            None => None,
        },
    }
}

#[via_fn]
proof fn collect_spec_dec(data: Seq<char>) {
    crate::parse::lemma_sc_next_shrinks(data);
}

/// What the whole table is emitted as: the import header, then every
/// eligible record's declarations.
pub open spec fn gen_spec(data: Seq<char>) -> Option<Seq<char>> {
    match collect_spec(data) {
        None => None,
        Some(scs) => match emit_all(scs) {
            None => None,
            Some(body) => Some("use core::ffi::{c_char, c_int, c_ulong, c_void};\n\n"@ + body),
        },
    }
}

/// The view of a collected record vector.
pub open spec fn scs_view<'a>(v: Seq<Syscall<'a>>) -> Seq<SyscallV> {
    v.map_values(|s: Syscall<'a>| s@)
}

/// Appends the declarations of one record.
fn append_decl(out: &mut String, sc: &Syscall<'_>) -> (r: Result<(), Error>)
    ensures
        match r {
            Ok(_) => emit_one(sc@) matches Some(t) && final(out)@ == old(out)@ + t,
            Err(_) => emit_one(sc@) is None,
        },
{
    if sc.flags.contains(Flags::RESERVED) {
        out.append("// Reserved: ");
        push_dec(out, sc.number);
        out.append("\n");
        proof {
            assert(out@ =~= old(out)@ + ("// Reserved: "@ + dec_str(sc.number as int) + "\n"@));
        }
        return Ok(());
    }
    let mut cname = String::from_str("SYS_");
    push_upper(&mut cname, sc.name);
    if !parse_ident(cname.as_str()) {
        return Err(Error::BadIdentifier(String::from_str(sc.name)));
    }
    let fname = match sanitize_ident(sc.name) {
        Err(e) => {
            return Err(e);
        },
        Ok(f) => f,
    };
    let ghost argsv = sc@.args;
    let mut sig = String::new();
    let mut call = String::new();
    let m = sc.args.len();
    proof {
        assert(argsv =~= args_view(sc.args@));
    }
    if m > 0 {
        let a0 = &sc.args[0];
        proof {
            assert(argsv[0] == a0@);
        }
        let an = match sanitize_ident(a0.name) {
            Err(e) => {
                proof {
                    assert(arg_sig(argsv[0]) is None);
                }
                return Err(e);
            },
            Ok(x) => x,
        };
        let at = match rtype(&a0.typ) {
            Err(e) => {
                proof {
                    assert(arg_sig(argsv[0]) is None);
                }
                return Err(e);
            },
            Ok(x) => x,
        };
        sig.append(an.as_str());
        sig.append(": ");
        sig.append(at.as_str());
        call.append(", ");
        call.append(an.as_str());
        proof {
            assert(arg_sig(argsv[0]) == Some(sig@)) by {
                assert(sig@ =~= an@ + ": "@ + at@);
            }
        }
        let mut k: usize = 1;
        while k < m
            invariant
                1 <= k <= m,
                m == sc.args@.len(),
                argsv == args_view(sc.args@),
                sc@.flags & Flags::RESERVED != Flags::RESERVED,
                forall|t: Seq<char>|
                    args_sig_rest(argsv.skip(k as int)) == Some(t) ==> args_sig(argsv) == Some(
                        sig@ + t,
                    ),
                args_sig_rest(argsv.skip(k as int)) is None ==> args_sig(argsv) is None,
                forall|t: Seq<char>|
                    args_call(argsv.skip(k as int)) == Some(t) ==> args_call(argsv) == Some(
                        call@ + t,
                    ),
                args_call(argsv.skip(k as int)) is None ==> args_call(argsv) is None,
            decreases m - k,
        {
            let a = &sc.args[k];
            proof {
                assert(argsv.skip(k as int)[0] == argsv[k as int]);
                assert(argsv[k as int] == a@);
                assert(argsv.skip(k as int).drop_first() =~= argsv.skip(k + 1));
            }
            let an = match sanitize_ident(a.name) {
                Err(e) => {
                    proof {
                        assert(arg_sig(argsv[k as int]) is None);
                        assert(argsv.skip(k as int).len() > 0);
                        assert(args_sig_rest(argsv.skip(k as int)) is None);
                        assert(args_sig(argsv) is None);
                    }
                    return Err(e);
                },
                Ok(x) => x,
            };
            let at = match rtype(&a.typ) {
                Err(e) => {
                    proof {
                        assert(arg_sig(argsv[k as int]) is None);
                        assert(argsv.skip(k as int).len() > 0);
                        assert(args_sig_rest(argsv.skip(k as int)) is None);
                        assert(args_sig(argsv) is None);
                    }
                    return Err(e);
                },
                Ok(x) => x,
            };
            let ghost sig0 = sig@;
            let ghost call0 = call@;
            sig.append(", ");
            sig.append(an.as_str());
            sig.append(": ");
            sig.append(at.as_str());
            call.append(", ");
            call.append(an.as_str());
            proof {
                let a_text = an@ + ": "@ + at@;
                assert(arg_sig(argsv[k as int]) == Some(a_text));
                assert(sig@ =~= sig0 + (", "@ + a_text));
                assert(call@ =~= call0 + (", "@ + an@));
                assert forall|t: Seq<char>|
                    args_sig_rest(argsv.skip(k + 1)) == Some(t) implies args_sig(argsv) == Some(
                    sig@ + t,
                ) by {
                    assert(args_sig_rest(argsv.skip(k as int)) == Some((", "@ + a_text) + t));
                    assert(sig0 + ((", "@ + a_text) + t) =~= sig@ + t);
                }
                assert forall|t: Seq<char>|
                    args_call(argsv.skip(k + 1)) == Some(t) implies args_call(argsv) == Some(
                    call@ + t,
                ) by {
                    assert(args_call(argsv.skip(k as int)) == Some((", "@ + an@) + t));
                    assert(call0 + ((", "@ + an@) + t) =~= call@ + t);
                }
            }
            k = k + 1;
        }
        proof {
            assert(argsv.skip(m as int) =~= Seq::<ArgV>::empty());
            assert(args_sig_rest(Seq::<ArgV>::empty()) == Some(Seq::<char>::empty()));
            assert(sig@ + Seq::<char>::empty() =~= sig@);
            assert(call@ + Seq::<char>::empty() =~= call@);
        }
    } else {
        proof {
            assert(args_sig(argsv) == Some(sig@)) by {
                assert(sig@ =~= Seq::<char>::empty());
            }
            assert(args_call(argsv) == Some(call@)) by {
                assert(call@ =~= Seq::<char>::empty());
            }
        }
    }
    // The constant, then the function declaration.
    out.append("pub const ");
    out.append(cname.as_str());
    out.append(": u64 = ");
    push_dec(out, sc.number);
    out.append(";\n");
    out.append("pub unsafe fn ");
    out.append(fname.as_str());
    out.append("(");
    out.append(sig.as_str());
    out.append(") -> Result<(i64, i64), Errno> {\n    syscall!(");
    out.append(cname.as_str());
    out.append(call.as_str());
    out.append(")\n}\n");
    proof {
        assert(out@ =~= old(out)@ + ("pub const "@ + cname@ + ": u64 = "@ + dec_str(
            sc@.number as int,
        ) + ";\n"@ + "pub unsafe fn "@ + fname@ + "("@ + sig@
            + ") -> Result<(i64, i64), Errno> {\n    syscall!("@ + cname@ + call@ + ")\n}\n"@));
    }
    Ok(())
}

impl<'a> Syscalls<'a> {
    /// Collects every record of the table, in source order.
    fn collect(&self) -> (r: Result<Vec<Syscall<'a>>, Error>)
        ensures
            match r {
                Ok(v) => collect_spec(self@) == Some(scs_view(v@)),
                Err(_) => collect_spec(self@) is None,
            },
    {
        let mut it: Syscalls<'a> = *self;
        let mut acc: Vec<Syscall<'a>> = Vec::new();
        proof {
            assert(scs_view(acc@) =~= Seq::<SyscallV>::empty());
            assert forall|r: Seq<SyscallV>| #[trigger] (Seq::<SyscallV>::empty() + r) == r by {
                assert(Seq::<SyscallV>::empty() + r =~= r);
            }
        }
        loop
            invariant
                forall|r: Seq<SyscallV>|
                    collect_spec(it@) == Some(r) ==> collect_spec(self@) == Some(
                        scs_view(acc@) + r,
                    ),
                collect_spec(it@) is None ==> collect_spec(self@) is None,
            decreases it@.len(),
        {
            let ghost pre = it@;
            match it.next() {
                None => {
                    proof {
                        assert(collect_spec(pre) == Some(Seq::<SyscallV>::empty()));
                        assert(scs_view(acc@) + Seq::<SyscallV>::empty() =~= scs_view(acc@));
                    }
                    return Ok(acc);
                },
                Some(Err(e)) => {
                    return Err(e);
                },
                Some(Ok(sc)) => {
                    proof {
                        crate::parse::lemma_sc_next_shrinks(pre);
                        assert forall|r: Seq<SyscallV>|
                            collect_spec(it@) == Some(r) implies collect_spec(self@) == Some(
                            scs_view(acc@.push(sc)) + r,
                        ) by {
                            assert(collect_spec(pre) == Some(seq![sc@] + r));
                            assert(scs_view(acc@.push(sc)) =~= scs_view(acc@) + seq![sc@]);
                            assert((scs_view(acc@) + seq![sc@]) + r =~= scs_view(acc@) + (
                            seq![sc@] + r));
                        }
                    }
                    acc.push(sc);
                },
            }
        }
    }

    /// Appends the generated source for the whole table: the import header,
    /// then one constant and one function declaration per eligible record.
    pub fn write(&self, w: &mut String) -> (r: Result<(), Error>)
        ensures
            match r {
                Ok(_) => gen_spec(self@) matches Some(t) && final(w)@ == old(w)@ + t,
                Err(_) => gen_spec(self@) is None,
            },
    {
        let scs = match self.collect() {
            Err(e) => {
                return Err(e);
            },
            Ok(v) => v,
        };
        let ghost sv = scs_view(scs@);
        let mut out = String::from_str("use core::ffi::{c_char, c_int, c_ulong, c_void};\n\n");
        let ghost header = out@;
        let m = scs.len();
        let mut k: usize = 0;
        proof {
            assert(sv.skip(0) =~= sv);
        }
        while k < m
            invariant
                0 <= k <= m,
                m == scs.len(),
                sv == scs_view(scs@),
                forall|t: Seq<char>|
                    emit_all(sv.skip(k as int)) == Some(t) ==> gen_spec(self@) == Some(out@ + t),
                emit_all(sv.skip(k as int)) is None ==> gen_spec(self@) is None,
            decreases m - k,
        {
            let ghost out0 = out@;
            proof {
                assert(sv.skip(k as int)[0] == sv[k as int]);
                assert(sv[k as int] == scs@[k as int]@);
                assert(sv.skip(k as int).drop_first() =~= sv.skip(k + 1));
            }
            match append_decl(&mut out, &scs[k]) {
                Err(e) => {
                    return Err(e);
                },
                Ok(_) => {},
            }
            proof {
                let t_k = choose|t_k: Seq<char>| emit_one(sv[k as int]) == Some(t_k) && out@ == out0
                    + t_k;
                assert forall|t: Seq<char>|
                    emit_all(sv.skip(k + 1)) == Some(t) implies gen_spec(self@) == Some(out@ + t)
                by {
                    assert(emit_all(sv.skip(k as int)) == Some(t_k + t));
                    assert(out0 + (t_k + t) =~= out@ + t);
                }
            }
            k = k + 1;
        }
        proof {
            assert(sv.skip(m as int) =~= Seq::<SyscallV>::empty());
            assert(out@ + Seq::<char>::empty() =~= out@);
        }
        w.append(out.as_str());
        Ok(())
    }
}

} // verus!
