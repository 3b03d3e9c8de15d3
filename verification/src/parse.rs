//! The table parser: consumes the full specification text and produces the
//! syscall records in source order, one parse step per call, the cursor
//! threaded through the `Syscalls` value.

use vstd::prelude::*;
use vstd::string::StrSliceExecFns;

use crate::annot::{annot_spec, AnnotOut, AnnotV, Annotation, ContOut, Contains};
use crate::ctype::{type_spec, BaseV, TypeKind, TypeV};
use crate::error::Error;
use crate::flags::{parse_flags_spec, Flags};
use crate::num::{numbers_spec, Numbers};
use crate::text::{
    find, find_close, find_close_spec, find_p, is_aws, lemma_find_p, next_token, next_token_spec,
    rfind, rfind_p, slice, str_eq, strlen, trim, trim_spec, Pred,
};

verus! {

/// The shape of a parsed argument.
pub struct ArgV {
    pub name: Seq<char>,
    pub typ: TypeV,
    pub annotation: Option<AnnotV>,
    pub contains: Option<u64>,
}

/// An argument to a syscall.
#[derive(Debug, PartialEq, Eq)]
pub struct Arg<'a> {
    /// The argument's name.
    pub name: &'a str,
    /// The argument's type.
    pub typ: TypeKind<'a>,
    /// SAL annotation, if any.
    pub annotation: Option<Annotation<'a>>,
    /// `_Contains_` annotation, if any.
    pub contains: Option<Contains>,
}

impl<'a> View for Arg<'a> {
    type V = ArgV;

    open spec fn view(&self) -> ArgV {
        ArgV {
            name: self.name@,
            typ: self.typ@,
            annotation: match self.annotation {
                Some(a) => Some(a@),
                None => None,
            },
            contains: match self.contains {
                Some(c) => Some(c@),
                None => None,
            },
        }
    }
}

/// The sentinel argument the variadic marker `...` stands for.
pub open spec fn variadic_arg() -> ArgV {
    ArgV {
        name: "_variadic"@,
        typ: TypeV { ptrs: 0, base: BaseV::Void },
        annotation: None,
        contains: None,
    }
}

/// The index left of `j` after scanning backwards over pointer stars and
/// whitespace, `-1` if the scan consumes everything.
pub open spec fn back_scan(r: Seq<char>, j: int) -> int
    decreases j + 1,
{
    if j < 0 || j >= r.len() {
        -1
    } else if r[j] == '*' || is_aws(r[j]) {
        back_scan(r, j - 1)
    } else {
        j
    }
}

/// How many pointer stars the backward scan from `j` crosses.
pub open spec fn count_stars(r: Seq<char>, j: int) -> nat
    decreases j + 1,
{
    if j < 0 || j >= r.len() {
        0
    } else if r[j] == '*' {
        count_stars(r, j - 1) + 1
    } else if is_aws(r[j]) {
        count_stars(r, j - 1)
    } else {
        0
    }
}

/// The type-and-name tail of an argument declaration: the text is split at
/// its last pointer or whitespace boundary; stars at that boundary each add
/// a pointer layer; what precedes them is the C type phrase.
pub open spec fn arg_core_spec(r: Seq<char>, ann: Option<AnnotV>, cont: Option<u64>) -> Option<
    ArgV,
> {
    match rfind_p(r, Pred::StarOrAws.as_fn()) {
        None => None,
        Some(j) => if 0 <= j < r.len() {
            let name = r.subrange(j + 1, r.len() as int);
            let e = back_scan(r, j);
            let stars = count_stars(r, j);
            let phrase = r.subrange(0, e + 1);
            match type_spec(phrase) {
                None => None,
                Some(t) => Some(
                    ArgV {
                        name,
                        typ: TypeV { ptrs: (t.ptrs + stars) as nat, base: t.base },
                        annotation: ann,
                        contains: cont,
                    },
                ),
            }
        } else {
            None
        },
    }
}

/// The optional `_Contains_` token, then the type-and-name tail.
pub open spec fn arg_rest_spec(s: Seq<char>, ann: Option<AnnotV>) -> Option<ArgV> {
    match next_token_spec(s) {
        None => arg_core_spec(s, ann, None),
        Some((t2, r2)) => match crate::annot::contains_spec(t2) {
            ContOut::Fail(_) => None,
            ContOut::Got(b) => arg_core_spec(r2, ann, Some(b)),
            ContOut::NotCont => arg_core_spec(s, ann, None),
        },
    }
}

/// What parsing one argument declaration yields: the variadic sentinel for
/// `...`; otherwise an optional annotation token, an optional `_Contains_`
/// token, then the type-and-name tail.
pub open spec fn arg_spec(s: Seq<char>) -> Option<ArgV> {
    if s == "..."@ {
        Some(variadic_arg())
    } else {
        match next_token_spec(s) {
            None => None,
            Some((t1, r1)) => match annot_spec(t1) {
                AnnotOut::Fail => None,
                AnnotOut::Got(a) => arg_rest_spec(r1, Some(a)),
                AnnotOut::NotAnnot => arg_rest_spec(s, None),
            },
        }
    }
}

impl<'a> Arg<'a> {
    /// Parses one argument declaration.
    fn parse(s: &'a str) -> (r: Result<Arg<'a>, Error>)
        ensures
            match r {
                Ok(a) => arg_spec(s@) == Some(a@),
                Err(_) => arg_spec(s@) is None,
            },
    {
        if str_eq(s, "...") {
            let a = Arg {
                name: "_variadic",
                typ: TypeKind::Void,
                annotation: None,
                contains: None,
            };
            return Ok(a);
        }
        let (t1, r1) = match next_token(s) {
            None => {
                return Err(Error::MissingArgToken);
            },
            Some(p) => p,
        };
        let (ann, cur): (Option<Annotation<'a>>, &'a str) = match Annotation::parse(t1) {
            Err(e) => {
                return Err(e);
            },
            Ok(Some(a)) => (Some(a), r1),
            Ok(None) => (None, s),
        };
        let ghost ann_v: Option<AnnotV> = match ann {
            Some(a) => Some(a@),
            None => None,
        };
        proof {
            assert(arg_spec(s@) == arg_rest_spec(cur@, ann_v));
        }
        let (cont, cur2): (Option<Contains>, &'a str) = match next_token(cur) {
            None => (None, cur),
            Some((t2, r2)) => match Contains::parse(t2) {
                Err(e) => {
                    return Err(e);
                },
                Ok(Some(c)) => (Some(c), r2),
                Ok(None) => (None, cur),
            },
        };
        let ghost cont_v: Option<u64> = match cont {
            Some(c) => Some(c@),
            None => None,
        };
        proof {
            assert(arg_rest_spec(cur@, ann_v) == arg_core_spec(cur2@, ann_v, cont_v));
        }
        Self::parse_core(cur2, ann, cont)
    }

    /// Parses the type-and-name tail of an argument declaration.
    fn parse_core(r: &'a str, ann: Option<Annotation<'a>>, cont: Option<Contains>) -> (res: Result<
        Arg<'a>,
        Error,
    >)
        ensures
            match res {
                Ok(a) => arg_core_spec(
                    r@,
                    match ann {
                        Some(x) => Some(x@),
                        None => None,
                    },
                    match cont {
                        Some(x) => Some(x@),
                        None => None,
                    },
                ) == Some(a@),
                Err(_) => arg_core_spec(
                    r@,
                    match ann {
                        Some(x) => Some(x@),
                        None => None,
                    },
                    match cont {
                        Some(x) => Some(x@),
                        None => None,
                    },
                ) is None,
            },
    {
        let rn = strlen(r);
        let j = match rfind(r, Pred::StarOrAws) {
            None => {
                return Err(Error::ArgSyntax);
            },
            Some(j) => j,
        };
        proof {
            crate::text::lemma_rfind_p(r@, Pred::StarOrAws.as_fn());
        }
        let name = slice(r, j + 1, rn);
        let mut e: usize = j + 1;
        let mut stars: usize = 0;
        loop
            invariant
                0 <= e <= j + 1,
                j < rn == r@.len(),
                back_scan(r@, j as int) == back_scan(r@, e - 1),
                count_stars(r@, j as int) == stars + count_stars(r@, e - 1),
                stars <= j + 1 - e,
            ensures
                0 <= e <= j + 1,
                back_scan(r@, j as int) == e - 1,
                count_stars(r@, j as int) == stars,
            decreases e,
        {
            if e == 0 {
                break;
            }
            let c = r.get_char(e - 1);
            if c == '*' {
                stars = stars + 1;
                e = e - 1;
            } else if c == ' ' || c == '\t' || c == '\n' || c == '\r' || c == '\x0c' {
                e = e - 1;
            } else {
                break;
            }
        }
        let phrase = slice(r, 0, e);
        let typ0 = match TypeKind::parse(phrase) {
            Err(err) => {
                return Err(err);
            },
            Ok(t) => t,
        };
        let typ = crate::ctype::wrap_ptrs(typ0, stars);
        Ok(Arg { name, typ, annotation: ann, contains: cont })
    }
}

/// The view of a parsed argument vector.
pub open spec fn args_view<'a>(v: Seq<Arg<'a>>) -> Seq<ArgV> {
    v.map_values(|a: Arg<'a>| a@)
}

/// What parsing a comma- or newline-separated argument list yields; empty
/// segments are skipped.
pub open spec fn args_list_spec(s: Seq<char>) -> Option<Seq<ArgV>>
    decreases s.len(),
{
    match find_p(s, Pred::CommaOrNewline.as_fn()) {
        None => {
            let p = trim_spec(s);
            if p.len() == 0 {
                Some(Seq::empty())
            } else {
                match arg_spec(p) {
                    Some(a) => Some(seq![a]),
                    None => None,
                }
            }
        },
        Some(i) => if 0 <= i < s.len() {
            let p = trim_spec(s.subrange(0, i));
            let rest = args_list_spec(s.subrange(i + 1, s.len() as int));
            if p.len() == 0 {
                rest
            } else {
                match arg_spec(p) {
                    None => None,
                    Some(a) => match rest {
                        None => None,
                        Some(r) => Some(seq![a] + r),
                    },
                }
            }
        } else {
            None
        },
    }
}

/// What parsing an argument-list literal yields: the literal `void` is zero
/// arguments.
pub open spec fn args_spec(s: Seq<char>) -> Option<Seq<ArgV>> {
    if trim_spec(s) == "void"@ {
        Some(Seq::empty())
    } else {
        args_list_spec(s)
    }
}

/// Parses the argument list of a prototype block.
fn parse_args<'a>(s: &'a str) -> (r: Result<Vec<Arg<'a>>, Error>)
    ensures
        match r {
            Ok(v) => args_spec(s@) == Some(args_view(v@)),
            Err(_) => args_spec(s@) is None,
        },
{
    if str_eq(trim(s), "void") {
        let v: Vec<Arg<'a>> = Vec::new();
        proof {
            assert(args_view(v@) =~= Seq::<ArgV>::empty());
        }
        return Ok(v);
    }
    let mut cur: &'a str = s;
    let mut acc: Vec<Arg<'a>> = Vec::new();
    proof {
        assert(args_view(acc@) =~= Seq::<ArgV>::empty());
        assert forall|r: Seq<ArgV>| #[trigger] (Seq::<ArgV>::empty() + r) == r by {
            assert(Seq::<ArgV>::empty() + r =~= r);
        }
    }
    loop
        invariant
            forall|r: Seq<ArgV>|
                args_list_spec(cur@) == Some(r) ==> args_spec(s@) == Some(args_view(acc@) + r),
            args_list_spec(cur@) is None ==> args_spec(s@) is None,
        decreases cur@.len(),
    {
        match find(cur, Pred::CommaOrNewline) {
            Some(i) => {
                proof {
                    lemma_find_p(cur@, Pred::CommaOrNewline.as_fn());
                }
                let n = strlen(cur);
                let piece = trim(slice(cur, 0, i));
                let tail = slice(cur, i + 1, n);
                if strlen(piece) == 0 {
                    cur = tail;
                } else {
                    match Arg::parse(piece) {
                        Err(e) => {
                            return Err(e);
                        },
                        Ok(a) => {
                            proof {
                                assert forall|r: Seq<ArgV>|
                                    args_list_spec(tail@) == Some(r) implies args_spec(s@) == Some(
                                    args_view(acc@.push(a)) + r,
                                ) by {
                                    assert(args_list_spec(cur@) == Some(seq![a@] + r));
                                    assert(args_view(acc@.push(a)) =~= args_view(acc@) + seq![a@]);
                                    assert((args_view(acc@) + seq![a@]) + r =~= args_view(acc@) + (
                                    seq![a@] + r));
                                }
                            }
                            acc.push(a);
                            cur = tail;
                        },
                    }
                }
            },
            None => {
                let piece = trim(cur);
                if strlen(piece) == 0 {
                    proof {
                        assert(args_view(acc@) + Seq::<ArgV>::empty() =~= args_view(acc@));
                    }
                    return Ok(acc);
                }
                match Arg::parse(piece) {
                    Err(e) => {
                        return Err(e);
                    },
                    Ok(a) => {
                        proof {
                            assert(args_view(acc@.push(a)) =~= args_view(acc@) + seq![a@]);
                        }
                        acc.push(a);
                        return Ok(acc);
                    },
                }
            },
        }
    }
}

/// `n` with its leading pointer stars removed.
pub open spec fn strip_stars(n: Seq<char>) -> Seq<char>
    decreases n.len(),
{
    if n.len() > 0 && n[0] == '*' {
        strip_stars(n.subrange(1, n.len() as int))
    } else {
        n
    }
}

/// What parsing a prototype block yields: `<result> <name>(<args>);`, split
/// at the first space, the first `(`, and the last `)`; the name may be
/// `*`-decorated.
pub open spec fn block_spec(s: Seq<char>) -> Option<(Seq<char>, Seq<ArgV>)> {
    match find_p(s, Pred::Space.as_fn()) {
        None => None,
        Some(i) => if 0 <= i < s.len() {
            let rest = s.subrange(i + 1, s.len() as int);
            match find_p(rest, Pred::LParen.as_fn()) {
                None => None,
                Some(k) => if 0 <= k < rest.len() {
                    let name0 = rest.subrange(0, k);
                    let inner_plus = rest.subrange(k + 1, rest.len() as int);
                    match rfind_p(inner_plus, Pred::RParen.as_fn()) {
                        None => None,
                        Some(m) => if 0 <= m < inner_plus.len() {
                            let inner = inner_plus.subrange(0, m);
                            let tail = inner_plus.subrange(m + 1, inner_plus.len() as int);
                            if tail == ";"@ {
                                match args_spec(trim_spec(inner)) {
                                    None => None,
                                    Some(args) => Some((strip_stars(name0), args)),
                                }
                            } else {
                                None
                            }
                        } else {
                            None
                        },
                    }
                } else {
                    None
                },
            }
        } else {
            None
        },
    }
}

/// A parsed prototype block.
struct Block<'a> {
    /// The result type, kept verbatim.
    result: &'a str,
    /// How many pointer stars decorated the name.
    star: usize,
    /// The syscall name.
    name: &'a str,
    /// The declared arguments.
    args: Vec<Arg<'a>>,
}

impl<'a> Block<'a> {
    /// Parses the text between the block markers.
    fn parse(s: &'a str) -> (r: Result<Block<'a>, Error>)
        ensures
            match r {
                Ok(b) => block_spec(s@) == Some((b.name@, args_view(b.args@))),
                Err(_) => block_spec(s@) is None,
            },
    {
        let n = strlen(s);
        let i = match find(s, Pred::Space) {
            None => {
                return Err(Error::MissingResult);
            },
            Some(i) => i,
        };
        proof {
            lemma_find_p(s@, Pred::Space.as_fn());
        }
        let result = slice(s, 0, i);
        let rest = slice(s, i + 1, n);
        let rn = strlen(rest);
        let k = match find(rest, Pred::LParen) {
            None => {
                return Err(Error::MissingParen);
            },
            Some(k) => k,
        };
        proof {
            lemma_find_p(rest@, Pred::LParen.as_fn());
        }
        let name0 = slice(rest, 0, k);
        let inner_plus = slice(rest, k + 1, rn);
        let pn = strlen(inner_plus);
        let m = match rfind(inner_plus, Pred::RParen) {
            None => {
                return Err(Error::MissingCloseParen);
            },
            Some(m) => m,
        };
        proof {
            crate::text::lemma_rfind_p(inner_plus@, Pred::RParen.as_fn());
        }
        let inner = slice(inner_plus, 0, m);
        let tail = slice(inner_plus, m + 1, pn);
        if !str_eq(tail, ";") {
            return Err(Error::MissingSemicolon);
        }
        // Strip pointer decoration off the name.
        let mut name = name0;
        let mut star: usize = 0;
        loop
            invariant
                strip_stars(name0@) == strip_stars(name@),
                name0@.len() <= usize::MAX,
                star <= name0@.len() - name@.len(),
            ensures
                name@ == strip_stars(name0@),
            decreases name@.len(),
        {
            let nn = strlen(name);
            if nn > 0 && name.get_char(0) == '*' {
                name = slice(name, 1, nn);
                star = star + 1;
            } else {
                break;
            }
        }
        let args = match parse_args(trim(inner)) {
            Err(e) => {
                return Err(e);
            },
            Ok(v) => v,
        };
        Ok(Block { result, star, name, args })
    }
}

/// The shape of a parsed syscall record.
pub struct SyscallV {
    pub number: u64,
    pub name: Seq<char>,
    pub args: Seq<ArgV>,
    pub audit: Seq<char>,
    pub flags: u64,
}

/// A system call.
#[derive(Debug, PartialEq, Eq)]
pub struct Syscall<'a> {
    /// The syscall's number.
    pub number: u64,
    /// The name of the syscall.
    pub name: &'a str,
    /// The syscall's arguments.
    pub args: Vec<Arg<'a>>,
    /// The audit event associated with the syscall.
    pub audit: &'a str,
    /// Flags applied to the syscall.
    pub flags: Flags,
}

impl<'a> View for Syscall<'a> {
    type V = SyscallV;

    open spec fn view(&self) -> SyscallV {
        SyscallV {
            number: self.number,
            name: self.name@,
            args: args_view(self.args@),
            audit: self.audit@,
            flags: self.flags@,
        }
    }
}

/// What one parse step yields.
pub enum StepV {
    /// No further line holds a record.
    Fin,
    /// A structural violation aborts the whole table.
    Fail,
    /// A record, and the text the next step starts from.
    Step(SyscallV, Seq<char>),
}

/// A line that carries no entry: empty, a comment, or a section delimiter.
pub open spec fn skip_line(l: Seq<char>) -> bool {
    l.len() == 0 || l[0] == ';' || l[0] == '#' || (l.len() >= 2 && l[0] == '%' && l[1] == '%')
}

/// What one non-comment line yields.
pub enum EntryV {
    /// A `RESERVED` entry: dropped, the next record starts at the line after.
    Drop,
    /// A structural violation.
    Bad,
    /// A record, and the text the next step starts from.
    Rec(SyscallV, Seq<char>),
}

/// What one specification line yields, `rest` being the text after its
/// newline: the four columns parse, a `RESERVED` entry is dropped, and a
/// prototype block is consumed from `rest` up to its terminator line.
pub open spec fn entry_spec(line: Seq<char>, rest: Seq<char>) -> EntryV {
    let lt = trim_spec(line);
    let has_block = lt.len() > 0 && lt[lt.len() - 1] == '{';
    let body = if has_block {
        trim_spec(lt.subrange(0, lt.len() - 1))
    } else {
        line
    };
    match next_token_spec(body) {
        None => EntryV::Bad,
        Some((t1, r1)) => match numbers_spec(t1) {
            None => EntryV::Bad,
            Some(nr) => match next_token_spec(r1) {
                None => EntryV::Bad,
                Some((audit, r2)) => match next_token_spec(r2) {
                    None => EntryV::Bad,
                    Some((t3, r3)) => match parse_flags_spec(t3) {
                        None => EntryV::Bad,
                        Some(fl) => if fl & (Flags::OBSOL | Flags::RESERVED) != 0 && has_block {
                            EntryV::Bad
                        } else if fl & Flags::RESERVED == Flags::RESERVED {
                            EntryV::Drop
                        } else if nr.0 != nr.1 {
                            EntryV::Bad
                        } else if !has_block {
                            match next_token_spec(r3) {
                                None => EntryV::Bad,
                                Some((nm, _)) => EntryV::Rec(
                                    SyscallV {
                                        number: nr.0,
                                        name: nm,
                                        args: Seq::empty(),
                                        audit,
                                        flags: fl,
                                    },
                                    rest,
                                ),
                            }
                        } else {
                            match find_close_spec(rest) {
                                None => EntryV::Bad,
                                Some(j) => if 0 <= j && j + 3 <= rest.len() {
                                    let block = rest.subrange(0, j);
                                    let rest2 = rest.subrange(j + 3, rest.len() as int);
                                    match block_spec(trim_spec(block)) {
                                        None => EntryV::Bad,
                                        Some((nm, args)) => EntryV::Rec(
                                            SyscallV {
                                                number: nr.0,
                                                name: nm,
                                                args,
                                                audit,
                                                flags: fl,
                                            },
                                            rest2,
                                        ),
                                    }
                                } else {
                                    EntryV::Bad
                                },
                            }
                        },
                    },
                },
            },
        },
    }
}

/// What one parse step yields on `data`: lines are consumed up to the first
/// newline; comment and `RESERVED` lines are skipped; otherwise the line
/// yields a record or fails the whole table.
pub open spec fn sc_next(data: Seq<char>) -> StepV
    decreases data.len(),
{
    match find_p(data, Pred::Newline.as_fn()) {
        None => StepV::Fin,
        Some(i) => if 0 <= i < data.len() {
            let line = data.subrange(0, i);
            let rest = data.subrange(i + 1, data.len() as int);
            if skip_line(line) {
                sc_next(rest)
            } else {
                match entry_spec(line, rest) {
                    EntryV::Drop => sc_next(rest),
                    EntryV::Bad => StepV::Fail,
                    EntryV::Rec(sc, rest2) => StepV::Step(sc, rest2),
                }
            }
        } else {
            StepV::Fin
        },
    }
}

/// Parses one specification line, consuming a prototype block from `rest`;
/// `Ok(None)` drops a `RESERVED` entry.
fn parse_entry<'a>(line: &'a str, rest: &'a str) -> (r: Result<
    Option<(Syscall<'a>, &'a str)>,
    Error,
>)
    ensures
        match r {
            Ok(Some((sc, rest2))) => entry_spec(line@, rest@) == EntryV::Rec(sc@, rest2@),
            Ok(None) => entry_spec(line@, rest@) is Drop,
            Err(_) => entry_spec(line@, rest@) is Bad,
        },
{
    // An opening brace at the end of the line announces a prototype block.
    let lt = trim(line);
    let ltn = strlen(lt);
    let has_block = ltn > 0 && lt.get_char(ltn - 1) == '{';
    let body: &'a str = if has_block {
        trim(slice(lt, 0, ltn - 1))
    } else {
        line
    };

    // The four leading columns.
    let (t1, r1) = match next_token(body) {
        None => {
            return Err(Error::MissingNumber);
        },
        Some(p) => p,
    };
    let numbers = match Numbers::parse(t1) {
        Err(e) => {
            return Err(e);
        },
        Ok(nr) => nr,
    };
    let (audit, r2) = match next_token(r1) {
        None => {
            return Err(Error::MissingAudit);
        },
        Some(p) => p,
    };
    let (t3, r3) = match next_token(r2) {
        None => {
            return Err(Error::MissingFlags);
        },
        Some(p) => p,
    };
    let flags = match Flags::parse(t3) {
        Err(e) => {
            return Err(e);
        },
        Ok(f) => f,
    };

    if flags.intersects(Flags::OBSOL | Flags::RESERVED) && has_block {
        // These never carry a prototype block.
        return Err(Error::BlockForbidden);
    }
    if flags.contains(Flags::RESERVED) {
        // A reserved entry contributes nothing downstream.
        return Ok(None);
    }
    // Only reserved entries may span a range of numbers.
    if numbers.start() != numbers.end() {
        return Err(Error::RangeNotReserved);
    }
    let number = numbers.start();

    if !has_block {
        let (name, _) = match next_token(r3) {
            None => {
                return Err(Error::MissingName);
            },
            Some(p) => p,
        };
        let sc = Syscall { number, name, args: Vec::new(), audit, flags };
        proof {
            assert(args_view(sc.args@) =~= Seq::<ArgV>::empty());
        }
        return Ok(Some((sc, rest)));
    }
    let rn = strlen(rest);
    let j = match find_close(rest) {
        None => {
            return Err(Error::MissingBlockEnd);
        },
        Some(j) => j,
    };
    proof {
        crate::text::lemma_find_close(rest@);
        assert(crate::text::close_at(rest@, j as int));
    }
    let block = slice(rest, 0, j);
    let rest2 = slice(rest, j + 3, rn);
    let b = match Block::parse(trim(block)) {
        Err(e) => {
            return Err(e);
        },
        Ok(b) => b,
    };
    let sc = Syscall { number, name: b.name, args: b.args, audit, flags };
    Ok(Some((sc, rest2)))
}

/// One unfold of a parse step: what the first line decides when it is no
/// comment.
pub proof fn lemma_sc_next_line(data: Seq<char>, i: int)
    requires
        find_p(data, Pred::Newline.as_fn()) == Some(i),
        0 <= i < data.len(),
        !skip_line(data.subrange(0, i)),
    ensures
        sc_next(data) == (match entry_spec(
            data.subrange(0, i),
            data.subrange(i + 1, data.len() as int),
        ) {
            EntryV::Drop => sc_next(data.subrange(i + 1, data.len() as int)),
            EntryV::Bad => StepV::Fail,
            EntryV::Rec(sc, rest2) => StepV::Step(sc, rest2),
        }),
{
}

/// A line whose flag expression carries `RESERVED` emits no record: the
/// parse of the table continues exactly at the text after that line.
pub proof fn lemma_reserved_entry(line: Seq<char>, rest: Seq<char>, fl: u64)
    requires
        ({
            let lt = trim_spec(line);
            !(lt.len() > 0 && lt[lt.len() - 1] == '{')
        }),
        ({
            &&& next_token_spec(line) matches Some((t1, r1))
            &&& numbers_spec(t1) is Some
            &&& next_token_spec(r1) matches Some((audit, r2))
            &&& next_token_spec(r2) matches Some((t3, r3))
            &&& parse_flags_spec(t3) == Some(fl)
        }),
        fl & Flags::RESERVED == Flags::RESERVED,
    ensures
        entry_spec(line, rest) is Drop,
{
    assert(fl & (Flags::OBSOL | Flags::RESERVED) != 0) by (bit_vector)
        requires
            fl & Flags::RESERVED == Flags::RESERVED,
    ;
}

/// A line that combines `OBSOL` or `RESERVED` with a trailing prototype
/// block marker is a grammar violation: the whole parse fails.
pub proof fn lemma_forbidden_block_entry(line: Seq<char>, rest: Seq<char>, fl: u64)
    requires
        ({
            let lt = trim_spec(line);
            lt.len() > 0 && lt[lt.len() - 1] == '{'
        }),
        ({
            let lt = trim_spec(line);
            let body = trim_spec(lt.subrange(0, lt.len() - 1));
            &&& next_token_spec(body) matches Some((t1, r1))
            &&& numbers_spec(t1) is Some
            &&& next_token_spec(r1) matches Some((audit, r2))
            &&& next_token_spec(r2) matches Some((t3, r3))
            &&& parse_flags_spec(t3) == Some(fl)
        }),
        fl & (Flags::OBSOL | Flags::RESERVED) != 0,
    ensures
        entry_spec(line, rest) is Bad,
{
}

/// The argument-list literal `void` declares zero arguments.
pub proof fn lemma_void_args()
    ensures
        args_spec("void"@) == Some(Seq::<ArgV>::empty()),
{
    reveal_strlit("void");
    let s = "void"@;
    crate::text::lemma_find_p_eq(s, Pred::NonAws.as_fn(), 0);
    crate::text::lemma_rfind_p_eq(s, Pred::NonAws.as_fn(), 3);
    assert(trim_spec(s) =~= s);
}

/// The argument token `...` declares a single variadic placeholder, not an
/// error.
pub proof fn lemma_variadic_arg()
    ensures
        arg_spec("..."@) == Some(variadic_arg()),
{
}

/// An accepted line leaves the text after it no longer than it found it.
pub proof fn lemma_entry_rest(line: Seq<char>, rest: Seq<char>)
    ensures
        entry_spec(line, rest) matches EntryV::Rec(_, r2) ==> r2.len() <= rest.len(),
{
}

/// Each parse step consumes at least one line.
pub proof fn lemma_sc_next_shrinks(data: Seq<char>)
    ensures
        sc_next(data) matches StepV::Step(_, rest) ==> rest.len() < data.len(),
    decreases data.len(),
{
    match find_p(data, Pred::Newline.as_fn()) {
        None => {},
        Some(i) => {
            if 0 <= i < data.len() {
                let line = data.subrange(0, i);
                let rest = data.subrange(i + 1, data.len() as int);
                if skip_line(line) {
                    lemma_sc_next_shrinks(rest);
                } else {
                    match entry_spec(line, rest) {
                        EntryV::Drop => {
                            lemma_sc_next_shrinks(rest);
                        },
                        EntryV::Bad => {},
                        EntryV::Rec(_, _) => {
                            lemma_entry_rest(line, rest);
                        },
                    }
                }
            }
        },
    }
}

/// An iterator over [`Syscall`]s: the unconsumed specification text.
#[derive(Debug, Clone, Copy)]
pub struct Syscalls<'a> {
    data: &'a str,
}

impl<'a> View for Syscalls<'a> {
    type V = Seq<char>;

    closed spec fn view(&self) -> Seq<char> {
        self.data@
    }
}

/// Parses a syscall specification table.
pub fn parse(data: &str) -> (r: Syscalls<'_>)
    ensures
        r@ == data@,
{
    Syscalls::new(data)
}

impl<'a> Syscalls<'a> {
    fn new(data: &'a str) -> (r: Self)
        ensures
            r@ == data@,
    {
        Self { data }
    }

    /// Parses the next record: `Ok(None)` at the end of the table, an error
    /// on the first structural violation.
    fn try_next(&mut self) -> (r: Result<Option<Syscall<'a>>, Error>)
        ensures
            match r {
                Ok(Some(sc)) => sc_next(old(self)@) == StepV::Step(sc@, final(self)@),
                Ok(None) => sc_next(old(self)@) is Fin && sc_next(final(self)@) is Fin,
                Err(_) => sc_next(old(self)@) is Fail,
            },
    {
        loop
            invariant
                sc_next(old(self)@) == sc_next(self@),
            decreases self@.len(),
        {
            let data = self.data;
            let n = strlen(data);
            let i = match find(data, Pred::Newline) {
                None => {
                    return Ok(None);
                },
                Some(i) => i,
            };
            proof {
                lemma_find_p(data@, Pred::Newline.as_fn());
            }
            let line = slice(data, 0, i);
            let rest = slice(data, i + 1, n);
            self.data = rest;

            // Comments, sections, and empty lines carry no entry.
            let ln = strlen(line);
            let skip = ln == 0 || {
                let c0 = line.get_char(0);
                c0 == ';' || c0 == '#' || (c0 == '%' && ln >= 2 && line.get_char(1) == '%')
            };
            if skip {
                continue;
            }

            match parse_entry(line, rest) {
                Err(e) => {
                    return Err(e);
                },
                Ok(None) => {
                    continue;
                },
                Ok(Some((sc, rest2))) => {
                    self.data = rest2;
                    return Ok(Some(sc));
                },
            }
        }
    }

    /// The next record of the table, in source order; `None` at the end.
    pub fn next(&mut self) -> (r: Option<Result<Syscall<'a>, Error>>)
        ensures
            match r {
                Some(Ok(sc)) => sc_next(old(self)@) == StepV::Step(sc@, final(self)@),
                None => sc_next(old(self)@) is Fin && sc_next(final(self)@) is Fin,
                Some(Err(_)) => sc_next(old(self)@) is Fail,
            },
    {
        match self.try_next() {
            Ok(Some(sc)) => Some(Ok(sc)),
            Ok(None) => None,
            Err(e) => Some(Err(e)),
        }
    }
}

} // verus!
