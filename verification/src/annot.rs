//! The SAL-style parameter annotation vocabulary: direction and size tags,
//! each with a null-terminated-string variant, the counted forms carrying a
//! parenthesized element- or byte-count expression as raw text.

use vstd::prelude::*;
use vstd::string::StringExecFns;

use crate::error::Error;
use crate::flags::lemma_or_assoc;
use crate::text::{
    find, find_p, lemma_find_p, lemma_find_p_eq, lemma_find_p_none, slice, str_eq, strlen, Pred,
};
use vstd::string::StrSliceExecFns;

verus! {

/// The shape of an annotation: its vocabulary name and, for the counted
/// forms, the raw count expression.
pub struct AnnotV {
    pub name: Seq<char>,
    pub arg: Option<Seq<char>>,
}

/// What scanning a token for an annotation yields.
pub enum AnnotOut {
    /// A known counted name whose count argument is malformed.
    Fail,
    /// Not an annotation token at all.
    NotAnnot,
    /// An annotation.
    Got(AnnotV),
}

/// The names that take no count argument.
pub open spec fn is_no_arg_name(n: Seq<char>) -> bool {
    ||| n == "_In_"@
    ||| n == "_In_opt_"@
    ||| n == "_Out_"@
    ||| n == "_Out_opt_"@
    ||| n == "_Inout_opt_"@
    ||| n == "_Inout_"@
    ||| n == "_In_z_"@
    ||| n == "_In_z_opt_"@
    ||| n == "_Out_z_"@
    ||| n == "_Out_z_opt_"@
    ||| n == "_Inout_z_"@
    ||| n == "_Inout_z_opt_"@
}

/// The names that carry a parenthesized count argument.
pub open spec fn is_arg_name(n: Seq<char>) -> bool {
    ||| n == "_In_reads_z_"@
    ||| n == "_In_reads_z_opt_"@
    ||| n == "_Out_writes_z_"@
    ||| n == "_Out_writes_z_opt_"@
    ||| n == "_Inout_updates_z_"@
    ||| n == "_Inout_updates_z_opt_"@
    ||| n == "_In_reads_"@
    ||| n == "_In_reads_opt_"@
    ||| n == "_Out_writes_"@
    ||| n == "_Out_writes_opt_"@
    ||| n == "_Inout_updates_"@
    ||| n == "_Inout_updates_opt_"@
    ||| n == "_In_reads_bytes_"@
    ||| n == "_In_reads_bytes_opt_"@
    ||| n == "_Out_writes_bytes_"@
    ||| n == "_Out_writes_bytes_opt_"@
    ||| n == "_Inout_updates_bytes_"@
    ||| n == "_Inout_updates_bytes_opt_"@
}

/// A token split at its first `(`: the name, and what follows the `(`.
pub open spec fn annot_split(s: Seq<char>) -> (Seq<char>, Seq<char>) {
    match find_p(s, Pred::LParen.as_fn()) {
        None => (s, Seq::empty()),
        Some(i) => if 0 <= i < s.len() {
            (s.subrange(0, i), s.subrange(i + 1, s.len() as int))
        } else {
            (s, Seq::empty())
        },
    }
}

/// The count argument: everything before the first `)`, which must end the
/// text.
pub open spec fn arg_of(rest: Seq<char>) -> Option<Seq<char>> {
    match find_p(rest, Pred::RParen.as_fn()) {
        None => None,
        Some(j) => if j == rest.len() - 1 {
            Some(rest.subrange(0, j))
        } else {
            None
        },
    }
}

/// What scanning a token against the annotation vocabulary yields.
pub open spec fn annot_spec(s: Seq<char>) -> AnnotOut {
    let (name, rest) = annot_split(s);
    if is_no_arg_name(name) {
        AnnotOut::Got(AnnotV { name, arg: None })
    } else if is_arg_name(name) {
        match arg_of(rest) {
            Some(n) => AnnotOut::Got(AnnotV { name, arg: Some(n) }),
            None => AnnotOut::Fail,
        }
    } else {
        AnnotOut::NotAnnot
    }
}

/// The text an annotation displays as: the name, with the count argument in
/// parentheses for the counted forms.
pub open spec fn annot_display_spec(v: AnnotV) -> Seq<char> {
    match v.arg {
        None => v.name,
        Some(n) => v.name + "("@ + n + ")"@,
    }
}

/// A SAL annotation.
#[derive(Debug, PartialEq, Eq, Clone, Copy)]
pub enum Annotation<'a> {
    In,
    InOpt,
    Out,
    OutOpt,
    InOut,
    InOutOpt,
    InZ,
    InZOpt,
    OutZ,
    OutZOpt,
    InOutZ,
    InOutZOpt,
    InReadsZ(&'a str),
    InReadsZOpt(&'a str),
    OutWritesZ(&'a str),
    OutWritesZOpt(&'a str),
    InOutUpdatesZ(&'a str),
    InOutUpdatesZOpt(&'a str),
    InReads(&'a str),
    InReadsOpt(&'a str),
    OutWrites(&'a str),
    OutWritesOpt(&'a str),
    InOutUpdates(&'a str),
    InOutUpdatesOpt(&'a str),
    InReadsBytes(&'a str),
    InReadsBytesOpt(&'a str),
    OutWritesBytes(&'a str),
    OutWritesBytesOpt(&'a str),
    InOutUpdatesBytes(&'a str),
    InOutUpdatesBytesOpt(&'a str),
}

impl<'a> View for Annotation<'a> {
    type V = AnnotV;

    open spec fn view(&self) -> AnnotV {
        match self {
            Annotation::In => AnnotV { name: "_In_"@, arg: None },
            Annotation::InOpt => AnnotV { name: "_In_opt_"@, arg: None },
            Annotation::Out => AnnotV { name: "_Out_"@, arg: None },
            Annotation::OutOpt => AnnotV { name: "_Out_opt_"@, arg: None },
            Annotation::InOut => AnnotV { name: "_Inout_"@, arg: None },
            Annotation::InOutOpt => AnnotV { name: "_Inout_opt_"@, arg: None },
            Annotation::InZ => AnnotV { name: "_In_z_"@, arg: None },
            Annotation::InZOpt => AnnotV { name: "_In_z_opt_"@, arg: None },
            Annotation::OutZ => AnnotV { name: "_Out_z_"@, arg: None },
            Annotation::OutZOpt => AnnotV { name: "_Out_z_opt_"@, arg: None },
            Annotation::InOutZ => AnnotV { name: "_Inout_z_"@, arg: None },
            Annotation::InOutZOpt => AnnotV { name: "_Inout_z_opt_"@, arg: None },
            Annotation::InReadsZ(n) => AnnotV { name: "_In_reads_z_"@, arg: Some(n@) },
            Annotation::InReadsZOpt(n) => AnnotV { name: "_In_reads_z_opt_"@, arg: Some(n@) },
            Annotation::OutWritesZ(n) => AnnotV { name: "_Out_writes_z_"@, arg: Some(n@) },
            Annotation::OutWritesZOpt(n) => AnnotV {
                name: "_Out_writes_z_opt_"@,
                arg: Some(n@),
            },
            Annotation::InOutUpdatesZ(n) => AnnotV {
                name: "_Inout_updates_z_"@,
                arg: Some(n@),
            },
            Annotation::InOutUpdatesZOpt(n) => AnnotV {
                name: "_Inout_updates_z_opt_"@,
                arg: Some(n@),
            },
            Annotation::InReads(n) => AnnotV { name: "_In_reads_"@, arg: Some(n@) },
            Annotation::InReadsOpt(n) => AnnotV { name: "_In_reads_opt_"@, arg: Some(n@) },
            Annotation::OutWrites(n) => AnnotV { name: "_Out_writes_"@, arg: Some(n@) },
            Annotation::OutWritesOpt(n) => AnnotV {
                name: "_Out_writes_opt_"@,
                arg: Some(n@),
            },
            Annotation::InOutUpdates(n) => AnnotV {
                name: "_Inout_updates_"@,
                arg: Some(n@),
            },
            Annotation::InOutUpdatesOpt(n) => AnnotV {
                name: "_Inout_updates_opt_"@,
                arg: Some(n@),
            },
            Annotation::InReadsBytes(n) => AnnotV {
                name: "_In_reads_bytes_"@,
                arg: Some(n@),
            },
            Annotation::InReadsBytesOpt(n) => AnnotV {
                name: "_In_reads_bytes_opt_"@,
                arg: Some(n@),
            },
            Annotation::OutWritesBytes(n) => AnnotV {
                name: "_Out_writes_bytes_"@,
                arg: Some(n@),
            },
            Annotation::OutWritesBytesOpt(n) => AnnotV {
                name: "_Out_writes_bytes_opt_"@,
                arg: Some(n@),
            },
            Annotation::InOutUpdatesBytes(n) => AnnotV {
                name: "_Inout_updates_bytes_"@,
                arg: Some(n@),
            },
            Annotation::InOutUpdatesBytesOpt(n) => AnnotV {
                name: "_Inout_updates_bytes_opt_"@,
                arg: Some(n@),
            },
        }
    }
}

/// The count argument between the parentheses, which must close the token.
fn paren_arg<'a>(rest: &'a str) -> (r: Result<&'a str, Error>)
    ensures
        match r {
            Ok(t) => arg_of(rest@) == Some(t@),
            Err(e) => arg_of(rest@) is None && e == Error::BadAnnotation,
        },
{
    let n = strlen(rest);
    match find(rest, Pred::RParen) {
        None => Err(Error::BadAnnotation),
        Some(j) => {
            proof {
                lemma_find_p(rest@, Pred::RParen.as_fn());
            }
            if j + 1 == n {
                Ok(slice(rest, 0, j))
            } else {
                Err(Error::BadAnnotation)
            }
        },
    }
}

impl<'a> Annotation<'a> {
    /// Scans a token against the annotation vocabulary: `Ok(None)` for a
    /// token that is no annotation, an error for a known counted name whose
    /// count argument is malformed.
    pub fn parse(s: &'a str) -> (r: Result<Option<Annotation<'a>>, Error>)
        ensures
            match r {
                Ok(Some(a)) => annot_spec(s@) == AnnotOut::Got(a@),
                Ok(None) => annot_spec(s@) is NotAnnot,
                Err(e) => annot_spec(s@) is Fail && e == Error::BadAnnotation,
            },
    {
        let n = strlen(s);
        let (name, rest): (&'a str, &'a str) = match find(s, Pred::LParen) {
            None => (s, slice(s, n, n)),
            Some(i) => {
                proof {
                    lemma_find_p(s@, Pred::LParen.as_fn());
                }
                (slice(s, 0, i), slice(s, i + 1, n))
            },
        };
        if str_eq(name, "_In_") {
            Ok(Some(Annotation::In))
        } else if str_eq(name, "_In_opt_") {
            Ok(Some(Annotation::InOpt))
        } else if str_eq(name, "_Out_") {
            Ok(Some(Annotation::Out))
        } else if str_eq(name, "_Out_opt_") {
            Ok(Some(Annotation::OutOpt))
        } else if str_eq(name, "_Inout_opt_") {
            Ok(Some(Annotation::InOutOpt))
        } else if str_eq(name, "_Inout_") {
            Ok(Some(Annotation::InOut))
        } else if str_eq(name, "_In_z_") {
            Ok(Some(Annotation::InZ))
        } else if str_eq(name, "_In_z_opt_") {
            Ok(Some(Annotation::InZOpt))
        } else if str_eq(name, "_Out_z_") {
            Ok(Some(Annotation::OutZ))
        } else if str_eq(name, "_Out_z_opt_") {
            Ok(Some(Annotation::OutZOpt))
        } else if str_eq(name, "_Inout_z_") {
            Ok(Some(Annotation::InOutZ))
        } else if str_eq(name, "_Inout_z_opt_") {
            Ok(Some(Annotation::InOutZOpt))
        } else if str_eq(name, "_In_reads_z_") {
            match paren_arg(rest) {
                Ok(t) => Ok(Some(Annotation::InReadsZ(t))),
                Err(e) => Err(e),
            }
        } else if str_eq(name, "_In_reads_z_opt_") {
            match paren_arg(rest) {
                Ok(t) => Ok(Some(Annotation::InReadsZOpt(t))),
                Err(e) => Err(e),
            }
        } else if str_eq(name, "_Out_writes_z_") {
            match paren_arg(rest) {
                Ok(t) => Ok(Some(Annotation::OutWritesZ(t))),
                Err(e) => Err(e),
            }
        } else if str_eq(name, "_Out_writes_z_opt_") {
            match paren_arg(rest) {
                Ok(t) => Ok(Some(Annotation::OutWritesZOpt(t))),
                Err(e) => Err(e),
            }
        } else if str_eq(name, "_Inout_updates_z_") {
            match paren_arg(rest) {
                Ok(t) => Ok(Some(Annotation::InOutUpdatesZ(t))),
                Err(e) => Err(e),
            }
        } else if str_eq(name, "_Inout_updates_z_opt_") {
            match paren_arg(rest) {
                Ok(t) => Ok(Some(Annotation::InOutUpdatesZOpt(t))),
                Err(e) => Err(e),
            }
        } else if str_eq(name, "_In_reads_") {
            match paren_arg(rest) {
                Ok(t) => Ok(Some(Annotation::InReads(t))),
                Err(e) => Err(e),
            }
        } else if str_eq(name, "_In_reads_opt_") {
            match paren_arg(rest) {
                Ok(t) => Ok(Some(Annotation::InReadsOpt(t))),
                Err(e) => Err(e),
            }
        } else if str_eq(name, "_Out_writes_") {
            match paren_arg(rest) {
                Ok(t) => Ok(Some(Annotation::OutWrites(t))),
                Err(e) => Err(e),
            }
        } else if str_eq(name, "_Out_writes_opt_") {
            match paren_arg(rest) {
                Ok(t) => Ok(Some(Annotation::OutWritesOpt(t))),
                Err(e) => Err(e),
            }
        } else if str_eq(name, "_Inout_updates_") {
            match paren_arg(rest) {
                Ok(t) => Ok(Some(Annotation::InOutUpdates(t))),
                Err(e) => Err(e),
            }
        } else if str_eq(name, "_Inout_updates_opt_") {
            match paren_arg(rest) {
                Ok(t) => Ok(Some(Annotation::InOutUpdatesOpt(t))),
                Err(e) => Err(e),
            }
        } else if str_eq(name, "_In_reads_bytes_") {
            match paren_arg(rest) {
                Ok(t) => Ok(Some(Annotation::InReadsBytes(t))),
                Err(e) => Err(e),
            }
        } else if str_eq(name, "_In_reads_bytes_opt_") {
            match paren_arg(rest) {
                Ok(t) => Ok(Some(Annotation::InReadsBytesOpt(t))),
                Err(e) => Err(e),
            }
        } else if str_eq(name, "_Out_writes_bytes_") {
            match paren_arg(rest) {
                Ok(t) => Ok(Some(Annotation::OutWritesBytes(t))),
                Err(e) => Err(e),
            }
        } else if str_eq(name, "_Out_writes_bytes_opt_") {
            match paren_arg(rest) {
                Ok(t) => Ok(Some(Annotation::OutWritesBytesOpt(t))),
                Err(e) => Err(e),
            }
        } else if str_eq(name, "_Inout_updates_bytes_") {
            match paren_arg(rest) {
                Ok(t) => Ok(Some(Annotation::InOutUpdatesBytes(t))),
                Err(e) => Err(e),
            }
        } else if str_eq(name, "_Inout_updates_bytes_opt_") {
            match paren_arg(rest) {
                Ok(t) => Ok(Some(Annotation::InOutUpdatesBytesOpt(t))),
                Err(e) => Err(e),
            }
        } else {
            Ok(None)
        }
    }

    /// The annotation's textual form, exactly as the vocabulary spells it.
    pub fn display(&self) -> (r: String)
        ensures
            r@ == annot_display_spec(self@),
    {
        let (name, arg): (&str, Option<&str>) = match self {
            Annotation::In => ("_In_", None),
            Annotation::InOpt => ("_In_opt_", None),
            Annotation::Out => ("_Out_", None),
            Annotation::OutOpt => ("_Out_opt_", None),
            Annotation::InOut => ("_Inout_", None),
            Annotation::InOutOpt => ("_Inout_opt_", None),
            Annotation::InZ => ("_In_z_", None),
            Annotation::InZOpt => ("_In_z_opt_", None),
            Annotation::OutZ => ("_Out_z_", None),
            Annotation::OutZOpt => ("_Out_z_opt_", None),
            Annotation::InOutZ => ("_Inout_z_", None),
            Annotation::InOutZOpt => ("_Inout_z_opt_", None),
            Annotation::InReadsZ(n) => ("_In_reads_z_", Some(*n)),
            Annotation::InReadsZOpt(n) => ("_In_reads_z_opt_", Some(*n)),
            Annotation::OutWritesZ(n) => ("_Out_writes_z_", Some(*n)),
            Annotation::OutWritesZOpt(n) => ("_Out_writes_z_opt_", Some(*n)),
            Annotation::InOutUpdatesZ(n) => ("_Inout_updates_z_", Some(*n)),
            Annotation::InOutUpdatesZOpt(n) => ("_Inout_updates_z_opt_", Some(*n)),
            Annotation::InReads(n) => ("_In_reads_", Some(*n)),
            Annotation::InReadsOpt(n) => ("_In_reads_opt_", Some(*n)),
            Annotation::OutWrites(n) => ("_Out_writes_", Some(*n)),
            Annotation::OutWritesOpt(n) => ("_Out_writes_opt_", Some(*n)),
            Annotation::InOutUpdates(n) => ("_Inout_updates_", Some(*n)),
            Annotation::InOutUpdatesOpt(n) => ("_Inout_updates_opt_", Some(*n)),
            Annotation::InReadsBytes(n) => ("_In_reads_bytes_", Some(*n)),
            Annotation::InReadsBytesOpt(n) => ("_In_reads_bytes_opt_", Some(*n)),
            Annotation::OutWritesBytes(n) => ("_Out_writes_bytes_", Some(*n)),
            Annotation::OutWritesBytesOpt(n) => ("_Out_writes_bytes_opt_", Some(*n)),
            Annotation::InOutUpdatesBytes(n) => ("_Inout_updates_bytes_", Some(*n)),
            Annotation::InOutUpdatesBytesOpt(n) => ("_Inout_updates_bytes_opt_", Some(*n)),
        };
        let mut out = String::from_str(name);
        match arg {
            None => {},
            Some(n) => {
                out.append("(");
                out.append(n);
                out.append(")");
            },
        }
        proof {
            assert(out@ =~= annot_display_spec(self@));
        }
        out
    }
}

/// The round trip of the annotation vocabulary: scanning the displayed form
/// of any annotation gives that annotation back, for every count argument
/// that does not itself close the parenthesis. A displayed form is exactly a
/// well-formed annotation text, so the display of what such a text scans to
/// is the text itself.
pub proof fn lemma_annotation_round_trip(v: AnnotV)
    requires
        match v.arg {
            None => is_no_arg_name(v.name),
            Some(n) => is_arg_name(v.name) && (forall|j: int| 0 <= j < n.len() ==> n[j] != ')'),
        },
    ensures
        annot_spec(annot_display_spec(v)) == AnnotOut::Got(v),
{
    reveal_strlit("_In_");
    reveal_strlit("_In_opt_");
    reveal_strlit("_Out_");
    reveal_strlit("_Out_opt_");
    reveal_strlit("_Inout_opt_");
    reveal_strlit("_Inout_");
    reveal_strlit("_In_z_");
    reveal_strlit("_In_z_opt_");
    reveal_strlit("_Out_z_");
    reveal_strlit("_Out_z_opt_");
    reveal_strlit("_Inout_z_");
    reveal_strlit("_Inout_z_opt_");
    reveal_strlit("_In_reads_z_");
    reveal_strlit("_In_reads_z_opt_");
    reveal_strlit("_Out_writes_z_");
    reveal_strlit("_Out_writes_z_opt_");
    reveal_strlit("_Inout_updates_z_");
    reveal_strlit("_Inout_updates_z_opt_");
    reveal_strlit("_In_reads_");
    reveal_strlit("_In_reads_opt_");
    reveal_strlit("_Out_writes_");
    reveal_strlit("_Out_writes_opt_");
    reveal_strlit("_Inout_updates_");
    reveal_strlit("_Inout_updates_opt_");
    reveal_strlit("_In_reads_bytes_");
    reveal_strlit("_In_reads_bytes_opt_");
    reveal_strlit("_Out_writes_bytes_");
    reveal_strlit("_Out_writes_bytes_opt_");
    reveal_strlit("_Inout_updates_bytes_");
    reveal_strlit("_Inout_updates_bytes_opt_");
    reveal_strlit("(");
    reveal_strlit(")");
    let s = annot_display_spec(v);
    match v.arg {
        None => {
            assert(forall|j: int| 0 <= j < s.len() ==> #[trigger] s[j] != '(');
            lemma_find_p_none(s, Pred::LParen.as_fn());
            assert(annot_spec(s) == AnnotOut::Got(AnnotV { name: s, arg: None }));
        },
        Some(n) => {
            let name = v.name;
            let ln = name.len() as int;
            assert(s == name + "("@ + n + ")"@);
            assert(s.len() == ln + 1 + n.len() + 1);
            assert(s[ln] == '(');
            assert(forall|j: int| 0 <= j < ln ==> #[trigger] s[j] == name[j]);
            assert(forall|j: int| 0 <= j < ln ==> #[trigger] s[j] != '(');
            lemma_find_p_eq(s, Pred::LParen.as_fn(), ln);
            let name2 = s.subrange(0, ln);
            let rest = s.subrange(ln + 1, s.len() as int);
            assert(name2 =~= name);
            assert(rest =~= n + ")"@);
            assert("_In_reads_"@[4] == 'r');
            assert("_In_z_opt_"@[4] == 'z');
            assert(!is_no_arg_name(name));
            assert(forall|j: int| 0 <= j < n.len() ==> #[trigger] rest[j] == n[j]);
            assert(forall|j: int| 0 <= j < n.len() ==> #[trigger] rest[j] != ')');
            assert(rest[n.len() as int] == ')');
            lemma_find_p_eq(rest, Pred::RParen.as_fn(), n.len() as int);
            assert(rest.subrange(0, n.len() as int) =~= n);
            assert(annot_spec(s) == AnnotOut::Got(AnnotV { name, arg: Some(n) }));
        },
    }
}

/// The `_Contains_` composite: which indirect contents a parameter's pointee
/// carries.
#[derive(Debug, PartialEq, Eq, Structural, Clone, Copy)]
pub struct Contains {
    bits: u64,
}

impl View for Contains {
    type V = u64;

    closed spec fn view(&self) -> u64 {
        self.bits
    }
}

impl Contains {
    /// Contains `long`.
    pub const LONG: u64 = 0x1;

    /// Contains a pointer.
    pub const PTR: u64 = 0x2;

    /// Contains `time_t`.
    pub const TIME_T: u64 = 0x4;
}

/// What scanning a token against the `_Contains_` vocabulary yields.
pub enum ContOut {
    /// Not a `_Contains_` token at all.
    NotCont,
    /// An unknown component; carries it.
    Fail(Seq<char>),
    /// The union of the component bits.
    Got(u64),
}

/// The bit a component name stands for.
pub open spec fn comp_bit(s: Seq<char>) -> Option<u64> {
    if s == "long"@ {
        Some(Contains::LONG)
    } else if s == "ptr"@ {
        Some(Contains::PTR)
    } else if s == "timet"@ {
        Some(Contains::TIME_T)
    } else {
        None
    }
}

/// The union of an underscore-joined component list.
pub open spec fn comps_spec(s: Seq<char>) -> ContOut
    decreases s.len(),
{
    match find_p(s, Pred::Underscore.as_fn()) {
        None => match comp_bit(s) {
            Some(b) => ContOut::Got(b),
            None => ContOut::Fail(s),
        },
        Some(i) => if 0 <= i < s.len() {
            match comp_bit(s.subrange(0, i)) {
                None => ContOut::Fail(s.subrange(0, i)),
                Some(b) => match comps_spec(s.subrange(i + 1, s.len() as int)) {
                    ContOut::Got(m) => ContOut::Got(b | m),
                    out => out,
                },
            }
        } else {
            ContOut::NotCont
        },
    }
}

/// What scanning a token for a `_Contains_` composite yields: the text after
/// the fixed prefix, less one trailing underscore, split on underscores.
pub open spec fn contains_spec(s: Seq<char>) -> ContOut {
    let p = "_Contains_"@;
    if s.len() >= p.len() && s.subrange(0, p.len() as int) == p {
        let types = s.subrange(p.len() as int, s.len() as int);
        let body = if types.len() > 0 && types[types.len() - 1] == '_' {
            types.subrange(0, types.len() - 1)
        } else {
            types
        };
        comps_spec(body)
    } else {
        ContOut::NotCont
    }
}

/// The bit a component name stands for, resolved against the vocabulary.
fn comp_from_name(s: &str) -> (r: Option<u64>)
    ensures
        r == comp_bit(s@),
{
    if str_eq(s, "long") {
        Some(Contains::LONG)
    } else if str_eq(s, "ptr") {
        Some(Contains::PTR)
    } else if str_eq(s, "timet") {
        Some(Contains::TIME_T)
    } else {
        None
    }
}

impl Contains {
    /// A composite with no bit set.
    pub fn empty() -> (r: Contains)
        ensures
            r@ == 0u64,
    {
        Contains { bits: 0 }
    }

    /// A composite with exactly the given bits set.
    pub fn from_bits(bits: u64) -> (r: Contains)
        ensures
            r@ == bits,
    {
        Contains { bits }
    }

    /// The raw bits.
    pub fn bits(&self) -> (r: u64)
        ensures
            r == self@,
    {
        self.bits
    }

    /// Whether every bit of `mask` is set.
    pub fn contains(&self, mask: u64) -> (r: bool)
        ensures
            r == (self@ & mask == mask),
    {
        self.bits & mask == mask
    }

    /// Scans a token against the `_Contains_` vocabulary: `Ok(None)` for a
    /// token without the prefix, an error naming any unknown component.
    pub fn parse(s: &str) -> (r: Result<Option<Contains>, Error>)
        ensures
            match r {
                Ok(Some(c)) => contains_spec(s@) == ContOut::Got(c@),
                Ok(None) => contains_spec(s@) is NotCont,
                Err(e) => e matches Error::UnknownContains(t) && contains_spec(s@) == ContOut::Fail(
                    t@,
                ),
            },
    {
        proof {
            reveal_strlit("_Contains_");
        }
        let n = strlen(s);
        if n < 10 {
            return Ok(None);
        }
        let pre = slice(s, 0, 10);
        if !str_eq(pre, "_Contains_") {
            return Ok(None);
        }
        let types = slice(s, 10, n);
        let tn = strlen(types);
        let body: &str = if tn > 0 && types.get_char(tn - 1) == '_' {
            slice(types, 0, tn - 1)
        } else {
            types
        };
        let mut rest: &str = body;
        let mut acc: u64 = 0;
        proof {
            assert forall|m: u64| #[trigger] (0u64 | m) == m by {
                assert(0u64 | m == m) by (bit_vector);
            }
        }
        loop
            invariant
                forall|m: u64|
                    comps_spec(rest@) == ContOut::Got(m) ==> contains_spec(s@) == ContOut::Got(
                        acc | m,
                    ),
                forall|t: Seq<char>|
                    comps_spec(rest@) == ContOut::Fail(t) ==> contains_spec(s@) == ContOut::Fail(t),
            decreases rest@.len(),
        {
            match find(rest, Pred::Underscore) {
                Some(i) => {
                    proof {
                        lemma_find_p(rest@, Pred::Underscore.as_fn());
                    }
                    let rn = strlen(rest);
                    let comp = slice(rest, 0, i);
                    match comp_from_name(comp) {
                        Some(b) => {
                            let tail = slice(rest, i + 1, rn);
                            proof {
                                assert forall|m: u64|
                                    comps_spec(tail@) == ContOut::Got(m) implies contains_spec(s@)
                                    == ContOut::Got((acc | b) | m) by {
                                    assert(comps_spec(rest@) == ContOut::Got(b | m));
                                    lemma_or_assoc(acc, b, m);
                                }
                            }
                            acc = acc | b;
                            rest = tail;
                        },
                        None => {
                            return Err(Error::UnknownContains(String::from_str(comp)));
                        },
                    }
                },
                None => {
                    match comp_from_name(rest) {
                        Some(b) => {
                            return Ok(Some(Contains { bits: acc | b }));
                        },
                        None => {
                            return Err(Error::UnknownContains(String::from_str(rest)));
                        },
                    }
                },
            }
        }
    }
}

} // verus!
