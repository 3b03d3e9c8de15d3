//! Character-level scanning primitives shared by the table parser:
//! first/last-occurrence search, ASCII-whitespace trimming, tokenization,
//! and equality of string slices, each with an exact specification.

use vstd::prelude::*;
use vstd::string::StrSliceExecFns;

verus! {

/// ASCII whitespace, as the specification table uses it.
pub open spec fn is_aws(c: char) -> bool {
    c == ' ' || c == '\t' || c == '\n' || c == '\r' || c == '\x0c'
}

/// Index of the first character satisfying `p`, if any.
pub open spec fn find_p(s: Seq<char>, p: spec_fn(char) -> bool) -> Option<int>
    decreases s.len(),
{
    if s.len() == 0 {
        None
    } else if p(s[0]) {
        Some(0int)
    } else {
        match find_p(s.subrange(1, s.len() as int), p) {
            Some(i) => Some(i + 1),
            None => None,
        }
    }
}

/// Index of the last character satisfying `p`, if any.
pub open spec fn rfind_p(s: Seq<char>, p: spec_fn(char) -> bool) -> Option<int>
    decreases s.len(),
{
    if s.len() == 0 {
        None
    } else if p(s[s.len() - 1]) {
        Some(s.len() - 1)
    } else {
        rfind_p(s.subrange(0, s.len() - 1), p)
    }
}

pub proof fn lemma_find_p(s: Seq<char>, p: spec_fn(char) -> bool)
    ensures
        match find_p(s, p) {
            None => forall|j: int| 0 <= j < s.len() ==> !p(s[j]),
            Some(i) => 0 <= i < s.len() && p(s[i]) && (forall|j: int| 0 <= j < i ==> !p(s[j])),
        },
    decreases s.len(),
{
    if s.len() == 0 {
    } else if p(s[0]) {
    } else {
        let sub = s.subrange(1, s.len() as int);
        lemma_find_p(sub, p);
        assert(forall|j: int| 0 <= j < sub.len() ==> sub[j] == s[j + 1]);
        match find_p(s, p) {
            None => {
                assert forall|j: int| 0 <= j < s.len() implies !p(s[j]) by {
                    if j >= 1 {
                        assert(s[j] == sub[j - 1]);
                    }
                }
            },
            Some(i) => {
                assert(p(sub[i - 1]));
                assert forall|j: int| 0 <= j < i implies !p(s[j]) by {
                    if j >= 1 {
                        assert(s[j] == sub[j - 1]);
                    }
                }
            },
        }
    }
}

pub proof fn lemma_rfind_p(s: Seq<char>, p: spec_fn(char) -> bool)
    ensures
        match rfind_p(s, p) {
            None => forall|j: int| 0 <= j < s.len() ==> !p(s[j]),
            Some(i) => 0 <= i < s.len() && p(s[i]) && (forall|j: int| i < j < s.len() ==> !p(
                s[j],
            )),
        },
    decreases s.len(),
{
    if s.len() == 0 {
    } else if p(s[s.len() - 1]) {
    } else {
        let sub = s.subrange(0, s.len() - 1);
        lemma_rfind_p(sub, p);
        assert(forall|j: int| 0 <= j < sub.len() ==> sub[j] == s[j]);
    }
}

/// Pins `find_p` down from a witness index: `i` satisfies `p` and nothing
/// before it does.
pub proof fn lemma_find_p_eq(s: Seq<char>, p: spec_fn(char) -> bool, i: int)
    requires
        0 <= i < s.len(),
        p(s[i]),
        forall|j: int| 0 <= j < i ==> !p(s[j]),
    ensures
        find_p(s, p) == Some(i),
{
    lemma_find_p(s, p);
    match find_p(s, p) {
        None => {
            assert(false);
        },
        Some(k) => {
            if k < i {
                assert(!p(s[k]));
            } else if k > i {
                assert(!p(s[i]));
            }
        },
    }
}

pub proof fn lemma_find_p_none(s: Seq<char>, p: spec_fn(char) -> bool)
    requires
        forall|j: int| 0 <= j < s.len() ==> !p(s[j]),
    ensures
        find_p(s, p) is None,
{
    lemma_find_p(s, p);
    match find_p(s, p) {
        None => {},
        Some(k) => {
            assert(!p(s[k]));
        },
    }
}

pub proof fn lemma_rfind_p_eq(s: Seq<char>, p: spec_fn(char) -> bool, i: int)
    requires
        0 <= i < s.len(),
        p(s[i]),
        forall|j: int| i < j < s.len() ==> !p(s[j]),
    ensures
        rfind_p(s, p) == Some(i),
{
    lemma_rfind_p(s, p);
    match rfind_p(s, p) {
        None => {
            assert(false);
        },
        Some(k) => {
            if k > i {
                assert(!p(s[k]));
            } else if k < i {
                assert(!p(s[i]));
            }
        },
    }
}

/// First character satisfying `p`, as an executable search.
/// `P` selects among the fixed predicates the parser needs.
pub enum Pred {
    Aws,
    NonAws,
    Newline,
    Pipe,
    Dash,
    LParen,
    RParen,
    Space,
    Underscore,
    CommaOrNewline,
    StarOrAws,
}

impl Pred {
    pub open spec fn holds(self, c: char) -> bool {
        match self {
            Pred::Aws => is_aws(c),
            Pred::NonAws => !is_aws(c),
            Pred::Newline => c == '\n',
            Pred::Pipe => c == '|',
            Pred::Dash => c == '-',
            Pred::LParen => c == '(',
            Pred::RParen => c == ')',
            Pred::Space => c == ' ',
            Pred::Underscore => c == '_',
            Pred::CommaOrNewline => c == ',' || c == '\n',
            Pred::StarOrAws => c == '*' || is_aws(c),
        }
    }

    pub open spec fn as_fn(self) -> spec_fn(char) -> bool {
        |c: char| self.holds(c)
    }

    fn check(&self, c: char) -> (r: bool)
        ensures
            r == self.holds(c),
    {
        match self {
            Pred::Aws => c == ' ' || c == '\t' || c == '\n' || c == '\r' || c == '\x0c',
            Pred::NonAws => !(c == ' ' || c == '\t' || c == '\n' || c == '\r' || c == '\x0c'),
            Pred::Newline => c == '\n',
            Pred::Pipe => c == '|',
            Pred::Dash => c == '-',
            Pred::LParen => c == '(',
            Pred::RParen => c == ')',
            Pred::Space => c == ' ',
            Pred::Underscore => c == '_',
            Pred::CommaOrNewline => c == ',' || c == '\n',
            Pred::StarOrAws => c == '*' || c == ' ' || c == '\t' || c == '\n' || c == '\r' || c
                == '\x0c',
        }
    }
}

/// Index of the first character of `s` satisfying `p`.
pub fn find(s: &str, p: Pred) -> (r: Option<usize>)
    ensures
        match r {
            Some(i) => find_p(s@, p.as_fn()) == Some(i as int),
            None => find_p(s@, p.as_fn()) is None,
        },
{
    let n = s.unicode_len();
    let mut i: usize = 0;
    while i < n
        invariant
            0 <= i <= n,
            n == s@.len(),
            forall|j: int| 0 <= j < i ==> !p.as_fn()(s@[j]),
        decreases n - i,
    {
        let c = s.get_char(i);
        if p.check(c) {
            proof {
                lemma_find_p(s@, p.as_fn());
            }
            return Some(i);
        }
        i = i + 1;
    }
    proof {
        lemma_find_p(s@, p.as_fn());
    }
    None
}

/// Index of the last character of `s` satisfying `p`.
pub fn rfind(s: &str, p: Pred) -> (r: Option<usize>)
    ensures
        match r {
            Some(i) => rfind_p(s@, p.as_fn()) == Some(i as int),
            None => rfind_p(s@, p.as_fn()) is None,
        },
{
    let n = s.unicode_len();
    let mut i: usize = n;
    while i > 0
        invariant
            0 <= i <= n,
            n == s@.len(),
            forall|j: int| i <= j < n ==> !p.as_fn()(s@[j]),
        decreases i,
    {
        let c = s.get_char(i - 1);
        if p.check(c) {
            proof {
                lemma_rfind_p(s@, p.as_fn());
            }
            return Some(i - 1);
        }
        i = i - 1;
    }
    proof {
        lemma_rfind_p(s@, p.as_fn());
    }
    None
}

/// The slice of `s` from `from` (inclusive) to `to` (exclusive).
pub fn slice<'a>(s: &'a str, from: usize, to: usize) -> (r: &'a str)
    requires
        from <= to <= s@.len(),
    ensures
        r@ == s@.subrange(from as int, to as int),
{
    s.substring_char(from, to)
}

/// Character count of `s`.
pub fn strlen(s: &str) -> (n: usize)
    ensures
        n == s@.len(),
{
    s.unicode_len()
}

/// Whether the two slices hold the same characters.
pub fn str_eq(a: &str, b: &str) -> (r: bool)
    ensures
        r == (a@ == b@),
{
    let na = a.unicode_len();
    let nb = b.unicode_len();
    if na != nb {
        return false;
    }
    let mut i: usize = 0;
    while i < na
        invariant
            0 <= i <= na,
            na == a@.len(),
            na == b@.len(),
            forall|j: int| 0 <= j < i ==> a@[j] == b@[j],
        decreases na - i,
    {
        if a.get_char(i) != b.get_char(i) {
            return false;
        }
        i = i + 1;
    }
    proof {
        assert(a@ =~= b@);
    }
    true
}

/// Whether the closing-brace terminator of a prototype block stands at `i`:
/// a tab, the brace, and a newline.
pub open spec fn close_at(s: Seq<char>, i: int) -> bool {
    0 <= i && i + 2 < s.len() && s[i] == '\t' && s[i + 1] == '}' && s[i + 2] == '\n'
}

/// Index of the first closing-brace terminator, if any.
pub open spec fn find_close_spec(s: Seq<char>) -> Option<int>
    decreases s.len(),
{
    if s.len() < 3 {
        None
    } else if s[0] == '\t' && s[1] == '}' && s[2] == '\n' {
        Some(0int)
    } else {
        match find_close_spec(s.subrange(1, s.len() as int)) {
            Some(i) => Some(i + 1),
            None => None,
        }
    }
}

pub proof fn lemma_find_close(s: Seq<char>)
    ensures
        match find_close_spec(s) {
            None => forall|j: int| !close_at(s, j),
            Some(i) => close_at(s, i) && (forall|j: int| 0 <= j < i ==> !close_at(s, j)),
        },
    decreases s.len(),
{
    if s.len() < 3 {
    } else if s[0] == '\t' && s[1] == '}' && s[2] == '\n' {
    } else {
        let sub = s.subrange(1, s.len() as int);
        lemma_find_close(sub);
        assert(forall|j: int| 0 <= j < sub.len() ==> sub[j] == s[j + 1]);
        assert(forall|j: int| close_at(s, j) && j >= 1 ==> close_at(sub, j - 1));
        assert(forall|j: int| close_at(sub, j) ==> close_at(s, j + 1));
    }
}

/// Index of the first closing-brace terminator of `s`, if any.
pub fn find_close(s: &str) -> (r: Option<usize>)
    ensures
        match r {
            Some(i) => find_close_spec(s@) == Some(i as int),
            None => find_close_spec(s@) is None,
        },
{
    let n = strlen(s);
    if n < 3 {
        proof {
            lemma_find_close(s@);
            if find_close_spec(s@) is Some {
                assert(close_at(s@, find_close_spec(s@).unwrap()));
            }
        }
        return None;
    }
    let mut i: usize = 0;
    while i + 2 < n
        invariant
            0 <= i,
            i + 2 <= n,
            n == s@.len(),
            forall|j: int| 0 <= j < i ==> !close_at(s@, j),
        decreases n - i,
    {
        if s.get_char(i) == '\t' && s.get_char(i + 1) == '}' && s.get_char(i + 2) == '\n' {
            proof {
                lemma_find_close(s@);
                assert(close_at(s@, i as int));
            }
            return Some(i);
        }
        i = i + 1;
    }
    proof {
        lemma_find_close(s@);
        if find_close_spec(s@) is Some {
            let k = find_close_spec(s@).unwrap();
            assert(close_at(s@, k));
            assert(k + 2 < n);
        }
    }
    None
}

/// `s` with leading and trailing ASCII whitespace removed.
pub open spec fn trim_spec(s: Seq<char>) -> Seq<char> {
    match (find_p(s, Pred::NonAws.as_fn()), rfind_p(s, Pred::NonAws.as_fn())) {
        (Some(a), Some(b)) => s.subrange(a, b + 1),
        _ => Seq::empty(),
    }
}

pub fn trim<'a>(s: &'a str) -> (r: &'a str)
    ensures
        r@ == trim_spec(s@),
{
    let a = find(s, Pred::NonAws);
    match a {
        None => {
            proof {
                lemma_find_p(s@, Pred::NonAws.as_fn());
                lemma_rfind_p(s@, Pred::NonAws.as_fn());
            }
            slice(s, 0, 0)
        },
        Some(a) => {
            let n = strlen(s);
            let b = rfind(s, Pred::NonAws);
            proof {
                lemma_find_p(s@, Pred::NonAws.as_fn());
                lemma_rfind_p(s@, Pred::NonAws.as_fn());
            }
            match b {
                Some(b) => slice(s, a, b + 1),
                None => {
                    proof {
                        assert(false);
                    }
                    slice(s, 0, 0)
                },
            }
        },
    }
}

/// The first whitespace-separated token of `s` and the text that follows it.
pub open spec fn next_token_spec(s: Seq<char>) -> Option<(Seq<char>, Seq<char>)> {
    match find_p(s, Pred::NonAws.as_fn()) {
        None => None,
        Some(a) => {
            let t = s.subrange(a, s.len() as int);
            match find_p(t, Pred::Aws.as_fn()) {
                None => Some((t, Seq::empty())),
                Some(k) => Some((t.subrange(0, k), t.subrange(k, t.len() as int))),
            }
        },
    }
}

pub fn next_token<'a>(s: &'a str) -> (r: Option<(&'a str, &'a str)>)
    ensures
        match r {
            None => next_token_spec(s@) is None,
            Some((tok, rest)) => next_token_spec(s@) == Some((tok@, rest@)),
        },
{
    let a = match find(s, Pred::NonAws) {
        None => {
            return None;
        },
        Some(a) => a,
    };
    proof {
        lemma_find_p(s@, Pred::NonAws.as_fn());
    }
    let n = strlen(s);
    let t = slice(s, a, n);
    match find(t, Pred::Aws) {
        None => Some((t, slice(s, n, n))),
        Some(k) => {
            proof {
                lemma_find_p(t@, Pred::Aws.as_fn());
            }
            let tn = strlen(t);
            Some((slice(t, 0, k), slice(t, k, tn)))
        },
    }
}

} // verus!
