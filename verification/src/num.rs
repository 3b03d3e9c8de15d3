//! The closed-range number parser: decimal numbers and inclusive ranges
//! (`"4"`, `"4-8"`) as the number column of a specification line uses them.

use vstd::prelude::*;

use crate::error::Error;
use crate::text::{find, find_p, lemma_find_p, slice, strlen, Pred};

verus! {

pub open spec fn is_digit(c: char) -> bool {
    '0' as int <= c as int <= '9' as int
}

pub open spec fn digit_val(c: char) -> int {
    c as int - '0' as int
}

pub open spec fn all_digits(s: Seq<char>) -> bool {
    forall|i: int| 0 <= i < s.len() ==> is_digit(s[i])
}

/// The value of a digit string, most significant digit first.
pub open spec fn dec_val(s: Seq<char>) -> int
    decreases s.len(),
{
    if s.len() == 0 {
        0
    } else {
        dec_val(s.subrange(0, s.len() - 1)) * 10 + digit_val(s[s.len() - 1])
    }
}

/// What parsing a decimal column yields: a nonempty digit string whose value
/// fits in a 64-bit word, and nothing else.
pub open spec fn parse_u64_spec(s: Seq<char>) -> Option<u64> {
    if s.len() > 0 && all_digits(s) && dec_val(s) <= u64::MAX {
        Some(dec_val(s) as u64)
    } else {
        None
    }
}

proof fn lemma_dec_val_nonneg(s: Seq<char>)
    requires
        all_digits(s),
    ensures
        dec_val(s) >= 0,
    decreases s.len(),
{
    if s.len() > 0 {
        let t = s.subrange(0, s.len() - 1);
        assert(all_digits(t));
        lemma_dec_val_nonneg(t);
    }
}

/// Appending digits never lowers the value.
proof fn lemma_dec_val_prefix(s: Seq<char>, k: int)
    requires
        all_digits(s),
        0 <= k <= s.len(),
    ensures
        dec_val(s) >= dec_val(s.subrange(0, k)),
    decreases s.len() - k,
{
    if k < s.len() {
        let t = s.subrange(0, k + 1);
        assert(all_digits(t));
        assert(t.subrange(0, k) =~= s.subrange(0, k));
        lemma_dec_val_nonneg(s.subrange(0, k));
        assert(dec_val(t) == dec_val(s.subrange(0, k)) * 10 + digit_val(s[k]));
        lemma_dec_val_prefix(s, k + 1);
    } else {
        assert(s.subrange(0, k) =~= s);
    }
}

/// Parses a decimal number; `None` on an empty string, a non-digit, or a
/// value over `u64::MAX`.
pub fn parse_u64(s: &str) -> (r: Option<u64>)
    ensures
        r == parse_u64_spec(s@),
{
    let n = strlen(s);
    if n == 0 {
        return None;
    }
    let mut acc: u64 = 0;
    let mut i: usize = 0;
    while i < n
        invariant
            0 < n == s@.len(),
            0 <= i <= n,
            all_digits(s@.subrange(0, i as int)),
            acc == dec_val(s@.subrange(0, i as int)),
        decreases n - i,
    {
        let c = s.get_char(i);
        let u = c as u32;
        if u < 48 || u > 57 {
            assert(!is_digit(s@[i as int]));
            return None;
        }
        let d = (u - 48) as u64;
        proof {
            assert(all_digits(s@.subrange(0, i + 1)));
            assert(s@.subrange(0, i + 1).subrange(0, i as int) =~= s@.subrange(0, i as int));
        }
        let next = match acc.checked_mul(10) {
            Some(m) => m.checked_add(d),
            None => None,
        };
        match next {
            Some(v) => {
                acc = v;
            },
            None => {
                proof {
                    assert(dec_val(s@.subrange(0, i + 1)) > u64::MAX);
                    if all_digits(s@) {
                        lemma_dec_val_prefix(s@, i + 1);
                        assert(s@.subrange(0, s@.len() as int) =~= s@);
                    }
                }
                return None;
            },
        }
        i = i + 1;
    }
    proof {
        assert(s@.subrange(0, n as int) =~= s@);
    }
    Some(acc)
}

/// An inclusive range of syscall numbers; single-valued except for reserved
/// placeholder entries.
#[derive(Debug, PartialEq, Eq, Clone, Copy)]
pub struct Numbers {
    start: u64,
    end: u64,
}

impl View for Numbers {
    type V = (u64, u64);

    closed spec fn view(&self) -> (u64, u64) {
        (self.start, self.end)
    }
}

/// What parsing a number column yields: a single number, or two separated by
/// the first `-`.
pub open spec fn numbers_spec(s: Seq<char>) -> Option<(u64, u64)> {
    match find_p(s, Pred::Dash.as_fn()) {
        Some(i) => match (parse_u64_spec(s.subrange(0, i)), parse_u64_spec(
            s.subrange(i + 1, s.len() as int),
        )) {
            (Some(a), Some(b)) => Some((a, b)),
            _ => None,
        },
        None => match parse_u64_spec(s) {
            Some(a) => Some((a, a)),
            None => None,
        },
    }
}

impl Numbers {
    /// The first number of the range.
    pub fn start(&self) -> (r: u64)
        ensures
            r == self@.0,
    {
        self.start
    }

    /// The last number of the range.
    pub fn end(&self) -> (r: u64)
        ensures
            r == self@.1,
    {
        self.end
    }

    /// Parses a number column.
    pub fn parse(s: &str) -> (r: Result<Numbers, Error>)
        ensures
            match r {
                Ok(nr) => numbers_spec(s@) == Some(nr@),
                Err(e) => numbers_spec(s@) is None && e == Error::BadNumber,
            },
    {
        let n = strlen(s);
        match find(s, Pred::Dash) {
            Some(i) => {
                proof {
                    lemma_find_p(s@, Pred::Dash.as_fn());
                }
                let lhs = slice(s, 0, i);
                let rhs = slice(s, i + 1, n);
                match (parse_u64(lhs), parse_u64(rhs)) {
                    (Some(a), Some(b)) => Ok(Numbers { start: a, end: b }),
                    _ => Err(Error::BadNumber),
                }
            },
            None => match parse_u64(s) {
                Some(a) => Ok(Numbers { start: a, end: a }),
                None => Err(Error::BadNumber),
            },
        }
    }
}

} // verus!
