//! Identifier repair for generated code: a raw token, the raw-identifier
//! escape, then a trailing underscore; a token that no strategy makes valid
//! is a fatal condition. Validity itself is judged by `syn`.

use vstd::prelude::*;
use vstd::string::StringExecFns;

use crate::error::Error;

verus! {

/// Whether `syn` accepts the token as an identifier.
pub uninterp spec fn ident_ok(s: Seq<char>) -> bool;

/// Whether `syn` accepts the token as a type.
pub uninterp spec fn type_ok(s: Seq<char>) -> bool;

/// Relies on `syn::parse_str::<syn::Ident>`: whether a token parses as an
/// identifier depends on the token alone.
#[verifier::external_body]
pub(crate) fn parse_ident(s: &str) -> (r: bool)
    ensures
        r == ident_ok(s@),
{
    syn::parse_str::<syn::Ident>(s).is_ok()
}

/// Relies on `syn::parse_str::<syn::Type>`: whether a token parses as a type
/// depends on the token alone.
#[verifier::external_body]
pub(crate) fn parse_type(s: &str) -> (r: bool)
    ensures
        r == type_ok(s@),
{
    syn::parse_str::<syn::Type>(s).is_ok()
}

/// The first of the three repair strategies that yields a valid identifier:
/// the token itself, `r#` prefixed, an underscore appended.
pub open spec fn sanitize_spec(s: Seq<char>) -> Option<Seq<char>> {
    if ident_ok(s) {
        Some(s)
    } else if ident_ok("r#"@ + s) {
        Some("r#"@ + s)
    } else if ident_ok(s + "_"@) {
        Some(s + "_"@)
    } else {
        None
    }
}

/// The same three strategies, judged as a type name.
pub open spec fn sanitize_type_spec(s: Seq<char>) -> Option<Seq<char>> {
    if type_ok(s) {
        Some(s)
    } else if type_ok("r#"@ + s) {
        Some("r#"@ + s)
    } else if type_ok(s + "_"@) {
        Some(s + "_"@)
    } else {
        None
    }
}

/// Makes a token into a valid identifier, or fails naming the token.
pub fn sanitize_ident(s: &str) -> (r: Result<String, Error>)
    ensures
        match r {
            Ok(t) => sanitize_spec(s@) == Some(t@),
            Err(e) => sanitize_spec(s@) is None && (e matches Error::BadIdentifier(t) && t@
                == s@),
        },
{
    if parse_ident(s) {
        return Ok(String::from_str(s));
    }
    let mut raw = String::from_str("r#");
    raw.append(s);
    if parse_ident(raw.as_str()) {
        return Ok(raw);
    }
    let mut under = String::from_str(s);
    under.append("_");
    if parse_ident(under.as_str()) {
        return Ok(under);
    }
    Err(Error::BadIdentifier(String::from_str(s)))
}

/// Makes a token into a valid type name, or fails naming the token.
pub fn sanitize_type(s: &str) -> (r: Result<String, Error>)
    ensures
        match r {
            Ok(t) => sanitize_type_spec(s@) == Some(t@),
            Err(e) => sanitize_type_spec(s@) is None && (e matches Error::BadIdentifier(t) && t@
                == s@),
        },
{
    if parse_type(s) {
        return Ok(String::from_str(s));
    }
    let mut raw = String::from_str("r#");
    raw.append(s);
    if parse_type(raw.as_str()) {
        return Ok(raw);
    }
    let mut under = String::from_str(s);
    under.append("_");
    if parse_type(under.as_str()) {
        return Ok(under);
    }
    Err(Error::BadIdentifier(String::from_str(s)))
}

} // verus!
