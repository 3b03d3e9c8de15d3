//! The failure taxonomy: any structural violation aborts the parse of the
//! whole table, and an identifier that no strategy can repair aborts
//! generation.

use vstd::prelude::*;

verus! {

/// Why a table could not be parsed or its declarations not generated.
#[derive(Debug, PartialEq, Eq, Clone)]
pub enum Error {
    /// A specification line with no number column.
    MissingNumber,
    /// A number column that is not a decimal number or a pair of them.
    BadNumber,
    /// A specification line with no audit column.
    MissingAudit,
    /// A specification line with no flag column.
    MissingFlags,
    /// A flag expression naming no known flag; carries the offending token.
    UnknownFlag(String),
    /// An `OBSOL` or `RESERVED` line followed by a prototype block.
    BlockForbidden,
    /// A multi-valued number range on a line without `RESERVED`.
    RangeNotReserved,
    /// A blockless line with no bare name column.
    MissingName,
    /// A prototype block with no closing-brace terminator line.
    MissingBlockEnd,
    /// A prototype block with no result type.
    MissingResult,
    /// A prototype block with no opening parenthesis.
    MissingParen,
    /// A prototype block with no closing parenthesis.
    MissingCloseParen,
    /// A prototype block whose parenthesis is not followed by a semicolon.
    MissingSemicolon,
    /// An argument declaration of a single token.
    MissingArgToken,
    /// A known annotation name with a malformed count argument.
    BadAnnotation,
    /// A `_Contains_` token with an unknown component; carries the component.
    UnknownContains(String),
    /// An argument declaration with no boundary between type and name.
    ArgSyntax,
    /// A type phrase with no base, such as an empty one or a lone qualifier.
    EmptyType,
    /// A token that no identifier-repair strategy can make valid.
    BadIdentifier(String),
}

} // verus!
