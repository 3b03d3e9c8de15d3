//! The source-formatter collaboration: the formatter runs as a subprocess
//! outside this crate; what is decided here is its configuration and the
//! meaning of its exit code.

use vstd::prelude::*;

verus! {

/// Configuration for the external source formatter.
#[derive(Debug)]
pub struct Formatter {
    rustfmt_path: Option<String>,
    rustfmt_configuration_file: Option<String>,
}

impl View for Formatter {
    type V = (Option<Seq<char>>, Option<Seq<char>>);

    closed spec fn view(&self) -> (Option<Seq<char>>, Option<Seq<char>>) {
        (
            match self.rustfmt_path {
                Some(ref p) => Some(p@),
                None => None,
            },
            match self.rustfmt_configuration_file {
                Some(ref p) => Some(p@),
                None => None,
            },
        )
    }
}

/// How a formatter run ended.
#[derive(Debug, PartialEq, Eq, Structural, Clone, Copy)]
pub enum FormatOutcome {
    /// Exit code zero: the formatted text is used.
    Formatted,
    /// Exit code three: some lines could not be formatted; the formatted
    /// text is used and a diagnostic is warranted.
    FormattedWithWarning,
    /// Exit code two: the formatter could not parse its input; fatal.
    ParseFailed,
    /// Any other exit: an internal formatter error; fatal.
    Internal,
    /// Output that is not text: the raw pre-format source is kept.
    RawKept,
}

/// The exit-code policy of the formatter collaboration.
pub open spec fn classify_exit_spec(code: Option<i32>, utf8_ok: bool) -> FormatOutcome {
    if !utf8_ok {
        FormatOutcome::RawKept
    } else {
        match code {
            Some(0i32) => FormatOutcome::Formatted,
            Some(2i32) => FormatOutcome::ParseFailed,
            Some(3i32) => FormatOutcome::FormattedWithWarning,
            _ => FormatOutcome::Internal,
        }
    }
}

impl Formatter {
    /// Creates a new `Formatter` with default options.
    pub fn new() -> (r: Self)
        ensures
            r@ == (None::<Seq<char>>, None::<Seq<char>>),
    {
        Self { rustfmt_path: None, rustfmt_configuration_file: None }
    }

    /// An explicitly configured formatter binary, if any.
    pub fn rustfmt_path(&self) -> (r: &Option<String>)
        ensures
            self@.0 is Some <==> r is Some,
            r matches Some(p) ==> self@.0 == Some(p@),
    {
        &self.rustfmt_path
    }

    /// An explicitly configured formatter configuration file, if any.
    pub fn configuration_file(&self) -> (r: &Option<String>)
        ensures
            self@.1 is Some <==> r is Some,
            r matches Some(p) ==> self@.1 == Some(p@),
    {
        &self.rustfmt_configuration_file
    }

    /// Decides what a formatter run's exit means: exit zero is success, two
    /// a fatal parse error, three a non-fatal diagnostic; output that is not
    /// text keeps the raw source.
    pub fn classify_exit(code: Option<i32>, utf8_ok: bool) -> (r: FormatOutcome)
        ensures
            r == classify_exit_spec(code, utf8_ok),
    {
        if !utf8_ok {
            return FormatOutcome::RawKept;
        }
        match code {
            Some(0i32) => FormatOutcome::Formatted,
            Some(2i32) => FormatOutcome::ParseFailed,
            Some(3i32) => FormatOutcome::FormattedWithWarning,
            _ => FormatOutcome::Internal,
        }
    }
}

} // verus!
