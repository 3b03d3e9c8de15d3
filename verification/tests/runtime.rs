//! The formatter exit policy and the kernel-call result convention.

use freebsd_sys::{syscall_result, FormatOutcome, Formatter};

#[test]
fn formatter_defaults_are_empty() {
    let f = Formatter::new();
    assert!(f.rustfmt_path().is_none());
    assert!(f.configuration_file().is_none());
}

#[test]
fn formatter_exit_policy() {
    assert_eq!(
        Formatter::classify_exit(Some(0), true),
        FormatOutcome::Formatted
    );
    assert_eq!(
        Formatter::classify_exit(Some(2), true),
        FormatOutcome::ParseFailed
    );
    assert_eq!(
        Formatter::classify_exit(Some(3), true),
        FormatOutcome::FormattedWithWarning
    );
    assert_eq!(
        Formatter::classify_exit(Some(1), true),
        FormatOutcome::Internal
    );
    assert_eq!(Formatter::classify_exit(None, true), FormatOutcome::Internal);
    // Output that is not text keeps the raw source, whatever the exit.
    assert_eq!(
        Formatter::classify_exit(Some(0), false),
        FormatOutcome::RawKept
    );
}

#[test]
fn syscall_result_error_flag() {
    // A set flag is failure: the first register carries the nonzero code.
    assert_eq!(syscall_result(78, 0, 1), Err(78));
    // A clear flag is success with both result registers.
    assert_eq!(syscall_result(5, 7, 0), Ok((5, 7)));
    assert_eq!(syscall_result(0, 0, 0), Ok((0, 0)));
}
