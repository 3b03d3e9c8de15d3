//! The annotation vocabulary: display and parse round trips, and the
//! malformed and unknown cases.

use freebsd_sys::Annotation::{self, In, InOpt, Out, OutOpt, InOut, InOutOpt, InZ, InZOpt, OutZ, OutZOpt, InOutZ, InOutZOpt, InReadsZ, InReadsZOpt, OutWritesZ, OutWritesZOpt, InOutUpdatesZ, InOutUpdatesZOpt, InReads, InReadsOpt, OutWrites, OutWritesOpt, InOutUpdates, InOutUpdatesOpt, InReadsBytes, InReadsBytesOpt, OutWritesBytes, OutWritesBytesOpt, InOutUpdatesBytes, InOutUpdatesBytesOpt};
use freebsd_sys::{Contains, Error};

#[test]
fn test_annotation() {
    const ANNOTATIONS: [Annotation<'static>; 30] = [
        In,
        InOpt,
        Out,
        OutOpt,
        InOut,
        InOutOpt,
        InZ,
        InZOpt,
        OutZ,
        OutZOpt,
        InOutZ,
        InOutZOpt,
        InReadsZ("len"),
        InReadsZOpt("len"),
        OutWritesZ("len"),
        OutWritesZOpt("len"),
        InOutUpdatesZ("nfds"),
        InOutUpdatesZOpt("nfds"),
        InReads("n"),
        InReadsOpt("n"),
        OutWrites("n"),
        OutWritesOpt("n"),
        InOutUpdates("x"),
        InOutUpdatesOpt("x"),
        InReadsBytes("foo"),
        InReadsBytesOpt("foo"),
        OutWritesBytesOpt("bar"),
        OutWritesBytesOpt("bar"),
        InOutUpdatesBytesOpt("baz"),
        InOutUpdatesBytesOpt("baz"),
    ];
    for (i, want) in ANNOTATIONS.into_iter().enumerate() {
        let s = want.display();
        let got = Annotation::parse(&s).unwrap();
        assert_eq!(got, Some(want), "#{i}");
    }
}

#[test]
fn annotation_counted_round_trip_includes_every_counted_name() {
    let cases: [Annotation<'static>; 18] = [
        InReadsZ("a"),
        InReadsZOpt("a"),
        OutWritesZ("a"),
        OutWritesZOpt("a"),
        InOutUpdatesZ("a"),
        InOutUpdatesZOpt("a"),
        InReads("a"),
        InReadsOpt("a"),
        OutWrites("a"),
        OutWritesOpt("a"),
        InOutUpdates("a"),
        InOutUpdatesOpt("a"),
        InReadsBytes("a"),
        InReadsBytesOpt("a"),
        OutWritesBytes("a"),
        OutWritesBytesOpt("a"),
        InOutUpdatesBytes("a"),
        InOutUpdatesBytesOpt("a"),
    ];
    for (i, want) in cases.into_iter().enumerate() {
        let s = want.display();
        let got = Annotation::parse(&s).unwrap();
        assert_eq!(got, Some(want), "#{i}");
    }
}

#[test]
fn annotation_unknown_token_is_no_annotation() {
    assert_eq!(Annotation::parse("const").unwrap(), None);
    assert_eq!(Annotation::parse("_Inward_").unwrap(), None);
    assert_eq!(Annotation::parse("").unwrap(), None);
}

#[test]
fn annotation_malformed_count_fails() {
    // A counted name without its parenthesized argument.
    assert_eq!(Annotation::parse("_In_reads_"), Err(Error::BadAnnotation));
    // Text after the closing parenthesis.
    assert_eq!(Annotation::parse("_In_reads_(n)x"), Err(Error::BadAnnotation));
    // No closing parenthesis.
    assert_eq!(Annotation::parse("_In_reads_(n"), Err(Error::BadAnnotation));
}

#[test]
fn contains_parses_component_lists() {
    let got = Contains::parse("_Contains_long_ptr_").unwrap().unwrap();
    assert_eq!(got.bits(), Contains::LONG | Contains::PTR);
    let got = Contains::parse("_Contains_timet_").unwrap().unwrap();
    assert_eq!(got.bits(), Contains::TIME_T);
    // Without the prefix it is no `_Contains_` token at all.
    assert_eq!(Contains::parse("const").unwrap(), None);
}

#[test]
fn contains_unknown_component_fails() {
    match Contains::parse("_Contains_word_") {
        Err(Error::UnknownContains(t)) => assert_eq!(t, "word"),
        other => panic!("expected an unknown-component error, got {other:?}"),
    }
}
