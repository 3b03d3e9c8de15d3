//! The table parser: line classification, the four columns, reserved
//! entries, number ranges, and prototype blocks.

use freebsd_sys::{parse, Error, Flags, IntKind, Numbers, TypeKind};

#[test]
fn numbers_single_value() {
    let nr = Numbers::parse("4").unwrap();
    assert_eq!(nr.start(), 4);
    assert_eq!(nr.end(), 4);
}

#[test]
fn numbers_range() {
    let nr = Numbers::parse("4-8").unwrap();
    assert_eq!(nr.start(), 4);
    assert_eq!(nr.end(), 8);
}

#[test]
fn numbers_malformed() {
    assert_eq!(Numbers::parse("x"), Err(Error::BadNumber));
    assert_eq!(Numbers::parse(""), Err(Error::BadNumber));
    assert_eq!(Numbers::parse("4-"), Err(Error::BadNumber));
    assert_eq!(Numbers::parse("-8"), Err(Error::BadNumber));
    // Over the 64-bit limit.
    assert_eq!(
        Numbers::parse("99999999999999999999"),
        Err(Error::BadNumber)
    );
    // Exactly the 64-bit limit still parses.
    let nr = Numbers::parse("18446744073709551615").unwrap();
    assert_eq!(nr.start(), u64::MAX);
}

#[test]
fn comments_and_sections_are_skipped() {
    let text = "; a comment\n# another\n%%\n\n20\tAUE_GETPID\tSTD\tgetpid\n";
    let mut it = parse(text);
    let sc = it.next().unwrap().unwrap();
    assert_eq!(sc.number, 20);
    assert_eq!(sc.name, "getpid");
    assert_eq!(sc.audit, "AUE_GETPID");
    assert_eq!(sc.flags.bits(), Flags::STD);
    assert!(sc.args.is_empty());
    assert!(it.next().is_none());
}

#[test]
fn reserved_line_emits_no_record() {
    // The reserved entry is dropped; the next record begins at the
    // immediately following line.
    let text = "10-14\tAUE_NULL\tRESERVED\n20\tAUE_GETPID\tSTD\tgetpid\n";
    let mut it = parse(text);
    let sc = it.next().unwrap().unwrap();
    assert_eq!(sc.number, 20);
    assert_eq!(sc.name, "getpid");
    assert!(it.next().is_none());
}

#[test]
fn reserved_single_number_also_dropped() {
    let text = "5\tAUE_NULL\tRESERVED\n";
    let mut it = parse(text);
    assert!(it.next().is_none());
}

#[test]
fn obsolete_with_block_fails() {
    let text = "38\tAUE_STAT\tOBSOL\t{\n\tint stat(void);\n\t}\n";
    let mut it = parse(text);
    assert_eq!(it.next(), Some(Err(Error::BlockForbidden)));
}

#[test]
fn reserved_with_block_fails() {
    let text = "38\tAUE_NULL\tRESERVED\t{\n\tint stat(void);\n\t}\n";
    let mut it = parse(text);
    assert_eq!(it.next(), Some(Err(Error::BlockForbidden)));
}

#[test]
fn obsolete_without_block_is_a_record() {
    let text = "38\tAUE_STAT\tOBSOL\tostat\n";
    let mut it = parse(text);
    let sc = it.next().unwrap().unwrap();
    assert_eq!(sc.number, 38);
    assert_eq!(sc.name, "ostat");
    assert_eq!(sc.flags.bits(), Flags::OBSOL);
}

#[test]
fn range_without_reserved_fails() {
    let text = "4-8\tAUE_NULL\tSTD\tfoo\n";
    let mut it = parse(text);
    assert_eq!(it.next(), Some(Err(Error::RangeNotReserved)));
}

#[test]
fn unknown_flag_names_the_token() {
    let text = "1\tAUE_NULL\tBOGUS\tfoo\n";
    let mut it = parse(text);
    match it.next() {
        Some(Err(Error::UnknownFlag(t))) => assert_eq!(t, "BOGUS"),
        other => panic!("expected an unknown-flag error, got {other:?}"),
    }
}

#[test]
fn flag_expressions_join_bits() {
    let text = "1\tAUE_NULL\tSTD|CAPENABLED\tfoo\n";
    let mut it = parse(text);
    let sc = it.next().unwrap().unwrap();
    assert_eq!(sc.flags.bits(), Flags::STD | Flags::CAPENABLED);
    assert!(sc.flags.contains(Flags::CAPENABLED));
    assert!(!sc.flags.contains(Flags::OBSOL));
}

#[test]
fn missing_name_fails() {
    let text = "1\tAUE_NULL\tSTD\n";
    let mut it = parse(text);
    assert_eq!(it.next(), Some(Err(Error::MissingName)));
}

#[test]
fn missing_columns_fail() {
    let mut it = parse("1\n");
    assert_eq!(it.next(), Some(Err(Error::MissingAudit)));
    let mut it = parse("1\tAUE_NULL\n");
    assert_eq!(it.next(), Some(Err(Error::MissingFlags)));
}

#[test]
fn void_argument_list_is_empty() {
    let text = "7\tAUE_WAIT4\tSTD\t{\n\tint wait4(void);\n\t}\n";
    let mut it = parse(text);
    let sc = it.next().unwrap().unwrap();
    assert_eq!(sc.name, "wait4");
    assert!(sc.args.is_empty());
    assert!(it.next().is_none());
}

#[test]
fn variadic_marker_is_one_placeholder_argument() {
    let text = "198\tAUE_NULL\tSTD\t{\n\tint nosys(...);\n\t}\n";
    let mut it = parse(text);
    let sc = it.next().unwrap().unwrap();
    assert_eq!(sc.args.len(), 1);
    assert_eq!(sc.args[0].name, "_variadic");
    assert_eq!(sc.args[0].typ, TypeKind::Void);
    assert_eq!(sc.args[0].annotation, None);
    assert_eq!(sc.args[0].contains, None);
}

#[test]
fn block_without_terminator_fails() {
    let text = "1\tAUE_NULL\tSTD\t{\n\tint f(void);\n";
    let mut it = parse(text);
    assert_eq!(it.next(), Some(Err(Error::MissingBlockEnd)));
}

#[test]
fn argument_annotations_and_contains_are_kept() {
    let text = "3\tAUE_READ\tSTD\t{\n\tssize_t read(\n\t    int fd,\n\t    _Out_writes_bytes_(nbyte) struct iovec *buf,\n\t    _Contains_long_ptr_ struct kevent *changelist,\n\t    size_t nbyte\n\t);\n\t}\n";
    let mut it = parse(text);
    let sc = it.next().unwrap().unwrap();
    assert_eq!(sc.name, "read");
    assert_eq!(sc.args.len(), 4);
    assert_eq!(sc.args[0].name, "fd");
    assert_eq!(sc.args[0].typ, TypeKind::Int(IntKind::Int));
    assert_eq!(
        sc.args[1].annotation,
        Some(freebsd_sys::Annotation::OutWritesBytes("nbyte"))
    );
    assert_eq!(
        sc.args[1].typ,
        TypeKind::Pointer(Box::new(TypeKind::Struct("iovec")))
    );
    assert_eq!(sc.args[1].name, "buf");
    let contains = sc.args[2].contains.unwrap();
    assert_eq!(
        contains.bits(),
        freebsd_sys::Contains::LONG | freebsd_sys::Contains::PTR
    );
    assert_eq!(sc.args[2].name, "changelist");
    assert_eq!(sc.args[3].typ, TypeKind::Int(IntKind::Uintptr));
}

#[test]
fn blank_nonempty_line_has_no_number() {
    // A line of spaces is no comment, yet holds no columns.
    let mut it = parse("   \n");
    assert_eq!(it.next(), Some(Err(Error::MissingNumber)));
}

#[test]
fn block_without_result_type_fails() {
    let text = "1\tAUE_NULL\tSTD\t{\n\tfoo;\n\t}\n";
    let mut it = parse(text);
    assert_eq!(it.next(), Some(Err(Error::MissingResult)));
}

#[test]
fn block_without_opening_paren_fails() {
    let text = "1\tAUE_NULL\tSTD\t{\n\tint foo;\n\t}\n";
    let mut it = parse(text);
    assert_eq!(it.next(), Some(Err(Error::MissingParen)));
}

#[test]
fn block_without_closing_paren_fails() {
    let text = "1\tAUE_NULL\tSTD\t{\n\tint foo(;\n\t}\n";
    let mut it = parse(text);
    assert_eq!(it.next(), Some(Err(Error::MissingCloseParen)));
}

#[test]
fn block_without_semicolon_fails() {
    let text = "1\tAUE_NULL\tSTD\t{\n\tint foo(void)\n\t}\n";
    let mut it = parse(text);
    assert_eq!(it.next(), Some(Err(Error::MissingSemicolon)));
}

#[test]
fn argument_without_name_boundary_fails() {
    let text = "1\tAUE_NULL\tSTD\t{\n\tint f(foo);\n\t}\n";
    let mut it = parse(text);
    assert_eq!(it.next(), Some(Err(Error::ArgSyntax)));
}

#[test]
fn argument_without_type_base_fails() {
    let text = "1\tAUE_NULL\tSTD\t{\n\tint f(const *x);\n\t}\n";
    let mut it = parse(text);
    assert_eq!(it.next(), Some(Err(Error::EmptyType)));
}

#[test]
fn malformed_annotation_in_block_fails() {
    let text = "1\tAUE_NULL\tSTD\t{\n\tint f(_In_reads_(n int x));\n\t}\n";
    let mut it = parse(text);
    assert_eq!(it.next(), Some(Err(Error::BadAnnotation)));
}

#[test]
fn unknown_contains_in_block_fails() {
    let text = "1\tAUE_NULL\tSTD\t{\n\tint f(_Contains_word_ int *x);\n\t}\n";
    let mut it = parse(text);
    match it.next() {
        Some(Err(Error::UnknownContains(t))) => assert_eq!(t, "word"),
        other => panic!("expected an unknown-component error, got {other:?}"),
    }
}

#[test]
fn empty_input_ends_at_once() {
    let mut it = parse("");
    assert!(it.next().is_none());
}

#[test]
fn text_without_newline_is_not_consumed() {
    // A final fragment with no newline never forms a line.
    let mut it = parse("1\tAUE_NULL\tSTD\tfoo");
    assert!(it.next().is_none());
}
