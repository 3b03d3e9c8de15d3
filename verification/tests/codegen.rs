//! The code generator: the end-to-end scenario, identifier repair, and the
//! failure on tokens no strategy can repair.

use freebsd_sys::{parse, Error};

#[test]
fn write_scenario_emits_constant_and_function() {
    let text = "4\tAUE_WRITE\tSTD\t{\n\tssize_t write(int fd, const void *buf, size_t nbyte);\n\t}\n";
    let mut it = parse(text);
    let sc = it.next().unwrap().unwrap();
    assert_eq!(sc.number, 4);
    assert_eq!(sc.name, "write");
    assert!(sc.flags.contains(freebsd_sys::Flags::STD));
    assert_eq!(sc.args.len(), 3);
    assert_eq!(sc.args[0].name, "fd");
    assert_eq!(
        sc.args[0].typ,
        freebsd_sys::TypeKind::Int(freebsd_sys::IntKind::Int)
    );
    assert_eq!(sc.args[1].name, "buf");
    assert_eq!(
        sc.args[1].typ,
        freebsd_sys::TypeKind::Pointer(Box::new(freebsd_sys::TypeKind::Void))
    );
    assert_eq!(sc.args[2].name, "nbyte");
    assert_eq!(
        sc.args[2].typ,
        freebsd_sys::TypeKind::Int(freebsd_sys::IntKind::Uintptr)
    );

    let mut out = String::new();
    parse(text).write(&mut out).unwrap();
    let expected = "use core::ffi::{c_char, c_int, c_ulong, c_void};\n\npub const SYS_WRITE: u64 = 4;\npub unsafe fn write(fd: c_int, buf: c_void, nbyte: usize) -> Result<(i64, i64), Errno> {\n    syscall!(SYS_WRITE, fd, buf, nbyte)\n}\n";
    assert_eq!(out, expected);
}

#[test]
fn keyword_argument_names_are_repaired() {
    // `fn` is a keyword: the raw-identifier escape repairs it. `self`
    // cannot be a raw identifier either: the trailing underscore repairs it.
    let text = "90\tAUE_NULL\tSTD\t{\n\tint probe(int fn, int self);\n\t}\n";
    let mut out = String::new();
    parse(text).write(&mut out).unwrap();
    assert!(out.contains("pub unsafe fn probe(r#fn: c_int, self_: c_int)"));
    assert!(out.contains("syscall!(SYS_PROBE, r#fn, self_)"));
}

#[test]
fn keyword_struct_tags_are_repaired_as_types() {
    let text = "91\tAUE_NULL\tSTD\t{\n\tint poke(struct fn *addr);\n\t}\n";
    let mut out = String::new();
    parse(text).write(&mut out).unwrap();
    assert!(out.contains("pub unsafe fn poke(addr: r#fn)"));
}

#[test]
fn multiple_records_are_all_emitted() {
    let text = "1\tAUE_EXIT\tSTD\t{\n\tvoid exit(int rval);\n\t}\n20\tAUE_GETPID\tSTD\tgetpid\n4\tAUE_WRITE\tSTD\t{\n\tssize_t write(int fd, const void *buf, size_t nbyte);\n\t}\n";
    let mut out = String::new();
    parse(text).write(&mut out).unwrap();
    assert!(out.contains("pub const SYS_EXIT: u64 = 1;\n"));
    assert!(out.contains("pub unsafe fn exit(rval: c_int)"));
    assert!(out.contains("pub const SYS_GETPID: u64 = 20;\n"));
    assert!(out.contains("pub unsafe fn getpid() -> Result<(i64, i64), Errno> {\n    syscall!(SYS_GETPID)\n}\n"));
    assert!(out.contains("pub const SYS_WRITE: u64 = 4;\n"));
    // Reserved entries were dropped by the parser, so nothing else is there.
    let constants = out.matches("pub const ").count();
    assert_eq!(constants, 3);
}

#[test]
fn unrepairable_name_fails_generation() {
    // `1x` is no identifier, `r#1x` none either, and `1x_` still none.
    let text = "92\tAUE_NULL\tSTD\t{\n\tint f(int 1x);\n\t}\n";
    let mut out = String::new();
    match parse(text).write(&mut out) {
        Err(Error::BadIdentifier(t)) => assert_eq!(t, "1x"),
        other => panic!("expected an identifier failure, got {other:?}"),
    }
}

#[test]
fn parse_failure_aborts_generation() {
    let text = "4-8\tAUE_NULL\tSTD\tfoo\n";
    let mut out = String::new();
    assert_eq!(parse(text).write(&mut out), Err(Error::RangeNotReserved));
    assert_eq!(out, "");
}
