//! The type classifier: the closed base table, qualifiers, struct tags and
//! pointer decoration.

use freebsd_sys::{Error, IntKind, TypeKind};

#[test]
fn test_type() {
    let cases = [
        (
            "const* char",
            TypeKind::Pointer(Box::new(TypeKind::Int(IntKind::Char))),
        ),
        ("struct foo", TypeKind::Struct("foo")),
    ];
    for (i, (input, want)) in cases.into_iter().enumerate() {
        let got = TypeKind::parse(input).unwrap();
        assert_eq!(got, want, "#{i}");
    }
}

#[test]
fn type_base_table() {
    assert_eq!(TypeKind::parse("void").unwrap(), TypeKind::Void);
    assert_eq!(TypeKind::parse("int").unwrap(), TypeKind::Int(IntKind::Int));
    assert_eq!(
        TypeKind::parse("u_long").unwrap(),
        TypeKind::Int(IntKind::ULong)
    );
    assert_eq!(
        TypeKind::parse("char").unwrap(),
        TypeKind::Int(IntKind::Char)
    );
    assert_eq!(
        TypeKind::parse("size_t").unwrap(),
        TypeKind::Int(IntKind::Uintptr)
    );
    assert_eq!(
        TypeKind::parse("uintptr_t").unwrap(),
        TypeKind::Int(IntKind::Uintptr)
    );
}

#[test]
fn type_const_is_discarded() {
    assert_eq!(
        TypeKind::parse("const void").unwrap(),
        TypeKind::Void
    );
    assert_eq!(
        TypeKind::parse("const int").unwrap(),
        TypeKind::Int(IntKind::Int)
    );
    // `const` only as a whole word.
    assert_eq!(
        TypeKind::parse("constant_t").unwrap(),
        TypeKind::Unknown("constant_t")
    );
}

#[test]
fn type_pointer_layers() {
    assert_eq!(
        TypeKind::parse("* * char").unwrap(),
        TypeKind::Pointer(Box::new(TypeKind::Pointer(Box::new(TypeKind::Int(
            IntKind::Char
        )))))
    );
}

#[test]
fn type_unknown_carries_spelling() {
    assert_eq!(
        TypeKind::parse("unsigned int").unwrap(),
        TypeKind::Unknown("unsigned int")
    );
    assert_eq!(
        TypeKind::parse("caddr_t").unwrap(),
        TypeKind::Unknown("caddr_t")
    );
}

#[test]
fn type_without_base_fails() {
    assert_eq!(TypeKind::parse(""), Err(Error::EmptyType));
    assert_eq!(TypeKind::parse("const"), Err(Error::EmptyType));
    assert_eq!(TypeKind::parse("struct"), Err(Error::EmptyType));
    assert_eq!(TypeKind::parse("*"), Err(Error::EmptyType));
}
