use generic_mangle::ir::{GenericPath, Path, PrimitiveType, Type, TypeKind};
use generic_mangle::mangle::{mangle_name, mangle_path, MangleError};

fn float() -> Type {
    Type::Primitive(PrimitiveType::Float)
}

fn path(path: &str) -> Type {
    generic_path(path, vec![])
}

fn generic_path(path: &str, generics: Vec<Type>) -> Type {
    let path = Path::new(path);
    let generic_path = GenericPath::new(path, generics);
    Type::Path(generic_path)
}

fn sep(s: &str) -> Option<String> {
    Some(s.to_string())
}

#[test]
fn generics() {
    // Foo<f32> => Foo_f32
    assert_eq!(
        mangle_path(&Path::new("Foo"), &vec![float()], &None),
        Ok(Path::new("Foo_f32"))
    );

    // Foo<Bar<f32>> => Foo_Bar_f32
    assert_eq!(
        mangle_path(&Path::new("Foo"), &vec![generic_path("Bar", vec![float()])], &None),
        Ok(Path::new("Foo_Bar_f32"))
    );

    // Foo<Bar> => Foo_Bar
    assert_eq!(
        mangle_path(&Path::new("Foo"), &[path("Bar")], &None),
        Ok(Path::new("Foo_Bar"))
    );

    // Foo<Bar<T>> => Foo_Bar_T
    assert_eq!(
        mangle_path(&Path::new("Foo"), &[generic_path("Bar", vec![path("T")])], &None),
        Ok(Path::new("Foo_Bar_T"))
    );

    // Foo<Bar<T>, E> => Foo_Bar_T_____E
    assert_eq!(
        mangle_path(
            &Path::new("Foo"),
            &[generic_path("Bar", vec![path("T")]), path("E")],
            &None,
        ),
        Ok(Path::new("Foo_Bar_T_____E"))
    );

    // Foo<Bar<T>, Bar<E>> => Foo_Bar_T_____Bar_E
    assert_eq!(
        mangle_path(
            &Path::new("Foo"),
            &[
                generic_path("Bar", vec![path("T")]),
                generic_path("Bar", vec![path("E")]),
            ],
            &None,
        ),
        Ok(Path::new("Foo_Bar_T_____Bar_E"))
    );
}

#[test]
fn empty_arguments_give_the_name_back() {
    assert_eq!(mangle_name("Foo", &[], &None), Ok("Foo".to_string()));
    assert_eq!(mangle_name("Foo", &[], &sep("::")), Ok("Foo".to_string()));
    assert_eq!(mangle_path(&Path::new("Foo"), &[], &sep("X")), Ok(Path::new("Foo")));
}

#[test]
fn repeated_calls_agree() {
    let args = vec![generic_path("Bar", vec![path("T")]), path("E")];
    let first = mangle_name("Foo", &args, &None);
    let second = mangle_name("Foo", &args, &None);
    assert_eq!(first, second);
    assert_eq!(first, Ok("Foo_Bar_T_____E".to_string()));
}

#[test]
fn custom_separator_moves_only_markers() {
    let args = vec![generic_path("Bar", vec![path("T")]), path("E")];
    assert_eq!(mangle_name("Foo", &args, &sep("$")), Ok("Foo$Bar$T$$$$$E".to_string()));
    assert_eq!(
        mangle_name("Foo", &args, &sep("ab")),
        Ok("FooabBarabTabababababE".to_string())
    );
    assert_eq!(mangle_name("Foo", &args, &sep("")), Ok("FooBarTE".to_string()));
}

#[test]
fn explicit_underscore_matches_default() {
    let args = vec![generic_path("Bar", vec![path("T")]), generic_path("Bar", vec![path("E")])];
    assert_eq!(mangle_name("Foo", &args, &sep("_")), mangle_name("Foo", &args, &None));
}

#[test]
fn three_arguments_use_boundary_markers() {
    let args = vec![path("A"), Type::Primitive(PrimitiveType::Bool), path("C")];
    assert_eq!(mangle_name("Foo", &args, &None), Ok("Foo_A__bool__C".to_string()));
}

#[test]
fn closing_markers_stack_before_a_later_sibling() {
    // Foo<Bar<Baz<T>>, E>
    let args = vec![
        generic_path("Bar", vec![generic_path("Baz", vec![path("T")])]),
        path("E"),
    ];
    assert_eq!(
        mangle_name("Foo", &args, &None),
        Ok("Foo_Bar_Baz_T________E".to_string())
    );
}

#[test]
fn right_nested_chain_has_no_closing_markers() {
    // Foo<Bar<Baz<T>>>
    let args = vec![generic_path("Bar", vec![generic_path("Baz", vec![path("T")])])];
    assert_eq!(mangle_name("Foo", &args, &None), Ok("Foo_Bar_Baz_T".to_string()));
}

#[test]
fn inner_list_not_last_gets_closing_marker() {
    // Foo<Bar<A, B>, C>
    let args = vec![generic_path("Bar", vec![path("A"), path("B")]), path("C")];
    assert_eq!(mangle_name("Foo", &args, &None), Ok("Foo_Bar_A__B_____C".to_string()));
}

#[test]
fn primitive_spellings() {
    let cases = vec![
        (PrimitiveType::Void, "c_void"),
        (PrimitiveType::Bool, "bool"),
        (PrimitiveType::Char, "c_char"),
        (PrimitiveType::SChar, "c_schar"),
        (PrimitiveType::UChar, "c_uchar"),
        (PrimitiveType::Char32, "char"),
        (PrimitiveType::Float, "f32"),
        (PrimitiveType::Double, "f64"),
        (PrimitiveType::VaList, "va_list"),
        (PrimitiveType::PtrDiffT, "ptrdiff_t"),
        (PrimitiveType::Int8, "i8"),
        (PrimitiveType::Int16, "i16"),
        (PrimitiveType::Int32, "i32"),
        (PrimitiveType::Int64, "i64"),
        (PrimitiveType::UInt8, "u8"),
        (PrimitiveType::UInt16, "u16"),
        (PrimitiveType::UInt32, "u32"),
        (PrimitiveType::UInt64, "u64"),
        (PrimitiveType::ISize, "isize"),
        (PrimitiveType::USize, "usize"),
    ];
    for (p, repr) in cases {
        assert_eq!(p.to_repr_rust(), repr);
        assert_eq!(
            mangle_name("Foo", &[Type::Primitive(p)], &None),
            Ok(format!("Foo_{}", repr))
        );
    }
}

fn err(name: &str, index: usize, kind: TypeKind) -> MangleError {
    MangleError { name: name.to_string(), index, kind }
}

#[test]
fn each_indirect_kind_fails() {
    let cases = vec![
        (Type::MutRef(Box::new(float())), TypeKind::MutRef),
        (Type::Ref(Box::new(float())), TypeKind::Ref),
        (Type::ConstPtr(Box::new(float())), TypeKind::ConstPtr),
        (Type::Ptr(Box::new(float())), TypeKind::Ptr),
        (Type::Array(Box::new(float()), "4".to_string()), TypeKind::Array),
        (Type::FuncPtr(Box::new(float()), vec![path("T")]), TypeKind::FuncPtr),
    ];
    for (ty, kind) in cases {
        assert_eq!(ty.kind(), kind);
        assert_eq!(mangle_name("Foo", &[path("A"), ty], &None), Err(err("Foo", 1, kind)));
    }
}

#[test]
fn nested_indirect_kind_fails_with_enclosing_name() {
    // Foo<A, Bar<T, *T>>
    let args = vec![
        path("A"),
        generic_path("Bar", vec![path("T"), Type::Ptr(Box::new(path("T")))]),
    ];
    assert_eq!(mangle_name("Foo", &args, &None), Err(err("Bar", 1, TypeKind::Ptr)));
    assert_eq!(
        mangle_path(&Path::new("Foo"), &args, &sep("$")),
        Err(err("Bar", 1, TypeKind::Ptr))
    );
}

#[test]
fn first_fault_is_reported() {
    let args = vec![Type::Ref(Box::new(float())), Type::Ptr(Box::new(float()))];
    assert_eq!(mangle_name("Foo", &args, &None), Err(err("Foo", 0, TypeKind::Ref)));
}

#[test]
fn generic_path_accessors() {
    let g = GenericPath::new(Path::new("Bar"), vec![float()]);
    assert_eq!(g.export_name(), "Bar");
    assert_eq!(g.path(), &Path::new("Bar"));
    assert_eq!(g.generics().len(), 1);
    assert_eq!(Path::new("Baz").name(), "Baz");
}
