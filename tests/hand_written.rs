use type_metadata::{
    EnumVariant, Field, HasTypeDef, HasTypeId, Namespace, TypeDef, TypeId, TypeIdCustom,
};

fn tests_namespace() -> Namespace {
    Namespace::new(vec!["type_metadata", "tests"]).unwrap()
}

#[allow(unused)]
struct S<T, U> {
    pub t: T,
    pub u: U,
}

impl<T: HasTypeId, U: HasTypeId> HasTypeId for S<T, U> {
    fn type_id() -> TypeId {
        TypeIdCustom::new("S", tests_namespace(), vec![T::type_id(), U::type_id()]).into()
    }
}

impl<T: HasTypeId, U: HasTypeId> HasTypeDef for S<T, U> {
    fn type_def() -> TypeDef {
        TypeDef::new_struct(vec![Field::named("t", T::type_id()), Field::named("u", U::type_id())])
    }
}

#[test]
fn tests_struct_derive() {
    let type_id: TypeId =
        TypeIdCustom::new("S", tests_namespace(), vec![bool::type_id(), u8::type_id()]).into();
    assert_eq!(<S<bool, u8>>::type_id(), type_id);

    let type_def = TypeDef::new_struct(vec![
        Field::named("t", bool::type_id()),
        Field::named("u", u8::type_id()),
    ]);
    assert_eq!(<S<bool, u8>>::type_def(), type_def);
}

#[allow(unused)]
struct T1<T>(T);

impl<T: HasTypeId> HasTypeId for T1<T> {
    fn type_id() -> TypeId {
        TypeIdCustom::new("S", tests_namespace(), vec![T::type_id()]).into()
    }
}

impl<T: HasTypeId> HasTypeDef for T1<T> {
    fn type_def() -> TypeDef {
        TypeDef::new_tuple_struct(vec![Field::of::<T>()])
    }
}

#[test]
fn tests_tuple_struct_derive() {
    let type_id: TypeId = TypeIdCustom::new("S", tests_namespace(), vec![bool::type_id()]).into();
    assert_eq!(<T1<bool>>::type_id(), type_id);

    let type_def = TypeDef::new_tuple_struct(vec![Field::of::<bool>()]);
    assert_eq!(<T1<bool>>::type_def(), type_def);
}

struct Unit;

impl HasTypeId for Unit {
    fn type_id() -> TypeId {
        TypeIdCustom::new("S", tests_namespace(), vec![]).into()
    }
}

impl HasTypeDef for Unit {
    fn type_def() -> TypeDef {
        TypeDef::new_tuple_struct(vec![])
    }
}

#[test]
fn tests_unit_struct_derive() {
    let type_id: TypeId = TypeIdCustom::new("S", tests_namespace(), vec![]).into();
    assert_eq!(Unit::type_id(), type_id);
    assert_eq!(Unit::type_def(), TypeDef::unit_struct());
}

// Stands for an enum `E { A, B = 10 }`.
#[allow(unused)]
enum E {
    A,
    B,
}

impl HasTypeId for E {
    fn type_id() -> TypeId {
        TypeIdCustom::new("E", tests_namespace(), vec![]).into()
    }
}

impl HasTypeDef for E {
    fn type_def() -> TypeDef {
        TypeDef::clike_enum_of(vec!["A", "B"], vec![None, Some(10)]).unwrap()
    }
}

#[test]
fn tests_c_like_enum_derive() {
    let type_id: TypeId = TypeIdCustom::new("E", tests_namespace(), vec![]).into();
    assert_eq!(E::type_id(), type_id);

    let type_def = TypeDef::new_clike_enum(vec![
        type_metadata::ClikeEnumVariant::new("A", 0u64),
        type_metadata::ClikeEnumVariant::new("B", 10u64),
    ]);
    assert_eq!(E::type_def(), type_def);
}

#[allow(unused)]
enum G<T> {
    A(T),
    B { b: T },
    C,
}

impl<T: HasTypeId> HasTypeId for G<T> {
    fn type_id() -> TypeId {
        TypeIdCustom::new("E", Namespace::new(vec!["derive"]).unwrap(), vec![T::type_id()]).into()
    }
}

impl<T: HasTypeId> HasTypeDef for G<T> {
    fn type_def() -> TypeDef {
        TypeDef::new_enum(vec![
            EnumVariant::unnamed("A", vec![Field::of::<T>()]),
            EnumVariant::named("B", vec![Field::named("b", T::type_id())]),
            EnumVariant::unit("C"),
        ])
    }
}

#[test]
fn enum_derive() {
    let type_id: TypeId =
        TypeIdCustom::new("E", Namespace::new(vec!["derive"]).unwrap(), vec![bool::type_id()])
            .into();
    assert_eq!(<G<bool>>::type_id(), type_id);
    let type_def = TypeDef::new_enum(vec![
        EnumVariant::unnamed("A", vec![Field::of::<bool>()]),
        EnumVariant::named("B", vec![Field::named("b", bool::type_id())]),
        EnumVariant::unit("C"),
    ]);
    assert_eq!(<G<bool>>::type_def(), type_def);
}
