use std::marker::PhantomData;
use type_metadata::{
    assert_type_id, Field, HasTypeDef, HasTypeId, Namespace, TypeDef, TypeId, TypeIdArray,
    TypeIdCustom, TypeIdPrimitive, TypeIdSlice, TypeIdTuple,
};

fn expect_id<T, E>(expected: E)
where
    T: HasTypeId + ?Sized,
    E: Into<TypeId>,
{
    let expected = expected.into();
    assert_eq!(T::type_id(), expected);
    assert!(assert_type_id::<T>(expected));
}

#[test]
fn primitives() {
    expect_id::<bool, _>(TypeIdPrimitive::Bool);
    expect_id::<String, _>(TypeIdPrimitive::Str);
    expect_id::<&str, _>(TypeIdPrimitive::Str);
    expect_id::<i8, _>(TypeIdPrimitive::I8);

    expect_id::<Box<String>, _>(TypeIdPrimitive::Str);
    expect_id::<&String, _>(TypeIdPrimitive::Str);
    expect_id::<[bool], _>(TypeIdSlice::new(TypeIdPrimitive::Bool.into()));
    expect_id::<PhantomData<bool>, _>(TypeIdPrimitive::Bool);
}

#[test]
fn prelude_items() {
    expect_id::<Option<u128>, _>(TypeIdCustom::new(
        "Option",
        Namespace::prelude(),
        vec![u128::type_id()],
    ));
    expect_id::<Result<bool, String>, _>(TypeIdCustom::new(
        "Result",
        Namespace::prelude(),
        vec![bool::type_id(), str::type_id()],
    ));
}

#[test]
fn tuple_primitives() {
    // unit
    expect_id::<(), _>(TypeIdTuple::new(vec![]));

    // tuple with one element
    expect_id::<(bool,), _>(TypeIdTuple::new(vec![bool::type_id()]));

    // tuple with multiple elements
    expect_id::<(bool, String), _>(TypeIdTuple::new(vec![bool::type_id(), String::type_id()]));

    // nested tuple
    expect_id::<((i8, i16), (u32, u64)), _>(TypeIdTuple::new(vec![
        TypeIdTuple::new(vec![i8::type_id(), i16::type_id()]).into(),
        TypeIdTuple::new(vec![u32::type_id(), u64::type_id()]).into(),
    ]));
}

#[test]
fn array_primitives() {
    // array
    expect_id::<[bool; 3], _>(TypeIdArray::new(3, bool::type_id()));
    // nested
    expect_id::<[[i32; 5]; 5], _>(TypeIdArray::new(
        5,
        TypeIdArray::new(5, i32::type_id()).into(),
    ));
    // slice
    expect_id::<[bool], _>(TypeIdSlice::new(bool::type_id()));
    // vec
    expect_id::<Vec<bool>, _>(TypeIdCustom::new(
        "Vec",
        Namespace::prelude(),
        vec![bool::type_id()],
    ));
}

#[allow(unused)]
struct MyStruct<T> {
    data: T,
}

impl<T: HasTypeId> HasTypeId for MyStruct<T> {
    fn type_id() -> TypeId {
        TypeIdCustom::new(
            "MyStruct",
            Namespace::from_str("type_metadata::tests").unwrap(),
            vec![T::type_id()],
        )
        .into()
    }
}

impl<T: HasTypeId> HasTypeDef for MyStruct<T> {
    fn type_def() -> TypeDef {
        TypeDef::new_struct(vec![Field::named("data", T::type_id())])
    }
}

#[test]
fn struct_with_generics() {
    // Normal struct
    let struct_bool_id = TypeIdCustom::new(
        "MyStruct",
        Namespace::new(vec!["type_metadata", "tests"]).unwrap(),
        vec![bool::type_id()],
    );
    expect_id::<MyStruct<bool>, _>(struct_bool_id.clone());

    let struct_bool_def = TypeDef::new_struct(vec![Field::named("data", bool::type_id())]);
    assert_eq!(<MyStruct<bool>>::type_def(), struct_bool_def);

    // With "`Self` typed" fields
    type SelfTyped = MyStruct<Box<MyStruct<bool>>>;
    let expected_type_id = TypeIdCustom::new(
        "MyStruct",
        Namespace::new(vec!["type_metadata", "tests"]).unwrap(),
        vec![struct_bool_id.clone().into()],
    );
    expect_id::<SelfTyped, _>(expected_type_id);
    assert_eq!(
        SelfTyped::type_def(),
        TypeDef::new_struct(vec![Field::named("data", struct_bool_id.clone().into())]),
    );
}

#[test]
fn generic_instances_differ_in_parameters_only() {
    let a = <MyStruct<bool>>::type_id();
    let b = <MyStruct<u8>>::type_id();
    assert_ne!(a, b);
    match (a, b) {
        (TypeId::Custom(n1, ns1, p1), TypeId::Custom(n2, ns2, p2)) => {
            assert_eq!(n1, n2);
            assert!(ns1.same_as(&ns2));
            assert_eq!(p1, vec![bool::type_id()]);
            assert_eq!(p2, vec![u8::type_id()]);
        }
        _ => panic!("named types have custom identities"),
    }
    assert_ne!(<Option<bool>>::type_id(), <Option<u8>>::type_id());
}

#[test]
fn indirection_is_transparent() {
    assert_eq!(<Box<String>>::type_id(), <&str>::type_id());
    assert_eq!(<&str>::type_id(), String::type_id());
    assert_eq!(<&MyStruct<bool>>::type_id(), <MyStruct<bool>>::type_id());
    assert_eq!(<Box<[u8]>>::type_id(), <[u8]>::type_id());
}

#[test]
fn tuple_order_matters() {
    assert_ne!(<(bool, u8)>::type_id(), <(u8, bool)>::type_id());
    assert_ne!(<()>::type_id(), <(bool,)>::type_id());
    assert_ne!(<()>::type_id(), <((),)>::type_id());
    assert_eq!(<(bool, u8, char)>::type_id(), TypeId::Tuple(vec![
        TypeId::Primitive(TypeIdPrimitive::Bool),
        TypeId::Primitive(TypeIdPrimitive::U8),
        TypeId::Primitive(TypeIdPrimitive::Char),
    ]));
}

#[test]
fn arrays_are_not_slices() {
    assert_ne!(<[bool; 3]>::type_id(), <[bool]>::type_id());
    assert_ne!(<[bool; 3]>::type_id(), <[bool; 4]>::type_id());
    assert_eq!(
        <[[i32; 5]; 5]>::type_id(),
        TypeId::Array(5, Box::new(TypeId::Array(5, Box::new(TypeId::Primitive(TypeIdPrimitive::I32))))),
    );
    assert_ne!(<Vec<bool>>::type_id(), <[bool]>::type_id());
}

#[test]
fn every_primitive_kind() {
    assert_eq!(char::type_id(), TypeId::Primitive(TypeIdPrimitive::Char));
    assert_eq!(u16::type_id(), TypeId::Primitive(TypeIdPrimitive::U16));
    assert_eq!(u32::type_id(), TypeId::Primitive(TypeIdPrimitive::U32));
    assert_eq!(u64::type_id(), TypeId::Primitive(TypeIdPrimitive::U64));
    assert_eq!(i16::type_id(), TypeId::Primitive(TypeIdPrimitive::I16));
    assert_eq!(i64::type_id(), TypeId::Primitive(TypeIdPrimitive::I64));
    assert_eq!(i128::type_id(), TypeId::Primitive(TypeIdPrimitive::I128));
    assert!(!assert_type_id::<u8>(TypeId::Primitive(TypeIdPrimitive::I8)));
}

#[test]
fn identity_clone_is_equal() {
    let id = <Result<Vec<(u8, [bool; 2])>, MyStruct<char>>>::type_id();
    let copy = id.clone();
    assert_eq!(id, copy);
}
