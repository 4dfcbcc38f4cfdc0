use type_metadata::{
    assign_discriminants, ClikeEnumVariant, EnumVariant, Field, HasTypeDef, HasTypeId, Namespace,
    Registry, TypeDef, TypeGraph, TypeId, TypeIdCustom,
};

#[allow(unused)]
struct Node {
    value: u8,
    next: Option<Box<Node>>,
}

impl HasTypeId for Node {
    fn type_id() -> TypeId {
        TypeIdCustom::new("Node", Namespace::new(vec!["graphs"]).unwrap(), vec![]).into()
    }
}

impl HasTypeDef for Node {
    fn type_def() -> TypeDef {
        TypeDef::new_struct(vec![
            Field::named("value", u8::type_id()),
            Field::named("next", <Option<Box<Node>>>::type_id()),
        ])
    }
}

#[allow(unused)]
enum E<T> {
    A(T),
    B { b: T },
    C,
}

impl<T: HasTypeId> HasTypeId for E<T> {
    fn type_id() -> TypeId {
        TypeIdCustom::new("E", Namespace::new(vec!["derive"]).unwrap(), vec![T::type_id()]).into()
    }
}

impl<T: HasTypeId> HasTypeDef for E<T> {
    fn type_def() -> TypeDef {
        TypeDef::new_enum(vec![
            EnumVariant::unnamed("A", vec![Field::of::<T>()]),
            EnumVariant::named("B", vec![Field::named("b", T::type_id())]),
            EnumVariant::unit("C"),
        ])
    }
}

#[test]
fn registering_twice_gives_one_entry() {
    let mut graph = TypeGraph::new();
    assert!(graph.insert_type::<Option<bool>>());
    assert!(!graph.insert_type::<Option<bool>>());
    let mut registry = Registry::new();
    let first = registry.try_register_type::<Option<bool>>(&graph).unwrap();
    let len = registry.len();
    let second = registry.try_register_type::<Option<bool>>(&graph).unwrap();
    assert_eq!(first, 0);
    assert_eq!(first, second);
    assert_eq!(registry.len(), len);
    assert_eq!(len, 2);
    assert_eq!(registry.index_of(&bool::type_id()), Some(1));
    assert_eq!(registry.def_at(1), Some(&TypeDef::Builtin));
}

#[test]
fn self_referential_struct_registers_once() {
    let mut graph = TypeGraph::new();
    graph.insert_type::<Node>();
    graph.insert_type::<Option<Box<Node>>>();
    assert!(graph.is_closed());
    let mut registry = Registry::new();
    let node = registry.try_register_type::<Node>(&graph).unwrap();
    assert_eq!(node, 0);
    // Node, u8, Option<Node>: each once.
    assert_eq!(registry.len(), 3);
    assert_eq!(registry.id_at(0), &Node::type_id());
    assert_eq!(registry.def_at(0), Some(&Node::type_def()));
    let option = registry.index_of(&<Option<Node>>::type_id()).unwrap();
    match registry.def_at(option).unwrap() {
        TypeDef::Enum(variants) => {
            let some = &variants[1].fields[0].ty;
            assert_eq!(registry.index_of(some), Some(node));
        }
        other => panic!("unexpected body {:?}", other),
    }
    for i in 0..registry.len() {
        assert!(registry.def_at(i).is_some());
    }
    // Registering again changes nothing.
    assert_eq!(registry.try_register_type::<Box<Node>>(&graph), Some(0));
    assert_eq!(registry.len(), 3);
}

#[test]
fn undescribed_type_is_refused() {
    let mut graph = TypeGraph::new();
    graph.insert_type::<Node>();
    assert!(!graph.is_closed());
    let mut registry = Registry::new();
    assert_eq!(registry.try_register_type::<Node>(&graph), None);
    assert_eq!(registry.len(), 0);
    assert_eq!(registry.try_register_type::<Vec<u8>>(&TypeGraph::new()), None);
    let empty = TypeGraph::new();
    assert_eq!(registry.try_register_type::<(u8, [bool; 2])>(&empty), Some(0));
    assert_eq!(registry.len(), 4);
}

#[test]
fn components_are_registered_in_order() {
    let graph = TypeGraph::new();
    let mut registry = Registry::new();
    let id = <(u8, [bool; 2], &[u8])>::type_id();
    assert!(graph.covers(&id));
    assert_eq!(registry.register_id(&graph, &id), 0);
    assert_eq!(registry.len(), 5);
    assert_eq!(registry.id_at(1), &u8::type_id());
    assert_eq!(registry.id_at(2), &<[bool; 2]>::type_id());
    assert_eq!(registry.id_at(3), &bool::type_id());
    assert_eq!(registry.id_at(4), &<[u8]>::type_id());
}

#[test]
fn c_like_enum_discriminants() {
    assert_eq!(assign_discriminants(&vec![None, Some(10)]), Some(vec![0, 10]));
    assert_eq!(assign_discriminants(&vec![Some(5), None, Some(1), None]), Some(vec![5, 6, 1, 2]));
    assert_eq!(assign_discriminants(&vec![]), Some(vec![]));
    assert_eq!(assign_discriminants(&vec![Some(u64::MAX), None]), None);
    assert_eq!(assign_discriminants(&vec![Some(u64::MAX)]), Some(vec![u64::MAX]));
    let def = TypeDef::clike_enum_of(vec!["A", "B"], vec![None, Some(10)]).unwrap();
    assert_eq!(
        def,
        TypeDef::new_clike_enum(vec![ClikeEnumVariant::new("A", 0), ClikeEnumVariant::new("B", 10)]),
    );
    assert_ne!(
        def,
        TypeDef::new_clike_enum(vec![ClikeEnumVariant::new("A", 0), ClikeEnumVariant::new("B", 1)]),
    );
}

#[test]
fn enum_payload_shapes() {
    let def = <E<bool>>::type_def();
    let expected = TypeDef::new_enum(vec![
        EnumVariant::unnamed("A", vec![Field::unnamed(bool::type_id())]),
        EnumVariant::named("B", vec![Field::named("b", bool::type_id())]),
        EnumVariant::unit("C"),
    ]);
    assert_eq!(def, expected);
    assert_ne!(<E<u8>>::type_def(), expected);

    let mut graph = TypeGraph::new();
    graph.insert_type::<E<bool>>();
    let mut registry = Registry::new();
    assert_eq!(registry.try_register_type::<E<bool>>(&graph), Some(0));
    assert_eq!(registry.len(), 2);
    assert_eq!(registry.def_at(0), Some(&expected));
}

#[test]
fn prelude_bodies() {
    assert_eq!(
        <Option<u8>>::type_def(),
        TypeDef::new_enum(vec![
            EnumVariant::unit("None"),
            EnumVariant::unnamed("Some", vec![Field::of::<u8>()]),
        ]),
    );
    assert_eq!(
        <Result<bool, String>>::type_def(),
        TypeDef::new_enum(vec![
            EnumVariant::unnamed("Ok", vec![Field::of::<bool>()]),
            EnumVariant::unnamed("Err", vec![Field::of::<str>()]),
        ]),
    );
    assert_eq!(
        <Vec<bool>>::type_def(),
        TypeDef::new_struct(vec![Field::named("elems", <[bool]>::type_id())]),
    );
}

#[test]
fn unit_and_tuple_structs() {
    assert_eq!(TypeDef::new_tuple_struct(vec![]), TypeDef::unit_struct());
    assert_eq!(
        TypeDef::new_tuple_struct(vec![Field::of::<bool>()]),
        TypeDef::TupleStruct(vec![Field::unnamed(bool::type_id())]),
    );
    assert_ne!(TypeDef::unit_struct(), TypeDef::Builtin);
}
