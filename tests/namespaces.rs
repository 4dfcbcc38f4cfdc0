use type_metadata::{Namespace, NamespaceError};

#[test]
fn namespace_from_segments() {
    let ns = Namespace::new(vec!["type_metadata", "tests"]).unwrap();
    assert_eq!(ns.len(), 2);
    assert_eq!(ns.segment(0), "type_metadata");
    assert_eq!(ns.segment(1), "tests");
}

#[test]
fn namespace_rejects_bad_segments() {
    assert_eq!(Namespace::new(vec![]).unwrap_err(), NamespaceError::InvalidNamespace);
    assert_eq!(Namespace::new(vec![""]).unwrap_err(), NamespaceError::InvalidNamespace);
    assert_eq!(Namespace::new(vec!["a", "1b"]).unwrap_err(), NamespaceError::InvalidNamespace);
    assert_eq!(Namespace::new(vec!["a-b"]).unwrap_err(), NamespaceError::InvalidNamespace);
    assert!(Namespace::new(vec!["_a1", "B"]).is_ok());
}

#[test]
fn namespace_from_path() {
    let ns = Namespace::from_str("type_metadata::tests").unwrap();
    assert!(ns.same_as(&Namespace::new(vec!["type_metadata", "tests"]).unwrap()));
    let one = Namespace::from_str("prelude").unwrap();
    assert!(one.same_as(&Namespace::prelude()));
    assert!(Namespace::from_str("").is_err());
    assert!(Namespace::from_str("a:b").is_err());
    assert!(Namespace::from_str("a::").is_err());
    assert!(Namespace::from_str("::a").is_err());
    assert!(Namespace::from_str("a::::b").is_err());
    assert!(Namespace::from_str("a b").is_err());
}

#[test]
fn namespaces_compare_by_segments() {
    let a = Namespace::new(vec!["x", "y"]).unwrap();
    let b = Namespace::new(vec!["x", "Y"]).unwrap();
    let c = Namespace::new(vec!["x"]).unwrap();
    assert!(a.same_as(&a.copy()));
    assert!(!a.same_as(&b));
    assert!(!a.same_as(&c));
}
