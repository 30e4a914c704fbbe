use mycel::edge::{edge_kind_to_cypher, Edge, EdgeKind, EdgeSource};
use mycel::symbol::{QualifiedName, Signature, SymbolKind};

#[test]
fn edge_default_has_no_from_line() {
    let e = Edge {
        from: "a".into(),
        to: "b".into(),
        kind: EdgeKind::Calls,
        source: EdgeSource::TreeSitter,
        from_line: None,
    };
    assert!(e.from_line.is_none());
}

#[test]
fn edge_with_from_line_carries_coord() {
    let e = Edge {
        from: "a".into(),
        to: "b".into(),
        kind: EdgeKind::Calls,
        source: EdgeSource::TreeSitter,
        from_line: Some(42),
    };
    assert_eq!(e.from_line, Some(42));
}

#[test]
fn qualified_name_defangs_backticks() {
    let q = QualifiedName::new("foo`bar");
    assert_eq!(q.as_str(), "foo_bar");

    let q = QualifiedName::new("crate::module::Symbol");
    assert_eq!(q.as_str(), "crate::module::Symbol");
}

#[test]
fn qualified_name_defangs_every_backtick() {
    let q = QualifiedName::new("`a``b`");
    assert_eq!(q.as_str(), "_a__b_");
    assert!(!q.as_str().contains('`'));
}

#[test]
fn signature_keeps_text() {
    let s = Signature::new("fn a() -> u32");
    assert_eq!(s.as_str(), "fn a() -> u32");
}

#[test]
fn symbol_kind_names_round_trip() {
    let kinds = [
        SymbolKind::Function,
        SymbolKind::Method,
        SymbolKind::Class,
        SymbolKind::Interface,
        SymbolKind::Type,
        SymbolKind::Component,
        SymbolKind::Hook,
        SymbolKind::Constant,
        SymbolKind::Module,
        SymbolKind::Struct,
        SymbolKind::Enum,
        SymbolKind::Trait,
        SymbolKind::Impl,
        SymbolKind::Static,
    ];
    for k in kinds {
        assert_eq!(SymbolKind::from_name(k.as_str()), Some(k));
    }
    assert_eq!(SymbolKind::Function.as_str(), "function");
    assert_eq!(SymbolKind::from_name("nonsense"), None);
}

#[test]
fn edge_kinds_map_to_distinct_relationships() {
    assert_eq!(edge_kind_to_cypher(EdgeKind::Calls), "CALLS");
    assert_eq!(edge_kind_to_cypher(EdgeKind::UsesType), "USES_TYPE");
    assert_eq!(edge_kind_to_cypher(EdgeKind::ReExports), "RE_EXPORTS");
    assert_ne!(edge_kind_to_cypher(EdgeKind::Imports), edge_kind_to_cypher(EdgeKind::Implements));
}
