use mycel::error::MycelError;
use mycel::manifest::{
    check_embedder_matches, migrations, parse_manifest_rows, pending_migrations, IndexManifest, RepoId,
    SCHEMA_VERSION,
};
use mycel::queries::{callers_query, prune_stale_symbols_query, upsert_symbol_query, write_manifest_query};
use mycel::rows::{
    first_count, first_string, first_version, parse_neighbor_rows, parse_symbol_row, short_name, GraphValue,
};
use mycel::symbol::SymbolKind;

#[test]
fn short_name_double_colon() {
    assert_eq!(short_name("crate::foo::bar"), "bar");
}

#[test]
fn short_name_dot() {
    assert_eq!(short_name("module.foo.bar"), "bar");
}

#[test]
fn short_name_double_colon_wins_over_dot() {
    assert_eq!(short_name("foo.bar::Baz"), "Baz");
}

#[test]
fn short_name_no_separator() {
    assert_eq!(short_name("Anonymous"), "Anonymous");
}

#[test]
fn short_name_empty() {
    assert_eq!(short_name(""), "");
}

fn s(v: &str) -> GraphValue {
    GraphValue::String(v.to_string())
}

#[test]
fn symbol_row_decodes_every_field() {
    let row = vec![
        s("src/lib.rs::parse`x"),
        s("function"),
        s("src/lib.rs"),
        GraphValue::I64(10),
        GraphValue::I64(20),
        s("fn parse()"),
        GraphValue::Bool(true),
    ];
    let sym = parse_symbol_row(row).expect("well-shaped row");
    assert_eq!(sym.qualified_name.as_str(), "src/lib.rs::parse_x");
    assert_eq!(sym.kind, SymbolKind::Function);
    assert_eq!(sym.file_path, "src/lib.rs");
    assert_eq!(sym.start_line, 10);
    assert_eq!(sym.end_line, 20);
    assert_eq!(sym.signature.as_str(), "fn parse()");
    assert!(sym.exported);
    assert!(sym.body_hash.is_none());
}

#[test]
fn symbol_row_with_unknown_kind_or_short_row_is_rejected() {
    let row = vec![
        s("a"),
        s("gizmo"),
        s("f"),
        GraphValue::I64(1),
        GraphValue::I64(2),
        s("sig"),
        GraphValue::Bool(false),
    ];
    assert!(parse_symbol_row(row).is_none());
    assert!(parse_symbol_row(vec![s("a"), s("function")]).is_none());
}

#[test]
fn neighbor_rows_skip_malformed_rows() {
    let rows = vec![
        vec![s("foo::caller"), s("fn caller()")],
        vec![GraphValue::I64(3), s("x")],
        vec![s("foo::other"), GraphValue::Other],
    ];
    let ns = parse_neighbor_rows(rows);
    assert_eq!(ns.len(), 2);
    assert_eq!(ns[0].qualified_name, "foo::caller");
    assert_eq!(ns[0].signature, "fn caller()");
    assert_eq!(ns[1].qualified_name, "foo::other");
    assert_eq!(ns[1].signature, "");
}

#[test]
fn first_values_of_rows() {
    let rows = vec![vec![s("abc")]];
    assert_eq!(first_string(&rows), Some("abc".to_string()));
    assert_eq!(first_string(&vec![]), None);
    assert_eq!(first_version(&vec![vec![GraphValue::I64(1)]]), Some(1));
    assert_eq!(first_version(&vec![vec![GraphValue::I64(-1)]]), None);
    assert_eq!(first_count(&vec![vec![GraphValue::I64(7)]]), 7);
    assert_eq!(first_count(&vec![vec![s("x")]]), 0);
}

#[test]
fn callers_query_escapes_name() {
    assert_eq!(
        callers_query("it's"),
        "MATCH (a:Symbol)-[:CALLS]->(b:Symbol) WHERE b.name = 'it\\'s' OR b.qualified_name = 'it\\'s' RETURN DISTINCT a.qualified_name, a.kind, a.file_path, a.start_line, a.end_line, a.signature, a.exported"
    );
}

#[test]
fn prune_query_lists_kept_names() {
    let q = prune_stale_symbols_query("src/a.rs", &["src/a.rs::x", "src/a.rs::y"]);
    assert!(q.contains("'src/a.rs::x'"));
    assert!(q.contains("'src/a.rs::y'"));
    assert!(q.contains("src/a.rs"));
}

#[test]
fn upsert_symbol_omits_unset_body_hash() {
    let row = vec![
        s("crate::tests::with_hash"),
        s("function"),
        s("src/lib.rs"),
        GraphValue::I64(1),
        GraphValue::I64(2),
        s("fn with_hash()"),
        GraphValue::Bool(false),
    ];
    let mut sym = parse_symbol_row(row).unwrap();
    let q = upsert_symbol_query(&sym);
    assert!(!q.contains("body_hash"));
    assert!(q.contains("s.name = 'with_hash'"));
    sym.body_hash = Some("abc123".to_string());
    let q = upsert_symbol_query(&sym);
    assert!(q.contains(", s.body_hash = 'abc123'"));
}

#[test]
fn manifest_round_trips_through_its_row() {
    let q = write_manifest_query("test-repo", "ollama/embeddinggemma", 768, SCHEMA_VERSION, 1_700_000_000);
    assert!(q.contains("repo_id: 'test-repo'"));
    assert!(q.contains("i.embedder_dimension = 768"));
    assert!(q.contains("i.last_indexed_at = 1700000000"));
    let rows = vec![vec![
        s("test-repo"),
        s("ollama/embeddinggemma"),
        GraphValue::I64(768),
        GraphValue::I64(1),
        GraphValue::I64(1_700_000_000),
    ]];
    let m = parse_manifest_rows(&rows).unwrap().unwrap();
    assert_eq!(m.repo_id.as_str(), "test-repo");
    assert_eq!(m.embedder_identity, "ollama/embeddinggemma");
    assert_eq!(m.embedder_dimension, 768);
    assert_eq!(m.schema_version, 1);
    assert_eq!(m.last_indexed_at, 1_700_000_000);
}

#[test]
fn manifest_absent_or_malformed_is_none() {
    assert_eq!(parse_manifest_rows(&vec![]), Ok(None));
    let rows = vec![vec![s("r"), s("e"), s("768"), GraphValue::I64(1), GraphValue::I64(0)]];
    assert_eq!(parse_manifest_rows(&rows), Ok(None));
}

#[test]
fn manifest_with_impossible_timestamp_is_graph_error() {
    let rows = vec![vec![s("r"), s("e"), GraphValue::I64(768), GraphValue::I64(1), GraphValue::I64(i64::MAX)]];
    assert!(matches!(parse_manifest_rows(&rows), Err(MycelError::Graph(_))));
}

#[test]
fn manifest_timestamp_range_edges() {
    let row = |ts: i64| vec![vec![s("r"), s("e"), GraphValue::I64(768), GraphValue::I64(1), GraphValue::I64(ts)]];
    assert!(matches!(parse_manifest_rows(&row(-377_705_116_800)), Ok(Some(_))));
    assert!(matches!(parse_manifest_rows(&row(-377_705_116_801)), Err(MycelError::Graph(_))));
    assert!(matches!(parse_manifest_rows(&row(-377_705_203_200)), Err(MycelError::Graph(_))));
    assert!(matches!(parse_manifest_rows(&row(253_402_300_799)), Ok(Some(_))));
    assert!(matches!(parse_manifest_rows(&row(253_402_300_800)), Err(MycelError::Graph(_))));
}

#[test]
fn embedder_mismatch_is_refused() {
    let m = IndexManifest {
        repo_id: RepoId::new("r"),
        embedder_identity: "ollama/embeddinggemma".into(),
        embedder_dimension: 768,
        schema_version: 1,
        last_indexed_at: 0,
    };
    assert_eq!(check_embedder_matches(Some(&m), "ollama/embeddinggemma", 768), Ok(()));
    assert_eq!(check_embedder_matches(None, "anything", 3), Ok(()));
    assert_eq!(
        check_embedder_matches(Some(&m), "ollama/other", 1024),
        Err(MycelError::EmbedderMismatch {
            graph: "ollama/embeddinggemma@768".into(),
            runtime: "ollama/other@1024".into(),
        })
    );
}

#[test]
fn migrations_apply_once() {
    let all = migrations();
    let ids: Vec<&str> = all.iter().map(|m| m.id).collect();
    assert_eq!(ids, vec!["v1_symbol_indices", "v1_vector_index", "v2_name_index"]);
    let pending = pending_migrations(migrations(), &vec!["v1_vector_index".to_string()]);
    let pids: Vec<&str> = pending.iter().map(|m| m.id).collect();
    assert_eq!(pids, vec!["v1_symbol_indices", "v2_name_index"]);
    let applied: Vec<String> = ids.iter().map(|s| s.to_string()).collect();
    assert!(pending_migrations(migrations(), &applied).is_empty());
}
