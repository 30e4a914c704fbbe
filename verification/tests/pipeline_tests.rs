use mycel::edge::{Edge, EdgeKind, EdgeSource};
use mycel::error::MycelError;
use mycel::lsp::RawResolvedRef;
use mycel::pipeline::{
    check_embedding_count, collect_ref_sites, embed_batches, excluded_path, file_unchanged, is_ident_byte, is_stale,
    locate_token_col, lookup_owner, resolve_same_file_edges, resolved_edge, resolved_ref_owner, EXTRACTOR_VERSION,
};
use mycel::rows::GraphValue;
use mycel::rows::parse_symbol_row;

#[test]
fn locate_token_col_finds_word_boundary() {
    let content = "    return `Hi ${name}, sum is ${add(1, 2)}`;\n";
    let col = locate_token_col(content, 1, "add");
    assert_eq!(col, 33, "expected col 33 for `add` in template literal");
}

#[test]
fn locate_token_col_skips_substring_match() {
    let content = "let padded = 1;\n";
    let col = locate_token_col(content, 1, "add");
    assert_eq!(col, 0, "should not match `add` inside `padded`");
}

#[test]
fn locate_token_col_returns_zero_when_line_missing() {
    let content = "only one line\n";
    assert_eq!(locate_token_col(content, 99, "missing"), 0);
}

#[test]
fn locate_token_col_on_later_line_and_empty_token() {
    let content = "fn a() {}\nlet y = padded + add(1);\n";
    assert_eq!(locate_token_col(content, 2, "add"), 17);
    assert_eq!(locate_token_col(content, 2, ""), 0);
    assert_eq!(locate_token_col(content, 0, "fn"), 0);
}

#[test]
fn ident_bytes() {
    assert!(is_ident_byte(b'a'));
    assert!(is_ident_byte(b'Z'));
    assert!(is_ident_byte(b'7'));
    assert!(is_ident_byte(b'_'));
    assert!(!is_ident_byte(b'$'));
    assert!(!is_ident_byte(b' '));
}

#[test]
fn unchanged_needs_same_hash_and_version() {
    assert!(file_unchanged(Some("h"), "h", Some(EXTRACTOR_VERSION)));
    assert!(!file_unchanged(Some("h"), "g", Some(EXTRACTOR_VERSION)));
    assert!(!file_unchanged(Some("h"), "h", Some(EXTRACTOR_VERSION + 1)));
    assert!(!file_unchanged(Some("h"), "h", None));
    assert!(!file_unchanged(None, "h", Some(EXTRACTOR_VERSION)));
}

fn edge(from: &str, to: &str, kind: EdgeKind, line: Option<u32>) -> Edge {
    Edge { from: from.into(), to: to.into(), kind, source: EdgeSource::TreeSitter, from_line: line }
}

#[test]
fn ref_sites_cover_bare_targets_only() {
    let content = "import { add } from './m';\nfunction f() {\n  return add(1) + g.add(2);\n}\n";
    let edges = vec![
        edge("m.ts::f", "add", EdgeKind::Calls, Some(3)),
        edge("m.ts::other", "add", EdgeKind::Calls, Some(3)),
        edge("m.ts::f", "m.ts::g", EdgeKind::Calls, Some(3)),
        edge("m.ts", "./m", EdgeKind::Imports, None),
        edge("m.ts::f", "T", EdgeKind::UsesType, None),
    ];
    let req = collect_ref_sites(content, &edges);
    assert_eq!(req.sites.len(), 2);
    assert_eq!((req.sites[0].line, req.sites[0].col, req.sites[0].kind.as_str()), (3, 9, "calls"));
    assert_eq!(lookup_owner(&req.owners, 3), Some("m.ts::f".to_string()));
    assert_eq!(lookup_owner(&req.owners, 2), None);
}

#[test]
fn resolved_refs_become_lsp_edges() {
    let owners = vec![(3u32, "m.ts::f".to_string())];
    let r = RawResolvedRef {
        from_path: "m.ts".into(),
        from_line: 3,
        to_path: "util.ts".into(),
        to_line: 1,
        kind: "calls".into(),
    };
    assert_eq!(resolved_ref_owner("m.ts", &r, &owners), Some("m.ts::f".to_string()));
    assert_eq!(resolved_ref_owner("other.ts", &r, &owners), None);
    let e = resolved_edge("m.ts::f", "util.ts::add", &r).unwrap();
    assert_eq!(e.from, "m.ts::f");
    assert_eq!(e.to, "util.ts::add");
    assert_eq!(e.kind, EdgeKind::Calls);
    assert_eq!(e.source, EdgeSource::Lsp);
    assert_eq!(e.from_line, Some(3));
    let odd = RawResolvedRef { kind: "references".into(), ..r };
    assert!(resolved_edge("m.ts::f", "util.ts::add", &odd).is_none());
}

#[test]
fn stale_when_source_hash_differs() {
    assert!(is_stale(Some("old"), "new"));
    assert!(!is_stale(Some("same"), "same"));
    assert!(!is_stale(None, "new"));
}

#[test]
fn embedding_count_mismatch_is_a_model_error() {
    assert_eq!(check_embedding_count("ollama/e", 3, 3), Ok(()));
    assert_eq!(
        check_embedding_count("ollama/e", 32, 31),
        Err(MycelError::Model { provider: "ollama/e".into(), message: "expected 32 embeddings, got 31".into() })
    );
}

#[test]
fn batches_of_thirty_two() {
    assert_eq!(embed_batches(0), vec![]);
    assert_eq!(embed_batches(32), vec![(0, 32)]);
    assert_eq!(embed_batches(70), vec![(0, 32), (32, 64), (64, 70)]);
}

#[test]
fn build_and_vcs_paths_are_excluded() {
    assert!(excluded_path("/r/target/debug/x.rs"));
    assert!(excluded_path("/r/web/node_modules/a/b.ts"));
    assert!(excluded_path("/r/.git/HEAD"));
    assert!(!excluded_path("/r/src/target.rs"));
}

#[test]
fn same_file_targets_resolve_to_qualified_names() {
    let row = vec![
        GraphValue::String("src/a.rs::add".into()),
        GraphValue::String("function".into()),
        GraphValue::String("src/a.rs".into()),
        GraphValue::I64(1),
        GraphValue::I64(3),
        GraphValue::String("fn add()".into()),
        GraphValue::Bool(false),
    ];
    let symbols = vec![parse_symbol_row(row).unwrap()];
    let mut edges = vec![
        edge("src/a.rs::double", "add", EdgeKind::Calls, Some(6)),
        edge("src/a.rs::double", "sub", EdgeKind::Calls, Some(7)),
        edge("src/a.rs", "add", EdgeKind::Imports, None),
    ];
    resolve_same_file_edges("src/a.rs", &mut edges, &symbols);
    assert_eq!(edges[0].to, "src/a.rs::add");
    assert_eq!(edges[0].from_line, Some(6));
    assert_eq!(edges[1].to, "sub");
    assert_eq!(edges[2].to, "add");
}

#[test]
fn description_staleness_uses_first_listed_hash() {
    let stored = vec![("a::x".to_string(), "h1".to_string()), ("a::x".to_string(), "h2".to_string())];
    assert!(!mycel::pipeline::description_stale(&stored, "a::x", "h1"));
    assert!(mycel::pipeline::description_stale(&stored, "a::x", "h9"));
    assert!(!mycel::pipeline::description_stale(&stored, "a::y", "h9"));
}
