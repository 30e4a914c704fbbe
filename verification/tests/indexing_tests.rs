use mycel::body_slice::content_hash;
use mycel::error::MycelError;
use mycel::indexing::{index_file_step, IndexAction, IndexEvent, IndexPhase, IndexState};
use mycel::pipeline::EXTRACTOR_VERSION;

const SRC: &str = "pub fn add(a: i32, b: i32) -> i32 {\n    a + b\n}\npub fn double(x: i32) -> i32 {\n    add(x, x)\n}\n";

fn step(path: &str, content: &str, state: IndexState, event: IndexEvent) -> (IndexState, IndexAction) {
    index_file_step(path, content, state, event)
}

#[test]
fn unchanged_file_is_skipped() {
    let s = IndexState::new(false, "test/embedder");
    let (s, a) = step("m.rs", SRC, s, IndexEvent::Begin);
    assert!(matches!(a, IndexAction::LookupStoredHash));
    assert_eq!(s.hash, content_hash(SRC));
    let (s, a) = step("m.rs", SRC, s, IndexEvent::StoredHash(Some(content_hash(SRC))));
    assert!(matches!(a, IndexAction::LookupStoredVersion));
    let (s, a) = step("m.rs", SRC, s, IndexEvent::StoredVersion(Some(EXTRACTOR_VERSION)));
    assert!(matches!(a, IndexAction::Finish(None)));
    assert_eq!(s.phase, IndexPhase::Finished);
}

#[test]
fn old_extractor_version_reindexes() {
    let s = IndexState::new(false, "test/embedder");
    let (s, _) = step("m.rs", SRC, s, IndexEvent::Begin);
    let (s, _) = step("m.rs", SRC, s, IndexEvent::StoredHash(Some(content_hash(SRC))));
    let (_, a) = step("m.rs", SRC, s, IndexEvent::StoredVersion(Some(EXTRACTOR_VERSION + 1)));
    assert!(matches!(a, IndexAction::PruneStale));
}

#[test]
fn file_without_extractor_is_skipped() {
    let s = IndexState::new(false, "test/embedder");
    let (s, _) = step("notes.md", "hello", s, IndexEvent::Begin);
    let (_, a) = step("notes.md", "hello", s, IndexEvent::StoredHash(None));
    assert!(matches!(a, IndexAction::Finish(None)));
}

#[test]
fn new_file_writes_symbols_embeddings_and_record_before_finishing() {
    let s = IndexState::new(false, "test/embedder");
    let (s, _) = step("m.rs", SRC, s, IndexEvent::Begin);
    let (s, a) = step("m.rs", SRC, s, IndexEvent::StoredHash(None));
    assert!(matches!(a, IndexAction::PruneStale));
    assert_eq!(s.kept, vec!["m.rs::add".to_string(), "m.rs::double".to_string()]);
    assert_eq!(s.language, "rust");
    let (s, a) = step("m.rs", SRC, s, IndexEvent::Done);
    assert!(matches!(a, IndexAction::UpsertSymbols));
    let (s, a) = step("m.rs", SRC, s, IndexEvent::Done);
    match &a {
        IndexAction::ReadFile(p) => assert_eq!(p, "m.rs"),
        other => panic!("unexpected {:?}", other),
    }
    let (s, a) = step("m.rs", SRC, s, IndexEvent::FileRead(Some(SRC.to_string())));
    assert!(matches!(a, IndexAction::LookupDescriptionHashes));
    assert_eq!(s.prepared.len(), 2);
    assert!(s.prepared[0].text.starts_with("pub fn add(a: i32, b: i32) -> i32 {"));
    let stale = vec![("m.rs::double".to_string(), "0".repeat(64))];
    let (s, a) = step("m.rs", SRC, s, IndexEvent::DescriptionHashes(stale));
    assert!(matches!(a, IndexAction::Embed { start: 0, end: 2 }));
    let (s, a) = step("m.rs", SRC, s, IndexEvent::Embedded(2));
    assert!(matches!(a, IndexAction::WriteEmbedding { index: 0, clear_description: false }));
    let (s, a) = step("m.rs", SRC, s, IndexEvent::Done);
    assert!(matches!(a, IndexAction::WriteEmbedding { index: 1, clear_description: true }));
    let (s, a) = step("m.rs", SRC, s, IndexEvent::Done);
    assert!(matches!(a, IndexAction::UpsertFileRecord));
    let (_, a) = step("m.rs", SRC, s, IndexEvent::Done);
    match a {
        IndexAction::Finish(Some(edges)) => {
            assert_eq!(edges.len(), 1);
            assert_eq!(edges[0].from, "m.rs::double");
            assert_eq!(edges[0].to, "m.rs::add");
        }
        other => panic!("unexpected {:?}", other),
    }
}

#[test]
fn wrong_embedding_count_fails() {
    let s = IndexState::new(false, "test/embedder");
    let (s, _) = step("m.rs", SRC, s, IndexEvent::Begin);
    let (s, _) = step("m.rs", SRC, s, IndexEvent::StoredHash(None));
    let (s, _) = step("m.rs", SRC, s, IndexEvent::Done);
    let (s, _) = step("m.rs", SRC, s, IndexEvent::Done);
    let (s, _) = step("m.rs", SRC, s, IndexEvent::FileRead(None));
    let (s, _) = step("m.rs", SRC, s, IndexEvent::DescriptionHashes(vec![]));
    let (_, a) = step("m.rs", SRC, s, IndexEvent::Embedded(1));
    match a {
        IndexAction::Fail(MycelError::Model { provider, message }) => {
            assert_eq!(provider, "test/embedder");
            assert_eq!(message, "expected 2 embeddings, got 1");
        }
        other => panic!("unexpected {:?}", other),
    }
}

#[test]
fn reported_failure_ends_indexing() {
    let s = IndexState::new(false, "test/embedder");
    let (s, _) = step("m.rs", SRC, s, IndexEvent::Begin);
    let (_, a) = step("m.rs", SRC, s, IndexEvent::Failed(MycelError::Graph("down".into())));
    assert!(matches!(a, IndexAction::Fail(MycelError::Graph(m)) if m == "down"));
}

#[test]
fn language_server_refs_become_edges() {
    let src = "pub fn run() {\n    helper(1);\n}\n";
    let s = IndexState::new(true, "test/embedder");
    let (s, _) = step("m.rs", src, s, IndexEvent::Begin);
    let (s, a) = step("m.rs", src, s, IndexEvent::StoredHash(None));
    match &a {
        IndexAction::ResolveRefs(sites) => {
            assert_eq!(sites.len(), 1);
            assert_eq!(sites[0].line, 2);
            assert_eq!(sites[0].col, 4);
            assert_eq!(sites[0].kind, "calls");
        }
        other => panic!("unexpected {:?}", other),
    }
    let refs = vec![
        mycel::lsp::RawResolvedRef {
            from_path: "other.rs".into(),
            from_line: 2,
            to_path: "x.rs".into(),
            to_line: 1,
            kind: "calls".into(),
        },
        mycel::lsp::RawResolvedRef {
            from_path: "m.rs".into(),
            from_line: 2,
            to_path: "lib.rs".into(),
            to_line: 9,
            kind: "calls".into(),
        },
    ];
    let (s, a) = step("m.rs", src, s, IndexEvent::Refs(Ok(refs)));
    assert!(matches!(a, IndexAction::LookupContaining { ref to_path, to_line: 9 } if to_path == "lib.rs"));
    let (s, a) = step("m.rs", src, s, IndexEvent::Containing(Ok(Some("lib.rs::helper".into()))));
    assert!(matches!(a, IndexAction::PruneStale));
    let last = s.edges.last().unwrap();
    assert_eq!(last.to, "lib.rs::helper");
    assert_eq!(last.from, "m.rs::run");
    assert_eq!(last.from_line, Some(2));
}
