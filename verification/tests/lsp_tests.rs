use mycel::edge::{EdgeKind, EdgeSource};
use mycel::error::MycelError;
use mycel::lsp::{
    refine_edges, split_command, split_words, EdgesForFileReq, EdgesForFileResp, RawEdge, RefSite, ResolveRefsReq,
};

fn raw(from: &str, to: &str, kind: &str) -> RawEdge {
    RawEdge { from: from.into(), to: to.into(), kind: kind.into(), source: None }
}

#[test]
fn bridge_edges_of_known_kinds_become_lsp_edges() {
    let resp = EdgesForFileResp {
        id: 1,
        edges: vec![raw("a", "b", "calls"), raw("a", "c", "teleports"), raw("a", "d", "references")],
        partial: true,
        error: None,
    };
    let edges = refine_edges(&resp);
    assert_eq!(edges.len(), 2);
    assert_eq!(edges[0].kind, EdgeKind::Calls);
    assert_eq!(edges[0].source, EdgeSource::Lsp);
    assert_eq!(edges[0].from_line, None);
    assert_eq!(edges[1].kind, EdgeKind::References);
    assert_eq!(edges[1].to, "d");
}

#[test]
fn bridge_error_yields_no_edges() {
    let resp = EdgesForFileResp { id: 2, edges: vec![raw("a", "b", "calls")], partial: false, error: Some("boom".into()) };
    assert!(refine_edges(&resp).is_empty());
}

#[test]
fn bridge_command_splits_on_whitespace() {
    let c = split_command("  python3   scripts/multilspy_bridge.py --verbose ").unwrap();
    assert_eq!(c.exe, "python3");
    assert_eq!(c.args, vec!["scripts/multilspy_bridge.py".to_string(), "--verbose".to_string()]);
    assert_eq!(split_command("   "), Err(MycelError::Lsp("empty cmd".into())));
    assert_eq!(split_words("a\tb\nc"), vec!["a".to_string(), "b".to_string(), "c".to_string()]);
}

#[test]
fn requests_carry_their_operation() {
    let r = EdgesForFileReq::new(7, "/repo", "typescript", "a.ts");
    assert_eq!((r.id, r.op, r.path.as_str()), (7, "edges_for_file", "a.ts"));
    let site = RefSite { line: 3, col: 9, kind: "calls".into() };
    let r = ResolveRefsReq::new(8, "/repo", "typescript", "a.ts", vec![site]);
    assert_eq!(r.op, "resolve_refs_for_file");
    assert_eq!(r.sites.len(), 1);
}
