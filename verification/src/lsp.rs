//! The language-server bridge protocol: the messages exchanged with the
//! bridge subprocess, the command that starts it, and how its replies
//! become edges.
use vstd::prelude::*;
use crate::edge::{Edge, EdgeKind, EdgeSource};
use crate::error::MycelError;
use crate::text::{chars_of, is_whitespace, is_whitespace_spec, str_eq, string_from_range};

verus! {

/// A site sent to the bridge for definition lookup.
#[derive(Debug, PartialEq, Eq)]
pub struct RefSite {
    /// 1-indexed line (as in `Edge::from_line`).
    pub line: u32,
    /// 0-indexed column.
    pub col: u32,
    /// `calls`, `uses_type` or `implements`.
    pub kind: String,
}

/// An edge as the bridge reports it for a whole file.
#[derive(Debug, PartialEq, Eq)]
pub struct RawEdge {
    pub from: String,
    pub to: String,
    pub kind: String,
    pub source: Option<String>,
}

/// A request for the LSP edges of one file.
#[derive(Debug, PartialEq, Eq)]
pub struct EdgesForFileReq {
    pub id: u64,
    /// Always `edges_for_file`.
    pub op: &'static str,
    pub repo_root: String,
    pub language: String,
    pub path: String,
}

impl EdgesForFileReq {
    /// The request with id `id` for `path`.
    pub fn new(id: u64, repo_root: &str, language: &str, path: &str) -> (r: EdgesForFileReq)
        ensures
            r.id == id,
            r.op@ == "edges_for_file"@,
            r.repo_root@ == repo_root@,
            r.language@ == language@,
            r.path@ == path@,
    {
        EdgesForFileReq {
            id,
            op: "edges_for_file",
            repo_root: crate::text::string_of(repo_root),
            language: crate::text::string_of(language),
            path: crate::text::string_of(path),
        }
    }
}

/// A request to resolve the definitions of sites in one file.
#[derive(Debug, PartialEq, Eq)]
pub struct ResolveRefsReq {
    pub id: u64,
    /// Always `resolve_refs_for_file`.
    pub op: &'static str,
    pub repo_root: String,
    pub language: String,
    pub path: String,
    pub sites: Vec<RefSite>,
}

impl ResolveRefsReq {
    /// The request with id `id` for the sites of `path`.
    pub fn new(id: u64, repo_root: &str, language: &str, path: &str, sites: Vec<RefSite>) -> (r: ResolveRefsReq)
        ensures
            r.id == id,
            r.op@ == "resolve_refs_for_file"@,
            r.repo_root@ == repo_root@,
            r.language@ == language@,
            r.path@ == path@,
            r.sites == sites,
    {
        ResolveRefsReq {
            id,
            op: "resolve_refs_for_file",
            repo_root: crate::text::string_of(repo_root),
            language: crate::text::string_of(language),
            path: crate::text::string_of(path),
            sites,
        }
    }
}

/// The bridge's reply to an `edges_for_file` request.
#[derive(Debug, PartialEq, Eq)]
pub struct EdgesForFileResp {
    pub id: u64,
    pub edges: Vec<RawEdge>,
    pub partial: bool,
    pub error: Option<String>,
}

/// One reference the bridge resolved to its definition.
#[derive(Debug, PartialEq, Eq)]
pub struct RawResolvedRef {
    pub from_path: String,
    pub from_line: u32,
    /// Repo-relative path of the definition.
    pub to_path: String,
    /// 1-indexed line of the definition.
    pub to_line: u32,
    pub kind: String,
}

/// The bridge's reply to a `resolve_refs_for_file` request.
#[derive(Debug, PartialEq, Eq)]
pub struct ResolveRefsResp {
    pub id: u64,
    pub refs: Vec<RawResolvedRef>,
    pub partial: bool,
    pub error: Option<String>,
}

/// The edge kind of a bridge edge kind name; `None` for names the graph
/// does not model.
pub open spec fn bridge_edge_kind(k: Seq<char>) -> Option<EdgeKind> {
    if k == "calls"@ {
        Some(EdgeKind::Calls)
    } else if k == "uses_type"@ {
        Some(EdgeKind::UsesType)
    } else if k == "implements"@ {
        Some(EdgeKind::Implements)
    } else if k == "imports"@ {
        Some(EdgeKind::Imports)
    } else if k == "references"@ {
        Some(EdgeKind::References)
    } else {
        None
    }
}

/// The edge kind named by a bridge edge kind.
pub fn edge_kind_of_bridge_name(k: &str) -> (r: Option<EdgeKind>)
    ensures
        r == bridge_edge_kind(k@),
{
    if str_eq(k, "calls") {
        Some(EdgeKind::Calls)
    } else if str_eq(k, "uses_type") {
        Some(EdgeKind::UsesType)
    } else if str_eq(k, "implements") {
        Some(EdgeKind::Implements)
    } else if str_eq(k, "imports") {
        Some(EdgeKind::Imports)
    } else if str_eq(k, "references") {
        Some(EdgeKind::References)
    } else {
        None
    }
}

/// An edge as plain values: from, to, kind, source, from_line.
pub type EdgeView = (Seq<char>, Seq<char>, EdgeKind, EdgeSource, Option<u32>);

/// The plain values of an edge.
pub open spec fn edge_view(e: Edge) -> EdgeView {
    (e.from@, e.to@, e.kind, e.source, e.from_line)
}

/// The LSP edges of a bridge reply, in order: those whose kind the graph
/// models, with their source set to `Lsp`.
pub open spec fn refined_edges(raw: Seq<RawEdge>) -> Seq<EdgeView>
    decreases raw.len(),
{
    if raw.len() == 0 {
        Seq::empty()
    } else {
        let rest = refined_edges(raw.drop_last());
        let r = raw.last();
        match bridge_edge_kind(r.kind@) {
            Some(k) => rest.push((r.from@, r.to@, k, EdgeSource::Lsp, None)),
            None => rest,
        }
    }
}

/// The edges of an `edges_for_file` reply: none when the bridge reported an
/// error; otherwise each edge whose kind is modelled, as an LSP edge.
pub fn refine_edges(resp: &EdgesForFileResp) -> (r: Vec<Edge>)
    ensures
        resp.error is Some ==> r@.len() == 0,
        resp.error is None ==> r@.map_values(|e: Edge| edge_view(e)) == refined_edges(resp.edges@),
{
    let mut out: Vec<Edge> = Vec::new();
    if resp.error.is_some() {
        return out;
    }
    let mut i: usize = 0;
    while i < resp.edges.len()
        invariant
            i <= resp.edges@.len(),
            out@.map_values(|e: Edge| edge_view(e)) == refined_edges(resp.edges@.take(i as int)),
        decreases resp.edges@.len() - i,
    {
        let r = &resp.edges[i];
        assert(resp.edges@.take(i + 1).drop_last() =~= resp.edges@.take(i as int));
        let ghost before = out@;
        match edge_kind_of_bridge_name(r.kind.as_str()) {
            Some(k) => {
                let e = Edge {
                    from: r.from.clone(),
                    to: r.to.clone(),
                    kind: k,
                    source: EdgeSource::Lsp,
                    from_line: None,
                };
                out.push(e);
                assert(out@.map_values(|e: Edge| edge_view(e)) =~= before.map_values(
                    |e: Edge| edge_view(e),
                ).push(edge_view(e)));
            },
            None => {},
        }
        i = i + 1;
    }
    assert(resp.edges@.take(i as int) =~= resp.edges@);
    out
}

/// The whitespace-separated words of `s` (`str::split_whitespace`).
pub open spec fn words_spec(s: Seq<char>) -> Seq<Seq<char>>
    decreases s.len(),
{
    if s.len() == 0 {
        Seq::empty()
    } else if is_whitespace_spec(s[0]) {
        words_spec(s.skip(1))
    } else {
        let n = crate::text::token_len(s);
        proof {
            crate::text::lemma_token_len_bound(s);
        }
        seq![s.take(n as int)] + words_spec(s.skip(n as int))
    }
}

proof fn lemma_words_skip_ws(s: Seq<char>, i: int)
    requires
        0 <= i < s.len(),
        is_whitespace_spec(s[i]),
    ensures
        words_spec(s.skip(i)) == words_spec(s.skip(i + 1)),
{
    assert(s.skip(i).skip(1) =~= s.skip(i + 1));
}

/// The words of `s`, in order.
pub fn split_words(s: &str) -> (r: Vec<String>)
    ensures
        r@.map_values(|w: String| w@) == words_spec(s@),
{
    let cs = chars_of(s);
    let n = cs.len();
    let mut out: Vec<String> = Vec::new();
    let mut i: usize = 0;
    assert(cs@.skip(0) =~= cs@);
    while i < n
        invariant
            n == cs@.len(),
            cs@ == s@,
            i <= n,
            words_spec(s@) == out@.map_values(|w: String| w@) + words_spec(cs@.skip(i as int)),
        decreases n - i,
    {
        if is_whitespace(cs[i]) {
            proof {
                lemma_words_skip_ws(cs@, i as int);
            }
            i = i + 1;
        } else {
            let start = i;
            let ghost rest = cs@.skip(start as int);
            while i < n && !is_whitespace(cs[i])
                invariant
                    start <= i <= n,
                    n == cs@.len(),
                    rest == cs@.skip(start as int),
                    forall|j: int| start <= j < i ==> !is_whitespace_spec(cs@[j]),
                decreases n - i,
            {
                i = i + 1;
            }
            proof {
                assert forall|j: int| 0 <= j < i - start implies !is_whitespace_spec(rest[j]) by {
                    assert(rest[j] == cs@[start + j]);
                }
                if i < n {
                    assert(rest[i - start] == cs@[i as int]);
                }
                crate::text::lemma_token_len(rest, i - start);
                assert(rest[0] == cs@[start as int]);
                assert(rest.skip(i - start) =~= cs@.skip(i as int));
                assert(rest.take(i - start) =~= cs@.subrange(start as int, i as int));
            }
            let w = string_from_range(&cs, start, i);
            let ghost before = out@;
            out.push(w);
            assert(out@.map_values(|w: String| w@) =~= before.map_values(|w: String| w@).push(w@));
        }
    }
    assert(cs@.skip(n as int) =~= Seq::<char>::empty());
    assert(out@.map_values(|w: String| w@) + Seq::<Seq<char>>::empty() =~= out@.map_values(
        |w: String| w@,
    ));
    out
}

/// How to start the bridge: its executable and arguments.
#[derive(Debug, PartialEq, Eq)]
pub struct BridgeCommand {
    pub exe: String,
    pub args: Vec<String>,
}

/// The bridge command line split into executable and arguments; an error
/// when the command holds no word.
pub fn split_command(cmd: &str) -> (r: Result<BridgeCommand, MycelError>)
    ensures
        words_spec(cmd@).len() == 0 <==> r is Err,
        r matches Err(e) ==> (e matches MycelError::Lsp(m) && m@ == "empty cmd"@),
        r matches Ok(c) ==> {
            &&& c.exe@ == words_spec(cmd@)[0]
            &&& c.args@.map_values(|w: String| w@) == words_spec(cmd@).skip(1)
        },
{
    let mut words = split_words(cmd);
    if words.len() == 0 {
        return Err(MycelError::Lsp(crate::text::string_of("empty cmd")));
    }
    let ghost all = words@.map_values(|w: String| w@);
    let exe = words.remove(0);
    assert(words@.map_values(|w: String| w@) =~= all.skip(1));
    Ok(BridgeCommand { exe, args: words })
}

} // verus!
