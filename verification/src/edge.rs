//! Edges: the relationships of the code graph.
use vstd::prelude::*;

verus! {

/// The kind of a relationship between two graph nodes.
#[derive(Debug, Clone, Copy, PartialEq, Eq, Hash, Structural)]
pub enum EdgeKind {
    Defines,
    Calls,
    Imports,
    Extends,
    Implements,
    UsesType,
    References,
    ReExports,
    CoChanged,
    TestedBy,
    ModifiedIn,
}

/// Which layer produced an edge.
#[derive(Debug, Clone, Copy, PartialEq, Eq, Structural)]
pub enum EdgeSource {
    TreeSitter,
    Lsp,
    Derived,
}

/// A directed relationship from one symbol to another.
#[derive(Debug, PartialEq, Eq)]
pub struct Edge {
    pub from: String,
    pub to: String,
    pub kind: EdgeKind,
    pub source: EdgeSource,
    /// 1-indexed line in the `from` symbol's file at which the call, use or
    /// implements site appears; `None` for derived or pre-resolution edges.
    pub from_line: Option<u32>,
}

impl Edge {
    /// An independent copy of the edge.
    pub fn duplicate(&self) -> (e: Edge)
        ensures
            e == *self,
    {
        Edge {
            from: self.from.clone(),
            to: self.to.clone(),
            kind: self.kind,
            source: self.source,
            from_line: self.from_line,
        }
    }
}

/// The snake_case name under which an edge source is stored.
pub open spec fn edge_source_name(s: EdgeSource) -> Seq<char> {
    match s {
        EdgeSource::TreeSitter => "tree_sitter"@,
        EdgeSource::Lsp => "lsp"@,
        EdgeSource::Derived => "derived"@,
    }
}

/// The stored name of an edge source.
pub fn edge_source_str(s: EdgeSource) -> (r: &'static str)
    ensures
        r@ == edge_source_name(s),
{
    match s {
        EdgeSource::TreeSitter => "tree_sitter",
        EdgeSource::Lsp => "lsp",
        EdgeSource::Derived => "derived",
    }
}

/// The Cypher relationship type of an edge kind.
pub open spec fn edge_kind_label(k: EdgeKind) -> Seq<char> {
    match k {
        EdgeKind::Defines => "DEFINES"@,
        EdgeKind::Calls => "CALLS"@,
        EdgeKind::Imports => "IMPORTS"@,
        EdgeKind::Extends => "EXTENDS"@,
        EdgeKind::Implements => "IMPLEMENTS"@,
        EdgeKind::UsesType => "USES_TYPE"@,
        EdgeKind::References => "REFERENCES"@,
        EdgeKind::ReExports => "RE_EXPORTS"@,
        EdgeKind::CoChanged => "CO_CHANGED"@,
        EdgeKind::TestedBy => "TESTED_BY"@,
        EdgeKind::ModifiedIn => "MODIFIED_IN"@,
    }
}

/// The Cypher relationship type used for an edge kind.
pub fn edge_kind_to_cypher(kind: EdgeKind) -> (r: &'static str)
    ensures
        r@ == edge_kind_label(kind),
{
    match kind {
        EdgeKind::Defines => "DEFINES",
        EdgeKind::Calls => "CALLS",
        EdgeKind::Imports => "IMPORTS",
        EdgeKind::Extends => "EXTENDS",
        EdgeKind::Implements => "IMPLEMENTS",
        EdgeKind::UsesType => "USES_TYPE",
        EdgeKind::References => "REFERENCES",
        EdgeKind::ReExports => "RE_EXPORTS",
        EdgeKind::CoChanged => "CO_CHANGED",
        EdgeKind::TestedBy => "TESTED_BY",
        EdgeKind::ModifiedIn => "MODIFIED_IN",
    }
}

/// Law: distinct edge kinds are written as distinct relationship types.
pub proof fn edge_kind_labels_distinct(a: EdgeKind, b: EdgeKind)
    requires
        a != b,
    ensures
        edge_kind_label(a) != edge_kind_label(b),
{
    reveal_strlit("DEFINES");
    reveal_strlit("CALLS");
    reveal_strlit("IMPORTS");
    reveal_strlit("EXTENDS");
    reveal_strlit("IMPLEMENTS");
    reveal_strlit("USES_TYPE");
    reveal_strlit("REFERENCES");
    reveal_strlit("RE_EXPORTS");
    reveal_strlit("CO_CHANGED");
    reveal_strlit("TESTED_BY");
    reveal_strlit("MODIFIED_IN");
    if edge_kind_label(a) == edge_kind_label(b) {
        let la = edge_kind_label(a);
        assert(la.len() == edge_kind_label(b).len());
        assert(la[0] == edge_kind_label(b)[0]);
        assert(la[1] == edge_kind_label(b)[1]);
        assert(la[2] == edge_kind_label(b)[2]);
    }
}

} // verus!
