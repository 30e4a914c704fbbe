//! Cypher statements issued against the graph. Every string interpolated
//! into a literal is escaped with [`escape`].
use vstd::prelude::*;
use crate::cypher::{escape, escape_spec};
use crate::edge::{edge_kind_label, edge_kind_to_cypher, edge_source_name, edge_source_str, Edge, EdgeKind};
use crate::rows::short_name_spec;
use crate::rows::short_name;
use crate::symbol::{symbol_kind_name, Symbol};
use crate::text::{decimal_spec, push_decimal, push_signed_decimal, push_str, signed_decimal_spec};

verus! {

/// Text of [`applied_migrations_query`].
pub open spec fn applied_migrations_query_spec(graph_name: Seq<char>) -> Seq<char> {
    "MATCH (m:MigrationRecord {graph_name: '"@
        + escape_spec(graph_name)
        + "'}) RETURN m.migration_id"@
}

/// Lists the migrations recorded for a graph (run against the meta graph).
pub fn applied_migrations_query(graph_name: &str) -> (r: String)
    ensures
        r@ == applied_migrations_query_spec(graph_name@),
{
    let mut out = String::new();
    push_str(&mut out, "MATCH (m:MigrationRecord {graph_name: '");
    let e = escape(graph_name);
    push_str(&mut out, e.as_str());
    push_str(&mut out, "'}) RETURN m.migration_id");
    out
}

/// Text of [`migration_record_query`].
pub open spec fn migration_record_query_spec(graph_name: Seq<char>, migration_id: Seq<char>, applied_at: int) -> Seq<char> {
    "CREATE (:MigrationRecord {graph_name: '"@
        + escape_spec(graph_name)
        + "', migration_id: '"@
        + migration_id
        + "', applied_at: "@
        + signed_decimal_spec(applied_at)
        + "})"@
}

/// Records that a migration was applied to a graph at `applied_at` (unix seconds).
pub fn migration_record_query(graph_name: &str, migration_id: &str, applied_at: i64) -> (r: String)
    ensures
        r@ == migration_record_query_spec(graph_name@, migration_id@, applied_at as int),
{
    let mut out = String::new();
    push_str(&mut out, "CREATE (:MigrationRecord {graph_name: '");
    let e = escape(graph_name);
    push_str(&mut out, e.as_str());
    push_str(&mut out, "', migration_id: '");
    push_str(&mut out, migration_id);
    push_str(&mut out, "', applied_at: ");
    push_signed_decimal(&mut out, applied_at);
    push_str(&mut out, "})");
    out
}

/// Text of [`upsert_edge_query`].
pub open spec fn upsert_edge_query_spec(from: Seq<char>, to: Seq<char>, rel: Seq<char>, source: Seq<char>) -> Seq<char> {
    "MATCH (a:Symbol {qualified_name: '"@
        + escape_spec(from)
        + "'}), (b:Symbol {qualified_name: '"@
        + escape_spec(to)
        + "'})\n                   MERGE (a)-[r:"@
        + rel
        + "]->(b)\n                   SET r.source = '"@
        + source
        + "'"@
}

/// Merges one relationship between two existing symbols; `rel` is the relationship type and `source` the stored edge source.
pub fn upsert_edge_query(from: &str, to: &str, rel: &str, source: &str) -> (r: String)
    ensures
        r@ == upsert_edge_query_spec(from@, to@, rel@, source@),
{
    let mut out = String::new();
    push_str(&mut out, "MATCH (a:Symbol {qualified_name: '");
    let e = escape(from);
    push_str(&mut out, e.as_str());
    push_str(&mut out, "'}), (b:Symbol {qualified_name: '");
    let e = escape(to);
    push_str(&mut out, e.as_str());
    push_str(&mut out, "'})\n                   MERGE (a)-[r:");
    push_str(&mut out, rel);
    push_str(&mut out, "]->(b)\n                   SET r.source = '");
    push_str(&mut out, source);
    push_str(&mut out, "'");
    out
}

/// Text of [`callers_query`].
pub open spec fn callers_query_spec(name_or_qname: Seq<char>) -> Seq<char> {
    "MATCH (a:Symbol)-[:CALLS]->(b:Symbol) WHERE b.name = '"@
        + escape_spec(name_or_qname)
        + "' OR b.qualified_name = '"@
        + escape_spec(name_or_qname)
        + "' RETURN DISTINCT a.qualified_name, a.kind, a.file_path, a.start_line, a.end_line, a.signature, a.exported"@
}

/// Symbols that call the symbol named (short name or qualified name) `name_or_qname`.
pub fn callers_query(name_or_qname: &str) -> (r: String)
    ensures
        r@ == callers_query_spec(name_or_qname@),
{
    let mut out = String::new();
    push_str(&mut out, "MATCH (a:Symbol)-[:CALLS]->(b:Symbol) WHERE b.name = '");
    let e = escape(name_or_qname);
    push_str(&mut out, e.as_str());
    push_str(&mut out, "' OR b.qualified_name = '");
    let e = escape(name_or_qname);
    push_str(&mut out, e.as_str());
    push_str(&mut out, "' RETURN DISTINCT a.qualified_name, a.kind, a.file_path, a.start_line, a.end_line, a.signature, a.exported");
    out
}

/// Text of [`callees_query`].
pub open spec fn callees_query_spec(name_or_qname: Seq<char>) -> Seq<char> {
    "MATCH (a:Symbol)-[:CALLS]->(b:Symbol) WHERE a.name = '"@
        + escape_spec(name_or_qname)
        + "' OR a.qualified_name = '"@
        + escape_spec(name_or_qname)
        + "' RETURN DISTINCT b.qualified_name, b.kind, b.file_path, b.start_line, b.end_line, b.signature, b.exported"@
}

/// Symbols called by the symbol named (short name or qualified name) `name_or_qname`.
pub fn callees_query(name_or_qname: &str) -> (r: String)
    ensures
        r@ == callees_query_spec(name_or_qname@),
{
    let mut out = String::new();
    push_str(&mut out, "MATCH (a:Symbol)-[:CALLS]->(b:Symbol) WHERE a.name = '");
    let e = escape(name_or_qname);
    push_str(&mut out, e.as_str());
    push_str(&mut out, "' OR a.qualified_name = '");
    let e = escape(name_or_qname);
    push_str(&mut out, e.as_str());
    push_str(&mut out, "' RETURN DISTINCT b.qualified_name, b.kind, b.file_path, b.start_line, b.end_line, b.signature, b.exported");
    out
}

/// Law: the callees and callers queries read a `CALLS` edge from opposite
/// ends. Over the pattern `(a)-[:CALLS]->(b)`, the callees query selects
/// the edges whose source `a` is the named symbol and returns their targets
/// `b`; the callers query selects those whose target `b` is the named
/// symbol and returns their sources `a`. So for no name are the two the
/// same query.
pub proof fn calls_queries_read_opposite_ends(n: Seq<char>)
    ensures
        ("MATCH (a:Symbol)-[:CALLS]->(b:Symbol) WHERE a.name = '"@ + escape_spec(n) + "' OR a.qualified_name = '"@
            + escape_spec(n) + "'"@).is_prefix_of(callees_query_spec(n)),
        " RETURN DISTINCT b.qualified_name, b.kind, b.file_path, b.start_line, b.end_line, b.signature, b.exported"@.is_suffix_of(
            callees_query_spec(n),
        ),
        ("MATCH (a:Symbol)-[:CALLS]->(b:Symbol) WHERE b.name = '"@ + escape_spec(n) + "' OR b.qualified_name = '"@
            + escape_spec(n) + "'"@).is_prefix_of(callers_query_spec(n)),
        " RETURN DISTINCT a.qualified_name, a.kind, a.file_path, a.start_line, a.end_line, a.signature, a.exported"@.is_suffix_of(
            callers_query_spec(n),
        ),
        callees_query_spec(n)[44] == 'a',
        callers_query_spec(n)[44] == 'b',
        callees_query_spec(n) != callers_query_spec(n),
{
    let e = escape_spec(n);
    let pa = "MATCH (a:Symbol)-[:CALLS]->(b:Symbol) WHERE a.name = '"@;
    let pb = "MATCH (a:Symbol)-[:CALLS]->(b:Symbol) WHERE b.name = '"@;
    let ma = "' OR a.qualified_name = '"@;
    let mb = "' OR b.qualified_name = '"@;
    let ra = "' RETURN DISTINCT b.qualified_name, b.kind, b.file_path, b.start_line, b.end_line, b.signature, b.exported"@;
    let rb = "' RETURN DISTINCT a.qualified_name, a.kind, a.file_path, a.start_line, a.end_line, a.signature, a.exported"@;
    let ta = " RETURN DISTINCT b.qualified_name, b.kind, b.file_path, b.start_line, b.end_line, b.signature, b.exported"@;
    let tb = " RETURN DISTINCT a.qualified_name, a.kind, a.file_path, a.start_line, a.end_line, a.signature, a.exported"@;
    reveal_strlit("MATCH (a:Symbol)-[:CALLS]->(b:Symbol) WHERE a.name = '");
    reveal_strlit("MATCH (a:Symbol)-[:CALLS]->(b:Symbol) WHERE b.name = '");
    reveal_strlit("' OR a.qualified_name = '");
    reveal_strlit("' OR b.qualified_name = '");
    reveal_strlit("'");
    reveal_strlit("' RETURN DISTINCT b.qualified_name, b.kind, b.file_path, b.start_line, b.end_line, b.signature, b.exported");
    reveal_strlit("' RETURN DISTINCT a.qualified_name, a.kind, a.file_path, a.start_line, a.end_line, a.signature, a.exported");
    reveal_strlit(" RETURN DISTINCT b.qualified_name, b.kind, b.file_path, b.start_line, b.end_line, b.signature, b.exported");
    reveal_strlit(" RETURN DISTINCT a.qualified_name, a.kind, a.file_path, a.start_line, a.end_line, a.signature, a.exported");
    let qa = callees_query_spec(n);
    let qb = callers_query_spec(n);
    assert(qa == pa + e + ma + e + ra);
    assert(qb == pb + e + mb + e + rb);
    assert(ra =~= "'"@ + ta);
    assert(rb =~= "'"@ + tb);
    assert(qa.subrange(0, (pa + e + ma + e + "'"@).len() as int) =~= pa + e + ma + e + "'"@);
    assert(qb.subrange(0, (pb + e + mb + e + "'"@).len() as int) =~= pb + e + mb + e + "'"@);
    assert(qa.subrange(qa.len() - ta.len(), qa.len() as int) =~= ta);
    assert(qb.subrange(qb.len() - tb.len(), qb.len() as int) =~= tb);
    assert(qa[44] == pa[44]);
    assert(qb[44] == pb[44]);
}

/// Law: each relationship query follows the edges of its own kind, from the
/// right end. The uses, implements and imports queries match their edge
/// kind's relationship type with the given name (or file) at the edge's
/// target and return the sources; the callers and callees queries used for
/// synthesis bind the given symbol at the target and at the source of a
/// `CALLS` edge respectively, and return the other end.
pub proof fn relationship_queries_follow_their_edges(n: Seq<char>, limit: int)
    ensures
        ("MATCH (a:Symbol)-[:"@ + edge_kind_label(EdgeKind::UsesType) + "]->(t:Symbol {qualified_name: '"@
            + escape_spec(n) + "'}) RETURN DISTINCT a."@).is_prefix_of(uses_query_spec(n)),
        ("MATCH (a:Symbol)-[:"@ + edge_kind_label(EdgeKind::Implements) + "]->(b:Symbol {qualified_name: '"@
            + escape_spec(n) + "'}) RETURN a."@).is_prefix_of(implements_query_spec(n)),
        ("MATCH (a:Symbol)-[:"@ + edge_kind_label(EdgeKind::Imports) + "]->(b:Symbol) WHERE b.file_path = '"@
            + escape_spec(n) + "' RETURN DISTINCT a."@).is_prefix_of(imports_query_spec(n)),
        ("MATCH (a:Symbol)-[:"@ + edge_kind_label(EdgeKind::Calls) + "]->(b:Symbol {qualified_name: '"@
            + escape_spec(n) + "'}) RETURN DISTINCT a.qualified_name, a.signature LIMIT "@).is_prefix_of(
            synthesis_callers_query_spec(n, limit),
        ),
        ("MATCH (a:Symbol {qualified_name: '"@ + escape_spec(n) + "'})-[:"@ + edge_kind_label(EdgeKind::Calls)
            + "]->(b:Symbol) RETURN DISTINCT b.qualified_name, b.signature LIMIT "@).is_prefix_of(
            synthesis_callees_query_spec(n, limit),
        ),
{
    let e = escape_spec(n);
    reveal_strlit("USES_TYPE");
    reveal_strlit("IMPLEMENTS");
    reveal_strlit("IMPORTS");
    reveal_strlit("CALLS");
    reveal_strlit("MATCH (a:Symbol)-[:");
    reveal_strlit("]->(t:Symbol {qualified_name: '");
    reveal_strlit("]->(b:Symbol {qualified_name: '");
    reveal_strlit("]->(b:Symbol) WHERE b.file_path = '");
    reveal_strlit("'}) RETURN DISTINCT a.");
    reveal_strlit("'}) RETURN a.");
    reveal_strlit("' RETURN DISTINCT a.");
    reveal_strlit("'}) RETURN DISTINCT a.qualified_name, a.signature LIMIT ");
    reveal_strlit("MATCH (a:Symbol {qualified_name: '");
    reveal_strlit("'})-[:");
    reveal_strlit("]->(b:Symbol) RETURN DISTINCT b.qualified_name, b.signature LIMIT ");
    reveal_strlit("MATCH (a:Symbol)-[:USES_TYPE]->(t:Symbol {qualified_name: '");
    reveal_strlit("'}) RETURN DISTINCT a.qualified_name, a.kind, a.file_path, a.start_line, a.end_line, a.signature, a.exported");
    reveal_strlit("MATCH (a:Symbol)-[:IMPLEMENTS]->(b:Symbol {qualified_name: '");
    reveal_strlit("'}) RETURN a.qualified_name, a.kind, a.file_path, a.start_line, a.end_line, a.signature, a.exported");
    reveal_strlit("MATCH (a:Symbol)-[:IMPORTS]->(b:Symbol) WHERE b.file_path = '");
    reveal_strlit("' RETURN DISTINCT a.qualified_name, a.kind, a.file_path, a.start_line, a.end_line, a.signature, a.exported");
    reveal_strlit("MATCH (a:Symbol)-[:CALLS]->(b:Symbol {qualified_name: '");
    reveal_strlit("'})-[:CALLS]->(b:Symbol) RETURN DISTINCT b.qualified_name, b.signature LIMIT ");
    let u = uses_query_spec(n);
    let pu = "MATCH (a:Symbol)-[:"@ + edge_kind_label(EdgeKind::UsesType) + "]->(t:Symbol {qualified_name: '"@ + e
        + "'}) RETURN DISTINCT a."@;
    assert(u.subrange(0, pu.len() as int) =~= pu);
    let im = implements_query_spec(n);
    let pim = "MATCH (a:Symbol)-[:"@ + edge_kind_label(EdgeKind::Implements) + "]->(b:Symbol {qualified_name: '"@
        + e + "'}) RETURN a."@;
    assert(im.subrange(0, pim.len() as int) =~= pim);
    let ip = imports_query_spec(n);
    let pip = "MATCH (a:Symbol)-[:"@ + edge_kind_label(EdgeKind::Imports) + "]->(b:Symbol) WHERE b.file_path = '"@
        + e + "' RETURN DISTINCT a."@;
    assert(ip.subrange(0, pip.len() as int) =~= pip);
    let sc = synthesis_callers_query_spec(n, limit);
    let psc = "MATCH (a:Symbol)-[:"@ + edge_kind_label(EdgeKind::Calls) + "]->(b:Symbol {qualified_name: '"@ + e
        + "'}) RETURN DISTINCT a.qualified_name, a.signature LIMIT "@;
    assert(sc.subrange(0, psc.len() as int) =~= psc);
    let se = synthesis_callees_query_spec(n, limit);
    let pse = "MATCH (a:Symbol {qualified_name: '"@ + e + "'})-[:"@ + edge_kind_label(EdgeKind::Calls)
        + "]->(b:Symbol) RETURN DISTINCT b.qualified_name, b.signature LIMIT "@;
    assert(se.subrange(0, pse.len() as int) =~= pse);
}

/// Text of [`file_content_hash_query`].
pub open spec fn file_content_hash_query_spec(path: Seq<char>) -> Seq<char> {
    "MATCH (f:File {path: '"@
        + escape_spec(path)
        + "'}) RETURN f.content_hash"@
}

/// The stored content hash of a File node.
pub fn file_content_hash_query(path: &str) -> (r: String)
    ensures
        r@ == file_content_hash_query_spec(path@),
{
    let mut out = String::new();
    push_str(&mut out, "MATCH (f:File {path: '");
    let e = escape(path);
    push_str(&mut out, e.as_str());
    push_str(&mut out, "'}) RETURN f.content_hash");
    out
}

/// Text of [`file_extractor_version_query`].
pub open spec fn file_extractor_version_query_spec(path: Seq<char>) -> Seq<char> {
    "MATCH (f:File {path: '"@
        + escape_spec(path)
        + "'}) RETURN f.extractor_version"@
}

/// The stored extractor version of a File node.
pub fn file_extractor_version_query(path: &str) -> (r: String)
    ensures
        r@ == file_extractor_version_query_spec(path@),
{
    let mut out = String::new();
    push_str(&mut out, "MATCH (f:File {path: '");
    let e = escape(path);
    push_str(&mut out, e.as_str());
    push_str(&mut out, "'}) RETURN f.extractor_version");
    out
}

/// Text of [`upsert_file_record_query`].
pub open spec fn upsert_file_record_query_spec(path: Seq<char>, language: Seq<char>, content_hash: Seq<char>, last_modified: int, extractor_version: int) -> Seq<char> {
    "MERGE (f:File {path: '"@
        + escape_spec(path)
        + "'}) SET f.language='"@
        + escape_spec(language)
        + "', f.content_hash='"@
        + escape_spec(content_hash)
        + "', f.last_modified="@
        + signed_decimal_spec(last_modified)
        + ", f.extractor_version="@
        + decimal_spec(extractor_version as nat)
}

/// Merges a File node with its language, content hash, modification time (unix seconds) and extractor version.
pub fn upsert_file_record_query(path: &str, language: &str, content_hash: &str, last_modified: i64, extractor_version: u32) -> (r: String)
    ensures
        r@ == upsert_file_record_query_spec(path@, language@, content_hash@, last_modified as int, extractor_version as int),
{
    let mut out = String::new();
    push_str(&mut out, "MERGE (f:File {path: '");
    let e = escape(path);
    push_str(&mut out, e.as_str());
    push_str(&mut out, "'}) SET f.language='");
    let e = escape(language);
    push_str(&mut out, e.as_str());
    push_str(&mut out, "', f.content_hash='");
    let e = escape(content_hash);
    push_str(&mut out, e.as_str());
    push_str(&mut out, "', f.last_modified=");
    push_signed_decimal(&mut out, last_modified);
    push_str(&mut out, ", f.extractor_version=");
    push_decimal(&mut out, extractor_version as u64);
    out
}

/// Text of [`delete_file_record_query`].
pub open spec fn delete_file_record_query_spec(path: Seq<char>) -> Seq<char> {
    "MATCH (f:File {path: '"@
        + escape_spec(path)
        + "'}) DETACH DELETE f"@
}

/// Deletes a File node and its relationships.
pub fn delete_file_record_query(path: &str) -> (r: String)
    ensures
        r@ == delete_file_record_query_spec(path@),
{
    let mut out = String::new();
    push_str(&mut out, "MATCH (f:File {path: '");
    let e = escape(path);
    push_str(&mut out, e.as_str());
    push_str(&mut out, "'}) DETACH DELETE f");
    out
}

/// Text of [`set_symbol_embedding_query`].
pub open spec fn set_symbol_embedding_query_spec(qualified_name: Seq<char>, vector: Seq<char>) -> Seq<char> {
    "MATCH (s:Symbol {qualified_name: '"@
        + escape_spec(qualified_name)
        + "'}) SET s.embedding = vecf32(["@
        + vector
        + "])"@
}

/// Sets a symbol's embedding; `vector` is the comma-separated list of components.
pub fn set_symbol_embedding_query(qualified_name: &str, vector: &str) -> (r: String)
    ensures
        r@ == set_symbol_embedding_query_spec(qualified_name@, vector@),
{
    let mut out = String::new();
    push_str(&mut out, "MATCH (s:Symbol {qualified_name: '");
    let e = escape(qualified_name);
    push_str(&mut out, e.as_str());
    push_str(&mut out, "'}) SET s.embedding = vecf32([");
    push_str(&mut out, vector);
    push_str(&mut out, "])");
    out
}

/// Text of [`write_manifest_query`].
pub open spec fn write_manifest_query_spec(repo_id: Seq<char>, embedder_identity: Seq<char>, embedder_dimension: int, schema_version: int, last_indexed_at: int) -> Seq<char> {
    "MERGE (i:IndexManifest {repo_id: '"@
        + escape_spec(repo_id)
        + "'})\n               SET i.embedder_identity = '"@
        + escape_spec(embedder_identity)
        + "',\n                   i.embedder_dimension = "@
        + decimal_spec(embedder_dimension as nat)
        + ",\n                   i.schema_version = "@
        + decimal_spec(schema_version as nat)
        + ",\n                   i.last_indexed_at = "@
        + signed_decimal_spec(last_indexed_at)
}

/// Merges the index manifest of a repo (run against the meta graph).
pub fn write_manifest_query(repo_id: &str, embedder_identity: &str, embedder_dimension: u32, schema_version: u32, last_indexed_at: i64) -> (r: String)
    ensures
        r@ == write_manifest_query_spec(repo_id@, embedder_identity@, embedder_dimension as int, schema_version as int, last_indexed_at as int),
{
    let mut out = String::new();
    push_str(&mut out, "MERGE (i:IndexManifest {repo_id: '");
    let e = escape(repo_id);
    push_str(&mut out, e.as_str());
    push_str(&mut out, "'})\n               SET i.embedder_identity = '");
    let e = escape(embedder_identity);
    push_str(&mut out, e.as_str());
    push_str(&mut out, "',\n                   i.embedder_dimension = ");
    push_decimal(&mut out, embedder_dimension as u64);
    push_str(&mut out, ",\n                   i.schema_version = ");
    push_decimal(&mut out, schema_version as u64);
    push_str(&mut out, ",\n                   i.last_indexed_at = ");
    push_signed_decimal(&mut out, last_indexed_at);
    out
}

/// Text of [`read_manifest_query`].
pub open spec fn read_manifest_query_spec(repo_id: Seq<char>) -> Seq<char> {
    "MATCH (i:IndexManifest {repo_id: '"@
        + escape_spec(repo_id)
        + "'}) RETURN i.repo_id, i.embedder_identity, i.embedder_dimension, i.schema_version, i.last_indexed_at"@
}

/// Reads the index manifest of a repo (run against the meta graph).
pub fn read_manifest_query(repo_id: &str) -> (r: String)
    ensures
        r@ == read_manifest_query_spec(repo_id@),
{
    let mut out = String::new();
    push_str(&mut out, "MATCH (i:IndexManifest {repo_id: '");
    let e = escape(repo_id);
    push_str(&mut out, e.as_str());
    push_str(&mut out, "'}) RETURN i.repo_id, i.embedder_identity, i.embedder_dimension, i.schema_version, i.last_indexed_at");
    out
}

/// Text of [`imports_query`].
pub open spec fn imports_query_spec(file_path: Seq<char>) -> Seq<char> {
    "MATCH (a:Symbol)-[:IMPORTS]->(b:Symbol) WHERE b.file_path = '"@
        + escape_spec(file_path)
        + "' RETURN DISTINCT a.qualified_name, a.kind, a.file_path, a.start_line, a.end_line, a.signature, a.exported"@
}

/// Symbols that import from the file `file_path`.
pub fn imports_query(file_path: &str) -> (r: String)
    ensures
        r@ == imports_query_spec(file_path@),
{
    let mut out = String::new();
    push_str(&mut out, "MATCH (a:Symbol)-[:IMPORTS]->(b:Symbol) WHERE b.file_path = '");
    let e = escape(file_path);
    push_str(&mut out, e.as_str());
    push_str(&mut out, "' RETURN DISTINCT a.qualified_name, a.kind, a.file_path, a.start_line, a.end_line, a.signature, a.exported");
    out
}

/// Text of [`uses_query`].
pub open spec fn uses_query_spec(type_qname: Seq<char>) -> Seq<char> {
    "MATCH (a:Symbol)-[:USES_TYPE]->(t:Symbol {qualified_name: '"@
        + escape_spec(type_qname)
        + "'}) RETURN DISTINCT a.qualified_name, a.kind, a.file_path, a.start_line, a.end_line, a.signature, a.exported"@
}

/// Symbols that use the type `type_qname`.
pub fn uses_query(type_qname: &str) -> (r: String)
    ensures
        r@ == uses_query_spec(type_qname@),
{
    let mut out = String::new();
    push_str(&mut out, "MATCH (a:Symbol)-[:USES_TYPE]->(t:Symbol {qualified_name: '");
    let e = escape(type_qname);
    push_str(&mut out, e.as_str());
    push_str(&mut out, "'}) RETURN DISTINCT a.qualified_name, a.kind, a.file_path, a.start_line, a.end_line, a.signature, a.exported");
    out
}

/// Text of [`implements_query`].
pub open spec fn implements_query_spec(interface_qname: Seq<char>) -> Seq<char> {
    "MATCH (a:Symbol)-[:IMPLEMENTS]->(b:Symbol {qualified_name: '"@
        + escape_spec(interface_qname)
        + "'}) RETURN a.qualified_name, a.kind, a.file_path, a.start_line, a.end_line, a.signature, a.exported"@
}

/// Symbols that implement the interface `interface_qname`.
pub fn implements_query(interface_qname: &str) -> (r: String)
    ensures
        r@ == implements_query_spec(interface_qname@),
{
    let mut out = String::new();
    push_str(&mut out, "MATCH (a:Symbol)-[:IMPLEMENTS]->(b:Symbol {qualified_name: '");
    let e = escape(interface_qname);
    push_str(&mut out, e.as_str());
    push_str(&mut out, "'}) RETURN a.qualified_name, a.kind, a.file_path, a.start_line, a.end_line, a.signature, a.exported");
    out
}

/// Text of [`symbol_containing_query`].
pub open spec fn symbol_containing_query_spec(file_path: Seq<char>, line: int) -> Seq<char> {
    "MATCH (s:Symbol) WHERE s.file_path = '"@
        + escape_spec(file_path)
        + "' AND s.start_line <= "@
        + decimal_spec(line as nat)
        + " AND s.end_line >= "@
        + decimal_spec(line as nat)
        + " RETURN s.qualified_name LIMIT 1"@
}

/// The qualified name of one symbol of `file_path` whose line range holds `line`.
pub fn symbol_containing_query(file_path: &str, line: u32) -> (r: String)
    ensures
        r@ == symbol_containing_query_spec(file_path@, line as int),
{
    let mut out = String::new();
    push_str(&mut out, "MATCH (s:Symbol) WHERE s.file_path = '");
    let e = escape(file_path);
    push_str(&mut out, e.as_str());
    push_str(&mut out, "' AND s.start_line <= ");
    push_decimal(&mut out, line as u64);
    push_str(&mut out, " AND s.end_line >= ");
    push_decimal(&mut out, line as u64);
    push_str(&mut out, " RETURN s.qualified_name LIMIT 1");
    out
}

/// Text of [`synthesis_callers_query`].
pub open spec fn synthesis_callers_query_spec(qname: Seq<char>, limit: int) -> Seq<char> {
    "MATCH (a:Symbol)-[:CALLS]->(b:Symbol {qualified_name: '"@
        + escape_spec(qname)
        + "'}) RETURN DISTINCT a.qualified_name, a.signature LIMIT "@
        + decimal_spec(limit as nat)
}

/// Up to `limit` callers of a symbol with their signatures.
pub fn synthesis_callers_query(qname: &str, limit: usize) -> (r: String)
    ensures
        r@ == synthesis_callers_query_spec(qname@, limit as int),
{
    let mut out = String::new();
    push_str(&mut out, "MATCH (a:Symbol)-[:CALLS]->(b:Symbol {qualified_name: '");
    let e = escape(qname);
    push_str(&mut out, e.as_str());
    push_str(&mut out, "'}) RETURN DISTINCT a.qualified_name, a.signature LIMIT ");
    push_decimal(&mut out, limit as u64);
    out
}

/// Text of [`synthesis_callees_query`].
pub open spec fn synthesis_callees_query_spec(qname: Seq<char>, limit: int) -> Seq<char> {
    "MATCH (a:Symbol {qualified_name: '"@
        + escape_spec(qname)
        + "'})-[:CALLS]->(b:Symbol) RETURN DISTINCT b.qualified_name, b.signature LIMIT "@
        + decimal_spec(limit as nat)
}

/// Up to `limit` callees of a symbol with their signatures.
pub fn synthesis_callees_query(qname: &str, limit: usize) -> (r: String)
    ensures
        r@ == synthesis_callees_query_spec(qname@, limit as int),
{
    let mut out = String::new();
    push_str(&mut out, "MATCH (a:Symbol {qualified_name: '");
    let e = escape(qname);
    push_str(&mut out, e.as_str());
    push_str(&mut out, "'})-[:CALLS]->(b:Symbol) RETURN DISTINCT b.qualified_name, b.signature LIMIT ");
    push_decimal(&mut out, limit as u64);
    out
}

/// Text of [`set_description_and_embedding_query`].
pub open spec fn set_description_and_embedding_query_spec(qname: Seq<char>, description: Seq<char>, vector: Seq<char>) -> Seq<char> {
    "MATCH (s:Symbol {qualified_name: '"@
        + escape_spec(qname)
        + "'}) SET s.synthesized_description = '"@
        + escape_spec(description)
        + "', s.embedding = vecf32(["@
        + vector
        + "]), s.description_source_hash = s.body_hash"@
}

/// Writes a description, its embedding (comma-separated components) and the description's source hash in one statement.
pub fn set_description_and_embedding_query(qname: &str, description: &str, vector: &str) -> (r: String)
    ensures
        r@ == set_description_and_embedding_query_spec(qname@, description@, vector@),
{
    let mut out = String::new();
    push_str(&mut out, "MATCH (s:Symbol {qualified_name: '");
    let e = escape(qname);
    push_str(&mut out, e.as_str());
    push_str(&mut out, "'}) SET s.synthesized_description = '");
    let e = escape(description);
    push_str(&mut out, e.as_str());
    push_str(&mut out, "', s.embedding = vecf32([");
    push_str(&mut out, vector);
    push_str(&mut out, "]), s.description_source_hash = s.body_hash");
    out
}

/// Text of [`get_description_query`].
pub open spec fn get_description_query_spec(qname: Seq<char>) -> Seq<char> {
    "MATCH (s:Symbol {qualified_name: '"@
        + escape_spec(qname)
        + "'}) RETURN coalesce(s.synthesized_description, '') AS desc, coalesce(s.body_hash, '') AS bh, coalesce(s.description_source_hash, '') AS sh"@
}

/// A symbol's description, body hash and description source hash (empty when unset).
pub fn get_description_query(qname: &str) -> (r: String)
    ensures
        r@ == get_description_query_spec(qname@),
{
    let mut out = String::new();
    push_str(&mut out, "MATCH (s:Symbol {qualified_name: '");
    let e = escape(qname);
    push_str(&mut out, e.as_str());
    push_str(&mut out, "'}) RETURN coalesce(s.synthesized_description, '') AS desc, coalesce(s.body_hash, '') AS bh, coalesce(s.description_source_hash, '') AS sh");
    out
}

/// Text of [`definers_query`].
pub open spec fn definers_query_spec(name: Seq<char>) -> Seq<char> {
    "MATCH (s:Symbol) WHERE s.name = '"@
        + escape_spec(name)
        + "' OR s.qualified_name = '"@
        + escape_spec(name)
        + "' RETURN s.qualified_name, s.kind, s.file_path, s.start_line, s.end_line, s.signature, s.exported"@
}

/// Symbols whose short name or qualified name is `name`.
pub fn definers_query(name: &str) -> (r: String)
    ensures
        r@ == definers_query_spec(name@),
{
    let mut out = String::new();
    push_str(&mut out, "MATCH (s:Symbol) WHERE s.name = '");
    let e = escape(name);
    push_str(&mut out, e.as_str());
    push_str(&mut out, "' OR s.qualified_name = '");
    let e = escape(name);
    push_str(&mut out, e.as_str());
    push_str(&mut out, "' RETURN s.qualified_name, s.kind, s.file_path, s.start_line, s.end_line, s.signature, s.exported");
    out
}

/// Text of [`vector_search_query`].
pub open spec fn vector_search_query_spec(k: int, vector: Seq<char>) -> Seq<char> {
    "CALL db.idx.vector.queryNodes('Symbol', 'embedding', "@
        + decimal_spec(k as nat)
        + ", vecf32(["@
        + vector
        + "])) YIELD node, score RETURN node.qualified_name, node.kind, node.file_path, node.start_line, node.end_line, node.signature, node.exported, score"@
}

/// The `k` symbols nearest to a query vector (`vector`: comma-separated components), with their scores.
pub fn vector_search_query(k: usize, vector: &str) -> (r: String)
    ensures
        r@ == vector_search_query_spec(k as int, vector@),
{
    let mut out = String::new();
    push_str(&mut out, "CALL db.idx.vector.queryNodes('Symbol', 'embedding', ");
    push_decimal(&mut out, k as u64);
    push_str(&mut out, ", vecf32([");
    push_str(&mut out, vector);
    push_str(&mut out, "])) YIELD node, score RETURN node.qualified_name, node.kind, node.file_path, node.start_line, node.end_line, node.signature, node.exported, score");
    out
}

/// Text of [`clear_all_descriptions_query`].
pub open spec fn clear_all_descriptions_query_spec() -> Seq<char> {
    "MATCH (s:Symbol) WHERE coalesce(s.synthesized_description, '') <> '' SET s.synthesized_description = NULL, s.description_source_hash = NULL RETURN count(s) AS cleared"@
}

/// Clears every written description and its source hash, counting the symbols cleared.
pub fn clear_all_descriptions_query() -> (r: String)
    ensures
        r@ == clear_all_descriptions_query_spec(),
{
    let mut out = String::new();
    push_str(&mut out, "MATCH (s:Symbol) WHERE coalesce(s.synthesized_description, '') <> '' SET s.synthesized_description = NULL, s.description_source_hash = NULL RETURN count(s) AS cleared");
    out
}

/// Text of [`refresh_source_hashes_query`].
pub open spec fn refresh_source_hashes_query_spec() -> Seq<char> {
    "MATCH (s:Symbol) WHERE coalesce(s.synthesized_description, '') <> '' AND coalesce(s.description_source_hash, '') = '' AND coalesce(s.body_hash, '') <> '' SET s.description_source_hash = s.body_hash RETURN count(s) AS backfilled"@
}

/// Backfills the description source hash from the body hash on described symbols that lack one, counting them.
pub fn refresh_source_hashes_query() -> (r: String)
    ensures
        r@ == refresh_source_hashes_query_spec(),
{
    let mut out = String::new();
    push_str(&mut out, "MATCH (s:Symbol) WHERE coalesce(s.synthesized_description, '') <> '' AND coalesce(s.description_source_hash, '') = '' AND coalesce(s.body_hash, '') <> '' SET s.description_source_hash = s.body_hash RETURN count(s) AS backfilled");
    out
}

/// Text of [`clear_description_and_reembed_query`].
pub open spec fn clear_description_and_reembed_query_spec(qname: Seq<char>, body_hash: Seq<char>, vector: Seq<char>) -> Seq<char> {
    "MATCH (s:Symbol {qualified_name: '"@
        + escape_spec(qname)
        + "'}) SET s.synthesized_description = NULL, s.description_source_hash = NULL, s.body_hash = '"@
        + escape_spec(body_hash)
        + "', s.embedding = vecf32(["@
        + vector
        + "])"@
}

/// Clears a stale description and writes the new body hash and embedding.
pub fn clear_description_and_reembed_query(qname: &str, body_hash: &str, vector: &str) -> (r: String)
    ensures
        r@ == clear_description_and_reembed_query_spec(qname@, body_hash@, vector@),
{
    let mut out = String::new();
    push_str(&mut out, "MATCH (s:Symbol {qualified_name: '");
    let e = escape(qname);
    push_str(&mut out, e.as_str());
    push_str(&mut out, "'}) SET s.synthesized_description = NULL, s.description_source_hash = NULL, s.body_hash = '");
    let e = escape(body_hash);
    push_str(&mut out, e.as_str());
    push_str(&mut out, "', s.embedding = vecf32([");
    push_str(&mut out, vector);
    push_str(&mut out, "])");
    out
}

/// Text of [`set_embedding_and_body_hash_query`].
pub open spec fn set_embedding_and_body_hash_query_spec(qname: Seq<char>, vector: Seq<char>, body_hash: Seq<char>) -> Seq<char> {
    "MATCH (s:Symbol {qualified_name: '"@
        + escape_spec(qname)
        + "'}) SET s.embedding = vecf32(["@
        + vector
        + "]), s.body_hash = '"@
        + escape_spec(body_hash)
        + "'"@
}

/// Writes a symbol's embedding and body hash.
pub fn set_embedding_and_body_hash_query(qname: &str, vector: &str, body_hash: &str) -> (r: String)
    ensures
        r@ == set_embedding_and_body_hash_query_spec(qname@, vector@, body_hash@),
{
    let mut out = String::new();
    push_str(&mut out, "MATCH (s:Symbol {qualified_name: '");
    let e = escape(qname);
    push_str(&mut out, e.as_str());
    push_str(&mut out, "'}) SET s.embedding = vecf32([");
    push_str(&mut out, vector);
    push_str(&mut out, "]), s.body_hash = '");
    let e = escape(body_hash);
    push_str(&mut out, e.as_str());
    push_str(&mut out, "'");
    out
}

/// The statement that merges an edge between its two (existing) endpoints.
pub fn edge_upsert_query(e: &Edge) -> (r: String)
    ensures
        r@ == upsert_edge_query_spec(
            e.from@,
            e.to@,
            edge_kind_label(e.kind),
            edge_source_name(e.source),
        ),
{
    upsert_edge_query(
        e.from.as_str(),
        e.to.as_str(),
        edge_kind_to_cypher(e.kind),
        edge_source_str(e.source),
    )
}

/// Cypher's spelling of a boolean.
pub open spec fn bool_text(b: bool) -> Seq<char> {
    if b {
        "true"@
    } else {
        "false"@
    }
}

/// The `, s.body_hash = '...'` clause written only when a body hash is set,
/// so that an upsert without one never clobbers a stored hash.
pub open spec fn body_hash_clause_spec(h: Option<Seq<char>>) -> Seq<char> {
    match h {
        Some(h) => ", s.body_hash = '"@ + escape_spec(h) + "'"@,
        None => Seq::empty(),
    }
}

/// Text of [`upsert_symbol_query`].
pub open spec fn upsert_symbol_query_spec(sym: Symbol) -> Seq<char> {
    "MERGE (s:Symbol {qualified_name: '"@ + escape_spec(sym.qualified_name@)
        + "'})\n            SET s.kind = '"@ + symbol_kind_name(sym.kind)
        + "',\n                s.file_path = '"@ + escape_spec(sym.file_path@)
        + "',\n                s.start_line = "@ + decimal_spec(sym.start_line as nat)
        + ",\n                s.end_line = "@ + decimal_spec(sym.end_line as nat)
        + ",\n                s.signature = '"@ + escape_spec(sym.signature@)
        + "',\n                s.exported = "@ + bool_text(sym.exported)
        + ",\n                s.name = '"@ + escape_spec(short_name_spec(sym.qualified_name@))
        + "'"@ + body_hash_clause_spec(
        match sym.body_hash {
            Some(h) => Some(h@),
            None => None,
        },
    )
}

/// Merges a symbol node with all its scalar fields and its short name.
/// The embedding is not written here, and the body hash only when set.
pub fn upsert_symbol_query(sym: &Symbol) -> (r: String)
    ensures
        r@ == upsert_symbol_query_spec(*sym),
{
    let mut out = String::new();
    push_str(&mut out, "MERGE (s:Symbol {qualified_name: '");
    let e = escape(sym.qualified_name.as_str());
    push_str(&mut out, e.as_str());
    push_str(&mut out, "'})\n            SET s.kind = '");
    push_str(&mut out, sym.kind.as_str());
    push_str(&mut out, "',\n                s.file_path = '");
    let e = escape(sym.file_path.as_str());
    push_str(&mut out, e.as_str());
    push_str(&mut out, "',\n                s.start_line = ");
    push_decimal(&mut out, sym.start_line as u64);
    push_str(&mut out, ",\n                s.end_line = ");
    push_decimal(&mut out, sym.end_line as u64);
    push_str(&mut out, ",\n                s.signature = '");
    let e = escape(sym.signature.as_str());
    push_str(&mut out, e.as_str());
    push_str(&mut out, "',\n                s.exported = ");
    if sym.exported {
        push_str(&mut out, "true");
    } else {
        push_str(&mut out, "false");
    }
    push_str(&mut out, ",\n                s.name = '");
    let e = escape(short_name(sym.qualified_name.as_str()));
    push_str(&mut out, e.as_str());
    push_str(&mut out, "'");
    match &sym.body_hash {
        Some(h) => {
            push_str(&mut out, ", s.body_hash = '");
            let e = escape(h.as_str());
            push_str(&mut out, e.as_str());
            push_str(&mut out, "'");
            assert(out@ =~= upsert_symbol_query_spec(*sym));
        },
        None => {
            assert(out@ =~= upsert_symbol_query_spec(*sym));
        },
    }
    out
}

/// The single-quoted, escaped names joined by `, `.
pub open spec fn quoted_join_spec(names: Seq<Seq<char>>) -> Seq<char>
    decreases names.len(),
{
    if names.len() == 0 {
        Seq::empty()
    } else if names.len() == 1 {
        "'"@ + escape_spec(names[0]) + "'"@
    } else {
        quoted_join_spec(names.drop_last()) + ", '"@ + escape_spec(names.last()) + "'"@
    }
}

/// A Cypher list literal of the given names.
pub open spec fn quoted_list_spec(names: Seq<Seq<char>>) -> Seq<char> {
    "["@ + quoted_join_spec(names) + "]"@
}

/// The views of a slice of string slices.
pub open spec fn str_views(names: Seq<&str>) -> Seq<Seq<char>> {
    names.map_values(|s: &str| s@)
}

/// Appends a Cypher list literal of the names to `out`.
pub fn push_quoted_list(out: &mut String, names: &[&str])
    ensures
        final(out)@ == old(out)@ + quoted_list_spec(str_views(names@)),
{
    let ghost start = out@;
    push_str(out, "[");
    let mut i: usize = 0;
    while i < names.len()
        invariant
            i <= names@.len(),
            out@ == start + "["@ + quoted_join_spec(str_views(names@.take(i as int))),
        decreases names@.len() - i,
    {
        assert(str_views(names@.take(i + 1)).drop_last() =~= str_views(names@.take(i as int)));
        assert(str_views(names@.take(i + 1)).last() == names@[i as int]@);
        if i > 0 {
            push_str(out, ", '");
        } else {
            push_str(out, "'");
            assert(str_views(names@.take(i as int)) =~= Seq::<Seq<char>>::empty());
        }
        let e = escape(names[i]);
        push_str(out, e.as_str());
        push_str(out, "'");
        i = i + 1;
        assert(out@ =~= start + "["@ + quoted_join_spec(str_views(names@.take(i as int))));
    }
    push_str(out, "]");
    assert(names@.take(names@.len() as int) =~= names@);
    assert(out@ =~= start + quoted_list_spec(str_views(names@)));
}

/// Text of [`prune_stale_symbols_query`].
pub open spec fn prune_stale_symbols_query_spec(file_path: Seq<char>, keep: Seq<Seq<char>>) -> Seq<
    char,
> {
    "MATCH (s:Symbol) WHERE s.file_path = '"@ + escape_spec(file_path)
        + "' AND NOT s.qualified_name IN "@ + quoted_list_spec(keep)
        + " DETACH DELETE s RETURN count(s) AS deleted"@
}

/// Deletes the symbols of `file_path` whose names are not in `keep`
/// (all of them when `keep` is empty), counting them.
pub fn prune_stale_symbols_query(file_path: &str, keep: &[&str]) -> (r: String)
    ensures
        r@ == prune_stale_symbols_query_spec(file_path@, str_views(keep@)),
{
    let mut out = String::new();
    push_str(&mut out, "MATCH (s:Symbol) WHERE s.file_path = '");
    let e = escape(file_path);
    push_str(&mut out, e.as_str());
    push_str(&mut out, "' AND NOT s.qualified_name IN ");
    push_quoted_list(&mut out, keep);
    push_str(&mut out, " DETACH DELETE s RETURN count(s) AS deleted");
    out
}

/// Text of [`description_source_hashes_query`].
pub open spec fn description_source_hashes_query_spec(qnames: Seq<Seq<char>>) -> Seq<char> {
    "MATCH (s:Symbol) WHERE s.qualified_name IN "@ + quoted_list_spec(qnames)
        + " AND coalesce(s.description_source_hash, '') <> '' RETURN s.qualified_name, s.description_source_hash"@
}

/// The stored description source hashes of the named symbols that have one.
pub fn description_source_hashes_query(qnames: &[&str]) -> (r: String)
    ensures
        r@ == description_source_hashes_query_spec(str_views(qnames@)),
{
    let mut out = String::new();
    push_str(&mut out, "MATCH (s:Symbol) WHERE s.qualified_name IN ");
    push_quoted_list(&mut out, qnames);
    push_str(
        &mut out,
        " AND coalesce(s.description_source_hash, '') <> '' RETURN s.qualified_name, s.description_source_hash",
    );
    out
}

/// Text of [`list_symbols_for_synthesis_query`].
pub open spec fn list_symbols_for_synthesis_query_spec(only_missing: bool) -> Seq<char> {
    "MATCH (s:Symbol) "@ + (if only_missing {
        "WHERE coalesce(s.synthesized_description, '') = ''"@
    } else {
        Seq::empty()
    }) + " RETURN s.qualified_name, s.signature, s.file_path, s.start_line, s.end_line, coalesce(s.synthesized_description, '') AS desc"@
}

/// Lists every symbol for synthesis, or only those without a description.
pub fn list_symbols_for_synthesis_query(only_missing: bool) -> (r: String)
    ensures
        r@ == list_symbols_for_synthesis_query_spec(only_missing),
{
    let mut out = String::new();
    push_str(&mut out, "MATCH (s:Symbol) ");
    if only_missing {
        push_str(&mut out, "WHERE coalesce(s.synthesized_description, '') = ''");
    } else {
        assert(out@ + Seq::<char>::empty() =~= out@);
    }
    push_str(
        &mut out,
        " RETURN s.qualified_name, s.signature, s.file_path, s.start_line, s.end_line, coalesce(s.synthesized_description, '') AS desc",
    );
    out
}

} // verus!
