//! The index manifest (which embedder a graph was indexed with), the
//! schema migrations, and the checks that guard vector search.
use vstd::prelude::*;
use crate::error::MycelError;
use crate::rows::{gv_i64, gv_str, value_i64, value_str, GraphValue};
use crate::text::{decimal_spec, push_decimal, push_str, str_eq, string_of};

verus! {

/// Version of the graph schema the indexer writes.
pub const SCHEMA_VERSION: u32 = 1;

/// A repository's identity, used to name its graph.
#[derive(Debug, PartialEq, Eq)]
pub struct RepoId(String);

impl View for RepoId {
    type V = Seq<char>;

    closed spec fn view(&self) -> Seq<char> {
        self.0@
    }
}

impl RepoId {
    /// The id with the given text.
    pub fn new(s: &str) -> (r: RepoId)
        ensures
            r@ == s@,
    {
        RepoId(string_of(s))
    }

    /// The id's text.
    pub fn as_str(&self) -> (s: &str)
        ensures
            s@ == self@,
    {
        self.0.as_str()
    }
}

/// Which embedder a graph was indexed with, and when.
#[derive(Debug, PartialEq, Eq)]
pub struct IndexManifest {
    pub repo_id: RepoId,
    pub embedder_identity: String,
    pub embedder_dimension: u32,
    pub schema_version: u32,
    /// Seconds since the Unix epoch (UTC).
    pub last_indexed_at: i64,
}

/// The Unix timestamps of representable date-times: from midnight UTC on
/// the first day of year -9999 to the last second of year 9999 (the `time`
/// crate's range without its `large-dates` feature).
pub open spec fn timestamp_in_range(ts: int) -> bool {
    -377705116800 <= ts <= 253402300799
}

/// Checks that a Unix timestamp is a representable date-time
/// (`time::OffsetDateTime::from_unix_timestamp`); the error carries the
/// crate's message. What is claimed: the call succeeds exactly on the
/// timestamps between `Date::MIN` at midnight and `Date::MAX` at its last
/// second, UTC.
#[verifier::external_body]
fn check_timestamp(ts: i64) -> (r: Result<(), String>)
    ensures
        r is Ok <==> timestamp_in_range(ts as int),
{
    time::OffsetDateTime::from_unix_timestamp(ts).map(|_| ()).map_err(|e| e.to_string())
}

/// The manifest fields a row holds: repo id, embedder identity, dimension
/// and schema version (integers truncated to `u32`), timestamp.
pub open spec fn manifest_row(row: Seq<GraphValue>) -> Option<(Seq<char>, Seq<char>, u32, u32, i64)> {
    if row.len() >= 5 && gv_str(row[0]) is Some && gv_str(row[1]) is Some && gv_i64(row[2]) is Some
        && gv_i64(row[3]) is Some && gv_i64(row[4]) is Some {
        Some(
            (
                gv_str(row[0])->0,
                gv_str(row[1])->0,
                (gv_i64(row[2])->0) as u32,
                (gv_i64(row[3])->0) as u32,
                gv_i64(row[4])->0,
            ),
        )
    } else {
        None
    }
}

/// `m` holds the fields `f`.
pub open spec fn manifest_is(m: IndexManifest, f: (Seq<char>, Seq<char>, u32, u32, i64)) -> bool {
    m.repo_id@ == f.0 && m.embedder_identity@ == f.1 && m.embedder_dimension == f.2 && m.schema_version == f.3
        && m.last_indexed_at == f.4
}

/// Decodes the manifest query's result: `None` without a row or when the
/// first row does not have the manifest's shape; a graph error when its
/// timestamp is not a representable date-time.
pub fn parse_manifest_rows(rows: &Vec<Vec<GraphValue>>) -> (r: Result<Option<IndexManifest>, MycelError>)
    ensures
        rows@.len() == 0 ==> r == Ok::<Option<IndexManifest>, MycelError>(None),
        rows@.len() > 0 ==> match manifest_row(rows@[0]@) {
            None => r == Ok::<Option<IndexManifest>, MycelError>(None),
            Some(f) => if timestamp_in_range(f.4 as int) {
                r matches Ok(Some(m)) && manifest_is(m, f)
            } else {
                r matches Err(MycelError::Graph(_))
            },
        },
{
    if rows.len() == 0 {
        return Ok(None);
    }
    let row = &rows[0];
    let repo = match value_str(row, 0) {
        Some(s) => s,
        None => return Ok(None),
    };
    let id = match value_str(row, 1) {
        Some(s) => s,
        None => return Ok(None),
    };
    let dim = match value_i64(row, 2) {
        Some(n) => n as u32,
        None => return Ok(None),
    };
    let schema = match value_i64(row, 3) {
        Some(n) => n as u32,
        None => return Ok(None),
    };
    let ts = match value_i64(row, 4) {
        Some(n) => n,
        None => return Ok(None),
    };
    match check_timestamp(ts) {
        Ok(()) => Ok(
            Some(
                IndexManifest {
                    repo_id: RepoId::new(repo.as_str()),
                    embedder_identity: id.clone(),
                    embedder_dimension: dim,
                    schema_version: schema,
                    last_indexed_at: ts,
                },
            ),
        ),
        Err(message) => Err(MycelError::Graph(message)),
    }
}

/// `identity@dimension`, how an embedder is named in a mismatch.
pub open spec fn embedder_label(identity: Seq<char>, dimension: u32) -> Seq<char> {
    identity + "@"@ + decimal_spec(dimension as nat)
}

fn embedder_label_exec(identity: &str, dimension: u32) -> (s: String)
    ensures
        s@ == embedder_label(identity@, dimension),
{
    let mut s = string_of(identity);
    push_str(&mut s, "@");
    push_decimal(&mut s, dimension as u64);
    s
}

/// Vector search is refused when the graph's manifest names another
/// embedder or dimension than the one asked for: the error gives both as
/// `identity@dimension`. Without a manifest there is nothing to check.
pub fn check_embedder_matches(manifest: Option<&IndexManifest>, expected_embedder: &str, expected_dim: u32) -> (r: Result<(), MycelError>)
    ensures
        match manifest {
            None => r is Ok,
            Some(m) => if m.embedder_identity@ == expected_embedder@ && m.embedder_dimension == expected_dim {
                r is Ok
            } else {
                r matches Err(MycelError::EmbedderMismatch { graph: g, runtime: rt }) && g@ == embedder_label(
                    m.embedder_identity@,
                    m.embedder_dimension,
                ) && rt@ == embedder_label(expected_embedder@, expected_dim)
            },
        },
{
    match manifest {
        None => Ok(()),
        Some(m) => {
            if str_eq(m.embedder_identity.as_str(), expected_embedder) && m.embedder_dimension == expected_dim {
                Ok(())
            } else {
                Err(
                    MycelError::EmbedderMismatch {
                        graph: embedder_label_exec(m.embedder_identity.as_str(), m.embedder_dimension),
                        runtime: embedder_label_exec(expected_embedder, expected_dim),
                    },
                )
            }
        },
    }
}

/// A schema migration: an id and the statements that apply it.
#[derive(Debug, PartialEq, Eq)]
pub struct Migration {
    pub id: &'static str,
    pub statements: Vec<&'static str>,
}

/// The ids of the schema migrations, in the order they apply.
pub open spec fn migration_ids() -> Seq<Seq<char>> {
    seq!["v1_symbol_indices"@, "v1_vector_index"@, "v2_name_index"@]
}

/// The statements of each migration, in order.
pub open spec fn migration_statements() -> Seq<Seq<Seq<char>>> {
    seq![
        seq![
            "CREATE INDEX FOR (s:Symbol) ON (s.qualified_name)"@,
            "CREATE INDEX FOR (s:Symbol) ON (s.file_path)"@,
            "CREATE INDEX FOR (f:File) ON (f.path)"@,
            "CREATE INDEX FOR (c:Commit) ON (c.sha)"@,
        ],
        seq![
            "CREATE VECTOR INDEX FOR (s:Symbol) ON (s.embedding) OPTIONS {dimension: 768, similarityFunction: 'cosine'}"@,
        ],
        seq!["CREATE INDEX FOR (s:Symbol) ON (s.name)"@],
    ]
}

/// The schema migrations, in order: symbol, file and commit indices; the
/// 768-dimension cosine vector index on symbol embeddings; the short-name
/// index.
pub fn migrations() -> (r: Vec<Migration>)
    ensures
        r@.map_values(|m: Migration| m.id@) == migration_ids(),
        r@.map_values(|m: Migration| m.statements@.map_values(|t: &str| t@)) == migration_statements(),
{
    let mut out: Vec<Migration> = Vec::new();
    out.push(
        Migration {
            id: "v1_symbol_indices",
            statements: vec![
                "CREATE INDEX FOR (s:Symbol) ON (s.qualified_name)",
                "CREATE INDEX FOR (s:Symbol) ON (s.file_path)",
                "CREATE INDEX FOR (f:File) ON (f.path)",
                "CREATE INDEX FOR (c:Commit) ON (c.sha)",
            ],
        },
    );
    out.push(
        Migration {
            id: "v1_vector_index",
            statements: vec![
                "CREATE VECTOR INDEX FOR (s:Symbol) ON (s.embedding) OPTIONS {dimension: 768, similarityFunction: 'cosine'}",
            ],
        },
    );
    out.push(Migration { id: "v2_name_index", statements: vec!["CREATE INDEX FOR (s:Symbol) ON (s.name)"] });
    assert(out@.map_values(|m: Migration| m.id@) =~= migration_ids());
    assert(out@[0].statements@.map_values(|t: &str| t@) =~= migration_statements()[0]);
    assert(out@[1].statements@.map_values(|t: &str| t@) =~= migration_statements()[1]);
    assert(out@[2].statements@.map_values(|t: &str| t@) =~= migration_statements()[2]);
    assert(out@.map_values(|m: Migration| m.statements@.map_values(|t: &str| t@)) =~= migration_statements());
    out
}

/// The migrations not yet applied to a graph, in order.
pub open spec fn pending_spec(all: Seq<Migration>, applied: Seq<Seq<char>>) -> Seq<Migration>
    decreases all.len(),
{
    if all.len() == 0 {
        Seq::empty()
    } else {
        let rest = pending_spec(all.drop_last(), applied);
        if applied.contains(all.last().id@) {
            rest
        } else {
            rest.push(all.last())
        }
    }
}

fn is_applied(applied: &Vec<String>, id: &str) -> (r: bool)
    ensures
        r == applied@.map_values(|s: String| s@).contains(id@),
{
    let mut i: usize = 0;
    while i < applied.len()
        invariant
            i <= applied@.len(),
            forall|j: int| 0 <= j < i ==> applied@[j]@ != id@,
        decreases applied@.len() - i,
    {
        if str_eq(applied[i].as_str(), id) {
            assert(applied@.map_values(|s: String| s@)[i as int] == id@);
            return true;
        }
        i = i + 1;
    }
    false
}

/// The migrations among `all` whose id is not among the applied ones, in
/// order.
pub fn pending_migrations(all: Vec<Migration>, applied: &Vec<String>) -> (r: Vec<Migration>)
    ensures
        r@ == pending_spec(all@, applied@.map_values(|s: String| s@)),
{
    let ghost orig = all@;
    let ghost n = orig.len();
    let mut all = all;
    let mut kept: Vec<Migration> = Vec::new();
    assert(orig.skip(0) =~= orig);
    while all.len() > 0
        invariant
            all@.len() <= n,
            n == orig.len(),
            all@ == orig.skip(n - all@.len()),
            kept@ == pending_spec(orig.take(n - all@.len()), applied@.map_values(|s: String| s@)),
        decreases all@.len(),
    {
        let ghost k = n - all@.len();
        let m = all.remove(0);
        assert(orig.take(k + 1).drop_last() =~= orig.take(k));
        assert(orig.take(k + 1).last() == orig[k]);
        assert(all@ =~= orig.skip(k + 1));
        if !is_applied(applied, m.id) {
            kept.push(m);
        }
    }
    assert(orig.take(n as int) =~= orig);
    kept
}

/// The ids of migrations.
pub open spec fn ids_of(ms: Seq<Migration>) -> Seq<Seq<char>> {
    ms.map_values(|m: Migration| m.id@)
}

proof fn lemma_none_pending(all: Seq<Migration>, applied: Seq<Seq<char>>)
    requires
        forall|i: int| 0 <= i < all.len() ==> applied.contains(#[trigger] all[i].id@),
    ensures
        pending_spec(all, applied).len() == 0,
    decreases all.len(),
{
    if all.len() > 0 {
        assert forall|i: int| 0 <= i < all.drop_last().len() implies applied.contains(#[trigger] all.drop_last()[i].id@) by {
            assert(all.drop_last()[i] == all[i]);
        }
        lemma_none_pending(all.drop_last(), applied);
        assert(applied.contains(all[all.len() - 1].id@));
    }
}

proof fn lemma_pending_covers(all: Seq<Migration>, applied: Seq<Seq<char>>, i: int)
    requires
        0 <= i < all.len(),
    ensures
        applied.contains(all[i].id@) || ids_of(pending_spec(all, applied)).contains(all[i].id@),
    decreases all.len(),
{
    let rest = pending_spec(all.drop_last(), applied);
    if i < all.len() - 1 {
        lemma_pending_covers(all.drop_last(), applied, i);
        assert(all.drop_last()[i] == all[i]);
        if ids_of(rest).contains(all[i].id@) {
            let k = choose|k: int| 0 <= k < ids_of(rest).len() && ids_of(rest)[k] == all[i].id@;
            if !applied.contains(all.last().id@) {
                assert(ids_of(rest.push(all.last()))[k] == ids_of(rest)[k]);
            }
        }
    } else if !applied.contains(all.last().id@) {
        assert(ids_of(rest.push(all.last()))[rest.len() as int] == all.last().id@);
    }
}

/// Law: once the pending migrations are recorded as applied, no migration
/// is pending any more, so running the migrations twice applies each once.
pub proof fn applying_pending_leaves_none(all: Seq<Migration>, applied: Seq<Seq<char>>)
    ensures
        pending_spec(all, applied + ids_of(pending_spec(all, applied))).len() == 0,
{
    let a2 = applied + ids_of(pending_spec(all, applied));
    assert forall|i: int| 0 <= i < all.len() implies a2.contains(#[trigger] all[i].id@) by {
        lemma_pending_covers(all, applied, i);
        if applied.contains(all[i].id@) {
            let k = choose|k: int| 0 <= k < applied.len() && applied[k] == all[i].id@;
            assert(a2[k] == applied[k]);
        } else {
            let p = ids_of(pending_spec(all, applied));
            let k = choose|k: int| 0 <= k < p.len() && p[k] == all[i].id@;
            assert(a2[applied.len() + k] == p[k]);
        }
    }
    lemma_none_pending(all, a2);
}

} // verus!
