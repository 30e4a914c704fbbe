//! The decisions of the indexing pipeline: when a file is skipped, which
//! tree-sitter edges are sent for cross-file resolution and where in the
//! source, how resolved references become edges, and when a stored
//! description has gone stale.
use vstd::prelude::*;
use vstd::utf8::encode_utf8;
use crate::edge::{edge_kind_label, Edge, EdgeKind, EdgeSource};
use crate::lsp::{edge_view, RawResolvedRef, RefSite};
use crate::error::MycelError;
use crate::symbol::Symbol;
use crate::text::{
    chars_of, contains_spec, contains_str, decimal_spec, lines_spec, push_decimal, push_str, split_lines,
    str_eq, string_of,
};

verus! {

/// Bumped whenever any extractor's output changes; files indexed at another
/// version are re-extracted even when their content hash matches.
pub const EXTRACTOR_VERSION: u32 = 1;

/// Whether a stored file record lets indexing skip the file: same content
/// hash and same extractor version.
pub open spec fn unchanged_spec(stored_hash: Option<Seq<char>>, hash: Seq<char>, stored_version: Option<u32>) -> bool {
    stored_hash == Some(hash) && stored_version == Some(EXTRACTOR_VERSION)
}

/// True when the stored hash equals `hash` and the stored extractor version
/// is the current one; either mismatch (or a missing record) forces
/// re-extraction.
pub fn file_unchanged(stored_hash: Option<&str>, hash: &str, stored_version: Option<u32>) -> (r: bool)
    ensures
        r == unchanged_spec(
            match stored_hash {
                Some(h) => Some(h@),
                None => None,
            },
            hash@,
            stored_version,
        ),
{
    match stored_hash {
        None => false,
        Some(h) => {
            if !crate::text::str_eq(h, hash) {
                false
            } else {
                match stored_version {
                    Some(v) => v == EXTRACTOR_VERSION,
                    None => false,
                }
            }
        },
    }
}

/// ASCII letters, digits and `_`.
pub open spec fn ident_byte(b: u8) -> bool {
    (48 <= b <= 57) || (65 <= b <= 90) || (97 <= b <= 122) || b == 95
}

/// Whether `b` can be part of an identifier (ASCII alphanumeric or `_`).
pub fn is_ident_byte(b: u8) -> (r: bool)
    ensures
        r == ident_byte(b),
{
    (b >= 48 && b <= 57) || (b >= 65 && b <= 90) || (b >= 97 && b <= 122) || b == 95
}

/// `tok` occurs in `line` at byte `i`, with no identifier byte right before
/// or right after it.
pub open spec fn word_match_at(line: Seq<u8>, tok: Seq<u8>, i: int) -> bool {
    &&& 0 <= i
    &&& i + tok.len() <= line.len()
    &&& line.subrange(i, i + tok.len()) == tok
    &&& (i == 0 || !ident_byte(line[i - 1]))
    &&& (i + tok.len() == line.len() || !ident_byte(line[i + tok.len()]))
}

/// The first `i >= from` at which `tok` occurs as a word in `line`.
pub open spec fn first_word_match(line: Seq<u8>, tok: Seq<u8>, from: int) -> Option<int>
    decreases line.len() + 1 - from,
{
    if from < 0 || from + tok.len() > line.len() {
        None
    } else if word_match_at(line, tok, from) {
        Some(from)
    } else {
        first_word_match(line, tok, from + 1)
    }
}

/// Law: a match found is a word match and no earlier position is one; when
/// none is found, there is no word match at or after `from`.
pub proof fn first_word_match_is_first(line: Seq<u8>, tok: Seq<u8>, from: int)
    requires
        from >= 0,
    ensures
        first_word_match(line, tok, from) matches Some(i) ==> {
            &&& from <= i
            &&& word_match_at(line, tok, i)
            &&& forall|j: int| from <= j < i ==> !word_match_at(line, tok, j)
        },
        first_word_match(line, tok, from) is None ==> forall|j: int|
            from <= j ==> !#[trigger] word_match_at(line, tok, j),
    decreases line.len() + 1 - from,
{
    if from + tok.len() > line.len() {
    } else if word_match_at(line, tok, from) {
    } else {
        first_word_match_is_first(line, tok, from + 1);
        assert forall|j: int| from <= j && #[trigger] word_match_at(line, tok, j) implies j > from by {}
    }
}

/// The 0-indexed byte column of the first word-boundary occurrence of
/// `token` on line `line` (1-indexed; 0 counts as 1) of `content`; 0 when
/// the token is empty, the line does not exist, or there is no occurrence.
pub open spec fn token_col_spec(content: Seq<char>, line: u32, token: Seq<char>) -> u32 {
    let idx = if line >= 1 {
        line - 1
    } else {
        0
    };
    let ls = lines_spec(content);
    if token.len() == 0 || idx >= ls.len() {
        0
    } else {
        match first_word_match(encode_utf8(ls[idx]), encode_utf8(token), 0) {
            Some(i) => i as u32,
            None => 0,
        }
    }
}

fn bytes_match_at(line: &[u8], tok: &[u8], i: usize) -> (r: bool)
    requires
        i + tok@.len() <= line@.len(),
    ensures
        r == (line@.subrange(i as int, i + tok@.len()) == tok@),
{
    let n = line.len();
    let mut k: usize = 0;
    while k < tok.len()
        invariant
            k <= tok@.len(),
            n == line@.len(),
            i + tok@.len() <= n,
            line@.subrange(i as int, i + k) == tok@.take(k as int),
        decreases tok@.len() - k,
    {
        if line[i + k] != tok[k] {
            assert(line@.subrange(i as int, i + tok@.len())[k as int] != tok@[k as int]);
            return false;
        }
        assert(line@.subrange(i as int, i + k + 1) =~= tok@.take(k + 1));
        k = k + 1;
    }
    assert(tok@.take(k as int) =~= tok@);
    true
}

/// Column of `token` on a source line, for seeding a definition lookup at
/// an identifier: the first word-boundary occurrence (`add` does not match
/// inside `padded`), else 0.
pub fn locate_token_col(content: &str, line: u32, token: &str) -> (col: u32)
    ensures
        col == token_col_spec(content@, line, token@),
{
    let tcs = chars_of(token);
    if tcs.len() == 0 {
        return 0;
    }
    let line_idx: usize = if line >= 1 {
        (line - 1) as usize
    } else {
        0
    };
    let lines = split_lines(content);
    if line_idx >= lines.len() {
        return 0;
    }
    let bytes = lines[line_idx].as_str().as_bytes();
    let tok = token.as_bytes();
    let ghost b = bytes@;
    let ghost t = tok@;
    assert(b == encode_utf8(lines_spec(content@)[line_idx as int]));
    assert(t.len() > 0) by {
        assert(encode_utf8(token@) == vstd::utf8::encode_scalar(token@[0] as u32) + encode_utf8(
            token@.drop_first(),
        ));
    }
    if tok.len() > bytes.len() {
        return 0;
    }
    let blen = bytes.len();
    let last = blen - tok.len();
    let mut i: usize = 0;
    while i <= last
        invariant
            blen == bytes@.len(),
            last + tok@.len() == bytes@.len(),
            b == encode_utf8(lines_spec(content@)[line_idx as int]),
            t == encode_utf8(token@),
            token@.len() > 0,
            line_idx < lines_spec(content@).len(),
            line_idx == (if line >= 1 {
                line - 1
            } else {
                0
            }),
            tok@.len() > 0,
            b == bytes@,
            t == tok@,
            first_word_match(b, t, 0) == first_word_match(b, t, i as int),
        decreases last + 1 - i,
    {
        if bytes_match_at(bytes, tok, i) {
            let before_ok = i == 0 || !is_ident_byte(bytes[i - 1]);
            let after_ok = i + tok.len() == bytes.len() || !is_ident_byte(bytes[i + tok.len()]);
            if before_ok && after_ok {
                assert(word_match_at(b, t, i as int));
                assert(first_word_match(b, t, i as int) == Some(i as int));
                assert(token_col_spec(content@, line, token@) == i as u32);
                return i as u32;
            }
        }
        i = i + 1;
    }
    0
}

} // verus!

verus! {

/// The bridge name of an edge kind sent for cross-file resolution; `None`
/// for the kinds that are not.
pub open spec fn ref_kind_name(k: EdgeKind) -> Option<Seq<char>> {
    match k {
        EdgeKind::Calls => Some("calls"@),
        EdgeKind::UsesType => Some("uses_type"@),
        EdgeKind::Implements => Some("implements"@),
        _ => None,
    }
}

/// A tree-sitter edge is sent for resolution when it is a call, type use or
/// implements edge with a line, whose target is still a bare name (a target
/// with `::` was already resolved within its file).
pub open spec fn needs_resolution(e: Edge) -> bool {
    &&& ref_kind_name(e.kind) is Some
    &&& e.from_line is Some
    &&& !contains_spec(e.to@, "::"@)
}

/// A site as plain values: line, column, kind name.
pub open spec fn site_view(s: RefSite) -> (u32, u32, Seq<char>) {
    (s.line, s.col, s.kind@)
}

/// The sites sent for resolution, in edge order: one per edge that needs
/// it, at its line and at the column of its target name on that line.
pub open spec fn ref_sites_spec(content: Seq<char>, edges: Seq<Edge>) -> Seq<(u32, u32, Seq<char>)>
    decreases edges.len(),
{
    if edges.len() == 0 {
        Seq::empty()
    } else {
        let rest = ref_sites_spec(content, edges.drop_last());
        let e = edges.last();
        if needs_resolution(e) {
            let line = e.from_line->0;
            rest.push((line, token_col_spec(content, line, e.to@), ref_kind_name(e.kind)->0))
        } else {
            rest
        }
    }
}

/// The caller that owns a line: the `from` of the first edge sent for
/// resolution at that line.
pub open spec fn line_owner(edges: Seq<Edge>, line: u32) -> Option<Seq<char>>
    decreases edges.len(),
{
    if edges.len() == 0 {
        None
    } else {
        match line_owner(edges.drop_last(), line) {
            Some(f) => Some(f),
            None => {
                let e = edges.last();
                if needs_resolution(e) && e.from_line == Some(line) {
                    Some(e.from@)
                } else {
                    None
                }
            },
        }
    }
}

/// The first entry of an owner table for `line`.
pub open spec fn owner_lookup(table: Seq<(u32, String)>, line: u32) -> Option<Seq<char>>
    decreases table.len(),
{
    if table.len() == 0 {
        None
    } else if table[0].0 == line {
        Some(table[0].1@)
    } else {
        owner_lookup(table.skip(1), line)
    }
}

proof fn lemma_owner_lookup_push(table: Seq<(u32, String)>, entry: (u32, String), q: u32)
    ensures
        owner_lookup(table.push(entry), q) == (match owner_lookup(table, q) {
            Some(f) => Some(f),
            None => if entry.0 == q {
                Some(entry.1@)
            } else {
                None
            },
        }),
    decreases table.len(),
{
    if table.len() > 0 {
        assert(table.push(entry)[0] == table[0]);
        assert(table.push(entry).skip(1) =~= table.skip(1).push(entry));
        lemma_owner_lookup_push(table.skip(1), entry, q);
    } else {
        assert(table.push(entry)[0] == entry);
        assert(table.push(entry).skip(1) =~= Seq::<(u32, String)>::empty());
        assert(owner_lookup(table.push(entry).skip(1), q) is None);
    }
}

/// The owner of `line` in a table.
pub fn lookup_owner(table: &Vec<(u32, String)>, line: u32) -> (r: Option<String>)
    ensures
        r is Some <==> owner_lookup(table@, line) is Some,
        r matches Some(f) ==> owner_lookup(table@, line) == Some(f@),
{
    let mut i: usize = 0;
    assert(table@.skip(0) =~= table@);
    while i < table.len()
        invariant
            i <= table@.len(),
            owner_lookup(table@, line) == owner_lookup(table@.skip(i as int), line),
        decreases table@.len() - i,
    {
        assert(table@.skip(i as int)[0] == table@[i as int]);
        assert(table@.skip(i as int).skip(1) =~= table@.skip(i + 1));
        if table[i].0 == line {
            return Some(table[i].1.clone());
        }
        i = i + 1;
    }
    None
}

/// The bridge name of an edge kind sent for resolution.
fn ref_kind_str(k: EdgeKind) -> (r: Option<&'static str>)
    ensures
        match r {
            Some(s) => ref_kind_name(k) == Some(s@),
            None => ref_kind_name(k) is None,
        },
{
    match k {
        EdgeKind::Calls => Some("calls"),
        EdgeKind::UsesType => Some("uses_type"),
        EdgeKind::Implements => Some("implements"),
        _ => None,
    }
}

/// What is sent for cross-file resolution of a file's tree-sitter edges:
/// the sites, and the table from line to the caller that owns it.
#[derive(Debug, PartialEq, Eq)]
pub struct ResolutionRequest {
    pub sites: Vec<RefSite>,
    pub owners: Vec<(u32, String)>,
}

/// The resolution request for a file's edges: a site for each edge that
/// needs resolution (column located on its line of `content`), and for each
/// such line the `from` of the first of its edges.
pub fn collect_ref_sites(content: &str, edges: &Vec<Edge>) -> (r: ResolutionRequest)
    ensures
        r.sites@.map_values(|s: RefSite| site_view(s)) == ref_sites_spec(content@, edges@),
        forall|line: u32| #[trigger] owner_lookup(r.owners@, line) == line_owner(edges@, line),
{
    let mut sites: Vec<RefSite> = Vec::new();
    let mut owners: Vec<(u32, String)> = Vec::new();
    let mut i: usize = 0;
    while i < edges.len()
        invariant
            i <= edges@.len(),
            sites@.map_values(|s: RefSite| site_view(s)) == ref_sites_spec(content@, edges@.take(i as int)),
            forall|line: u32| #[trigger] owner_lookup(owners@, line) == line_owner(edges@.take(i as int), line),
        decreases edges@.len() - i,
    {
        let e = &edges[i];
        assert(edges@.take(i + 1).drop_last() =~= edges@.take(i as int));
        assert(edges@.take(i + 1).last() == *e);
        let kind = ref_kind_str(e.kind);
        match (kind, e.from_line) {
            (Some(kname), Some(line)) => {
                let bare = !contains_str(e.to.as_str(), "::");
                if bare {
                    let ghost before = owners@;
                    let known = lookup_owner(&owners, line);
                    if known.is_none() {
                        let entry = (line, e.from.clone());
                        owners.push(entry);
                        proof {
                            assert forall|q: u32| #[trigger] owner_lookup(owners@, q) == line_owner(
                                edges@.take(i + 1),
                                q,
                            ) by {
                                lemma_owner_lookup_push(before, entry, q);
                            }
                        }
                    }
                    let col = locate_token_col(content, line, e.to.as_str());
                    let site = RefSite { line, col, kind: crate::text::string_of(kname) };
                    let ghost sbefore = sites@;
                    sites.push(site);
                    assert(sites@.map_values(|s: RefSite| site_view(s)) =~= sbefore.map_values(
                        |s: RefSite| site_view(s),
                    ).push(site_view(site)));
                }
            },
            _ => {},
        }
        i = i + 1;
    }
    assert(edges@.take(i as int) =~= edges@);
    ResolutionRequest { sites, owners }
}

/// The caller owning a resolved reference: `None` when the reference is
/// reported for another file than the one requested, or at a line no site
/// was sent for.
pub fn resolved_ref_owner(path: &str, r: &RawResolvedRef, owners: &Vec<(u32, String)>) -> (o: Option<String>)
    ensures
        r.from_path@ != path@ ==> o is None,
        r.from_path@ == path@ ==> (o is Some <==> owner_lookup(owners@, r.from_line) is Some),
        o matches Some(f) ==> owner_lookup(owners@, r.from_line) == Some(f@),
{
    if !str_eq(r.from_path.as_str(), path) {
        return None;
    }
    lookup_owner(owners, r.from_line)
}

/// The edge kind of a resolved reference's kind name (the three kinds sent
/// for resolution).
pub open spec fn resolved_kind(k: Seq<char>) -> Option<EdgeKind> {
    if k == "calls"@ {
        Some(EdgeKind::Calls)
    } else if k == "uses_type"@ {
        Some(EdgeKind::UsesType)
    } else if k == "implements"@ {
        Some(EdgeKind::Implements)
    } else {
        None
    }
}

/// Law: a reference sent for resolution comes back as an edge of the kind
/// it was sent with: the bridge name of a call, type use or implements edge
/// is its relationship type in lower case, it is read back as that same
/// kind, and the bridge's own edge names read it the same way.
pub proof fn resolved_kind_round_trip(k: EdgeKind)
    ensures
        ref_kind_name(k) is Some ==> ref_kind_name(k)->Some_0 == edge_kind_label(k).map_values(
            |c: char| crate::models::ascii_lower(c),
        ),
        ref_kind_name(k) is Some ==> resolved_kind(ref_kind_name(k)->Some_0) == Some(k),
        ref_kind_name(k) is Some ==> crate::lsp::bridge_edge_kind(ref_kind_name(k)->Some_0) == Some(k),
        resolved_kind("calls"@) == Some(EdgeKind::Calls),
        resolved_kind("uses_type"@) == Some(EdgeKind::UsesType),
        resolved_kind("implements"@) == Some(EdgeKind::Implements),
{
    reveal_strlit("calls");
    reveal_strlit("uses_type");
    reveal_strlit("implements");
    reveal_strlit("CALLS");
    reveal_strlit("USES_TYPE");
    reveal_strlit("IMPLEMENTS");
    assert("CALLS"@.map_values(|c: char| crate::models::ascii_lower(c)) =~= "calls"@);
    assert("USES_TYPE"@.map_values(|c: char| crate::models::ascii_lower(c)) =~= "uses_type"@);
    assert("IMPLEMENTS"@.map_values(|c: char| crate::models::ascii_lower(c)) =~= "implements"@);
    assert("uses_type"@.len() != "calls"@.len());
    assert("implements"@.len() != "calls"@.len());
    assert("implements"@.len() != "uses_type"@.len());
}

/// The LSP edge for a resolved reference, from its owner to the qualified
/// name of the symbol holding the definition; `None` for a kind that is not
/// one of those sent.
pub fn resolved_edge(owner: &str, to_qname: &str, r: &RawResolvedRef) -> (e: Option<Edge>)
    ensures
        resolved_kind(r.kind@) is None ==> e is None,
        resolved_kind(r.kind@) matches Some(k) ==> (e matches Some(edge) && edge_view(edge) == (
            owner@,
            to_qname@,
            k,
            EdgeSource::Lsp,
            Some(r.from_line),
        )),
{
    let kind = if str_eq(r.kind.as_str(), "calls") {
        EdgeKind::Calls
    } else if str_eq(r.kind.as_str(), "uses_type") {
        EdgeKind::UsesType
    } else if str_eq(r.kind.as_str(), "implements") {
        EdgeKind::Implements
    } else {
        return None;
    };
    Some(
        Edge {
            from: crate::text::string_of(owner),
            to: crate::text::string_of(to_qname),
            kind,
            source: EdgeSource::Lsp,
            from_line: Some(r.from_line),
        },
    )
}

/// A stored description is stale when it was written for another body
/// hash than the current one.
pub fn is_stale(stored_source_hash: Option<&str>, new_hash: &str) -> (r: bool)
    ensures
        r == (stored_source_hash matches Some(h) && h@ != new_hash@),
{
    match stored_source_hash {
        Some(h) => !str_eq(h, new_hash),
        None => false,
    }
}

} // verus!

verus! {

/// Texts are embedded in batches of this many.
pub const EMBED_BATCH: usize = 32;

/// The message of an embedder that returned another number of vectors than
/// texts it was given.
pub open spec fn count_mismatch_message(expected: nat, got: nat) -> Seq<char> {
    "expected "@ + decimal_spec(expected) + " embeddings, got "@ + decimal_spec(got)
}

/// Checks that an embedder returned one vector per text: a model error
/// naming the provider otherwise.
pub fn check_embedding_count(provider: &str, expected: usize, got: usize) -> (r: Result<(), MycelError>)
    ensures
        r is Ok <==> expected == got,
        r matches Err(e) ==> (e matches MycelError::Model { provider: p, message: m } && p@ == provider@
            && m@ == count_mismatch_message(expected as nat, got as nat)),
{
    if expected == got {
        return Ok(());
    }
    let mut message = string_of("expected ");
    push_decimal(&mut message, expected as u64);
    push_str(&mut message, " embeddings, got ");
    push_decimal(&mut message, got as u64);
    Err(MycelError::Model { provider: string_of(provider), message })
}

/// The batches `[start, end)` in which `n` texts are embedded: consecutive
/// runs of `EMBED_BATCH` from the first, the last one possibly shorter.
pub fn embed_batches(n: usize) -> (r: Vec<(usize, usize)>)
    ensures
        forall|k: int|
            0 <= k < r@.len() ==> (#[trigger] r@[k]).0 == EMBED_BATCH * k && r@[k].1 == (if EMBED_BATCH * k
                + EMBED_BATCH <= n {
                EMBED_BATCH * k + EMBED_BATCH
            } else {
                n as int
            }),
        r@.len() * EMBED_BATCH >= n,
        r@.len() == 0 || EMBED_BATCH * (r@.len() - 1) < n,
{
    let mut out: Vec<(usize, usize)> = Vec::new();
    let mut start: usize = 0;
    while start < n
        invariant
            start == (if EMBED_BATCH * out@.len() <= n {
                EMBED_BATCH * out@.len()
            } else {
                n as int
            }),
            start <= n,
            out@.len() == 0 || EMBED_BATCH * (out@.len() - 1) < n,
            forall|k: int|
                0 <= k < out@.len() ==> (#[trigger] out@[k]).0 == EMBED_BATCH * k && out@[k].1 == (if EMBED_BATCH
                    * k + EMBED_BATCH <= n {
                    EMBED_BATCH * k + EMBED_BATCH
                } else {
                    n as int
                }),
        decreases n - start,
    {
        let end = if n - start >= EMBED_BATCH {
            start + EMBED_BATCH
        } else {
            n
        };
        out.push((start, end));
        start = end;
    }
    out
}

/// Paths under build output, dependencies or version control are not indexed.
pub open spec fn excluded_path_spec(path: Seq<char>) -> bool {
    contains_spec(path, "/target/"@) || contains_spec(path, "/node_modules/"@) || contains_spec(path, "/.git/"@)
}

/// Whether a path lies under `target/`, `node_modules/` or `.git/`.
pub fn excluded_path(path: &str) -> (r: bool)
    ensures
        r == excluded_path_spec(path@),
{
    contains_str(path, "/target/") || contains_str(path, "/node_modules/") || contains_str(path, "/.git/")
}

/// The qualified names of symbols.
pub open spec fn qnames_of(symbols: Seq<Symbol>) -> Seq<Seq<char>> {
    symbols.map_values(|s: Symbol| s.qualified_name@)
}

/// The target of an edge after same-file resolution: a bare target of a
/// call, type use or implements edge that names a symbol of the same file
/// becomes that symbol's qualified name `<path>::<name>`.
pub open spec fn same_file_target(path: Seq<char>, qnames: Seq<Seq<char>>, e: Edge) -> Seq<char> {
    let q = path + "::"@ + e.to@;
    if ref_kind_name(e.kind) is Some && !contains_spec(e.to@, "::"@) && qnames.contains(q) {
        q
    } else {
        e.to@
    }
}

fn has_qname(symbols: &Vec<Symbol>, q: &str) -> (r: bool)
    ensures
        r == qnames_of(symbols@).contains(q@),
{
    let mut i: usize = 0;
    while i < symbols.len()
        invariant
            i <= symbols@.len(),
            forall|j: int| 0 <= j < i ==> symbols@[j].qualified_name@ != q@,
        decreases symbols@.len() - i,
    {
        if str_eq(symbols[i].qualified_name.as_str(), q) {
            assert(qnames_of(symbols@)[i as int] == q@);
            return true;
        }
        i = i + 1;
    }
    assert forall|j: int| 0 <= j < qnames_of(symbols@).len() implies qnames_of(symbols@)[j] != q@ by {}
    false
}

/// Rewrites the bare targets of a file's edges that name a symbol of the
/// same file to that symbol's qualified name. Tree-sitter has no symbol
/// table; this lets same-file edges land, and leaves the rest to LSP.
pub fn resolve_same_file_edges(path: &str, edges: &mut Vec<Edge>, symbols: &Vec<Symbol>)
    ensures
        final(edges)@.len() == old(edges)@.len(),
        forall|i: int|
            0 <= i < old(edges)@.len() ==> edge_view(#[trigger] final(edges)@[i]) == (
                old(edges)@[i].from@,
                same_file_target(path@, qnames_of(symbols@), old(edges)@[i]),
                old(edges)@[i].kind,
                old(edges)@[i].source,
                old(edges)@[i].from_line,
            ),
{
    let ghost orig = edges@;
    let mut out: Vec<Edge> = Vec::new();
    let mut i: usize = 0;
    while i < edges.len()
        invariant
            edges@ == orig,
            i <= orig.len(),
            out@.len() == i,
            forall|j: int|
                0 <= j < i ==> edge_view(#[trigger] out@[j]) == (
                    orig[j].from@,
                    same_file_target(path@, qnames_of(symbols@), orig[j]),
                    orig[j].kind,
                    orig[j].source,
                    orig[j].from_line,
                ),
        decreases orig.len() - i,
    {
        let e = &edges[i];
        let mut q = string_of(path);
        push_str(&mut q, "::");
        push_str(&mut q, e.to.as_str());
        let resolvable = ref_kind_str(e.kind).is_some() && !contains_str(e.to.as_str(), "::")
            && has_qname(symbols, q.as_str());
        let to = if resolvable {
            q
        } else {
            e.to.clone()
        };
        out.push(Edge { from: e.from.clone(), to, kind: e.kind, source: e.source, from_line: e.from_line });
        i = i + 1;
    }
    *edges = out;
}

} // verus!

verus! {

/// The value of the first pair whose key is `key`.
pub open spec fn pair_lookup(table: Seq<(String, String)>, key: Seq<char>) -> Option<Seq<char>>
    decreases table.len(),
{
    if table.len() == 0 {
        None
    } else if table[0].0@ == key {
        Some(table[0].1@)
    } else {
        pair_lookup(table.skip(1), key)
    }
}

/// Whether a symbol's description must be cleared and re-embedded: the
/// stored description source hash listed for it (if any) differs from its
/// new body hash.
pub fn description_stale(stored: &Vec<(String, String)>, qname: &str, new_hash: &str) -> (r: bool)
    ensures
        r == (pair_lookup(stored@, qname@) matches Some(h) && h != new_hash@),
{
    let mut i: usize = 0;
    assert(stored@.skip(0) =~= stored@);
    while i < stored.len()
        invariant
            i <= stored@.len(),
            pair_lookup(stored@, qname@) == pair_lookup(stored@.skip(i as int), qname@),
        decreases stored@.len() - i,
    {
        assert(stored@.skip(i as int)[0] == stored@[i as int]);
        assert(stored@.skip(i as int).skip(1) =~= stored@.skip(i + 1));
        if str_eq(stored[i].0.as_str(), qname) {
            return is_stale(Some(stored[i].1.as_str()), new_hash);
        }
        i = i + 1;
    }
    false
}

} // verus!
