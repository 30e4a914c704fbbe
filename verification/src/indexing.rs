//! Indexing one file, as a state machine. Each step takes the state and
//! what the last action gave, decides, and names the next action: a lookup
//! or write in the graph, a resolution request to the language server, an
//! embedding request, a file read, or the end. Whoever runs the machine
//! performs the actions and hands back their results; every decision is
//! made here.
use vstd::prelude::*;
use crate::body_slice::{content_hash, signature_plus_body_slice, text_hash, BodySlice, FileCache};
use crate::edge::{Edge, EdgeSource};
use crate::error::MycelError;
use crate::extract::{
    extracted_by, extractor_kind_for, names_from, for_language, kind_language, path_extension,
    ExtractionOutput,
};
use crate::lsp::{edge_view, EdgeView, RawResolvedRef, RefSite};
use crate::pipeline::{
    check_embedding_count, collect_ref_sites, description_stale, embed_batches, file_unchanged, pair_lookup,
    qnames_of, resolve_same_file_edges, resolved_edge, resolved_ref_owner, same_file_target, unchanged_spec,
    EMBED_BATCH,
};
use crate::symbol::Symbol;
use crate::syntax::extract_error;
use crate::text::string_of;

verus! {

/// Where a file's indexing stands: which result it waits for.
#[derive(Clone, Copy, Debug, PartialEq, Eq, Structural)]
pub enum IndexPhase {
    Start,
    AwaitStoredHash,
    AwaitStoredVersion,
    AwaitRefs,
    AwaitContaining,
    AwaitPrune,
    AwaitUpsertSymbols,
    AwaitFileRead,
    AwaitDescriptionHashes,
    AwaitEmbeddings,
    AwaitSymbolWrite,
    AwaitFileRecord,
    Finished,
}

/// What the last action gave.
#[derive(Debug)]
pub enum IndexEvent {
    /// Nothing yet: the first step.
    Begin,
    /// The content hash stored for the file, if any.
    StoredHash(Option<String>),
    /// The extractor version stored for the file, if any.
    StoredVersion(Option<u32>),
    /// The language server's resolved references, or why it failed.
    Refs(Result<Vec<RawResolvedRef>, MycelError>),
    /// The qualified name of the symbol holding a definition, or why the
    /// lookup failed.
    Containing(Result<Option<String>, MycelError>),
    /// A graph write went through.
    Done,
    /// A source file's text, or `None` when it could not be read.
    FileRead(Option<String>),
    /// The stored description source hashes, by qualified name.
    DescriptionHashes(Vec<(String, String)>),
    /// How many vectors the embedder returned for a batch.
    Embedded(usize),
    /// A graph call or the embedder failed.
    Failed(MycelError),
}

/// The next thing to do.
#[derive(Debug)]
pub enum IndexAction {
    /// Look up the file's stored content hash.
    LookupStoredHash,
    /// Look up the file's stored extractor version.
    LookupStoredVersion,
    /// Ask the language server to resolve these sites (for `language`).
    ResolveRefs(Vec<RefSite>),
    /// Look up the symbol containing a line of a file.
    LookupContaining { to_path: String, to_line: u32 },
    /// Remove the file's symbols whose qualified names are not in `kept`.
    PruneStale,
    /// Write the extracted `symbols`.
    UpsertSymbols,
    /// Read a source file.
    ReadFile(String),
    /// Look up the stored description source hashes of `kept`.
    LookupDescriptionHashes,
    /// Embed the texts of `prepared[start..end]`.
    Embed { start: usize, end: usize },
    /// Write the embedding and body hash of symbol `index` (its vector is
    /// the `index`-th one returned), clearing its description first when
    /// `clear_description`.
    WriteEmbedding { index: usize, clear_description: bool },
    /// Write the file record: language, content hash, extractor version.
    UpsertFileRecord,
    /// Indexing is over: `None` when the file was skipped, else the edges
    /// for the caller to write.
    Finish(Option<Vec<Edge>>),
    /// Indexing failed.
    Fail(MycelError),
}

/// A file's indexing in progress.
pub struct IndexState {
    pub phase: IndexPhase,
    /// Whether references are sent to a language server.
    pub lsp_enabled: bool,
    /// The embedder's identity, for its errors.
    pub provider: String,
    /// The content hash of the file.
    pub hash: String,
    /// The content hash stored for the file.
    pub stored_hash: Option<String>,
    /// The extractor's language name.
    pub language: String,
    /// The extracted symbols.
    pub symbols: Vec<Symbol>,
    /// The edges collected so far.
    pub edges: Vec<Edge>,
    /// From line to the caller owning it, for resolved references.
    pub owners: Vec<(u32, String)>,
    /// The references the language server resolved.
    pub refs: Vec<RawResolvedRef>,
    /// The reference being looked up.
    pub next_ref: usize,
    /// The caller owning that reference.
    pub pending_owner: String,
    /// The qualified names of the symbols.
    pub kept: Vec<String>,
    /// The source files read for body slices.
    pub cache: FileCache,
    /// The embedding input of the first symbols.
    pub prepared: Vec<BodySlice>,
    /// The stored description source hashes.
    pub stored_descriptions: Vec<(String, String)>,
    /// The embedding batches.
    pub batches: Vec<(usize, usize)>,
    /// The batch being embedded.
    pub next_batch: usize,
    /// How many vectors have come back.
    pub embedded: usize,
    /// How many symbols' embeddings have been written.
    pub written: usize,
    /// Whether the symbols have been written.
    pub symbols_upserted: bool,
    /// What the extractor gave, once the file has been extracted.
    pub extraction: Ghost<Option<ExtractionOutput>>,
}

/// `b` are the embedding batches of `n` texts (see `embed_batches`).
pub open spec fn batches_cover(b: Seq<(usize, usize)>, n: nat) -> bool {
    &&& forall|k: int|
        0 <= k < b.len() ==> (#[trigger] b[k]).0 == EMBED_BATCH * k && b[k].1 == (if EMBED_BATCH * k + EMBED_BATCH
            <= n {
            EMBED_BATCH * k + EMBED_BATCH
        } else {
            n as int
        })
    &&& b.len() * EMBED_BATCH >= n
    &&& b.len() == 0 || EMBED_BATCH * (b.len() - 1) < n
}

/// Whether symbol `k`'s description must be cleared: its stored source hash
/// differs from its new body hash.
pub open spec fn clears_description(s: IndexState, k: int) -> bool {
    pair_lookup(s.stored_descriptions@, s.symbols@[k].qualified_name@) matches Some(h) && h != s.prepared@[k].hash@
}

impl IndexState {
    /// What every phase after the symbol write has done already: the symbols
    /// are written, the embeddings come in order, and the file record is
    /// due only once every symbol's embedding is written.
    pub open spec fn wf(&self) -> bool {
        &&& self.phase == IndexPhase::AwaitFileRead ==> self.symbols_upserted && self.prepared@.len()
            < self.symbols@.len()
        &&& self.phase == IndexPhase::AwaitDescriptionHashes ==> self.symbols_upserted && self.prepared@.len()
            == self.symbols@.len()
        &&& self.phase == IndexPhase::AwaitEmbeddings ==> {
            &&& self.symbols_upserted
            &&& self.prepared@.len() == self.symbols@.len()
            &&& batches_cover(self.batches@, self.prepared@.len())
            &&& self.next_batch < self.batches@.len()
            &&& self.embedded == EMBED_BATCH * self.next_batch
        }
        &&& self.phase == IndexPhase::AwaitSymbolWrite ==> {
            &&& self.symbols_upserted
            &&& self.prepared@.len() == self.symbols@.len()
            &&& self.embedded == self.symbols@.len()
            &&& self.written < self.symbols@.len()
        }
        &&& self.phase == IndexPhase::AwaitFileRecord ==> {
            &&& self.symbols_upserted
            &&& self.written == self.symbols@.len()
            &&& self.embedded == self.symbols@.len()
        }
    }

    /// The state before the first step.
    pub fn new(lsp_enabled: bool, provider: &str) -> (s: IndexState)
        ensures
            s.phase == IndexPhase::Start,
            s.lsp_enabled == lsp_enabled,
            s.provider@ == provider@,
            s.wf(),
    {
        IndexState {
            phase: IndexPhase::Start,
            lsp_enabled,
            provider: string_of(provider),
            hash: String::new(),
            stored_hash: None,
            language: String::new(),
            symbols: Vec::new(),
            edges: Vec::new(),
            owners: Vec::new(),
            refs: Vec::new(),
            next_ref: 0,
            pending_owner: String::new(),
            kept: Vec::new(),
            cache: FileCache::new(),
            prepared: Vec::new(),
            stored_descriptions: Vec::new(),
            batches: Vec::new(),
            next_batch: 0,
            embedded: 0,
            written: 0,
            symbols_upserted: false,
            extraction: Ghost(None),
        }
    }
}

/// A stored hash as plain text.
pub open spec fn opt_view(o: Option<String>) -> Option<Seq<char>> {
    match o {
        Some(s) => Some(s@),
        None => None,
    }
}

/// The step at which the stored record shows the file unchanged.
pub open spec fn unchanged_step(state: IndexState, event: IndexEvent) -> bool {
    state.phase == IndexPhase::AwaitStoredVersion && event is StoredVersion && unchanged_spec(
        opt_view(state.stored_hash),
        state.hash@,
        event->StoredVersion_0,
    )
}

/// The step at which the file is due for extraction: no stored record, or
/// one that does not match.
pub open spec fn extraction_step(state: IndexState, event: IndexEvent) -> bool {
    ||| state.phase == IndexPhase::AwaitStoredHash && event is StoredHash && event->StoredHash_0 is None
    ||| state.phase == IndexPhase::AwaitStoredVersion && event is StoredVersion && !unchanged_spec(
        opt_view(state.stored_hash),
        state.hash@,
        event->StoredVersion_0,
    )
}

/// The step at which the file is skipped: unchanged since it was last
/// indexed, or due for extraction with no extractor for its extension.
pub open spec fn skip_step(state: IndexState, event: IndexEvent, path: Seq<char>) -> bool {
    unchanged_step(state, event) || (extraction_step(state, event) && extractor_kind_for(path_extension(path))
        is None)
}

/// The actions that change the graph.
pub open spec fn is_write(a: IndexAction) -> bool {
    a is PruneStale || a is UpsertSymbols || a is WriteEmbedding || a is UpsertFileRecord
}

/// The phases after the file has been extracted.
pub open spec fn after_extraction(p: IndexPhase) -> bool {
    p != IndexPhase::Start && p != IndexPhase::AwaitStoredHash && p != IndexPhase::AwaitStoredVersion && p
        != IndexPhase::Finished
}

/// The phases from pruning on, when the kept names are known.
pub open spec fn from_pruning(p: IndexPhase) -> bool {
    after_extraction(p) && p != IndexPhase::AwaitRefs && p != IndexPhase::AwaitContaining
}

/// The event each phase waits for.
pub open spec fn event_fits(p: IndexPhase, e: IndexEvent) -> bool {
    match p {
        IndexPhase::Start => true,
        IndexPhase::AwaitStoredHash => e is StoredHash,
        IndexPhase::AwaitStoredVersion => e is StoredVersion,
        IndexPhase::AwaitRefs => e is Refs,
        IndexPhase::AwaitContaining => e is Containing,
        IndexPhase::AwaitPrune => e is Done,
        IndexPhase::AwaitUpsertSymbols => e is Done,
        IndexPhase::AwaitFileRead => e is FileRead,
        IndexPhase::AwaitDescriptionHashes => e is DescriptionHashes,
        IndexPhase::AwaitEmbeddings => e is Embedded,
        IndexPhase::AwaitSymbolWrite => e is Done,
        IndexPhase::AwaitFileRecord => e is Done,
        IndexPhase::Finished => false,
    }
}

/// An extracted edge after same-file resolution, as plain values.
pub open spec fn resolved_view(path: Seq<char>, symbols: Seq<Symbol>, e: Edge) -> EdgeView {
    (e.from@, same_file_target(path, qnames_of(symbols), e), e.kind, e.source, e.from_line)
}

/// What the state holds of the extraction of `path`: the extractor for its
/// extension gave `out`; the symbols are `out`'s; the edges begin with
/// `out`'s edges after same-file resolution, and every later one came from
/// the language server; the language is the extractor's; every symbol is
/// named from text of `content`.
pub open spec fn extraction_held(s: IndexState, path: Seq<char>, content: Seq<char>) -> bool {
    &&& s.extraction@ is Some
    &&& names_from(s.extraction@->Some_0, path, content)
    &&& extractor_kind_for(path_extension(path)) is Some
    &&& extracted_by(s.extraction@->Some_0, extractor_kind_for(path_extension(path))->Some_0, path)
    &&& s.language@ == kind_language(extractor_kind_for(path_extension(path))->Some_0)
    &&& s.symbols@ == s.extraction@->Some_0.symbols@
    &&& s.extraction@->Some_0.edges@.len() <= s.edges@.len()
    &&& forall|i: int|
        0 <= i < s.extraction@->Some_0.edges@.len() ==> edge_view(#[trigger] s.edges@[i]) == resolved_view(
            path,
            s.symbols@,
            s.extraction@->Some_0.edges@[i],
        )
    &&& forall|i: int|
        s.extraction@->Some_0.edges@.len() <= i < s.edges@.len() ==> (#[trigger] s.edges@[i]).source
            == EdgeSource::Lsp
}

/// The kept names are the symbols' qualified names, in order.
pub open spec fn kept_held(s: IndexState) -> bool {
    &&& s.kept@.len() == s.symbols@.len()
    &&& forall|j: int| 0 <= j < s.kept@.len() ==> (#[trigger] s.kept@[j])@ == s.symbols@[j].qualified_name@
}

/// A state of the indexing of `path` with text `content`: well formed,
/// holding the content hash once begun, and, once extracted, what the
/// extraction gave.
pub open spec fn consistent(s: IndexState, path: Seq<char>, content: Seq<char>) -> bool {
    &&& s.wf()
    &&& s.phase != IndexPhase::Start && s.phase != IndexPhase::Finished ==> s.hash@ == text_hash(content)
    &&& after_extraction(s.phase) ==> extraction_held(s, path, content)
    &&& from_pruning(s.phase) ==> kept_held(s)
}

/// Two states agree on what was extracted, kept and hashed.
pub open spec fn core_same(a: IndexState, b: IndexState) -> bool {
    &&& a.symbols == b.symbols
    &&& a.edges == b.edges
    &&& a.extraction == b.extraction
    &&& a.kept == b.kept
    &&& a.hash == b.hash
    &&& a.language == b.language
    &&& a.lsp_enabled == b.lsp_enabled
}

/// What a step's result must satisfy whatever the step: the state stays
/// well formed, the file record is due only in its phase, and each
/// embedding write is for the next symbol with the stale check applied.
pub open spec fn step_result_ok(r: (IndexState, IndexAction)) -> bool {
    &&& r.0.wf()
    &&& r.1 is UpsertFileRecord ==> r.0.phase == IndexPhase::AwaitFileRecord
    &&& r.1 is WriteEmbedding ==> {
        &&& r.0.phase == IndexPhase::AwaitSymbolWrite
        &&& r.1->index == r.0.written
        &&& r.1->clear_description == clears_description(r.0, r.0.written as int)
    }
}

fn out_of_order(mut state: IndexState) -> (r: (IndexState, IndexAction))
    ensures
        step_result_ok(r),
        r.1 is Fail,
        r.0.phase == IndexPhase::Finished,
        r.0.hash == state.hash,
{
    state.phase = IndexPhase::Finished;
    (state, IndexAction::Fail(MycelError::Graph(string_of("indexing step out of order"))))
}

fn begin_prune(mut state: IndexState) -> (r: (IndexState, IndexAction))
    ensures
        step_result_ok(r),
        r.1 is PruneStale,
        r.0.phase == IndexPhase::AwaitPrune,
        kept_held(r.0),
        r.0.symbols == state.symbols,
        r.0.edges == state.edges,
        r.0.extraction == state.extraction,
        r.0.hash == state.hash,
        r.0.language == state.language,
        r.0.lsp_enabled == state.lsp_enabled,
{
    let mut kept: Vec<String> = Vec::new();
    let mut i: usize = 0;
    while i < state.symbols.len()
        invariant
            i <= state.symbols@.len(),
            kept@.len() == i,
            forall|j: int| 0 <= j < i ==> (#[trigger] kept@[j])@ == state.symbols@[j].qualified_name@,
        decreases state.symbols@.len() - i,
    {
        kept.push(string_of(state.symbols[i].qualified_name.as_str()));
        i = i + 1;
    }
    state.kept = kept;
    state.phase = IndexPhase::AwaitPrune;
    (state, IndexAction::PruneStale)
}

fn advance_refs(path: &str, state: IndexState) -> (r: (IndexState, IndexAction))
    ensures
        step_result_ok(r),
        r.1 is LookupContaining ==> r.0.phase == IndexPhase::AwaitContaining && core_same(r.0, state),
        r.1 is PruneStale ==> r.0.phase == IndexPhase::AwaitPrune && kept_held(r.0) && r.0.symbols
            == state.symbols && r.0.edges == state.edges && r.0.extraction == state.extraction && r.0.hash
            == state.hash && r.0.language == state.language,
        r.1 is LookupContaining || r.1 is PruneStale,
{
    let mut i: usize = state.next_ref;
    while i < state.refs.len()
        decreases state.refs@.len() - i,
    {
        match resolved_ref_owner(path, &state.refs[i], &state.owners) {
            Some(o) => {
                let to_path = state.refs[i].to_path.clone();
                let to_line = state.refs[i].to_line;
                let mut s = state;
                s.next_ref = i;
                s.pending_owner = o;
                s.phase = IndexPhase::AwaitContaining;
                return (s, IndexAction::LookupContaining { to_path, to_line });
            },
            None => {},
        }
        i = i + 1;
    }
    begin_prune(state)
}

fn begin_extraction(path: &str, content: &str, mut state: IndexState) -> (r: (IndexState, IndexAction))
    ensures
        step_result_ok(r),
        r.1 is Finish ==> r.1->Finish_0 is None,
        (r.1 is Finish) <==> extractor_kind_for(path_extension(path@)) is None,
        r.1 matches IndexAction::Fail(e) ==> extract_error(e, path@),
        r.1 is Finish || r.1 is Fail ==> r.0.phase == IndexPhase::Finished,
        r.1 is Finish || r.1 is Fail || r.1 is ResolveRefs || r.1 is PruneStale,
        r.1 is ResolveRefs ==> state.lsp_enabled && r.0.phase == IndexPhase::AwaitRefs,
        r.1 is PruneStale ==> r.0.phase == IndexPhase::AwaitPrune && kept_held(r.0),
        r.1 is ResolveRefs || r.1 is PruneStale ==> extraction_held(r.0, path@, content@),
        r.0.hash == state.hash,
{
    let extractor = match for_language(path) {
        Some(x) => x,
        None => {
            state.phase = IndexPhase::Finished;
            return (state, IndexAction::Finish(None));
        },
    };
    let out = match extractor.extract(path, content) {
        Ok(o) => o,
        Err(e) => {
            state.phase = IndexPhase::Finished;
            return (state, IndexAction::Fail(e));
        },
    };
    let ghost out_g = out;
    let symbols = out.symbols;
    let mut edges = out.edges;
    resolve_same_file_edges(path, &mut edges, &symbols);
    state.language = string_of(extractor.language_name());
    state.symbols = symbols;
    state.symbols_upserted = false;
    state.extraction = Ghost(Some(out_g));
    if state.lsp_enabled {
        let request = collect_ref_sites(content, &edges);
        state.edges = edges;
        assert(extraction_held(state, path@, content@));
        if request.sites.len() > 0 {
            state.owners = request.owners;
            state.phase = IndexPhase::AwaitRefs;
            return (state, IndexAction::ResolveRefs(request.sites));
        }
    } else {
        state.edges = edges;
        assert(extraction_held(state, path@, content@));
    }
    begin_prune(state)
}

fn advance_write(mut state: IndexState) -> (r: (IndexState, IndexAction))
    requires
        state.symbols_upserted,
        state.prepared@.len() == state.symbols@.len(),
        state.embedded == state.symbols@.len(),
        state.written <= state.symbols@.len(),
    ensures
        step_result_ok(r),
        r.1 is WriteEmbedding || r.1 is UpsertFileRecord,
        r.0.written == state.written,
        core_same(r.0, state),
        r.1 is WriteEmbedding ==> r.0.phase == IndexPhase::AwaitSymbolWrite,
        r.1 is UpsertFileRecord ==> r.0.phase == IndexPhase::AwaitFileRecord,
{
    if state.written < state.symbols.len() {
        let k = state.written;
        let clear = description_stale(
            &state.stored_descriptions,
            state.symbols[k].qualified_name.as_str(),
            state.prepared[k].hash.as_str(),
        );
        state.phase = IndexPhase::AwaitSymbolWrite;
        (state, IndexAction::WriteEmbedding { index: k, clear_description: clear })
    } else {
        state.phase = IndexPhase::AwaitFileRecord;
        (state, IndexAction::UpsertFileRecord)
    }
}

fn advance_embed(mut state: IndexState) -> (r: (IndexState, IndexAction))
    requires
        state.symbols_upserted,
        state.prepared@.len() == state.symbols@.len(),
        batches_cover(state.batches@, state.prepared@.len()),
        state.next_batch <= state.batches@.len(),
        state.next_batch < state.batches@.len() ==> state.embedded == EMBED_BATCH * state.next_batch,
        state.next_batch == state.batches@.len() ==> state.embedded == state.prepared@.len(),
    ensures
        step_result_ok(r),
        r.1 is Embed || r.1 is WriteEmbedding || r.1 is UpsertFileRecord,
        core_same(r.0, state),
        after_extraction(r.0.phase),
        from_pruning(r.0.phase),
{
    if state.next_batch < state.batches.len() {
        let (start, end) = state.batches[state.next_batch];
        state.phase = IndexPhase::AwaitEmbeddings;
        (state, IndexAction::Embed { start, end })
    } else {
        state.written = 0;
        advance_write(state)
    }
}

fn advance_prepare(state0: IndexState) -> (r: (IndexState, IndexAction))
    requires
        state0.symbols_upserted,
        state0.prepared@.len() <= state0.symbols@.len(),
    ensures
        step_result_ok(r),
        r.1 is ReadFile || r.1 is LookupDescriptionHashes,
        core_same(r.0, state0),
        r.1 is ReadFile ==> r.0.phase == IndexPhase::AwaitFileRead,
        r.1 is LookupDescriptionHashes ==> r.0.phase == IndexPhase::AwaitDescriptionHashes,
{
    let mut state = state0;
    while state.prepared.len() < state.symbols.len()
        invariant
            state.symbols_upserted,
            state.prepared@.len() <= state.symbols@.len(),
            core_same(state, state0),
        decreases state.symbols@.len() - state.prepared@.len(),
    {
        let k = state.prepared.len();
        if !state.cache.contains(state.symbols[k].file_path.as_str()) {
            let p = state.symbols[k].file_path.clone();
            state.phase = IndexPhase::AwaitFileRead;
            return (state, IndexAction::ReadFile(p));
        }
        let s = signature_plus_body_slice(
            &state.cache,
            state.symbols[k].signature.as_str(),
            state.symbols[k].file_path.as_str(),
            state.symbols[k].start_line,
            state.symbols[k].end_line,
        );
        state.prepared.push(s);
    }
    state.phase = IndexPhase::AwaitDescriptionHashes;
    (state, IndexAction::LookupDescriptionHashes)
}

proof fn lemma_batches_len(a: Seq<(usize, usize)>, b: Seq<(usize, usize)>, n: nat)
    requires
        batches_cover(a, n),
        batches_cover(b, n),
    ensures
        a.len() == b.len(),
{
}

/// One step of indexing file `path` with text `content`: from the state and
/// what the last action gave, the next state and action.
///
/// The first step asks for the stored content hash, and the file's stored
/// extractor version follows when there is one; nothing is written until the
/// file is due for extraction. The file is skipped (`Finish(None)`) exactly
/// at the step where its stored record shows it unchanged, or where it is
/// due for extraction and no extractor handles its extension. Otherwise the
/// extractor's symbols are kept as they are and its edges after same-file
/// resolution, with edges found by the language server appended; stale
/// symbols are pruned, the symbols written, then each symbol's embedding in
/// order, then the file record with the content hash, and only once that
/// write went through does it finish with the collected edges. It fails
/// only on a reported failure, an extraction error, an embedder that
/// returned another number of vectors than texts, or an event that does not
/// fit the state.
pub fn index_file_step(path: &str, content: &str, state: IndexState, event: IndexEvent) -> (r: (
    IndexState,
    IndexAction,
))
    ensures
        state.wf() ==> r.0.wf(),
        consistent(state, path@, content@) ==> consistent(r.0, path@, content@),
        (r.1 is Finish && r.1->Finish_0 is None) <==> skip_step(state, event, path@),
        r.1 is Finish && r.1->Finish_0 is Some ==> {
            &&& state.phase == IndexPhase::AwaitFileRecord
            &&& event is Done
            &&& r.1->Finish_0->Some_0@ == state.edges@
        },
        consistent(state, path@, content@) && r.1 is Finish && r.1->Finish_0 is Some ==> {
            &&& state.symbols_upserted
            &&& state.written == state.symbols@.len()
            &&& state.embedded == state.symbols@.len()
            &&& state.hash@ == text_hash(content@)
            &&& extraction_held(state, path@, content@)
        },
        state.phase == IndexPhase::Start && !(event is Failed) ==> r.1 is LookupStoredHash && r.0.phase
            == IndexPhase::AwaitStoredHash,
        state.phase == IndexPhase::AwaitStoredHash && event is StoredHash && event->StoredHash_0 is Some
            ==> r.1 is LookupStoredVersion && r.0.phase == IndexPhase::AwaitStoredVersion,
        is_write(r.1) ==> after_extraction(state.phase) || (extraction_step(state, event) && extractor_kind_for(
            path_extension(path@),
        ) is Some),
        r.1 is ResolveRefs ==> extraction_step(state, event) && state.lsp_enabled,
        r.1 is PruneStale ==> r.0.phase == IndexPhase::AwaitPrune,
        r.1 is UpsertSymbols ==> r.0.phase == IndexPhase::AwaitUpsertSymbols,
        r.1 is UpsertFileRecord ==> r.0.phase == IndexPhase::AwaitFileRecord,
        r.1 is WriteEmbedding ==> {
            &&& r.0.phase == IndexPhase::AwaitSymbolWrite
            &&& r.1->index == r.0.written
            &&& r.1->clear_description == clears_description(r.0, r.0.written as int)
        },
        r.1 is Fail ==> event is Failed || !event_fits(state.phase, event) || !state.wf() || extraction_step(
            state,
            event,
        ) || (state.phase == IndexPhase::AwaitEmbeddings && event is Embedded),
        extraction_step(state, event) && r.1 is Fail ==> extract_error(r.1->Fail_0, path@),
        state.wf() && state.phase == IndexPhase::AwaitSymbolWrite && event is Done ==> r.0.written
            == state.written + 1,
        event is Failed ==> r.1 == IndexAction::Fail(event->Failed_0),
        state.phase == IndexPhase::Start && !(event is Failed) ==> r.0.hash@ == text_hash(content@),
        state.phase != IndexPhase::Start ==> r.0.hash == state.hash,
{
    let mut state = state;
    let event = match event {
        IndexEvent::Failed(e) => {
            state.phase = IndexPhase::Finished;
            return (state, IndexAction::Fail(e));
        },
        other => other,
    };
    match state.phase {
        IndexPhase::Start => {
            state.hash = content_hash(content);
            state.stored_hash = None;
            state.phase = IndexPhase::AwaitStoredHash;
            (state, IndexAction::LookupStoredHash)
        },
        IndexPhase::AwaitStoredHash => match event {
            IndexEvent::StoredHash(Some(h)) => {
                state.stored_hash = Some(h);
                state.phase = IndexPhase::AwaitStoredVersion;
                (state, IndexAction::LookupStoredVersion)
            },
            IndexEvent::StoredHash(None) => {
                state.stored_hash = None;
                begin_extraction(path, content, state)
            },
            _ => out_of_order(state),
        },
        IndexPhase::AwaitStoredVersion => match event {
            IndexEvent::StoredVersion(v) => {
                let unchanged = match &state.stored_hash {
                    Some(h) => file_unchanged(Some(h.as_str()), state.hash.as_str(), v),
                    None => file_unchanged(None, state.hash.as_str(), v),
                };
                if unchanged {
                    state.phase = IndexPhase::Finished;
                    (state, IndexAction::Finish(None))
                } else {
                    begin_extraction(path, content, state)
                }
            },
            _ => out_of_order(state),
        },
        IndexPhase::AwaitRefs => match event {
            IndexEvent::Refs(Ok(refs)) => {
                state.refs = refs;
                state.next_ref = 0;
                advance_refs(path, state)
            },
            IndexEvent::Refs(Err(_)) => begin_prune(state),
            _ => out_of_order(state),
        },
        IndexPhase::AwaitContaining => match event {
            IndexEvent::Containing(res) => {
                if state.next_ref < state.refs.len() {
                    match res {
                        Ok(Some(to)) => {
                            match resolved_edge(state.pending_owner.as_str(), to.as_str(), &state.refs[state.next_ref]) {
                                Some(e) => {
                                    state.edges.push(e);
                                },
                                None => {},
                            }
                        },
                        _ => {},
                    }
                    state.next_ref = state.next_ref + 1;
                }
                advance_refs(path, state)
            },
            _ => out_of_order(state),
        },
        IndexPhase::AwaitPrune => match event {
            IndexEvent::Done => {
                state.phase = IndexPhase::AwaitUpsertSymbols;
                (state, IndexAction::UpsertSymbols)
            },
            _ => out_of_order(state),
        },
        IndexPhase::AwaitUpsertSymbols => match event {
            IndexEvent::Done => {
                state.symbols_upserted = true;
                state.embedded = 0;
                state.written = 0;
                if state.symbols.len() == 0 {
                    state.phase = IndexPhase::AwaitFileRecord;
                    (state, IndexAction::UpsertFileRecord)
                } else {
                    state.cache = FileCache::new();
                    state.prepared = Vec::new();
                    advance_prepare(state)
                }
            },
            _ => out_of_order(state),
        },
        IndexPhase::AwaitFileRead => match event {
            IndexEvent::FileRead(text) => {
                if state.symbols_upserted && state.prepared.len() < state.symbols.len() {
                    let k = state.prepared.len();
                    match &text {
                        Some(t) => state.cache.record(state.symbols[k].file_path.as_str(), Some(t.as_str())),
                        None => state.cache.record(state.symbols[k].file_path.as_str(), None),
                    }
                    advance_prepare(state)
                } else {
                    out_of_order(state)
                }
            },
            _ => out_of_order(state),
        },
        IndexPhase::AwaitDescriptionHashes => match event {
            IndexEvent::DescriptionHashes(stored) => {
                if state.symbols_upserted && state.prepared.len() == state.symbols.len() {
                    state.stored_descriptions = stored;
                    state.batches = embed_batches(state.prepared.len());
                    state.next_batch = 0;
                    state.embedded = 0;
                    advance_embed(state)
                } else {
                    out_of_order(state)
                }
            },
            _ => out_of_order(state),
        },
        IndexPhase::AwaitEmbeddings => match event {
            IndexEvent::Embedded(n) => {
                let batches = embed_batches(state.prepared.len());
                proof {
                    if state.wf() {
                        lemma_batches_len(state.batches@, batches@, state.prepared@.len());
                    }
                }
                if state.symbols_upserted && state.prepared.len() == state.symbols.len() && state.next_batch
                    < batches.len() && state.embedded == EMBED_BATCH * state.next_batch {
                    state.batches = batches;
                    let (start, end) = state.batches[state.next_batch];
                    match check_embedding_count(state.provider.as_str(), end - start, n) {
                        Ok(()) => {
                            state.embedded = end;
                            state.next_batch = state.next_batch + 1;
                            advance_embed(state)
                        },
                        Err(e) => {
                            state.phase = IndexPhase::Finished;
                            (state, IndexAction::Fail(e))
                        },
                    }
                } else {
                    out_of_order(state)
                }
            },
            _ => out_of_order(state),
        },
        IndexPhase::AwaitSymbolWrite => match event {
            IndexEvent::Done => {
                if state.symbols_upserted && state.prepared.len() == state.symbols.len() && state.embedded
                    == state.symbols.len() && state.written < state.symbols.len() {
                    state.written = state.written + 1;
                    advance_write(state)
                } else {
                    out_of_order(state)
                }
            },
            _ => out_of_order(state),
        },
        IndexPhase::AwaitFileRecord => match event {
            IndexEvent::Done => {
                if state.symbols_upserted && state.written == state.symbols.len() && state.embedded
                    == state.symbols.len() {
                    state.phase = IndexPhase::Finished;
                    let mut edges: Vec<Edge> = Vec::new();
                    std::mem::swap(&mut edges, &mut state.edges);
                    (state, IndexAction::Finish(Some(edges)))
                } else {
                    out_of_order(state)
                }
            },
            _ => out_of_order(state),
        },
        IndexPhase::Finished => out_of_order(state),
    }
}

} // verus!
