//! Model providers: the settings of the Ollama embedder, synthesizer and
//! reranker, and the decisions taken on what they answer.
use vstd::prelude::*;
use crate::error::MycelError;
use crate::text::{
    chars_eq, chars_of, decimal_spec, first_token, first_token_spec, push_char, push_decimal,
    push_str, string_of,
};

verus! {

/// The identity of an Ollama model: `ollama/<model>`.
pub open spec fn ollama_identity(model: Seq<char>) -> Seq<char> {
    "ollama/"@ + model
}

fn make_identity(model: &str) -> (r: String)
    ensures
        r@ == ollama_identity(model@),
{
    let mut r = string_of("ollama/");
    push_str(&mut r, model);
    r
}

/// Settings of an Ollama embedding model.
#[derive(Debug, PartialEq, Eq)]
pub struct OllamaEmbedder {
    pub endpoint: String,
    pub model: String,
    pub dimension: u32,
    pub identity: String,
}

impl OllamaEmbedder {
    /// An embedder for `model` at `endpoint`, declaring EmbeddingGemma's 768
    /// dimensions.
    pub fn new(endpoint: String, model: String) -> (e: OllamaEmbedder)
        ensures
            e.endpoint@ == endpoint@,
            e.model@ == model@,
            e.dimension == 768,
            e.identity@ == ollama_identity(model@),
    {
        let identity = make_identity(model.as_str());
        OllamaEmbedder { endpoint, model, dimension: 768, identity }
    }

    /// The same embedder declaring `d` dimensions.
    pub fn with_dimension(self, d: u32) -> (e: OllamaEmbedder)
        ensures
            e.endpoint == self.endpoint,
            e.model == self.model,
            e.identity == self.identity,
            e.dimension == d,
    {
        let mut e = self;
        e.dimension = d;
        e
    }

    /// Stable provider and model identity, e.g. `ollama/embeddinggemma`.
    pub fn identity(&self) -> (r: &str)
        ensures
            r@ == self.identity@,
    {
        self.identity.as_str()
    }

    /// The declared vector dimension.
    pub fn dimension(&self) -> (r: u32)
        ensures
            r == self.dimension,
    {
        self.dimension
    }

    /// The URL of the embedding endpoint.
    pub fn embed_url(&self) -> (r: String)
        ensures
            r@ == self.endpoint@ + "/api/embed"@,
    {
        let mut r = self.endpoint.clone();
        push_str(&mut r, "/api/embed");
        r
    }
}

/// The text of the error raised when a model returns vectors of the wrong size.
pub open spec fn dimension_mismatch_message(returned: nat, declared: nat) -> Seq<char> {
    "embedding dimension mismatch: model returned "@ + decimal_spec(returned)
        + " but embedder declares "@ + decimal_spec(declared)
}

/// Checks the length of the first returned vector against the declared
/// dimension (compared as `u32`, as the provider reports it). No vectors
/// at all is accepted.
pub fn check_embedding_dimension(identity: &str, dimension: u32, first_len: Option<usize>) -> (r:
    Result<(), MycelError>)
    ensures
        r is Ok <==> (first_len matches Some(n) ==> n as u32 == dimension),
        r matches Err(e) ==> e == (MycelError::Model {
            provider: e->Model_provider,
            message: e->Model_message,
        }) && (e->Model_provider)@ == identity@ && (e->Model_message)@
            == dimension_mismatch_message(first_len->0 as nat, dimension as nat),
{
    match first_len {
        Some(n) => {
            if n as u32 != dimension {
                let mut message = string_of("embedding dimension mismatch: model returned ");
                push_decimal(&mut message, n as u64);
                push_str(&mut message, " but embedder declares ");
                push_decimal(&mut message, dimension as u64);
                Err(MycelError::Model { provider: string_of(identity), message })
            } else {
                Ok(())
            }
        },
        None => Ok(()),
    }
}

/// Settings of an Ollama text-generation model used for descriptions.
#[derive(Debug, PartialEq, Eq)]
pub struct OllamaSynthesizer {
    pub endpoint: String,
    pub model: String,
    pub identity: String,
}

impl OllamaSynthesizer {
    /// A synthesizer for `model` at `endpoint`.
    pub fn new(endpoint: String, model: String) -> (s: OllamaSynthesizer)
        ensures
            s.endpoint@ == endpoint@,
            s.model@ == model@,
            s.identity@ == ollama_identity(model@),
    {
        let identity = make_identity(model.as_str());
        OllamaSynthesizer { endpoint, model, identity }
    }

    /// Stable provider and model identity.
    pub fn identity(&self) -> (r: &str)
        ensures
            r@ == self.identity@,
    {
        self.identity.as_str()
    }
}

/// Settings of an Ollama yes/no reranking model.
#[derive(Debug, PartialEq, Eq)]
pub struct OllamaReranker {
    pub endpoint: String,
    pub model: String,
    pub identity: String,
    /// Maximum number of rerank requests in flight; at least 1.
    pub concurrency: usize,
}

impl OllamaReranker {
    /// A reranker for `model` at `endpoint` with at most `concurrency`
    /// (at least one) requests in flight.
    pub fn new(endpoint: String, model: String, concurrency: usize) -> (r: OllamaReranker)
        ensures
            r.endpoint@ == endpoint@,
            r.model@ == model@,
            r.identity@ == ollama_identity(model@),
            r.concurrency == if concurrency >= 1 {
                concurrency
            } else {
                1
            },
    {
        let identity = make_identity(model.as_str());
        let concurrency = if concurrency >= 1 {
            concurrency
        } else {
            1
        };
        OllamaReranker { endpoint, model, identity, concurrency }
    }

    /// Stable provider and model identity.
    pub fn identity(&self) -> (r: &str)
        ensures
            r@ == self.identity@,
    {
        self.identity.as_str()
    }
}

/// How a reranking model judged one candidate. Scored 1 for `Yes`, 0 for
/// `No` and negative infinity for `Unknown` ("no opinion").
#[derive(Debug, Clone, Copy, PartialEq, Eq, Structural)]
pub enum RerankVerdict {
    Yes,
    No,
    Unknown,
}

/// Unicode `Alphabetic` or `Numeric`: what std's `char::is_alphanumeric`
/// returns for `c`.
pub uninterp spec fn char_is_alphanumeric(c: char) -> bool;

/// std `char::is_alphanumeric`: `Alphabetic` or `Numeric`. The contract
/// names the result, and states it for ASCII, where those properties hold
/// exactly of the letters and the digits; the Unicode tables beyond ASCII
/// are not restated.
#[verifier::external_body]
fn is_alphanumeric(c: char) -> (r: bool)
    ensures
        r == char_is_alphanumeric(c),
        (c as u32) < 128 ==> (r <==> ('a' <= c <= 'z' || 'A' <= c <= 'Z' || '0' <= c <= '9')),
{
    c.is_alphanumeric()
}

/// Number of trailing characters that are not alphanumeric.
pub open spec fn trailing_non_alnum(s: Seq<char>) -> nat
    decreases s.len(),
{
    if s.len() > 0 && !char_is_alphanumeric(s.last()) {
        1 + trailing_non_alnum(s.drop_last())
    } else {
        0
    }
}

/// ASCII lower-casing of one character.
pub open spec fn ascii_lower(c: char) -> char {
    if 'A' <= c <= 'Z' {
        ((c as u32) + 32) as char
    } else {
        c
    }
}

/// The first word of a rerank completion with its trailing non-alphanumeric
/// characters removed.
pub open spec fn rerank_word(raw: Seq<char>) -> Seq<char> {
    let head = match first_token_spec(raw) {
        Some(t) => t,
        None => Seq::empty(),
    };
    head.take(head.len() - trailing_non_alnum(head))
}

/// The verdict a word expresses: `yes` or `no`, ASCII case-insensitively.
pub open spec fn word_verdict(w: Seq<char>) -> RerankVerdict {
    let h = w.map_values(|c: char| ascii_lower(c));
    if h == "yes"@ {
        RerankVerdict::Yes
    } else if h == "no"@ {
        RerankVerdict::No
    } else {
        RerankVerdict::Unknown
    }
}

/// The verdict a completion expresses: `yes` or `no` as its first word,
/// case-insensitively and ignoring trailing punctuation.
pub open spec fn rerank_verdict_spec(raw: Seq<char>) -> RerankVerdict {
    word_verdict(rerank_word(raw))
}

proof fn lemma_trailing_non_alnum(s: Seq<char>, k: int)
    requires
        0 <= k <= s.len(),
        forall|j: int| k <= j < s.len() ==> !char_is_alphanumeric(s[j]),
        k == 0 || char_is_alphanumeric(s[k - 1]),
    ensures
        trailing_non_alnum(s) == s.len() - k,
    decreases s.len() - k,
{
    if k < s.len() {
        lemma_trailing_non_alnum(s.drop_last(), k);
    }
}

/// The verdict of one word (already stripped of trailing punctuation).
pub fn verdict_of_word(word: &str) -> (v: RerankVerdict)
    ensures
        v == word_verdict(word@),
{
    let hs = chars_of(word);
    let k = hs.len();
    let mut lower: Vec<char> = Vec::new();
    let mut i: usize = 0;
    while i < k
        invariant
            i <= k == hs@.len(),
            lower@ == hs@.take(i as int).map_values(|c: char| ascii_lower(c)),
        decreases k - i,
    {
        let c = hs[i];
        let l = if 'A' <= c && c <= 'Z' {
            let b: u8 = ((c as u32) + 32) as u8;
            assert(b as u32 == (c as u32) + 32);
            b as char
        } else {
            c
        };
        assert(l == ascii_lower(c));
        lower.push(l);
        assert(hs@.take(i + 1).map_values(|c: char| ascii_lower(c)) =~= hs@.take(
            i as int,
        ).map_values(|c: char| ascii_lower(c)).push(l));
        i = i + 1;
    }
    assert(hs@.take(k as int) =~= hs@);
    let yes = chars_of("yes");
    let no = chars_of("no");
    if chars_eq(&lower, &yes) {
        RerankVerdict::Yes
    } else if chars_eq(&lower, &no) {
        RerankVerdict::No
    } else {
        RerankVerdict::Unknown
    }
}

/// An ASCII letter or digit.
pub open spec fn ascii_alnum(c: char) -> bool {
    'a' <= c <= 'z' || 'A' <= c <= 'Z' || '0' <= c <= '9'
}

/// Every character is ASCII.
pub open spec fn is_ascii_text(s: Seq<char>) -> bool {
    forall|i: int| 0 <= i < s.len() ==> (#[trigger] s[i] as u32) < 128
}

/// The first word of a completion, or nothing.
pub open spec fn rerank_head(raw: Seq<char>) -> Seq<char> {
    match first_token_spec(raw) {
        Some(t) => t,
        None => Seq::empty(),
    }
}

/// Number of trailing characters that are not ASCII letters or digits.
pub open spec fn ascii_trailing(s: Seq<char>) -> nat
    decreases s.len(),
{
    if s.len() > 0 && !ascii_alnum(s.last()) {
        1 + ascii_trailing(s.drop_last())
    } else {
        0
    }
}

proof fn lemma_ascii_trailing(s: Seq<char>, k: int)
    requires
        0 <= k <= s.len(),
        forall|j: int| k <= j < s.len() ==> !ascii_alnum(s[j]),
        k == 0 || ascii_alnum(s[k - 1]),
    ensures
        ascii_trailing(s) == s.len() - k,
    decreases s.len() - k,
{
    if k < s.len() {
        lemma_ascii_trailing(s.drop_last(), k);
    }
}

/// Maps a yes/no reranker completion to its verdict. For a first word in
/// ASCII, the trailing characters dropped are exactly those that are not
/// letters or digits.
pub fn parse_rerank_response(raw: &str) -> (v: RerankVerdict)
    ensures
        v == rerank_verdict_spec(raw@),
        is_ascii_text(rerank_head(raw@)) ==> v == word_verdict(
            rerank_head(raw@).take(rerank_head(raw@).len() - ascii_trailing(rerank_head(raw@))),
        ),
{
    let cs = chars_of(raw);
    let head = match first_token(&cs) {
        Some(t) => t,
        None => String::new(),
    };
    let hs = chars_of(head.as_str());
    assert(hs@ == rerank_head(raw@));
    let mut k = hs.len();
    loop
        invariant
            k <= hs@.len(),
            forall|j: int| k <= j < hs@.len() ==> !char_is_alphanumeric(hs@[j]),
            forall|j: int| k <= j < hs@.len() && (hs@[j] as u32) < 128 ==> !ascii_alnum(hs@[j]),
        ensures
            k <= hs@.len(),
            forall|j: int| k <= j < hs@.len() ==> !char_is_alphanumeric(hs@[j]),
            forall|j: int| k <= j < hs@.len() && (hs@[j] as u32) < 128 ==> !ascii_alnum(hs@[j]),
            k == 0 || char_is_alphanumeric(hs@[k - 1]),
            k > 0 && (hs@[k - 1] as u32) < 128 ==> ascii_alnum(hs@[k - 1]),
        decreases k,
    {
        if k == 0 {
            break;
        }
        if is_alphanumeric(hs[k - 1]) {
            break;
        }
        k = k - 1;
    }
    proof {
        lemma_trailing_non_alnum(hs@, k as int);
        if is_ascii_text(hs@) {
            assert forall|j: int| k <= j < hs@.len() implies !ascii_alnum(hs@[j]) by {
                assert((hs@[j] as u32) < 128);
            }
            if k > 0 {
                assert((hs@[k - 1] as u32) < 128);
            }
            lemma_ascii_trailing(hs@, k as int);
        }
    }
    let word = crate::text::string_from_range(&hs, 0, k);
    assert(word@ =~= rerank_word(raw@));
    verdict_of_word(word.as_str())
}

/// The prompt for judging one candidate: the query, the document cut to
/// its first 1500 characters, and the yes/no cue.
pub open spec fn rerank_prompt_spec(query: Seq<char>, doc: Seq<char>) -> Seq<char> {
    let d = if doc.len() > 1500 {
        doc.take(1500)
    } else {
        doc
    };
    "Query: "@ + query + "\nDocument: "@ + d + "\nRelevant (yes/no):"@
}

/// Builds the reranking prompt for one candidate document.
pub fn build_rerank_prompt(query: &str, doc: &str) -> (p: String)
    ensures
        p@ == rerank_prompt_spec(query@, doc@),
{
    let mut p = string_of("Query: ");
    push_str(&mut p, query);
    push_str(&mut p, "\nDocument: ");
    let ds = chars_of(doc);
    let n = if ds.len() > 1500 {
        1500
    } else {
        ds.len()
    };
    let ghost before = p@;
    let mut i: usize = 0;
    while i < n
        invariant
            i <= n <= ds@.len(),
            ds@ == doc@,
            p@ == before + ds@.take(i as int),
        decreases n - i,
    {
        push_char(&mut p, ds[i]);
        assert(ds@.take(i + 1) =~= ds@.take(i as int).push(ds@[i as int]));
        i = i + 1;
    }
    assert(ds@.take(n as int) =~= (if doc@.len() > 1500 {
        doc@.take(1500)
    } else {
        doc@
    }));
    push_str(&mut p, "\nRelevant (yes/no):");
    p
}

/// Whether every verdict is `Unknown`.
pub open spec fn all_unknown(v: Seq<RerankVerdict>) -> bool {
    forall|i: int| 0 <= i < v.len() ==> v[i] == RerankVerdict::Unknown
}

/// The answer of a rerank pass over per-candidate verdicts: the verdicts
/// themselves, unless candidates were given and every one came back
/// without a verdict, which marks the reranker unhealthy.
pub fn rerank_outcome(provider: &str, verdicts: Vec<RerankVerdict>) -> (r: Result<
    Vec<RerankVerdict>,
    MycelError,
>)
    ensures
        r is Err <==> (verdicts@.len() > 0 && all_unknown(verdicts@)),
        r matches Ok(v) ==> v@ == verdicts@,
        r matches Err(e) ==> e == (MycelError::Model {
            provider: e->Model_provider,
            message: e->Model_message,
        }) && (e->Model_provider)@ == provider@ && (e->Model_message)@
            == "rerank: every candidate failed; reranker is unhealthy"@,
{
    if verdicts.len() == 0 {
        return Ok(verdicts);
    }
    let mut i: usize = 0;
    while i < verdicts.len()
        invariant
            i <= verdicts@.len(),
            forall|j: int| 0 <= j < i ==> verdicts@[j] == RerankVerdict::Unknown,
        decreases verdicts@.len() - i,
    {
        if verdicts[i] != RerankVerdict::Unknown {
            return Ok(verdicts);
        }
        i = i + 1;
    }
    Err(
        MycelError::Model {
            provider: string_of(provider),
            message: string_of("rerank: every candidate failed; reranker is unhealthy"),
        },
    )
}

} // verus!
