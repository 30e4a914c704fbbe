//! Description synthesis: the prompt given to the model, the cleanup of
//! what it answers, and the bookkeeping of a synthesis pass.
use vstd::prelude::*;
use crate::rows::{SymbolForSynthesis, SymbolNeighbor, SynthesisContext};
use crate::text::{chars_of, push_str, string_from_range, string_of, trim, trim_spec};

verus! {

/// The instructions that open every synthesis prompt.
pub open spec fn prompt_preamble() -> Seq<char> {
    "You describe code symbols in 1-3 sentences for a code-search index. Focus on what the symbol does and its role in the codebase. Do not restate the signature, do not start with 'This function...', do not include code blocks, do not output anything except the description.\n\n"@
}

/// One `- name: signature` line per neighbor, in order.
pub open spec fn neighbor_lines(ns: Seq<SymbolNeighbor>) -> Seq<char>
    decreases ns.len(),
{
    if ns.len() == 0 {
        Seq::empty()
    } else {
        neighbor_lines(ns.drop_last()) + "- "@ + ns.last().qualified_name@ + ": "@
            + ns.last().signature@ + "\n"@
    }
}

/// A titled neighbor section, empty when there are no neighbors.
pub open spec fn neighbor_section(title: Seq<char>, ns: Seq<SymbolNeighbor>) -> Seq<char> {
    if ns.len() == 0 {
        Seq::empty()
    } else {
        title + neighbor_lines(ns)
    }
}

/// The synthesis prompt for a symbol: instructions, name, signature, the
/// body when known, callers, callees, and the `Description:` cue.
pub open spec fn build_prompt_spec(
    sym: SymbolForSynthesis,
    body: Option<Seq<char>>,
    ctx: SynthesisContext,
) -> Seq<char> {
    prompt_preamble() + "Symbol: "@ + sym.qualified_name@ + "\nSignature: "@ + sym.signature@
        + "\n"@ + (match body {
        Some(b) => "Body:\n"@ + b + "\n"@,
        None => Seq::empty(),
    }) + neighbor_section("Called by:\n"@, ctx.callers@) + neighbor_section("Calls:\n"@, ctx.callees@)
        + "\nDescription:"@
}

/// Law: the prompt tells the model who calls the symbol and whom it calls,
/// the right way round. It ends with the `Called by:` section listing the
/// context's callers, then the `Calls:` section listing its callees, then
/// the `Description:` cue; a section is left out when it has no one to
/// list, and otherwise the prompt contains its title followed by exactly
/// those neighbours' lines. Before them come the instructions, the
/// symbol's qualified name and signature, and its body when known.
pub proof fn prompt_lists_callers_then_callees(
    sym: SymbolForSynthesis,
    body: Option<Seq<char>>,
    ctx: SynthesisContext,
)
    ensures
        (prompt_preamble() + "Symbol: "@ + sym.qualified_name@ + "\nSignature: "@ + sym.signature@ + "\n"@).is_prefix_of(
            build_prompt_spec(sym, body, ctx),
        ),
        body matches Some(b) ==> (prompt_preamble() + "Symbol: "@ + sym.qualified_name@ + "\nSignature: "@
            + sym.signature@ + "\n"@ + "Body:\n"@ + b + "\n"@).is_prefix_of(build_prompt_spec(sym, body, ctx)),
        body is None ==> (prompt_preamble() + "Symbol: "@ + sym.qualified_name@ + "\nSignature: "@ + sym.signature@
            + "\n"@ + neighbor_section("Called by:\n"@, ctx.callers@)).is_prefix_of(build_prompt_spec(sym, body, ctx)),
        ctx.callers@.len() > 0 ==> crate::text::contains_spec(
            build_prompt_spec(sym, body, ctx),
            "Called by:\n"@ + neighbor_lines(ctx.callers@),
        ),
        ctx.callees@.len() > 0 ==> crate::text::contains_spec(
            build_prompt_spec(sym, body, ctx),
            "Calls:\n"@ + neighbor_lines(ctx.callees@),
        ),
        ctx.callers@.len() > 0 ==> ("Called by:\n"@ + neighbor_lines(ctx.callers@) + neighbor_section(
            "Calls:\n"@,
            ctx.callees@,
        ) + "\nDescription:"@).is_suffix_of(build_prompt_spec(sym, body, ctx)),
        ctx.callees@.len() > 0 ==> ("Calls:\n"@ + neighbor_lines(ctx.callees@) + "\nDescription:"@).is_suffix_of(
            build_prompt_spec(sym, body, ctx),
        ),
{
    let head = prompt_preamble() + "Symbol: "@ + sym.qualified_name@ + "\nSignature: "@ + sym.signature@ + "\n"@
        + (match body {
        Some(b) => "Body:\n"@ + b + "\n"@,
        None => Seq::empty(),
    });
    let a = neighbor_section("Called by:\n"@, ctx.callers@);
    let c = neighbor_section("Calls:\n"@, ctx.callees@);
    let d = "\nDescription:"@;
    let p = build_prompt_spec(sym, body, ctx);
    assert(p =~= head + a + c + d);
    let top = prompt_preamble() + "Symbol: "@ + sym.qualified_name@ + "\nSignature: "@ + sym.signature@ + "\n"@;
    assert(p.subrange(0, top.len() as int) =~= top);
    assert(p.subrange(0, head.len() as int) =~= head);
    if body is None {
        assert(head =~= top);
        assert(p.subrange(0, (top + a).len() as int) =~= top + a);
    }
    if ctx.callers@.len() > 0 {
        let pat = "Called by:\n"@ + neighbor_lines(ctx.callers@);
        assert(a == pat);
        assert(p.subrange(head.len() as int, (head.len() + pat.len()) as int) =~= pat);
        assert(crate::text::occurs_at(p, pat, head.len() as int));
        assert(p.subrange(p.len() - (a + c + d).len(), p.len() as int) =~= a + c + d);
    }
    if ctx.callees@.len() > 0 {
        let pat = "Calls:\n"@ + neighbor_lines(ctx.callees@);
        assert(c == pat);
        assert(p.subrange((head + a).len() as int, ((head + a).len() + pat.len()) as int) =~= pat);
        assert(crate::text::occurs_at(p, pat, (head + a).len() as int));
        assert(p.subrange(p.len() - (c + d).len(), p.len() as int) =~= c + d);
    }
}

fn push_neighbors(p: &mut String, title: &str, ns: &Vec<SymbolNeighbor>)
    ensures
        final(p)@ == old(p)@ + neighbor_section(title@, ns@),
{
    if ns.len() == 0 {
        assert(old(p)@ + Seq::<char>::empty() =~= old(p)@);
        return;
    }
    let ghost start = p@;
    push_str(p, title);
    let mut i: usize = 0;
    while i < ns.len()
        invariant
            i <= ns@.len(),
            ns@.len() > 0,
            p@ == start + title@ + neighbor_lines(ns@.take(i as int)),
        decreases ns@.len() - i,
    {
        assert(ns@.take(i + 1).drop_last() =~= ns@.take(i as int));
        assert(ns@.take(i + 1).last() == ns@[i as int]);
        push_str(p, "- ");
        push_str(p, ns[i].qualified_name.as_str());
        push_str(p, ": ");
        push_str(p, ns[i].signature.as_str());
        push_str(p, "\n");
        i = i + 1;
    }
    assert(ns@.take(ns@.len() as int) =~= ns@);
    assert(p@ =~= start + neighbor_section(title@, ns@));
}

/// Builds the synthesis prompt for `sym` from its body slice (when known)
/// and its 1-hop neighborhood.
pub fn build_prompt(sym: &SymbolForSynthesis, body: Option<&str>, ctx: &SynthesisContext) -> (p:
    String)
    ensures
        p@ == build_prompt_spec(
            *sym,
            match body {
                Some(b) => Some(b@),
                None => None,
            },
            *ctx,
        ),
{
    let mut p = string_of(
        "You describe code symbols in 1-3 sentences for a code-search index. Focus on what the symbol does and its role in the codebase. Do not restate the signature, do not start with 'This function...', do not include code blocks, do not output anything except the description.\n\n",
    );
    push_str(&mut p, "Symbol: ");
    push_str(&mut p, sym.qualified_name.as_str());
    push_str(&mut p, "\nSignature: ");
    push_str(&mut p, sym.signature.as_str());
    push_str(&mut p, "\n");
    let ghost head = p@;
    match body {
        Some(b) => {
            push_str(&mut p, "Body:\n");
            push_str(&mut p, b);
            push_str(&mut p, "\n");
            assert(p@ =~= head + ("Body:\n"@ + b@ + "\n"@));
        },
        None => {
            assert(p@ =~= head + Seq::<char>::empty());
        },
    }
    let ghost with_body = p@;
    push_neighbors(&mut p, "Called by:\n", &ctx.callers);
    push_neighbors(&mut p, "Calls:\n", &ctx.callees);
    push_str(&mut p, "\nDescription:");
    p
}

/// `s` with an echoed `Description:` (or `description:`) prefix removed,
/// and the rest trimmed.
pub open spec fn strip_description_prefix(s: Seq<char>) -> Seq<char> {
    if "Description:"@.is_prefix_of(s) {
        trim_spec(s.skip(12))
    } else if "description:"@.is_prefix_of(s) {
        trim_spec(s.skip(12))
    } else {
        s
    }
}

/// `s` without one pair of surrounding double quotes.
pub open spec fn strip_quotes(s: Seq<char>) -> Seq<char> {
    if s.len() >= 2 && s[0] == '"' && s.last() == '"' {
        s.subrange(1, s.len() - 1)
    } else {
        s
    }
}

/// A model's answer cleaned of small-model artifacts: outer white space,
/// an echoed `Description:` prefix, and surrounding double quotes.
pub open spec fn clean_description_spec(raw: Seq<char>) -> Seq<char> {
    strip_quotes(strip_description_prefix(trim_spec(raw)))
}

fn has_prefix(cs: &Vec<char>, p: &str) -> (r: bool)
    ensures
        r == p@.is_prefix_of(cs@),
{
    let ps = chars_of(p);
    if ps.len() > cs.len() {
        return false;
    }
    let mut i: usize = 0;
    while i < ps.len()
        invariant
            i <= ps@.len() <= cs@.len(),
            ps@ == p@,
            forall|j: int| 0 <= j < i ==> ps@[j] == cs@[j],
        decreases ps@.len() - i,
    {
        if ps[i] != cs[i] {
            assert(!p@.is_prefix_of(cs@)) by {
                assert(ps@[i as int] != cs@.subrange(0, ps@.len() as int)[i as int]);
            }
            return false;
        }
        i = i + 1;
    }
    assert(ps@ =~= cs@.subrange(0, ps@.len() as int));
    true
}

/// Cleans a model's answer: trims it, drops an echoed `Description:`
/// prefix (then trims again), and drops surrounding double quotes.
pub fn clean_description(raw: &str) -> (s: String)
    ensures
        s@ == clean_description_spec(raw@),
{
    let t = trim(raw);
    let cs = chars_of(t.as_str());
    let s1 = if has_prefix(&cs, "Description:") || has_prefix(&cs, "description:") {
        proof {
            reveal_strlit("Description:");
            reveal_strlit("description:");
        }
        let rest = string_from_range(&cs, 12, cs.len());
        assert(rest@ =~= cs@.skip(12));
        trim(rest.as_str())
    } else {
        t
    };
    assert(s1@ == strip_description_prefix(trim_spec(raw@)));
    let cs1 = chars_of(s1.as_str());
    let n = cs1.len();
    if n >= 2 && cs1[0] == '"' && cs1[n - 1] == '"' {
        string_from_range(&cs1, 1, n - 1)
    } else {
        s1
    }
}

/// Options of a synthesis pass.
#[derive(Debug, Clone, Copy, PartialEq, Eq, Structural)]
pub struct SynthesisOptions {
    /// Re-synthesize even when a description exists.
    pub force: bool,
    /// At most this many symbols are considered.
    pub limit: Option<usize>,
    /// Synthesizer calls in flight.
    pub concurrency: usize,
}

impl Default for SynthesisOptions {
    fn default() -> (o: SynthesisOptions)
        ensures
            !o.force,
            o.limit is None,
            o.concurrency == 4,
    {
        SynthesisOptions { force: false, limit: None, concurrency: 4 }
    }
}

/// Synthesizer calls in flight: the configured number, at least one.
pub fn effective_concurrency(opts: &SynthesisOptions) -> (n: usize)
    ensures
        n == if opts.concurrency >= 1 {
            opts.concurrency
        } else {
            1
        },
{
    if opts.concurrency >= 1 {
        opts.concurrency
    } else {
        1
    }
}

/// The counts reported by a synthesis pass.
#[derive(Debug, Clone, Copy, PartialEq, Eq, Structural)]
pub struct SynthesisOutcome {
    pub considered: usize,
    pub synthesized: usize,
    pub skipped: usize,
    pub failed: usize,
}

/// What a synthesis pass works on: the symbols to describe, and the counts
/// known before any model call.
pub struct SynthesisPlan {
    pub work: Vec<SymbolForSynthesis>,
    pub outcome: SynthesisOutcome,
}

/// How many listed symbols a pass considers.
pub open spec fn considered_spec(n: nat, limit: Option<usize>) -> nat {
    match limit {
        Some(l) => if l < n {
            l as nat
        } else {
            n
        },
        None => n,
    }
}

/// Whether a considered symbol is skipped (already described, no force).
pub open spec fn skips(sym: SymbolForSynthesis, force: bool) -> bool {
    !force && sym.has_description
}

/// The considered symbols that are to be described, in order.
pub open spec fn work_spec(syms: Seq<SymbolForSynthesis>, force: bool) -> Seq<SymbolForSynthesis>
    decreases syms.len(),
{
    if syms.len() == 0 {
        Seq::empty()
    } else if skips(syms.last(), force) {
        work_spec(syms.drop_last(), force)
    } else {
        work_spec(syms.drop_last(), force).push(syms.last())
    }
}

/// Plans a pass over the listed symbols: the first `limit` are considered,
/// those already described are skipped unless `force` is set, the rest are
/// the work; nothing is synthesized or failed yet.
pub fn plan_synthesis(symbols: Vec<SymbolForSynthesis>, opts: &SynthesisOptions) -> (p:
    SynthesisPlan)
    ensures
        p.outcome.considered == considered_spec(symbols@.len(), opts.limit),
        p.work@ == work_spec(symbols@.take(p.outcome.considered as int), opts.force),
        p.outcome.skipped + p.work@.len() == p.outcome.considered,
        p.outcome.synthesized == 0,
        p.outcome.failed == 0,
{
    let mut symbols = symbols;
    let ghost all = symbols@;
    match opts.limit {
        Some(l) => {
            if l < symbols.len() {
                symbols.truncate(l);
            }
        },
        None => {},
    }
    let considered = symbols.len();
    assert(symbols@ =~= all.take(considered as int));
    let mut work: Vec<SymbolForSynthesis> = Vec::new();
    let mut skipped: usize = 0;
    let ghost taken = symbols@;
    let mut i: usize = 0;
    while symbols.len() > 0
        invariant
            taken.len() == considered,
            i + symbols@.len() == taken.len(),
            symbols@ == taken.skip(i as int),
            work@ == work_spec(taken.take(i as int), opts.force),
            skipped + work@.len() == i,
        decreases symbols@.len(),
    {
        assert(taken.take(i + 1).drop_last() =~= taken.take(i as int));
        assert(taken.take(i + 1).last() == taken[i as int]);
        let sym = symbols.remove(0);
        assert(symbols@ =~= taken.skip(i + 1));
        if !opts.force && sym.has_description {
            skipped = skipped + 1;
        } else {
            work.push(sym);
        }
        i = i + 1;
    }
    assert(taken.take(i as int) =~= taken);
    SynthesisPlan {
        work,
        outcome: SynthesisOutcome { considered, synthesized: 0, skipped, failed: 0 },
    }
}

/// The outcome after one more described symbol succeeded (`ok`) or failed.
pub open spec fn tally_step(o: SynthesisOutcome, ok: bool) -> SynthesisOutcome {
    if ok {
        SynthesisOutcome { synthesized: (o.synthesized + 1) as usize, ..o }
    } else {
        SynthesisOutcome { failed: (o.failed + 1) as usize, ..o }
    }
}

/// The outcome after a sequence of per-symbol results, in order.
pub open spec fn tally_after(o: SynthesisOutcome, results: Seq<bool>) -> SynthesisOutcome
    decreases results.len(),
{
    if results.len() == 0 {
        o
    } else {
        tally_step(tally_after(o, results.drop_last()), results.last())
    }
}

/// Number of successes among the results.
pub open spec fn successes(results: Seq<bool>) -> nat
    decreases results.len(),
{
    if results.len() == 0 {
        0
    } else {
        successes(results.drop_last()) + if results.last() {
            1nat
        } else {
            0nat
        }
    }
}

impl SynthesisOutcome {
    /// Counts the result of one described symbol.
    pub fn record(&mut self, ok: bool)
        requires
            old(self).synthesized + old(self).skipped + old(self).failed < old(self).considered,
        ensures
            *final(self) == tally_step(*old(self), ok),
    {
        if ok {
            self.synthesized = self.synthesized + 1;
        } else {
            self.failed = self.failed + 1;
        }
    }
}

/// Law: once every planned symbol has reported, the pass accounts for every
/// considered symbol exactly once: synthesized + skipped + failed ==
/// considered, with one success counted per successful symbol.
pub proof fn synthesis_accounts_for_every_symbol(plan: SynthesisOutcome, work_len: nat, results: Seq<
    bool,
>)
    requires
        plan.synthesized == 0,
        plan.failed == 0,
        plan.skipped + work_len == plan.considered,
        results.len() == work_len,
    ensures
        tally_after(plan, results).synthesized + tally_after(plan, results).skipped + tally_after(
            plan,
            results,
        ).failed == plan.considered,
        tally_after(plan, results).considered == plan.considered,
        tally_after(plan, results).skipped == plan.skipped,
        tally_after(plan, results).synthesized == successes(results),
    decreases results.len(),
{
    lemma_tally_prefix(plan, results);
}

proof fn lemma_tally_prefix(plan: SynthesisOutcome, results: Seq<bool>)
    requires
        plan.synthesized == 0,
        plan.failed == 0,
        plan.skipped + results.len() <= plan.considered,
    ensures
        tally_after(plan, results).synthesized == successes(results),
        tally_after(plan, results).synthesized + tally_after(plan, results).failed == results.len(),
        tally_after(plan, results).considered == plan.considered,
        tally_after(plan, results).skipped == plan.skipped,
    decreases results.len(),
{
    if results.len() > 0 {
        lemma_tally_prefix(plan, results.drop_last());
    }
}

/// Whether a pass lists only the symbols without a description: always,
/// unless it is forced.
pub fn lists_only_missing(opts: &SynthesisOptions) -> (r: bool)
    ensures
        r == !opts.force,
{
    !opts.force
}

proof fn lemma_all_described_no_work(syms: Seq<SymbolForSynthesis>)
    requires
        forall|i: int| 0 <= i < syms.len() ==> #[trigger] syms[i].has_description,
    ensures
        work_spec(syms, false).len() == 0,
    decreases syms.len(),
{
    if syms.len() > 0 {
        let rest = syms.drop_last();
        assert forall|i: int| 0 <= i < rest.len() implies #[trigger] rest[i].has_description by {
            assert(rest[i] == syms[i]);
        }
        assert(syms.last().has_description);
        lemma_all_described_no_work(rest);
    }
}

/// Law: without force, a pass over symbols that all have a description
/// does no model work. Nothing is left to describe, so neither the
/// synthesizer nor the embedder is called and no description changes;
/// every considered symbol is skipped. Without force a pass lists only the
/// symbols without a description, so on a graph where every symbol has one
/// the listing is empty, and then nothing is considered at all.
pub proof fn described_symbols_need_no_model_call(listed: Seq<SymbolForSynthesis>, opts: SynthesisOptions)
    requires
        !opts.force,
        forall|i: int| 0 <= i < listed.len() ==> #[trigger] listed[i].has_description,
    ensures
        work_spec(listed.take(considered_spec(listed.len(), opts.limit) as int), opts.force).len() == 0,
        listed.len() == 0 ==> considered_spec(listed.len(), opts.limit) == 0,
{
    let taken = listed.take(considered_spec(listed.len(), opts.limit) as int);
    assert forall|i: int| 0 <= i < taken.len() implies #[trigger] taken[i].has_description by {
        assert(taken[i] == listed[i]);
    }
    lemma_all_described_no_work(taken);
}

/// Law: without force, a pass over a graph whose symbols all have a
/// description considers nothing and calls no model. The listing it asks
/// for admits only symbols without a description (`lists_only_missing`
/// and the `coalesce(s.synthesized_description, '') = ''` filter of
/// `list_symbols_for_synthesis_query`), and every listed row is a symbol of
/// the graph; so nothing is listed, nothing considered, nothing to do.
pub proof fn fully_described_graph_is_left_alone(
    graph: Seq<SymbolForSynthesis>,
    listed: Seq<SymbolForSynthesis>,
    opts: SynthesisOptions,
)
    requires
        !opts.force,
        forall|i: int| 0 <= i < graph.len() ==> #[trigger] graph[i].has_description,
        forall|j: int| 0 <= j < listed.len() ==> graph.contains(#[trigger] listed[j]),
        forall|j: int| 0 <= j < listed.len() ==> !(#[trigger] listed[j]).has_description,
    ensures
        listed.len() == 0,
        considered_spec(listed.len(), opts.limit) == 0,
        work_spec(listed.take(considered_spec(listed.len(), opts.limit) as int), opts.force).len() == 0,
{
    if listed.len() > 0 {
        assert(graph.contains(listed[0]));
        let i = choose|i: int| 0 <= i < graph.len() && graph[i] == listed[0];
        assert(graph[i].has_description);
        assert(!listed[0].has_description);
    }
    assert(listed.take(0) =~= Seq::<SymbolForSynthesis>::empty());
}

/// What a model's answer contributes: its cleaned text, or nothing when
/// cleaning leaves it empty.
pub fn usable_description(raw: &str) -> (d: Option<String>)
    ensures
        d is Some <==> clean_description_spec(raw@).len() > 0,
        d matches Some(s) ==> s@ == clean_description_spec(raw@),
{
    let s = clean_description(raw);
    if s.as_str().is_empty() {
        None
    } else {
        Some(s)
    }
}

} // verus!
