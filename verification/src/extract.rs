//! Symbol and edge extraction from source files. Tree-sitter parses and
//! matches the queries; the rules here turn the matches into symbols and
//! tree-sitter edges, which LSP refinement upgrades later.
use vstd::prelude::*;
use crate::edge::{Edge, EdgeKind, EdgeSource};
use crate::lsp::{edge_view, EdgeView};
use crate::symbol::{defang_spec, symbol_kind_name, QualifiedName, Signature, Symbol, SymbolKind};
use crate::error::MycelError;
use crate::syntax::{extract_error, is_piece_of, parse_source, run_query, Ancestor, CapturedNode};
use crate::queries::str_views;
use crate::text::{
    chars_lt, chars_lt_total, chars_lt_transitive, str_lt, lines_spec, push_str, split_lines, str_eq, string_of, trim, trim_char, trim_char_spec, trim_spec,
};

verus! {

/// What extraction yields for one file.
#[derive(Debug, PartialEq, Eq)]
pub struct ExtractionOutput {
    pub symbols: Vec<Symbol>,
    pub edges: Vec<Edge>,
    pub language: String,
}

/// A symbol as plain values: raw qualified name (before defanging), kind,
/// first and last line, signature, exported.
pub type SymbolView = (Seq<char>, SymbolKind, u32, u32, Seq<char>, bool);

/// `s` is the symbol of file `file` described by `v`, with no description,
/// doc or hashes yet.
pub open spec fn symbol_is(s: Symbol, file: Seq<char>, v: SymbolView) -> bool {
    &&& s.qualified_name@ == defang_spec(v.0)
    &&& s.kind == v.1
    &&& s.file_path@ == file
    &&& s.start_line == v.2
    &&& s.end_line == v.3
    &&& s.signature.0@ == v.4
    &&& s.exported == v.5
    &&& s.jsdoc is None
    &&& s.synthesized_description is None
    &&& s.body_hash is None
    &&& s.description_source_hash is None
}

/// `out` holds exactly the symbols `vs` of file `file`, in order.
pub open spec fn symbols_are(out: Seq<Symbol>, file: Seq<char>, vs: Seq<SymbolView>) -> bool {
    out.len() == vs.len() && forall|i: int| 0 <= i < out.len() ==> symbol_is(#[trigger] out[i], file, vs[i])
}

/// `out` holds exactly the edges `vs`, in order.
pub open spec fn edges_are(out: Seq<Edge>, vs: Seq<EdgeView>) -> bool {
    out.len() == vs.len() && forall|i: int| 0 <= i < out.len() ==> edge_view(#[trigger] out[i]) == vs[i]
}

/// A node text as plain values.
pub open spec fn text_view(t: Option<String>) -> Option<Seq<char>> {
    match t {
        Some(s) => Some(s@),
        None => None,
    }
}

/// A node text, empty when there is none.
pub open spec fn text_or_empty(t: Option<String>) -> Seq<char> {
    match t {
        Some(s) => s@,
        None => Seq::empty(),
    }
}

/// The 1-indexed line of a 0-indexed row, as a `u32` (wrapping past the
/// largest line number).
pub open spec fn line_of_row(row: usize) -> u32 {
    let r = row as u32;
    if r < u32::MAX {
        (r + 1) as u32
    } else {
        0
    }
}

fn line_of(row: usize) -> (l: u32)
    ensures
        l == line_of_row(row),
{
    let r = row as u32;
    if r < u32::MAX {
        r + 1
    } else {
        0
    }
}

/// A declaration's signature: the first line of its text, trimmed; the
/// symbol name when the text is missing or empty.
pub open spec fn signature_spec(text: Option<Seq<char>>, name: Seq<char>) -> Seq<char> {
    match text {
        Some(t) => if lines_spec(t).len() > 0 {
            trim_spec(lines_spec(t)[0])
        } else {
            name
        },
        None => name,
    }
}

fn signature_of(text: &Option<String>, name: &str) -> (s: String)
    ensures
        s@ == signature_spec(text_view(*text), name@),
{
    match text {
        Some(t) => {
            let lines = split_lines(t.as_str());
            if lines.len() > 0 {
                trim(lines[0].as_str())
            } else {
                string_of(name)
            }
        },
        None => string_of(name),
    }
}

/// The index of the last capture whose name satisfies `p`, or -1.
pub open spec fn last_capture(caps: Seq<CapturedNode>, p: spec_fn(Seq<char>) -> bool) -> int
    decreases caps.len(),
{
    if caps.len() == 0 {
        -1
    } else if p(caps.last().capture@) {
        caps.len() - 1
    } else {
        last_capture(caps.drop_last(), p)
    }
}

proof fn lemma_last_capture_range(caps: Seq<CapturedNode>, p: spec_fn(Seq<char>) -> bool)
    ensures
        -1 <= last_capture(caps, p) < caps.len(),
        last_capture(caps, p) >= 0 ==> p(caps[last_capture(caps, p)].capture@),
    decreases caps.len(),
{
    if caps.len() > 0 && !p(caps.last().capture@) {
        lemma_last_capture_range(caps.drop_last(), p);
        let k = last_capture(caps.drop_last(), p);
        if k >= 0 {
            assert(caps.drop_last()[k] == caps[k]);
        }
    }
}

/// `name` followed by `::` and a symbol name.
pub open spec fn qualify(file: Seq<char>, name: Seq<char>) -> Seq<char> {
    file + "::"@ + name
}

fn qualify_exec(file: &str, name: &str) -> (q: String)
    ensures
        q@ == qualify(file@, name@),
{
    let mut q = string_of(file);
    push_str(&mut q, "::");
    push_str(&mut q, name);
    q
}

/// Whether some child has kind `visibility_modifier` (any `pub` form).
pub open spec fn has_visibility(kinds: Seq<String>) -> bool {
    exists|i: int| 0 <= i < kinds.len() && kinds[i]@ == "visibility_modifier"@
}

fn has_visibility_exec(kinds: &Vec<String>) -> (r: bool)
    ensures
        r == has_visibility(kinds@),
{
    let mut i: usize = 0;
    while i < kinds.len()
        invariant
            i <= kinds@.len(),
            forall|j: int| 0 <= j < i ==> kinds@[j]@ != "visibility_modifier"@,
        decreases kinds@.len() - i,
    {
        if str_eq(kinds[i].as_str(), "visibility_modifier") {
            return true;
        }
        i = i + 1;
    }
    false
}

fn symbol_from_view(file: &str, raw_qname: &str, kind: SymbolKind, start: u32, end: u32, signature: String, exported: bool) -> (s: Symbol)
    ensures
        symbol_is(s, file@, (raw_qname@, kind, start, end, signature@, exported)),
{
    Symbol {
        qualified_name: QualifiedName::new(raw_qname),
        kind,
        file_path: string_of(file),
        start_line: start,
        end_line: end,
        signature: Signature(signature),
        jsdoc: None,
        synthesized_description: None,
        exported,
        body_hash: None,
        description_source_hash: None,
    }
}

/// The capture names that are in `names`.
pub open spec fn one_of(names: Seq<Seq<char>>) -> spec_fn(Seq<char>) -> bool {
    |c: Seq<char>| names.contains(c)
}

fn name_in(c: &str, names: &[&str]) -> (r: bool)
    ensures
        r == str_views(names@).contains(c@),
{
    let mut i: usize = 0;
    while i < names.len()
        invariant
            i <= names@.len(),
            forall|j: int| 0 <= j < i ==> names@[j]@ != c@,
        decreases names@.len() - i,
    {
        if str_eq(names[i], c) {
            assert(str_views(names@)[i as int] == c@);
            return true;
        }
        i = i + 1;
    }
    assert forall|j: int| 0 <= j < str_views(names@).len() implies str_views(names@)[j] != c@ by {
        assert(str_views(names@)[j] == names@[j]@);
    }
    false
}

/// The index of the last capture named one of `names`.
fn last_capture_of(caps: &Vec<CapturedNode>, names: &[&str]) -> (r: Option<usize>)
    ensures
        r matches Some(i) ==> i as int == last_capture(caps@, one_of(str_views(names@))),
        r is None ==> last_capture(caps@, one_of(str_views(names@))) == -1,
{
    let ghost p = one_of(str_views(names@));
    let mut found: Option<usize> = None;
    let mut i: usize = 0;
    while i < caps.len()
        invariant
            i <= caps@.len(),
            p == one_of(str_views(names@)),
            match found {
                Some(k) => k as int == last_capture(caps@.take(i as int), p),
                None => last_capture(caps@.take(i as int), p) == -1,
            },
        decreases caps@.len() - i,
    {
        assert(caps@.take(i + 1).drop_last() =~= caps@.take(i as int));
        assert(caps@.take(i + 1).last() == caps@[i as int]);
        if name_in(caps[i].capture.as_str(), names) {
            found = Some(i);
        }
        i = i + 1;
    }
    assert(caps@.take(i as int) =~= caps@);
    found
}

/// The plain values of a list of edges.
pub open spec fn edge_views(es: Seq<Edge>) -> Seq<EdgeView> {
    es.map_values(|e: Edge| edge_view(e))
}

/// The innermost enclosing Rust function (item or signature) that has a
/// name, as that name's text.
pub open spec fn rust_enclosing_fn(anc: Seq<Ancestor>) -> Option<Seq<char>>
    decreases anc.len(),
{
    if anc.len() == 0 {
        None
    } else if (anc[0].kind@ == "function_item"@ || anc[0].kind@ == "function_signature_item"@)
        && anc[0].has_name {
        text_view(anc[0].name)
    } else {
        rust_enclosing_fn(anc.skip(1))
    }
}

/// The innermost enclosing TypeScript declaration that can own a call: a
/// function, method or arrow function (by name, `<anonymous>` without one),
/// or a named class.
pub open spec fn ts_enclosing_decl(anc: Seq<Ancestor>) -> Option<Seq<char>>
    decreases anc.len(),
{
    if anc.len() == 0 {
        None
    } else {
        let a = anc[0];
        if a.kind@ == "function_declaration"@ || a.kind@ == "function"@ || a.kind@ == "method_definition"@
            || a.kind@ == "arrow_function"@ {
            if a.has_name {
                text_view(a.name)
            } else {
                Some("<anonymous>"@)
            }
        } else if a.kind@ == "class_declaration"@ && a.has_name {
            text_view(a.name)
        } else {
            ts_enclosing_decl(anc.skip(1))
        }
    }
}

fn is_function_kind(k: &str, rust: bool) -> (r: bool)
    ensures
        rust ==> r == (k@ == "function_item"@ || k@ == "function_signature_item"@),
        !rust ==> r == (k@ == "function_declaration"@ || k@ == "function"@ || k@ == "method_definition"@
            || k@ == "arrow_function"@),
{
    if rust {
        str_eq(k, "function_item") || str_eq(k, "function_signature_item")
    } else {
        str_eq(k, "function_declaration") || str_eq(k, "function") || str_eq(k, "method_definition")
            || str_eq(k, "arrow_function")
    }
}

fn clone_text(t: &Option<String>) -> (r: Option<String>)
    ensures
        text_view(r) == text_view(*t),
{
    match t {
        Some(s) => Some(s.clone()),
        None => None,
    }
}

/// The caller of a Rust call site, from its enclosing nodes.
fn enclosing_rust_fn(anc: &Vec<Ancestor>) -> (r: Option<String>)
    ensures
        text_view(r) == rust_enclosing_fn(anc@),
{
    let mut i: usize = 0;
    assert(anc@.skip(0) =~= anc@);
    while i < anc.len()
        invariant
            i <= anc@.len(),
            rust_enclosing_fn(anc@) == rust_enclosing_fn(anc@.skip(i as int)),
        decreases anc@.len() - i,
    {
        assert(anc@.skip(i as int)[0] == anc@[i as int]);
        assert(anc@.skip(i as int).skip(1) =~= anc@.skip(i + 1));
        let a = &anc[i];
        if is_function_kind(a.kind.as_str(), true) && a.has_name {
            return clone_text(&a.name);
        }
        i = i + 1;
    }
    None
}

/// The caller of a TypeScript call site, from its enclosing nodes.
fn enclosing_ts_decl(anc: &Vec<Ancestor>) -> (r: Option<String>)
    ensures
        text_view(r) == ts_enclosing_decl(anc@),
{
    let mut i: usize = 0;
    assert(anc@.skip(0) =~= anc@);
    while i < anc.len()
        invariant
            i <= anc@.len(),
            ts_enclosing_decl(anc@) == ts_enclosing_decl(anc@.skip(i as int)),
        decreases anc@.len() - i,
    {
        assert(anc@.skip(i as int)[0] == anc@[i as int]);
        assert(anc@.skip(i as int).skip(1) =~= anc@.skip(i + 1));
        let a = &anc[i];
        if is_function_kind(a.kind.as_str(), false) {
            if a.has_name {
                return clone_text(&a.name);
            }
            return Some(string_of("<anonymous>"));
        }
        if str_eq(a.kind.as_str(), "class_declaration") && a.has_name {
            return clone_text(&a.name);
        }
        i = i + 1;
    }
    None
}

/// The edge-producing rules that look at one capture at a time.
#[derive(Debug, Clone, Copy, PartialEq, Eq, Structural)]
pub enum CaptureRule {
    /// A Rust `use` path: an import edge from the file.
    RustUse,
    /// A Rust callee: a call edge from the enclosing function.
    RustCall,
    /// A TypeScript import source: an import edge from the file, quotes
    /// stripped.
    TsImport,
}

/// The edge a capture gives under a rule, if any.
pub open spec fn capture_rule_edge(rule: CaptureRule, file: Seq<char>, c: CapturedNode) -> Option<EdgeView> {
    match rule {
        CaptureRule::RustUse => if c.capture@ == "use.path"@ {
            Some((file, text_or_empty(c.text), EdgeKind::Imports, EdgeSource::TreeSitter, None))
        } else {
            None
        },
        CaptureRule::RustCall => {
            let name = text_or_empty(c.text);
            if c.capture@ == "callee"@ && name.len() > 0 {
                match rust_enclosing_fn(c.ancestors@) {
                    Some(caller) => Some(
                        (
                            qualify(file, caller),
                            name,
                            EdgeKind::Calls,
                            EdgeSource::TreeSitter,
                            Some(line_of_row(c.start_row)),
                        ),
                    ),
                    None => None,
                }
            } else {
                None
            }
        },
        CaptureRule::TsImport => if c.capture@ == "import.source"@ {
            Some(
                (
                    file,
                    trim_char_spec(trim_char_spec(text_or_empty(c.text), '"'), '\''),
                    EdgeKind::Imports,
                    EdgeSource::TreeSitter,
                    None,
                ),
            )
        } else {
            None
        },
    }
}

fn text_or_empty_exec(t: &Option<String>) -> (r: String)
    ensures
        r@ == text_or_empty(*t),
{
    match t {
        Some(s) => s.clone(),
        None => String::new(),
    }
}

fn apply_capture_rule(rule: CaptureRule, file: &str, c: &CapturedNode) -> (r: Option<Edge>)
    ensures
        match capture_rule_edge(rule, file@, *c) {
            Some(v) => r matches Some(e) && edge_view(e) == v,
            None => r is None,
        },
{
    match rule {
        CaptureRule::RustUse => {
            if !str_eq(c.capture.as_str(), "use.path") {
                return None;
            }
            Some(
                Edge {
                    from: string_of(file),
                    to: text_or_empty_exec(&c.text),
                    kind: EdgeKind::Imports,
                    source: EdgeSource::TreeSitter,
                    from_line: None,
                },
            )
        },
        CaptureRule::RustCall => {
            if !str_eq(c.capture.as_str(), "callee") {
                return None;
            }
            let name = text_or_empty_exec(&c.text);
            if name.as_str().is_empty() {
                return None;
            }
            match enclosing_rust_fn(&c.ancestors) {
                Some(caller) => Some(
                    Edge {
                        from: qualify_exec(file, caller.as_str()),
                        to: name,
                        kind: EdgeKind::Calls,
                        source: EdgeSource::TreeSitter,
                        from_line: Some(line_of(c.start_row)),
                    },
                ),
                None => None,
            }
        },
        CaptureRule::TsImport => {
            if !str_eq(c.capture.as_str(), "import.source") {
                return None;
            }
            let raw = text_or_empty_exec(&c.text);
            let once = trim_char(raw.as_str(), '"');
            Some(
                Edge {
                    from: string_of(file),
                    to: trim_char(once.as_str(), '\''),
                    kind: EdgeKind::Imports,
                    source: EdgeSource::TreeSitter,
                    from_line: None,
                },
            )
        },
    }
}

/// The edges the captures of one match give under a rule, in order.
pub open spec fn capture_edges(rule: CaptureRule, file: Seq<char>, caps: Seq<CapturedNode>) -> Seq<EdgeView>
    decreases caps.len(),
{
    if caps.len() == 0 {
        Seq::empty()
    } else {
        let rest = capture_edges(rule, file, caps.drop_last());
        match capture_rule_edge(rule, file, caps.last()) {
            Some(e) => rest.push(e),
            None => rest,
        }
    }
}

/// The edges all matches give under a capture rule, in order.
pub open spec fn all_capture_edges(rule: CaptureRule, file: Seq<char>, ms: Seq<Vec<CapturedNode>>) -> Seq<EdgeView>
    decreases ms.len(),
{
    if ms.len() == 0 {
        Seq::empty()
    } else {
        all_capture_edges(rule, file, ms.drop_last()) + capture_edges(rule, file, ms.last()@)
    }
}

/// Appends the edges that the matches give under a capture rule.
fn push_capture_edges(rule: CaptureRule, file: &str, ms: &Vec<Vec<CapturedNode>>, out: &mut Vec<Edge>)
    ensures
        edge_views(final(out)@) == edge_views(old(out)@) + all_capture_edges(rule, file@, ms@),
{
    let ghost start = edge_views(out@);
    let mut i: usize = 0;
    while i < ms.len()
        invariant
            i <= ms@.len(),
            edge_views(out@) == start + all_capture_edges(rule, file@, ms@.take(i as int)),
        decreases ms@.len() - i,
    {
        assert(ms@.take(i + 1).drop_last() =~= ms@.take(i as int));
        let caps = &ms[i];
        let ghost before = edge_views(out@);
        let mut j: usize = 0;
        while j < caps.len()
            invariant
                j <= caps@.len(),
                edge_views(out@) == before + capture_edges(rule, file@, caps@.take(j as int)),
            decreases caps@.len() - j,
        {
            assert(caps@.take(j + 1).drop_last() =~= caps@.take(j as int));
            assert(caps@.take(j + 1).last() == caps@[j as int]);
            let ghost prev = out@;
            match apply_capture_rule(rule, file, &caps[j]) {
                Some(e) => {
                    out.push(e);
                    assert(edge_views(out@) =~= edge_views(prev).push(edge_view(e)));
                },
                None => {},
            }
            j = j + 1;
        }
        assert(caps@.take(j as int) =~= caps@);
        i = i + 1;
    }
    assert(ms@.take(i as int) =~= ms@);
}

/// The edge-producing rules that look at a whole match.
#[derive(Debug, Clone, Copy, PartialEq, Eq, Structural)]
pub enum MatchRule {
    /// A Rust `impl Trait for Type`: an implements edge from the type.
    RustImpl,
    /// A TypeScript call site: a call edge from the enclosing declaration.
    TsCall,
}

/// The edge a match gives under a rule, if any.
pub open spec fn match_rule_edge(rule: MatchRule, file: Seq<char>, caps: Seq<CapturedNode>) -> Option<EdgeView> {
    match rule {
        MatchRule::RustImpl => {
            let ti = last_capture(caps, one_of(seq!["trait"@]));
            let yi = last_capture(caps, one_of(seq!["ty"@]));
            if ti < 0 || yi < 0 {
                None
            } else {
                match (caps[ti].text, caps[yi].text) {
                    (Some(t), Some(y)) => Some(
                        (
                            qualify(file, y@),
                            t@,
                            EdgeKind::Implements,
                            EdgeSource::TreeSitter,
                            Some(line_of_row(caps[ti].start_row)),
                        ),
                    ),
                    _ => None,
                }
            }
        },
        MatchRule::TsCall => {
            let ci = last_capture(caps, one_of(seq!["callee"@]));
            let si = last_capture(caps, one_of(seq!["site"@]));
            if ci < 0 || si < 0 {
                None
            } else {
                let name = text_or_empty(caps[ci].text);
                if name.len() == 0 {
                    None
                } else {
                    match ts_enclosing_decl(caps[si].ancestors@) {
                        Some(caller) => Some(
                            (
                                qualify(file, caller),
                                name,
                                EdgeKind::Calls,
                                EdgeSource::TreeSitter,
                                Some(line_of_row(caps[si].start_row)),
                            ),
                        ),
                        None => None,
                    }
                }
            }
        },
    }
}

fn apply_match_rule(rule: MatchRule, file: &str, caps: &Vec<CapturedNode>) -> (r: Option<Edge>)
    ensures
        match match_rule_edge(rule, file@, caps@) {
            Some(v) => r matches Some(e) && edge_view(e) == v,
            None => r is None,
        },
{
    proof {
        lemma_last_capture_range(caps@, one_of(seq!["trait"@]));
        lemma_last_capture_range(caps@, one_of(seq!["ty"@]));
        lemma_last_capture_range(caps@, one_of(seq!["callee"@]));
        lemma_last_capture_range(caps@, one_of(seq!["site"@]));
    }
    match rule {
        MatchRule::RustImpl => {
            let tn: &[&str] = &["trait"];
            let yn: &[&str] = &["ty"];
            assert(str_views(tn@) =~= seq!["trait"@]);
            assert(str_views(yn@) =~= seq!["ty"@]);
            let ti = last_capture_of(caps, tn);
            let yi = last_capture_of(caps, yn);
            match (ti, yi) {
                (Some(t), Some(y)) => {
                    match (&caps[t].text, &caps[y].text) {
                        (Some(tt), Some(yt)) => Some(
                            Edge {
                                from: qualify_exec(file, yt.as_str()),
                                to: tt.clone(),
                                kind: EdgeKind::Implements,
                                source: EdgeSource::TreeSitter,
                                from_line: Some(line_of(caps[t].start_row)),
                            },
                        ),
                        _ => None,
                    }
                },
                _ => None,
            }
        },
        MatchRule::TsCall => {
            let cn: &[&str] = &["callee"];
            let sn: &[&str] = &["site"];
            assert(str_views(cn@) =~= seq!["callee"@]);
            assert(str_views(sn@) =~= seq!["site"@]);
            let ci = last_capture_of(caps, cn);
            let si = last_capture_of(caps, sn);
            match (ci, si) {
                (Some(c), Some(st)) => {
                    let name = text_or_empty_exec(&caps[c].text);
                    if name.as_str().is_empty() {
                        return None;
                    }
                    match enclosing_ts_decl(&caps[st].ancestors) {
                        Some(caller) => Some(
                            Edge {
                                from: qualify_exec(file, caller.as_str()),
                                to: name,
                                kind: EdgeKind::Calls,
                                source: EdgeSource::TreeSitter,
                                from_line: Some(line_of(caps[st].start_row)),
                            },
                        ),
                        None => None,
                    }
                },
                _ => None,
            }
        },
    }
}

/// The edges the matches give under a match rule, in order.
pub open spec fn all_match_edges(rule: MatchRule, file: Seq<char>, ms: Seq<Vec<CapturedNode>>) -> Seq<EdgeView>
    decreases ms.len(),
{
    if ms.len() == 0 {
        Seq::empty()
    } else {
        let rest = all_match_edges(rule, file, ms.drop_last());
        match match_rule_edge(rule, file, ms.last()@) {
            Some(e) => rest.push(e),
            None => rest,
        }
    }
}

/// Appends the edges that the matches give under a match rule.
fn push_match_edges(rule: MatchRule, file: &str, ms: &Vec<Vec<CapturedNode>>, out: &mut Vec<Edge>)
    ensures
        edge_views(final(out)@) == edge_views(old(out)@) + all_match_edges(rule, file@, ms@),
{
    let ghost start = edge_views(out@);
    let mut i: usize = 0;
    while i < ms.len()
        invariant
            i <= ms@.len(),
            edge_views(out@) == start + all_match_edges(rule, file@, ms@.take(i as int)),
        decreases ms@.len() - i,
    {
        assert(ms@.take(i + 1).drop_last() =~= ms@.take(i as int));
        assert(ms@.take(i + 1).last() == ms@[i as int]);
        let ghost prev = out@;
        match apply_match_rule(rule, file, &ms[i]) {
            Some(e) => {
                out.push(e);
                assert(edge_views(out@) =~= edge_views(prev).push(edge_view(e)));
            },
            None => {},
        }
        i = i + 1;
    }
    assert(ms@.take(i as int) =~= ms@);
}

/// The Rust capture names that carry a symbol's name.
pub open spec fn rust_name_captures() -> Seq<Seq<char>> {
    seq![
        "fn.name"@,
        "struct.name"@,
        "enum.name"@,
        "trait.name"@,
        "type.name"@,
        "const.name"@,
        "static.name"@,
        "mod.name"@,
    ]
}

/// The Rust capture names that mark a symbol's declaration.
pub open spec fn rust_def_captures() -> Seq<Seq<char>> {
    seq!["fn.def"@, "struct.def"@, "enum.def"@, "trait.def"@, "type.def"@, "const.def"@, "static.def"@, "mod.def"@]
}

/// The TypeScript capture names that carry a symbol's name.
pub open spec fn ts_name_captures() -> Seq<Seq<char>> {
    seq!["fn.name"@, "method.name"@, "class.name"@, "interface.name"@, "type.name"@]
}

/// The TypeScript capture names that mark a symbol's declaration.
pub open spec fn ts_def_captures() -> Seq<Seq<char>> {
    seq!["fn.def"@, "method.def"@, "class.def"@, "interface.def"@, "type.def"@]
}

/// The symbol kind a name capture stands for.
pub open spec fn kind_of_capture(c: Seq<char>) -> SymbolKind {
    if c == "fn.name"@ {
        SymbolKind::Function
    } else if c == "struct.name"@ {
        SymbolKind::Struct
    } else if c == "enum.name"@ {
        SymbolKind::Enum
    } else if c == "trait.name"@ {
        SymbolKind::Trait
    } else if c == "type.name"@ {
        SymbolKind::Type
    } else if c == "const.name"@ {
        SymbolKind::Constant
    } else if c == "static.name"@ {
        SymbolKind::Static
    } else if c == "mod.name"@ {
        SymbolKind::Module
    } else if c == "method.name"@ {
        SymbolKind::Method
    } else if c == "class.name"@ {
        SymbolKind::Class
    } else {
        SymbolKind::Interface
    }
}

/// The symbol kind `k` is the one a name capture `c` (`<stem>.name`)
/// announces: the kind's name begins with the stem, `fn` standing for a
/// function.
pub open spec fn capture_names_kind(c: Seq<char>, k: SymbolKind) -> bool {
    let stem = c.take(c.len() - 5);
    &&& c.len() >= 5
    &&& c.skip(c.len() - 5) == ".name"@
    &&& stem.is_prefix_of(symbol_kind_name(k)) || (stem == "fn"@ && k == SymbolKind::Function)
}

/// Law: every name capture of the Rust and TypeScript queries gives the
/// symbol kind its stem announces (`enum.name` an enum, `struct.name` a
/// struct, `fn.name` a function, ...), and no two Rust name captures, nor
/// two TypeScript ones, give the same kind.
pub proof fn name_captures_give_their_kinds()
    ensures
        forall|i: int|
            0 <= i < rust_name_captures().len() ==> capture_names_kind(
                #[trigger] rust_name_captures()[i],
                kind_of_capture(rust_name_captures()[i]),
            ),
        forall|i: int, j: int|
            0 <= i < j < rust_name_captures().len() ==> kind_of_capture(#[trigger] rust_name_captures()[i])
                != kind_of_capture(#[trigger] rust_name_captures()[j]),
        forall|i: int|
            0 <= i < ts_name_captures().len() ==> capture_names_kind(
                #[trigger] ts_name_captures()[i],
                kind_of_capture(ts_name_captures()[i]),
            ),
        forall|i: int, j: int|
            0 <= i < j < ts_name_captures().len() ==> kind_of_capture(#[trigger] ts_name_captures()[i])
                != kind_of_capture(#[trigger] ts_name_captures()[j]),
{
    reveal_strlit("fn.name");
    reveal_strlit("struct.name");
    reveal_strlit("enum.name");
    reveal_strlit("trait.name");
    reveal_strlit("type.name");
    reveal_strlit("const.name");
    reveal_strlit("static.name");
    reveal_strlit("mod.name");
    reveal_strlit("method.name");
    reveal_strlit("class.name");
    reveal_strlit("interface.name");
    reveal_strlit(".name");
    reveal_strlit("fn");
    reveal_strlit("function");
    reveal_strlit("struct");
    reveal_strlit("enum");
    reveal_strlit("trait");
    reveal_strlit("type");
    reveal_strlit("constant");
    reveal_strlit("const");
    reveal_strlit("mod");
    reveal_strlit("static");
    reveal_strlit("module");
    reveal_strlit("method");
    reveal_strlit("class");
    reveal_strlit("interface");
    let rs = rust_name_captures();
    let ts = ts_name_captures();
    assert("struct.name"@.len() != "fn.name"@.len());
    assert("enum.name"@.len() != "fn.name"@.len());
    assert("enum.name"@.len() != "struct.name"@.len());
    assert("trait.name"@.len() != "fn.name"@.len());
    assert("trait.name"@.len() != "struct.name"@.len());
    assert("trait.name"@.len() != "enum.name"@.len());
    assert("type.name"@.len() != "fn.name"@.len());
    assert("type.name"@.len() != "struct.name"@.len());
    assert("type.name"@[0] != "enum.name"@[0]);
    assert("type.name"@.len() != "trait.name"@.len());
    assert("const.name"@.len() != "fn.name"@.len());
    assert("const.name"@.len() != "struct.name"@.len());
    assert("const.name"@.len() != "enum.name"@.len());
    assert("const.name"@[0] != "trait.name"@[0]);
    assert("const.name"@.len() != "type.name"@.len());
    assert("static.name"@.len() != "fn.name"@.len());
    assert("static.name"@[2] != "struct.name"@[2]);
    assert("static.name"@.len() != "enum.name"@.len());
    assert("static.name"@.len() != "trait.name"@.len());
    assert("static.name"@.len() != "type.name"@.len());
    assert("static.name"@.len() != "const.name"@.len());
    assert("mod.name"@.len() != "fn.name"@.len());
    assert("mod.name"@.len() != "struct.name"@.len());
    assert("mod.name"@.len() != "enum.name"@.len());
    assert("mod.name"@.len() != "trait.name"@.len());
    assert("mod.name"@.len() != "type.name"@.len());
    assert("mod.name"@.len() != "const.name"@.len());
    assert("mod.name"@.len() != "static.name"@.len());
    assert("method.name"@.len() != "fn.name"@.len());
    assert("method.name"@[0] != "struct.name"@[0]);
    assert("method.name"@.len() != "enum.name"@.len());
    assert("method.name"@.len() != "trait.name"@.len());
    assert("method.name"@.len() != "type.name"@.len());
    assert("method.name"@.len() != "const.name"@.len());
    assert("method.name"@[0] != "static.name"@[0]);
    assert("method.name"@.len() != "mod.name"@.len());
    assert("class.name"@.len() != "fn.name"@.len());
    assert("class.name"@.len() != "struct.name"@.len());
    assert("class.name"@.len() != "enum.name"@.len());
    assert("class.name"@[0] != "trait.name"@[0]);
    assert("class.name"@.len() != "type.name"@.len());
    assert("class.name"@[1] != "const.name"@[1]);
    assert("class.name"@.len() != "static.name"@.len());
    assert("class.name"@.len() != "mod.name"@.len());
    assert("class.name"@.len() != "method.name"@.len());
    assert("interface.name"@.len() != "fn.name"@.len());
    assert("interface.name"@.len() != "struct.name"@.len());
    assert("interface.name"@.len() != "enum.name"@.len());
    assert("interface.name"@.len() != "trait.name"@.len());
    assert("interface.name"@.len() != "type.name"@.len());
    assert("interface.name"@.len() != "const.name"@.len());
    assert("interface.name"@.len() != "static.name"@.len());
    assert("interface.name"@.len() != "mod.name"@.len());
    assert("interface.name"@.len() != "method.name"@.len());
    assert("interface.name"@.len() != "class.name"@.len());
    assert(kind_of_capture(rs[0]) == SymbolKind::Function);
    assert(kind_of_capture(rs[1]) == SymbolKind::Struct);
    assert(kind_of_capture(rs[2]) == SymbolKind::Enum);
    assert(kind_of_capture(rs[3]) == SymbolKind::Trait);
    assert(kind_of_capture(rs[4]) == SymbolKind::Type);
    assert(kind_of_capture(rs[5]) == SymbolKind::Constant);
    assert(kind_of_capture(rs[6]) == SymbolKind::Static);
    assert(kind_of_capture(rs[7]) == SymbolKind::Module);
    assert forall|i: int| 0 <= i < rs.len() implies capture_names_kind(#[trigger] rs[i], kind_of_capture(rs[i])) by {
        let c = rs[i];
        assert(c.skip(c.len() - 5) =~= ".name"@);
        let stem = c.take(c.len() - 5);
        if i == 0 {
            assert(stem =~= "fn"@);
        } else if i == 1 {
            assert(stem =~= "struct"@);
            assert(stem.is_prefix_of(symbol_kind_name(kind_of_capture(c))));
        } else if i == 2 {
            assert(stem =~= "enum"@);
            assert(stem.is_prefix_of(symbol_kind_name(kind_of_capture(c))));
        } else if i == 3 {
            assert(stem =~= "trait"@);
            assert(stem.is_prefix_of(symbol_kind_name(kind_of_capture(c))));
        } else if i == 4 {
            assert(stem =~= "type"@);
            assert(stem.is_prefix_of(symbol_kind_name(kind_of_capture(c))));
        } else if i == 5 {
            assert(stem =~= "const"@);
            assert(symbol_kind_name(kind_of_capture(c)).subrange(0, 5) =~= stem);
        } else if i == 6 {
            assert(stem =~= "static"@);
            assert(stem.is_prefix_of(symbol_kind_name(kind_of_capture(c))));
        } else {
            assert(stem =~= "mod"@);
            assert(symbol_kind_name(kind_of_capture(c)).subrange(0, 3) =~= stem);
        }
    }
    assert forall|i: int| 0 <= i < ts.len() implies capture_names_kind(#[trigger] ts[i], kind_of_capture(ts[i])) by {
        let c = ts[i];
        assert(c.skip(c.len() - 5) =~= ".name"@);
        let stem = c.take(c.len() - 5);
        if i == 0 {
            assert(stem =~= "fn"@);
        } else if i == 1 {
            assert(stem =~= "method"@);
            assert(stem.is_prefix_of(symbol_kind_name(kind_of_capture(c))));
        } else if i == 2 {
            assert(stem =~= "class"@);
            assert(stem.is_prefix_of(symbol_kind_name(kind_of_capture(c))));
        } else if i == 3 {
            assert(stem =~= "interface"@);
            assert(stem.is_prefix_of(symbol_kind_name(kind_of_capture(c))));
        } else {
            assert(stem =~= "type"@);
            assert(stem.is_prefix_of(symbol_kind_name(kind_of_capture(c))));
        }
    }
}

fn kind_of_capture_exec(c: &str) -> (k: SymbolKind)
    ensures
        k == kind_of_capture(c@),
{
    if str_eq(c, "fn.name") {
        SymbolKind::Function
    } else if str_eq(c, "struct.name") {
        SymbolKind::Struct
    } else if str_eq(c, "enum.name") {
        SymbolKind::Enum
    } else if str_eq(c, "trait.name") {
        SymbolKind::Trait
    } else if str_eq(c, "type.name") {
        SymbolKind::Type
    } else if str_eq(c, "const.name") {
        SymbolKind::Constant
    } else if str_eq(c, "static.name") {
        SymbolKind::Static
    } else if str_eq(c, "mod.name") {
        SymbolKind::Module
    } else if str_eq(c, "method.name") {
        SymbolKind::Method
    } else if str_eq(c, "class.name") {
        SymbolKind::Class
    } else {
        SymbolKind::Interface
    }
}

/// The symbol of one Rust symbols-query match: named by its last name
/// capture (whose kind it takes), spanning its last declaration capture,
/// with that declaration's first line as signature, exported when the
/// declaration has a visibility modifier.
pub open spec fn rust_symbol_spec(file: Seq<char>, caps: Seq<CapturedNode>) -> Option<SymbolView> {
    let ni = last_capture(caps, one_of(rust_name_captures()));
    let di = last_capture(caps, one_of(rust_def_captures()));
    if ni < 0 || di < 0 {
        None
    } else {
        let d = caps[di];
        match caps[ni].text {
            Some(name) => Some(
                (
                    qualify(file, name@),
                    kind_of_capture(caps[ni].capture@),
                    line_of_row(d.start_row),
                    line_of_row(d.end_row),
                    signature_spec(text_view(d.text), name@),
                    has_visibility(d.child_kinds@),
                ),
            ),
            None => None,
        }
    }
}

fn rust_symbol_of(file: &str, caps: &Vec<CapturedNode>) -> (r: Option<Symbol>)
    ensures
        match rust_symbol_spec(file@, caps@) {
            Some(v) => r matches Some(s) && symbol_is(s, file@, v),
            None => r is None,
        },
{
    let names: &[&str] = &[
        "fn.name",
        "struct.name",
        "enum.name",
        "trait.name",
        "type.name",
        "const.name",
        "static.name",
        "mod.name",
    ];
    let defs: &[&str] = &["fn.def", "struct.def", "enum.def", "trait.def", "type.def", "const.def", "static.def", "mod.def"];
    assert(str_views(names@) =~= rust_name_captures());
    assert(str_views(defs@) =~= rust_def_captures());
    proof {
        lemma_last_capture_range(caps@, one_of(rust_name_captures()));
        lemma_last_capture_range(caps@, one_of(rust_def_captures()));
    }
    match (last_capture_of(caps, names), last_capture_of(caps, defs)) {
        (Some(ni), Some(di)) => {
            let nc = &caps[ni];
            let d = &caps[di];
            match &nc.text {
                Some(name) => {
                    let q = qualify_exec(file, name.as_str());
                    let sig = signature_of(&d.text, name.as_str());
                    Some(
                        symbol_from_view(
                            file,
                            q.as_str(),
                            kind_of_capture_exec(nc.capture.as_str()),
                            line_of(d.start_row),
                            line_of(d.end_row),
                            sig,
                            has_visibility_exec(&d.child_kinds),
                        ),
                    )
                },
                None => None,
            }
        },
        _ => None,
    }
}

/// The symbols of all Rust symbols-query matches, in order.
pub open spec fn rust_symbols_spec(file: Seq<char>, ms: Seq<Vec<CapturedNode>>) -> Seq<SymbolView>
    decreases ms.len(),
{
    if ms.len() == 0 {
        Seq::empty()
    } else {
        let rest = rust_symbols_spec(file, ms.drop_last());
        match rust_symbol_spec(file, ms.last()@) {
            Some(v) => rest.push(v),
            None => rest,
        }
    }
}

/// A symbol's lines run from 1 and end no earlier than they start; a
/// declaration ending on the last row tree-sitter can number reads as line 0.
pub open spec fn lines_in_order(start: u32, end: u32) -> bool {
    end == 0 || 1 <= start <= end
}

/// Every captured node of every match ends on a row no earlier than it
/// starts on, and rows fit in `u32`.
pub open spec fn rows_in_order(ms: Seq<Vec<CapturedNode>>) -> bool {
    forall|i: int, j: int|
        0 <= i < ms.len() && 0 <= j < ms[i]@.len() ==> #[trigger] ms[i]@[j].start_row <= ms[i]@[j].end_row
            <= u32::MAX
}

proof fn lemma_rust_symbol_lines(file: Seq<char>, ms: Seq<Vec<CapturedNode>>)
    requires
        rows_in_order(ms),
    ensures
        forall|k: int|
            0 <= k < rust_symbols_spec(file, ms).len() ==> lines_in_order(
                #[trigger] rust_symbols_spec(file, ms)[k].2,
                rust_symbols_spec(file, ms)[k].3,
            ),
    decreases ms.len(),
{
    if ms.len() > 0 {
        let rest = ms.drop_last();
        assert forall|i: int, j: int| 0 <= i < rest.len() && 0 <= j < rest[i]@.len() implies #[trigger] rest[i]@[j].start_row
            <= rest[i]@[j].end_row <= u32::MAX by {
            assert(rest[i] == ms[i]);
        }
        lemma_rust_symbol_lines(file, rest);
        let caps = ms.last()@;
        lemma_last_capture_range(caps, one_of(rust_def_captures()));
        let di = last_capture(caps, one_of(rust_def_captures()));
        if di >= 0 {
            assert(ms[ms.len() - 1]@[di].start_row <= ms[ms.len() - 1]@[di].end_row);
            let d = caps[di];
            assert(d.start_row <= d.end_row <= u32::MAX);
            assert(d.start_row as u32 == d.start_row);
            assert(d.end_row as u32 == d.end_row);
            assert(lines_in_order(line_of_row(d.start_row), line_of_row(d.end_row)));
        }
        let prev = rust_symbols_spec(file, rest);
        let all = rust_symbols_spec(file, ms);
        match rust_symbol_spec(file, caps) {
            Some(v) => {
                assert(lines_in_order(v.2, v.3));
                assert(all == prev.push(v));
                assert forall|k: int| 0 <= k < all.len() implies lines_in_order(#[trigger] all[k].2, all[k].3) by {
                    if k < prev.len() {
                        assert(all[k] == prev[k]);
                    }
                }
            },
            None => {
                assert(all == prev);
            },
        }
    }
}

fn rust_symbols(file: &str, ms: &Vec<Vec<CapturedNode>>) -> (r: Vec<Symbol>)
    ensures
        symbols_are(r@, file@, rust_symbols_spec(file@, ms@)),
{
    let mut out: Vec<Symbol> = Vec::new();
    let mut i: usize = 0;
    while i < ms.len()
        invariant
            i <= ms@.len(),
            symbols_are(out@, file@, rust_symbols_spec(file@, ms@.take(i as int))),
        decreases ms@.len() - i,
    {
        assert(ms@.take(i + 1).drop_last() =~= ms@.take(i as int));
        assert(ms@.take(i + 1).last() == ms@[i as int]);
        match rust_symbol_of(file, &ms[i]) {
            Some(s) => {
                out.push(s);
            },
            None => {},
        }
        i = i + 1;
    }
    assert(ms@.take(i as int) =~= ms@);
    out
}

/// The symbol record of one TypeScript symbols-query match: named by its
/// last name capture (empty when the name has no text), spanning its last
/// declaration capture, exported when the match went through an `export`.
pub open spec fn ts_symbol_spec(file: Seq<char>, caps: Seq<CapturedNode>) -> Option<SymbolView> {
    let ni = last_capture(caps, one_of(ts_name_captures()));
    let di = last_capture(caps, one_of(ts_def_captures()));
    if ni < 0 || di < 0 {
        None
    } else {
        let d = caps[di];
        let name = text_or_empty(caps[ni].text);
        Some(
            (
                qualify(file, name),
                kind_of_capture(caps[ni].capture@),
                line_of_row(d.start_row),
                line_of_row(d.end_row),
                signature_spec(text_view(d.text), name),
                last_capture(caps, one_of(seq!["exported"@])) >= 0,
            ),
        )
    }
}

/// A symbol record before deduplication.
#[derive(Debug, PartialEq, Eq)]
pub struct SymbolRecord {
    /// The qualified name as built (before defanging).
    pub qualified_name: String,
    pub kind: SymbolKind,
    pub start_line: u32,
    pub end_line: u32,
    pub signature: String,
    pub exported: bool,
}

/// The plain values of a record.
pub open spec fn record_view(r: SymbolRecord) -> SymbolView {
    (r.qualified_name@, r.kind, r.start_line, r.end_line, r.signature@, r.exported)
}

fn ts_record_of(file: &str, caps: &Vec<CapturedNode>) -> (r: Option<SymbolRecord>)
    ensures
        match ts_symbol_spec(file@, caps@) {
            Some(v) => r matches Some(rec) && record_view(rec) == v,
            None => r is None,
        },
{
    let names: &[&str] = &["fn.name", "method.name", "class.name", "interface.name", "type.name"];
    let defs: &[&str] = &["fn.def", "method.def", "class.def", "interface.def", "type.def"];
    let exp: &[&str] = &["exported"];
    assert(str_views(names@) =~= ts_name_captures());
    assert(str_views(defs@) =~= ts_def_captures());
    assert(str_views(exp@) =~= seq!["exported"@]);
    proof {
        lemma_last_capture_range(caps@, one_of(ts_name_captures()));
        lemma_last_capture_range(caps@, one_of(ts_def_captures()));
    }
    let exported = last_capture_of(caps, exp).is_some();
    match (last_capture_of(caps, names), last_capture_of(caps, defs)) {
        (Some(ni), Some(di)) => {
            let nc = &caps[ni];
            let d = &caps[di];
            let name = text_or_empty_exec(&nc.text);
            Some(
                SymbolRecord {
                    qualified_name: qualify_exec(file, name.as_str()),
                    kind: kind_of_capture_exec(nc.capture.as_str()),
                    start_line: line_of(d.start_row),
                    end_line: line_of(d.end_row),
                    signature: signature_of(&d.text, name.as_str()),
                    exported,
                },
            )
        },
        _ => None,
    }
}

/// The symbol records of all TypeScript symbols-query matches, in order.
pub open spec fn ts_records_spec(file: Seq<char>, ms: Seq<Vec<CapturedNode>>) -> Seq<SymbolView>
    decreases ms.len(),
{
    if ms.len() == 0 {
        Seq::empty()
    } else {
        let rest = ts_records_spec(file, ms.drop_last());
        match ts_symbol_spec(file, ms.last()@) {
            Some(v) => rest.push(v),
            None => rest,
        }
    }
}

fn ts_records(file: &str, ms: &Vec<Vec<CapturedNode>>) -> (r: Vec<SymbolRecord>)
    ensures
        r@.map_values(|x: SymbolRecord| record_view(x)) == ts_records_spec(file@, ms@),
{
    let mut out: Vec<SymbolRecord> = Vec::new();
    let mut i: usize = 0;
    while i < ms.len()
        invariant
            i <= ms@.len(),
            out@.map_values(|x: SymbolRecord| record_view(x)) == ts_records_spec(file@, ms@.take(i as int)),
        decreases ms@.len() - i,
    {
        assert(ms@.take(i + 1).drop_last() =~= ms@.take(i as int));
        assert(ms@.take(i + 1).last() == ms@[i as int]);
        let ghost prev = out@;
        match ts_record_of(file, &ms[i]) {
            Some(rec) => {
                out.push(rec);
                assert(out@.map_values(|x: SymbolRecord| record_view(x)) =~= prev.map_values(
                    |x: SymbolRecord| record_view(x),
                ).push(record_view(rec)));
            },
            None => {},
        }
        i = i + 1;
    }
    assert(ms@.take(i as int) =~= ms@);
    out
}

/// The key under which TypeScript symbol records are merged: first line and
/// qualified name. The bare and the `export`-wrapped match of one
/// declaration share it; overloads on other lines do not.
pub open spec fn record_key(v: SymbolView) -> (u32, Seq<char>) {
    (v.2, v.0)
}

/// The order of keys: by line, then by name.
pub open spec fn key_lt(a: (u32, Seq<char>), b: (u32, Seq<char>)) -> bool {
    a.0 < b.0 || (a.0 == b.0 && chars_lt(a.1, b.1))
}

/// Law: keys are strictly and totally ordered.
pub proof fn key_order(a: (u32, Seq<char>), b: (u32, Seq<char>), c: (u32, Seq<char>))
    ensures
        !key_lt(a, a),
        a != b ==> (key_lt(a, b) || key_lt(b, a)),
        key_lt(a, b) ==> !key_lt(b, a),
        key_lt(a, b) && key_lt(b, c) ==> key_lt(a, c),
{
    chars_lt_total(a.1, a.1);
    chars_lt_total(a.1, b.1);
    if key_lt(a, b) && key_lt(b, c) && a.0 == b.0 && b.0 == c.0 {
        chars_lt_transitive(a.1, b.1, c.1);
    }
}

/// The index of the first record with key `k`, or -1.
pub open spec fn first_with_key(recs: Seq<SymbolView>, k: (u32, Seq<char>)) -> int
    decreases recs.len(),
{
    if recs.len() == 0 {
        -1
    } else {
        let f = first_with_key(recs.drop_last(), k);
        if f >= 0 {
            f
        } else if record_key(recs.last()) == k {
            recs.len() - 1
        } else {
            -1
        }
    }
}

proof fn lemma_first_with_key(recs: Seq<SymbolView>, k: (u32, Seq<char>))
    ensures
        -1 <= first_with_key(recs, k) < recs.len(),
        first_with_key(recs, k) >= 0 ==> record_key(recs[first_with_key(recs, k)]) == k,
        first_with_key(recs, k) < 0 ==> forall|i: int| 0 <= i < recs.len() ==> record_key(#[trigger] recs[i]) != k,
    decreases recs.len(),
{
    if recs.len() > 0 {
        lemma_first_with_key(recs.drop_last(), k);
        let f = first_with_key(recs.drop_last(), k);
        if f >= 0 {
            assert(recs.drop_last()[f] == recs[f]);
        } else {
            assert forall|i: int| 0 <= i < recs.len() - 1 implies record_key(#[trigger] recs[i]) != k by {
                assert(recs.drop_last()[i] == recs[i]);
            }
        }
    }
}

/// Whether some record with key `k` is exported.
pub open spec fn exported_with_key(recs: Seq<SymbolView>, k: (u32, Seq<char>)) -> bool {
    exists|i: int| 0 <= i < recs.len() && record_key(recs[i]) == k && #[trigger] recs[i].5
}

/// The symbol that all records with key `k` merge into: the first of them,
/// exported when any of them is.
pub open spec fn merged_record(recs: Seq<SymbolView>, k: (u32, Seq<char>)) -> SymbolView {
    let r = recs[first_with_key(recs, k)];
    (r.0, r.1, r.2, r.3, r.4, exported_with_key(recs, k))
}

/// `out` is `recs` merged by key and sorted by key: one symbol per key,
/// keys strictly increasing, each the merge of its records.
pub open spec fn merged_by_key(out: Seq<SymbolView>, recs: Seq<SymbolView>) -> bool {
    &&& forall|i: int, j: int| 0 <= i < j < out.len() ==> key_lt(record_key(out[i]), record_key(out[j]))
    &&& forall|i: int|
        0 <= i < out.len() ==> first_with_key(recs, record_key(#[trigger] out[i])) >= 0 && out[i]
            == merged_record(recs, record_key(out[i]))
    &&& forall|k: int| 0 <= k < recs.len() ==> exists|i: int| 0 <= i < out.len() && #[trigger] record_key(out[i]) == record_key(#[trigger] recs[k])
}

proof fn lemma_ts_record_lines(file: Seq<char>, ms: Seq<Vec<CapturedNode>>)
    requires
        rows_in_order(ms),
    ensures
        forall|k: int|
            0 <= k < ts_records_spec(file, ms).len() ==> lines_in_order(
                #[trigger] ts_records_spec(file, ms)[k].2,
                ts_records_spec(file, ms)[k].3,
            ),
    decreases ms.len(),
{
    if ms.len() > 0 {
        let rest = ms.drop_last();
        assert forall|i: int, j: int| 0 <= i < rest.len() && 0 <= j < rest[i]@.len() implies #[trigger] rest[i]@[j].start_row
            <= rest[i]@[j].end_row <= u32::MAX by {
            assert(rest[i] == ms[i]);
        }
        lemma_ts_record_lines(file, rest);
        let caps = ms.last()@;
        lemma_last_capture_range(caps, one_of(ts_def_captures()));
        let di = last_capture(caps, one_of(ts_def_captures()));
        if di >= 0 {
            assert(ms[ms.len() - 1]@[di].start_row <= ms[ms.len() - 1]@[di].end_row);
            let d = caps[di];
            assert(d.start_row as u32 == d.start_row);
            assert(d.end_row as u32 == d.end_row);
            assert(lines_in_order(line_of_row(d.start_row), line_of_row(d.end_row)));
        }
        let prev = ts_records_spec(file, rest);
        let all = ts_records_spec(file, ms);
        match ts_symbol_spec(file, caps) {
            Some(v) => {
                assert(lines_in_order(v.2, v.3));
                assert(all == prev.push(v));
                assert forall|k: int| 0 <= k < all.len() implies lines_in_order(#[trigger] all[k].2, all[k].3) by {
                    if k < prev.len() {
                        assert(all[k] == prev[k]);
                    }
                }
            },
            None => {
                assert(all == prev);
            },
        }
    }
}

/// Every captured text of every match is text of `content`.
pub open spec fn texts_from(ms: Seq<Vec<CapturedNode>>, content: Seq<char>) -> bool {
    forall|i: int, j: int|
        0 <= i < ms.len() && 0 <= j < ms[i]@.len() && (#[trigger] ms[i]@[j]).text is Some ==> is_piece_of(
            ms[i]@[j].text->Some_0@,
            content,
        )
}

/// `q` is `file::name` for a name that is text of `content`.
pub open spec fn named_from(q: Seq<char>, file: Seq<char>, content: Seq<char>) -> bool {
    exists|n: Seq<char>| is_piece_of(n, content) && #[trigger] qualify(file, n) == q
}

/// `s` is named `file::name` (defanged) with a name that is text of
/// `content`.
pub open spec fn symbol_named_from(s: Symbol, file: Seq<char>, content: Seq<char>) -> bool {
    exists|n: Seq<char>| is_piece_of(n, content) && #[trigger] defang_spec(qualify(file, n)) == s.qualified_name@
}

/// Every symbol of `out` is named from text of `content`.
pub open spec fn names_from(out: ExtractionOutput, file: Seq<char>, content: Seq<char>) -> bool {
    forall|k: int| 0 <= k < out.symbols@.len() ==> symbol_named_from(#[trigger] out.symbols@[k], file, content)
}

proof fn lemma_empty_piece(content: Seq<char>)
    ensures
        is_piece_of(Seq::empty(), content),
{
    assert(vstd::utf8::encode_utf8(Seq::<char>::empty()) =~= Seq::<u8>::empty());
    assert(vstd::utf8::encode_utf8(content).subrange(0, 0) =~= Seq::<u8>::empty());
}

proof fn lemma_rust_symbol_names(file: Seq<char>, ms: Seq<Vec<CapturedNode>>, content: Seq<char>)
    requires
        texts_from(ms, content),
    ensures
        forall|k: int|
            0 <= k < rust_symbols_spec(file, ms).len() ==> named_from(
                #[trigger] rust_symbols_spec(file, ms)[k].0,
                file,
                content,
            ),
    decreases ms.len(),
{
    if ms.len() > 0 {
        let rest = ms.drop_last();
        assert forall|i: int, j: int|
            0 <= i < rest.len() && 0 <= j < rest[i]@.len() && (#[trigger] rest[i]@[j]).text is Some implies is_piece_of(
            rest[i]@[j].text->Some_0@,
            content,
        ) by {
            assert(rest[i] == ms[i]);
        }
        lemma_rust_symbol_names(file, rest, content);
        let caps = ms.last()@;
        lemma_last_capture_range(caps, one_of(rust_name_captures()));
        let ni = last_capture(caps, one_of(rust_name_captures()));
        let prev = rust_symbols_spec(file, rest);
        let all = rust_symbols_spec(file, ms);
        match rust_symbol_spec(file, caps) {
            Some(v) => {
                assert(ni >= 0);
                assert(ms[ms.len() - 1]@[ni].text is Some);
                let name = caps[ni].text->Some_0@;
                assert(is_piece_of(name, content));
                assert(qualify(file, name) == v.0);
                assert(named_from(v.0, file, content));
                assert(all == prev.push(v));
                assert forall|k: int| 0 <= k < all.len() implies named_from(#[trigger] all[k].0, file, content) by {
                    if k < prev.len() {
                        assert(all[k] == prev[k]);
                    }
                }
            },
            None => {
                assert(all == prev);
            },
        }
    }
}

proof fn lemma_ts_record_names(file: Seq<char>, ms: Seq<Vec<CapturedNode>>, content: Seq<char>)
    requires
        texts_from(ms, content),
    ensures
        forall|k: int|
            0 <= k < ts_records_spec(file, ms).len() ==> named_from(
                #[trigger] ts_records_spec(file, ms)[k].0,
                file,
                content,
            ),
    decreases ms.len(),
{
    if ms.len() > 0 {
        let rest = ms.drop_last();
        assert forall|i: int, j: int|
            0 <= i < rest.len() && 0 <= j < rest[i]@.len() && (#[trigger] rest[i]@[j]).text is Some implies is_piece_of(
            rest[i]@[j].text->Some_0@,
            content,
        ) by {
            assert(rest[i] == ms[i]);
        }
        lemma_ts_record_names(file, rest, content);
        let caps = ms.last()@;
        lemma_last_capture_range(caps, one_of(ts_name_captures()));
        let ni = last_capture(caps, one_of(ts_name_captures()));
        let prev = ts_records_spec(file, rest);
        let all = ts_records_spec(file, ms);
        match ts_symbol_spec(file, caps) {
            Some(v) => {
                assert(ni >= 0);
                let name = text_or_empty(caps[ni].text);
                if caps[ni].text is Some {
                    assert(ms[ms.len() - 1]@[ni].text is Some);
                } else {
                    lemma_empty_piece(content);
                }
                assert(is_piece_of(name, content));
                assert(qualify(file, name) == v.0);
                assert(named_from(v.0, file, content));
                assert(all == prev.push(v));
                assert forall|k: int| 0 <= k < all.len() implies named_from(#[trigger] all[k].0, file, content) by {
                    if k < prev.len() {
                        assert(all[k] == prev[k]);
                    }
                }
            },
            None => {
                assert(all == prev);
            },
        }
    }
}

proof fn lemma_merged_names(out: Seq<SymbolView>, recs: Seq<SymbolView>, file: Seq<char>, content: Seq<char>)
    requires
        merged_by_key(out, recs),
        forall|k: int| 0 <= k < recs.len() ==> named_from(#[trigger] recs[k].0, file, content),
    ensures
        forall|i: int| 0 <= i < out.len() ==> named_from(#[trigger] out[i].0, file, content),
{
    assert forall|i: int| 0 <= i < out.len() implies named_from(#[trigger] out[i].0, file, content) by {
        let key = record_key(out[i]);
        lemma_first_with_key(recs, key);
        let f = first_with_key(recs, key);
        assert(named_from(recs[f].0, file, content));
    }
}

proof fn lemma_names_from_views(
    out: ExtractionOutput,
    views: Seq<SymbolView>,
    file: Seq<char>,
    content: Seq<char>,
)
    requires
        symbols_are(out.symbols@, file, views),
        forall|i: int| 0 <= i < views.len() ==> named_from(#[trigger] views[i].0, file, content),
    ensures
        names_from(out, file, content),
{
    assert forall|k: int| 0 <= k < out.symbols@.len() implies symbol_named_from(
        #[trigger] out.symbols@[k],
        file,
        content,
    ) by {
        assert(symbol_is(out.symbols@[k], file, views[k]));
        assert(named_from(views[k].0, file, content));
        let n = choose|n: Seq<char>| is_piece_of(n, content) && #[trigger] qualify(file, n) == views[k].0;
        assert(is_piece_of(n, content));
        assert(defang_spec(qualify(file, n)) == out.symbols@[k].qualified_name@);
    }
}

proof fn lemma_merged_lines(out: Seq<SymbolView>, recs: Seq<SymbolView>)
    requires
        merged_by_key(out, recs),
        forall|k: int| 0 <= k < recs.len() ==> lines_in_order(#[trigger] recs[k].2, recs[k].3),
    ensures
        forall|i: int| 0 <= i < out.len() ==> lines_in_order(#[trigger] out[i].2, out[i].3),
{
    assert forall|i: int| 0 <= i < out.len() implies lines_in_order(#[trigger] out[i].2, out[i].3) by {
        let key = record_key(out[i]);
        lemma_first_with_key(recs, key);
        let f = first_with_key(recs, key);
        assert(lines_in_order(recs[f].2, recs[f].3));
    }
}

proof fn lemma_exported_push(recs: Seq<SymbolView>, v: SymbolView, k: (u32, Seq<char>))
    ensures
        exported_with_key(recs.push(v), k) == (exported_with_key(recs, k) || (record_key(v) == k && v.5)),
{
    let r2 = recs.push(v);
    if exported_with_key(recs, k) {
        let i = choose|i: int| 0 <= i < recs.len() && record_key(recs[i]) == k && #[trigger] recs[i].5;
        assert(r2[i] == recs[i]);
    }
    if record_key(v) == k && v.5 {
        assert(r2[recs.len() as int] == v);
    }
    if exported_with_key(r2, k) {
        let i = choose|i: int| 0 <= i < r2.len() && record_key(r2[i]) == k && #[trigger] r2[i].5;
        if i < recs.len() {
            assert(r2[i] == recs[i]);
        }
    }
}

fn key_less(a: &SymbolRecord, b: &SymbolRecord) -> (r: bool)
    ensures
        r == key_lt(record_key(record_view(*a)), record_key(record_view(*b))),
{
    a.start_line < b.start_line || (a.start_line == b.start_line && str_lt(
        a.qualified_name.as_str(),
        b.qualified_name.as_str(),
    ))
}

fn key_equal(a: &SymbolRecord, b: &SymbolRecord) -> (r: bool)
    ensures
        r == (record_key(record_view(*a)) == record_key(record_view(*b))),
{
    a.start_line == b.start_line && str_eq(a.qualified_name.as_str(), b.qualified_name.as_str())
}

fn copy_record(r: &SymbolRecord) -> (c: SymbolRecord)
    ensures
        record_view(c) == record_view(*r),
{
    SymbolRecord {
        qualified_name: r.qualified_name.clone(),
        kind: r.kind,
        start_line: r.start_line,
        end_line: r.end_line,
        signature: r.signature.clone(),
        exported: r.exported,
    }
}

/// The records merged by key and sorted by key (line, then name); a
/// symbol is exported when any of its records is.
pub fn merge_records(recs: &Vec<SymbolRecord>) -> (out: Vec<SymbolRecord>)
    ensures
        merged_by_key(
            out@.map_values(|x: SymbolRecord| record_view(x)),
            recs@.map_values(|x: SymbolRecord| record_view(x)),
        ),
{
    let ghost all = recs@.map_values(|x: SymbolRecord| record_view(x));
    let mut out: Vec<SymbolRecord> = Vec::new();
    let mut n: usize = 0;
    while n < recs.len()
        invariant
            n <= recs@.len(),
            all == recs@.map_values(|x: SymbolRecord| record_view(x)),
            merged_by_key(out@.map_values(|x: SymbolRecord| record_view(x)), all.take(n as int)),
        decreases recs@.len() - n,
    {
        let r = &recs[n];
        let ghost v = record_view(*r);
        let ghost kv = record_key(v);
        let ghost before = all.take(n as int);
        let ghost after = all.take(n + 1);
        let ghost ov = out@.map_values(|x: SymbolRecord| record_view(x));
        assert(after =~= before.push(v));
        assert(after.drop_last() =~= before);
        let mut p: usize = 0;
        while p < out.len() && key_less(&out[p], r)
            invariant
                p <= out@.len(),
                ov == out@.map_values(|x: SymbolRecord| record_view(x)),
                v == record_view(*r),
                kv == record_key(v),
                forall|q: int| 0 <= q < p ==> key_lt(record_key(ov[q]), kv),
            decreases out@.len() - p,
        {
            p = p + 1;
        }
        proof {
            assert forall|k: (u32, Seq<char>)| #[trigger] first_with_key(after, k) == (if first_with_key(before, k) >= 0 {
                first_with_key(before, k)
            } else if kv == k {
                before.len() as int
            } else {
                -1
            }) by {}
            assert forall|k: (u32, Seq<char>)| #[trigger] exported_with_key(after, k) == (exported_with_key(before, k) || (kv == k && v.5)) by {
                lemma_exported_push(before, v, k);
            }
        }
        if p < out.len() && key_equal(&out[p], r) {
            let ghost old_out = out@;
            if r.exported {
                out[p].exported = true;
            }
            proof {
                let nv = out@.map_values(|x: SymbolRecord| record_view(x));
                assert(record_key(ov[p as int]) == kv);
                assert(nv[p as int] == (ov[p as int].0, ov[p as int].1, ov[p as int].2, ov[p as int].3, ov[p as int].4, ov[p as int].5 || v.5));
                assert forall|i: int| 0 <= i < nv.len() && i != p implies nv[i] == ov[i] by {
                    assert(out@[i] == old_out[i]);
                }
                assert forall|i: int| 0 <= i < nv.len() implies first_with_key(after, record_key(#[trigger] nv[i])) >= 0 && nv[i]
                    == merged_record(after, record_key(nv[i])) by {
                    lemma_first_with_key(before, record_key(ov[i]));
                    assert(record_key(nv[i]) == record_key(ov[i]));
                    let f = first_with_key(before, record_key(ov[i]));
                    assert(after[f] == before[f]);
                    assert(ov[i] == merged_record(before, record_key(ov[i])));
                }
                assert forall|k: int| 0 <= k < after.len() implies exists|i: int| 0 <= i < nv.len() && #[trigger] record_key(nv[i]) == record_key(#[trigger] after[k]) by {
                    if k < before.len() {
                        assert(after[k] == before[k]);
                        let i = choose|i: int| 0 <= i < ov.len() && #[trigger] record_key(ov[i]) == record_key(before[k]);
                        assert(record_key(nv[i]) == record_key(ov[i]));
                    } else {
                        assert(record_key(nv[p as int]) == record_key(after[k]));
                    }
                }
                assert forall|i: int, j: int| 0 <= i < j < nv.len() implies key_lt(record_key(nv[i]), record_key(nv[j])) by {
                    assert(record_key(nv[i]) == record_key(ov[i]));
                    assert(record_key(nv[j]) == record_key(ov[j]));
                }
            }
        } else {
            proof {
                // the new key is not among the merged ones
                assert forall|i: int| 0 <= i < ov.len() implies record_key(#[trigger] ov[i]) != kv by {
                    key_order(record_key(ov[i]), kv, kv);
                    if i >= p {
                        key_order(record_key(ov[p as int]), kv, kv);
                        key_order(kv, record_key(ov[p as int]), record_key(ov[i]));
                    }
                }
                lemma_first_with_key(before, kv);
                if first_with_key(before, kv) >= 0 {
                    let f = first_with_key(before, kv);
                    let i = choose|i: int| 0 <= i < ov.len() && #[trigger] record_key(ov[i]) == record_key(#[trigger] before[f]);
                    assert(false);
                }
                if exported_with_key(before, kv) {
                    let i = choose|i: int| 0 <= i < before.len() && record_key(before[i]) == kv && #[trigger] before[i].5;
                    assert(false);
                }
            }
            out.insert(p, copy_record(r));
            proof {
                let nv = out@.map_values(|x: SymbolRecord| record_view(x));
                assert(nv =~= ov.insert(p as int, v));
                assert forall|i: int| 0 <= i < nv.len() implies first_with_key(after, record_key(#[trigger] nv[i])) >= 0 && nv[i]
                    == merged_record(after, record_key(nv[i])) by {
                    if i == p {
                        assert(after[before.len() as int] == v);
                    } else {
                        let oi = if i < p { i } else { i - 1 };
                        assert(nv[i] == ov[oi]);
                        lemma_first_with_key(before, record_key(ov[oi]));
                        let f = first_with_key(before, record_key(ov[oi]));
                        assert(after[f] == before[f]);
                    }
                }
                assert forall|k: int| 0 <= k < after.len() implies exists|i: int| 0 <= i < nv.len() && #[trigger] record_key(nv[i]) == record_key(#[trigger] after[k]) by {
                    if k < before.len() {
                        assert(after[k] == before[k]);
                        let i = choose|i: int| 0 <= i < ov.len() && #[trigger] record_key(ov[i]) == record_key(before[k]);
                        if i < p {
                            assert(nv[i] == ov[i]);
                        } else {
                            assert(nv[i + 1] == ov[i]);
                        }
                    } else {
                        assert(nv[p as int] == v);
                        assert(after[k] == v);
                    }
                }
                assert forall|i: int, j: int| 0 <= i < j < nv.len() implies key_lt(record_key(nv[i]), record_key(nv[j])) by {
                    if p < ov.len() {
                        key_order(kv, record_key(ov[p as int]), kv);
                    }
                    if i < p && j < p {
                        assert(nv[i] == ov[i] && nv[j] == ov[j]);
                    } else if i < p && j == p {
                        assert(nv[i] == ov[i]);
                    } else if i < p && j > p {
                        assert(nv[i] == ov[i] && nv[j] == ov[j - 1]);
                        key_order(record_key(ov[i]), kv, record_key(ov[j - 1]));
                        if j - 1 > p {
                            key_order(kv, record_key(ov[p as int]), record_key(ov[j - 1]));
                        }
                    } else if i == p {
                        assert(nv[j] == ov[j - 1]);
                        if j - 1 > p {
                            key_order(kv, record_key(ov[p as int]), record_key(ov[j - 1]));
                        }
                    } else {
                        assert(nv[i] == ov[i - 1] && nv[j] == ov[j - 1]);
                    }
                }
            }
        }
        n = n + 1;
    }
    assert(all.take(n as int) =~= all);
    out
}

fn symbols_from_records(file: &str, recs: &Vec<SymbolRecord>) -> (out: Vec<Symbol>)
    ensures
        symbols_are(out@, file@, recs@.map_values(|x: SymbolRecord| record_view(x))),
{
    let mut out: Vec<Symbol> = Vec::new();
    let mut i: usize = 0;
    while i < recs.len()
        invariant
            i <= recs@.len(),
            out@.len() == i,
            forall|j: int| 0 <= j < i ==> symbol_is(#[trigger] out@[j], file@, record_view(recs@[j])),
        decreases recs@.len() - i,
    {
        let r = &recs[i];
        out.push(
            symbol_from_view(
                file,
                r.qualified_name.as_str(),
                r.kind,
                r.start_line,
                r.end_line,
                r.signature.clone(),
                r.exported,
            ),
        );
        i = i + 1;
    }
    out
}

/// What the Rust rules make of the four query results: the symbols, then
/// the implements, import and call edges, language `rust`.
pub open spec fn rust_output_is(
    out: ExtractionOutput,
    file: Seq<char>,
    symbols: Seq<Vec<CapturedNode>>,
    impls: Seq<Vec<CapturedNode>>,
    uses: Seq<Vec<CapturedNode>>,
    calls: Seq<Vec<CapturedNode>>,
) -> bool {
    &&& symbols_are(out.symbols@, file, rust_symbols_spec(file, symbols))
    &&& edge_views(out.edges@) == all_match_edges(MatchRule::RustImpl, file, impls) + all_capture_edges(
        CaptureRule::RustUse,
        file,
        uses,
    ) + all_capture_edges(CaptureRule::RustCall, file, calls)
    &&& out.language@ == "rust"@
}

/// The extraction output of a Rust file from the matches of its symbols,
/// impls, uses and calls queries.
pub fn rust_output(
    file: &str,
    symbols: &Vec<Vec<CapturedNode>>,
    impls: &Vec<Vec<CapturedNode>>,
    uses: &Vec<Vec<CapturedNode>>,
    calls: &Vec<Vec<CapturedNode>>,
) -> (out: ExtractionOutput)
    ensures
        rust_output_is(out, file@, symbols@, impls@, uses@, calls@),
{
    let syms = rust_symbols(file, symbols);
    let mut edges: Vec<Edge> = Vec::new();
    push_match_edges(MatchRule::RustImpl, file, impls, &mut edges);
    push_capture_edges(CaptureRule::RustUse, file, uses, &mut edges);
    push_capture_edges(CaptureRule::RustCall, file, calls, &mut edges);
    assert(edge_views(Seq::<Edge>::empty()) =~= Seq::<EdgeView>::empty());
    ExtractionOutput { symbols: syms, edges, language: string_of("rust") }
}

/// What the TypeScript rules make of the three query results: the symbol
/// records merged by (line, name) and sorted by it, then the call and
/// import edges, language `typescript`.
pub open spec fn ts_output_is(
    out: ExtractionOutput,
    file: Seq<char>,
    symbols: Seq<Vec<CapturedNode>>,
    calls: Seq<Vec<CapturedNode>>,
    imports: Seq<Vec<CapturedNode>>,
) -> bool {
    &&& exists|merged: Seq<SymbolView>|
        merged_by_key(merged, ts_records_spec(file, symbols)) && #[trigger] symbols_are(out.symbols@, file, merged)
    &&& edge_views(out.edges@) == all_match_edges(MatchRule::TsCall, file, calls) + all_capture_edges(
        CaptureRule::TsImport,
        file,
        imports,
    )
    &&& out.language@ == "typescript"@
}

/// The extraction output of a TypeScript file from the matches of its
/// symbols, calls and imports queries.
pub fn ts_output(
    file: &str,
    symbols: &Vec<Vec<CapturedNode>>,
    calls: &Vec<Vec<CapturedNode>>,
    imports: &Vec<Vec<CapturedNode>>,
) -> (out: ExtractionOutput)
    ensures
        ts_output_is(out, file@, symbols@, calls@, imports@),
{
    let recs = ts_records(file, symbols);
    let merged = merge_records(&recs);
    let syms = symbols_from_records(file, &merged);
    let mut edges: Vec<Edge> = Vec::new();
    push_match_edges(MatchRule::TsCall, file, calls, &mut edges);
    push_capture_edges(CaptureRule::TsImport, file, imports, &mut edges);
    assert(edge_views(Seq::<Edge>::empty()) =~= Seq::<EdgeView>::empty());
    let out = ExtractionOutput { symbols: syms, edges, language: string_of("typescript") };
    assert(symbols_are(out.symbols@, file@, merged@.map_values(|x: SymbolRecord| record_view(x))));
    out
}

/// The Rust symbols query: functions, structs, enums, traits, type aliases,
/// constants, statics and modules, each with its name and declaration.
pub const RUST_SYMBOLS_QUERY: &'static str = "
(function_item name: (identifier) @fn.name) @fn.def
(struct_item name: (type_identifier) @struct.name) @struct.def
(enum_item name: (type_identifier) @enum.name) @enum.def
(trait_item name: (type_identifier) @trait.name) @trait.def
(type_item name: (type_identifier) @type.name) @type.def
(const_item name: (identifier) @const.name) @const.def
(static_item name: (identifier) @static.name) @static.def
(mod_item name: (identifier) @mod.name) @mod.def
";

/// The Rust impls query: `impl Trait for Type`, plain or generic.
pub const RUST_IMPLS_QUERY: &'static str = "
(impl_item trait: (type_identifier) @trait type: (type_identifier) @ty) @impl
(impl_item trait: (type_identifier) @trait type: (generic_type type: (type_identifier) @ty)) @impl
(impl_item trait: (generic_type type: (type_identifier) @trait) type: (type_identifier) @ty) @impl
(impl_item trait: (scoped_type_identifier name: (type_identifier) @trait) type: (type_identifier) @ty) @impl
";

/// The Rust uses query: the path of each `use` declaration.
pub const RUST_USES_QUERY: &'static str = "
(use_declaration argument: (_) @use.path)
";

/// The Rust calls query: plain, path and method calls, by callee name.
pub const RUST_CALLS_QUERY: &'static str = "
(call_expression function: (identifier) @callee)
(call_expression function: (scoped_identifier name: (identifier) @callee))
(call_expression function: (field_expression field: (field_identifier) @callee))
";

/// The TypeScript symbols query: function, class, interface and type alias
/// declarations, bare and exported, and methods.
pub const TS_SYMBOLS_QUERY: &'static str = "
(function_declaration name: (identifier) @fn.name) @fn.def
(export_statement declaration: (function_declaration name: (identifier) @fn.name) @fn.def) @exported
(class_declaration name: (type_identifier) @class.name) @class.def
(export_statement declaration: (class_declaration name: (type_identifier) @class.name) @class.def) @exported
(interface_declaration name: (type_identifier) @interface.name) @interface.def
(export_statement declaration: (interface_declaration name: (type_identifier) @interface.name) @interface.def) @exported
(type_alias_declaration name: (type_identifier) @type.name) @type.def
(export_statement declaration: (type_alias_declaration name: (type_identifier) @type.name) @type.def) @exported
(method_definition name: (property_identifier) @method.name) @method.def
";

/// The TypeScript calls query: plain and member calls, with the call site.
pub const TS_CALLS_QUERY: &'static str = "
(call_expression function: (identifier) @callee) @site
(call_expression function: (member_expression property: (property_identifier) @callee)) @site
";

/// The TypeScript imports query: the source string of each import.
pub const TS_IMPORTS_QUERY: &'static str = "
(import_statement source: (string) @import.source)
";

/// What `camino::Utf8Path::extension` returns for a path: the part of its
/// file name after the last `.`, if any.
pub uninterp spec fn path_extension(path: Seq<char>) -> Option<Seq<char>>;

/// The extension of a path (`camino::Utf8Path::extension`), a function of
/// the path alone.
#[verifier::external_body]
fn extension_of(path: &str) -> (r: Option<String>)
    ensures
        text_view(r) == path_extension(path@),
{
    camino::Utf8Path::new(path).extension().map(|e| e.to_string())
}

/// The languages with an extractor.
#[derive(Debug, Clone, Copy, PartialEq, Eq, Structural)]
pub enum ExtractorKind {
    TypeScript,
    Rust,
}

/// The extractor for a file extension: TypeScript for `ts`, `tsx`, `js`,
/// `jsx`, `mts` and `cts`; Rust for `rs`; none otherwise.
pub open spec fn extractor_kind_for(ext: Option<Seq<char>>) -> Option<ExtractorKind> {
    match ext {
        Some(e) => if e == "ts"@ || e == "tsx"@ || e == "js"@ || e == "jsx"@ || e == "mts"@ || e == "cts"@ {
            Some(ExtractorKind::TypeScript)
        } else if e == "rs"@ {
            Some(ExtractorKind::Rust)
        } else {
            None
        },
        None => None,
    }
}

/// The extractor kind for a file extension.
pub fn extractor_kind_for_extension(ext: Option<&str>) -> (r: Option<ExtractorKind>)
    ensures
        r == extractor_kind_for(match ext {
            Some(e) => Some(e@),
            None => None,
        }),
{
    match ext {
        Some(e) => {
            if str_eq(e, "ts") || str_eq(e, "tsx") || str_eq(e, "js") || str_eq(e, "jsx") || str_eq(e, "mts")
                || str_eq(e, "cts") {
                Some(ExtractorKind::TypeScript)
            } else if str_eq(e, "rs") {
                Some(ExtractorKind::Rust)
            } else {
                None
            }
        },
        None => None,
    }
}

/// TSX and JSX files are parsed with the TSX grammar.
pub open spec fn uses_tsx(ext: Option<Seq<char>>) -> bool {
    ext == Some("tsx"@) || ext == Some("jsx"@)
}

/// Whether an extension selects the TSX grammar.
pub fn tsx_extension(ext: Option<&str>) -> (r: bool)
    ensures
        r == uses_tsx(match ext {
            Some(e) => Some(e@),
            None => None,
        }),
{
    match ext {
        Some(e) => str_eq(e, "tsx") || str_eq(e, "jsx"),
        None => false,
    }
}

/// Whether a file is parsed with the TSX grammar (by its extension).
pub fn uses_tsx_grammar(path: &str) -> (r: bool)
    ensures
        r == uses_tsx(path_extension(path@)),
{
    match extension_of(path) {
        Some(e) => tsx_extension(Some(e.as_str())),
        None => tsx_extension(None),
    }
}

/// A copy of a grammar handle (`Language::clone`). The handle is a pointer
/// to the grammar's tables, and `ts_language_copy` hands back that same
/// pointer, so the copy equals the original.
#[verifier::external_body]
fn clone_language(lang: &tree_sitter::Language) -> (r: tree_sitter::Language)
    ensures
        r == *lang,
{
    lang.clone()
}

/// Extracts symbols and edges from Rust sources.
pub struct RustExtractor {
    lang: tree_sitter::Language,
}

impl RustExtractor {
    /// An extractor with the Rust grammar.
    pub fn new() -> Self {
        RustExtractor { lang: crate::syntax::rust_grammar() }
    }

    /// The language name, `rust`.
    pub fn language_name(&self) -> (r: &'static str)
        ensures
            r@ == "rust"@,
    {
        "rust"
    }

    /// Parses `content` and runs the four Rust queries over it; the output
    /// is what the Rust rules make of their matches. Errors name the file.
    pub fn extract(&self, file: &str, content: &str) -> (r: Result<ExtractionOutput, MycelError>)
        ensures
            r is Ok ==> exists|s: Seq<Vec<CapturedNode>>, i: Seq<Vec<CapturedNode>>, u: Seq<Vec<CapturedNode>>, c: Seq<Vec<CapturedNode>>|
                #[trigger] rust_output_is(r->Ok_0, file@, s, i, u, c),
            r is Ok ==> names_from(r->Ok_0, file@, content@),
            r is Ok ==> forall|k: int|
                0 <= k < r->Ok_0.symbols@.len() ==> lines_in_order(
                    #[trigger] r->Ok_0.symbols@[k].start_line,
                    r->Ok_0.symbols@[k].end_line,
                ),
            r matches Err(e) ==> extract_error(e, file@),
    {
        let tree = match parse_source(&self.lang, file, content) {
            Ok(t) => t,
            Err(e) => return Err(e),
        };
        let s = match run_query(&self.lang, &tree, RUST_SYMBOLS_QUERY, content, file, "rs query") {
            Ok(m) => m,
            Err(e) => return Err(e),
        };
        let i = match run_query(&self.lang, &tree, RUST_IMPLS_QUERY, content, file, "rs impls") {
            Ok(m) => m,
            Err(e) => return Err(e),
        };
        let u = match run_query(&self.lang, &tree, RUST_USES_QUERY, content, file, "rs uses") {
            Ok(m) => m,
            Err(e) => return Err(e),
        };
        let c = match run_query(&self.lang, &tree, RUST_CALLS_QUERY, content, file, "rs calls") {
            Ok(m) => m,
            Err(e) => return Err(e),
        };
        let out = rust_output(file, &s, &i, &u, &c);
        assert(rust_output_is(out, file@, s@, i@, u@, c@));
        proof {
            assert forall|a: int, b: int| 0 <= a < s@.len() && 0 <= b < s@[a]@.len() implies #[trigger] s@[a]@[b].start_row
                <= s@[a]@[b].end_row <= u32::MAX by {
                assert(crate::syntax::record_from(s@[a]@[b], content@));
            }
            lemma_rust_symbol_lines(file@, s@);
            let views = rust_symbols_spec(file@, s@);
            assert forall|a: int, b: int|
                0 <= a < s@.len() && 0 <= b < s@[a]@.len() && (#[trigger] s@[a]@[b]).text is Some implies is_piece_of(
                s@[a]@[b].text->Some_0@,
                content@,
            ) by {
                assert(crate::syntax::record_from(s@[a]@[b], content@));
            }
            lemma_rust_symbol_names(file@, s@, content@);
            lemma_names_from_views(out, views, file@, content@);
            assert forall|k: int| 0 <= k < out.symbols@.len() implies lines_in_order(
                #[trigger] out.symbols@[k].start_line,
                out.symbols@[k].end_line,
            ) by {
                assert(symbol_is(out.symbols@[k], file@, views[k]));
                assert(lines_in_order(views[k].2, views[k].3));
            }
        }
        let r: Result<ExtractionOutput, MycelError> = Ok(out);
        assert(rust_output_is(r->Ok_0, file@, s@, i@, u@, c@));
        r
    }
}

/// Extracts symbols and edges from TypeScript and JavaScript sources.
pub struct TypeScriptExtractor {
    ts_lang: tree_sitter::Language,
    tsx_lang: tree_sitter::Language,
}

impl TypeScriptExtractor {
    /// An extractor with the TypeScript and TSX grammars.
    pub fn new() -> Self {
        TypeScriptExtractor {
            ts_lang: crate::syntax::typescript_grammar(),
            tsx_lang: crate::syntax::tsx_grammar(),
        }
    }

    /// The TypeScript grammar this extractor holds.
    pub closed spec fn ts_grammar(&self) -> tree_sitter::Language {
        self.ts_lang
    }

    /// The TSX grammar this extractor holds.
    pub closed spec fn tsx_grammar(&self) -> tree_sitter::Language {
        self.tsx_lang
    }

    /// The grammar for a file: TSX for `.tsx` and `.jsx`, TypeScript otherwise.
    pub fn language_for(&self, path: &str) -> (r: tree_sitter::Language)
        ensures
            r == (if uses_tsx(path_extension(path@)) { self.tsx_grammar() } else { self.ts_grammar() }),
    {
        if uses_tsx_grammar(path) {
            clone_language(&self.tsx_lang)
        } else {
            clone_language(&self.ts_lang)
        }
    }

    /// The language name, `typescript`.
    pub fn language_name(&self) -> (r: &'static str)
        ensures
            r@ == "typescript"@,
    {
        "typescript"
    }

    /// Parses `content` with the file's grammar and runs the three
    /// TypeScript queries over it; the output is what the TypeScript rules
    /// make of their matches. Errors name the file.
    pub fn extract(&self, file: &str, content: &str) -> (r: Result<ExtractionOutput, MycelError>)
        ensures
            r is Ok ==> exists|s: Seq<Vec<CapturedNode>>, c: Seq<Vec<CapturedNode>>, im: Seq<Vec<CapturedNode>>|
                #[trigger] ts_output_is(r->Ok_0, file@, s, c, im),
            r is Ok ==> names_from(r->Ok_0, file@, content@),
            r is Ok ==> forall|k: int|
                0 <= k < r->Ok_0.symbols@.len() ==> lines_in_order(
                    #[trigger] r->Ok_0.symbols@[k].start_line,
                    r->Ok_0.symbols@[k].end_line,
                ),
            r matches Err(e) ==> extract_error(e, file@),
    {
        let lang = self.language_for(file);
        let tree = match parse_source(&lang, file, content) {
            Ok(t) => t,
            Err(e) => return Err(e),
        };
        let s = match run_query(&lang, &tree, TS_SYMBOLS_QUERY, content, file, "ts query") {
            Ok(m) => m,
            Err(e) => return Err(e),
        };
        let c = match run_query(&lang, &tree, TS_CALLS_QUERY, content, file, "ts calls") {
            Ok(m) => m,
            Err(e) => return Err(e),
        };
        let im = match run_query(&lang, &tree, TS_IMPORTS_QUERY, content, file, "ts imports") {
            Ok(m) => m,
            Err(e) => return Err(e),
        };
        let out = ts_output(file, &s, &c, &im);
        proof {
            assert forall|a: int, b: int| 0 <= a < s@.len() && 0 <= b < s@[a]@.len() implies #[trigger] s@[a]@[b].start_row
                <= s@[a]@[b].end_row <= u32::MAX by {
                assert(crate::syntax::record_from(s@[a]@[b], content@));
            }
            lemma_ts_record_lines(file@, s@);
            let recs = ts_records_spec(file@, s@);
            let merged = choose|merged: Seq<SymbolView>|
                merged_by_key(merged, recs) && #[trigger] symbols_are(out.symbols@, file@, merged);
            lemma_merged_lines(merged, recs);
            assert forall|a: int, b: int|
                0 <= a < s@.len() && 0 <= b < s@[a]@.len() && (#[trigger] s@[a]@[b]).text is Some implies is_piece_of(
                s@[a]@[b].text->Some_0@,
                content@,
            ) by {
                assert(crate::syntax::record_from(s@[a]@[b], content@));
            }
            lemma_ts_record_names(file@, s@, content@);
            lemma_merged_names(merged, recs, file@, content@);
            lemma_names_from_views(out, merged, file@, content@);
            assert forall|k: int| 0 <= k < out.symbols@.len() implies lines_in_order(
                #[trigger] out.symbols@[k].start_line,
                out.symbols@[k].end_line,
            ) by {
                assert(symbol_is(out.symbols@[k], file@, merged[k]));
                assert(lines_in_order(merged[k].2, merged[k].3));
            }
        }
        let r: Result<ExtractionOutput, MycelError> = Ok(out);
        assert(ts_output_is(r->Ok_0, file@, s@, c@, im@));
        r
    }
}

/// An extractor for one of the supported languages.
pub enum Extractor {
    Rust(RustExtractor),
    TypeScript(TypeScriptExtractor),
}

/// The language name of an extractor kind.
pub open spec fn kind_language(k: ExtractorKind) -> Seq<char> {
    match k {
        ExtractorKind::Rust => "rust"@,
        ExtractorKind::TypeScript => "typescript"@,
    }
}

/// What an extractor of kind `k` may give for file `file`: what its
/// language's rules make of some matches of its queries, with every symbol's
/// lines in order.
pub open spec fn extracted_by(out: ExtractionOutput, k: ExtractorKind, file: Seq<char>) -> bool {
    &&& k == ExtractorKind::Rust ==> exists|s: Seq<Vec<CapturedNode>>, i: Seq<Vec<CapturedNode>>, u: Seq<Vec<CapturedNode>>, c: Seq<Vec<CapturedNode>>|
        #[trigger] rust_output_is(out, file, s, i, u, c)
    &&& k == ExtractorKind::TypeScript ==> exists|s: Seq<Vec<CapturedNode>>, c: Seq<Vec<CapturedNode>>, im: Seq<Vec<CapturedNode>>|
        #[trigger] ts_output_is(out, file, s, c, im)
    &&& forall|j: int|
        0 <= j < out.symbols@.len() ==> lines_in_order(#[trigger] out.symbols@[j].start_line, out.symbols@[j].end_line)
}

impl Extractor {
    /// Which language this extractor handles.
    pub open spec fn kind_spec(&self) -> ExtractorKind {
        match self {
            Extractor::Rust(_) => ExtractorKind::Rust,
            Extractor::TypeScript(_) => ExtractorKind::TypeScript,
        }
    }

    /// The language name: `rust` or `typescript`.
    pub fn language_name(&self) -> (r: &'static str)
        ensures
            r@ == kind_language(self.kind_spec()),
    {
        match self {
            Extractor::Rust(x) => x.language_name(),
            Extractor::TypeScript(x) => x.language_name(),
        }
    }

    /// Extracts a file with this language's rules.
    pub fn extract(&self, file: &str, content: &str) -> (r: Result<ExtractionOutput, MycelError>)
        ensures
            r matches Err(e) ==> extract_error(e, file@),
            r is Ok && self.kind_spec() == ExtractorKind::Rust ==> exists|s: Seq<Vec<CapturedNode>>, i: Seq<Vec<CapturedNode>>, u: Seq<Vec<CapturedNode>>, c: Seq<Vec<CapturedNode>>|
                #[trigger] rust_output_is(r->Ok_0, file@, s, i, u, c),
            r is Ok ==> forall|k: int|
                0 <= k < r->Ok_0.symbols@.len() ==> lines_in_order(
                    #[trigger] r->Ok_0.symbols@[k].start_line,
                    r->Ok_0.symbols@[k].end_line,
                ),
            r is Ok && self.kind_spec() == ExtractorKind::TypeScript ==> exists|s: Seq<Vec<CapturedNode>>, c: Seq<Vec<CapturedNode>>, im: Seq<Vec<CapturedNode>>|
                #[trigger] ts_output_is(r->Ok_0, file@, s, c, im),
            r is Ok ==> extracted_by(r->Ok_0, self.kind_spec(), file@),
            r is Ok ==> names_from(r->Ok_0, file@, content@),
    {
        match self {
            Extractor::Rust(x) => x.extract(file, content),
            Extractor::TypeScript(x) => x.extract(file, content),
        }
    }
}

/// The extractor for a file, by its extension; `None` when no language
/// handles it.
pub fn for_language(file: &str) -> (r: Option<Extractor>)
    ensures
        match extractor_kind_for(path_extension(file@)) {
            Some(k) => r matches Some(x) && x.kind_spec() == k,
            None => r is None,
        },
{
    let ext = extension_of(file);
    let kind = match &ext {
        Some(e) => extractor_kind_for_extension(Some(e.as_str())),
        None => extractor_kind_for_extension(None),
    };
    match kind {
        Some(ExtractorKind::TypeScript) => Some(Extractor::TypeScript(TypeScriptExtractor::new())),
        Some(ExtractorKind::Rust) => Some(Extractor::Rust(RustExtractor::new())),
        None => None,
    }
}

/// A tree-sitter edge of kind `k` that records the line of its site.
pub open spec fn sited_edge(e: EdgeView, k: EdgeKind) -> bool {
    e.2 == k && e.3 == EdgeSource::TreeSitter && e.4 is Some
}

proof fn lemma_capture_call_lines(file: Seq<char>, caps: Seq<CapturedNode>)
    ensures
        forall|i: int|
            0 <= i < capture_edges(CaptureRule::RustCall, file, caps).len() ==> sited_edge(
                #[trigger] capture_edges(CaptureRule::RustCall, file, caps)[i],
                EdgeKind::Calls,
            ),
    decreases caps.len(),
{
    if caps.len() > 0 {
        lemma_capture_call_lines(file, caps.drop_last());
        let rest = capture_edges(CaptureRule::RustCall, file, caps.drop_last());
        match capture_rule_edge(CaptureRule::RustCall, file, caps.last()) {
            Some(e) => {
                assert forall|i: int| 0 <= i < rest.push(e).len() implies sited_edge(#[trigger] rest.push(e)[i], EdgeKind::Calls) by {
                    if i < rest.len() {
                        assert(rest.push(e)[i] == rest[i]);
                    }
                }
            },
            None => {},
        }
    }
}

proof fn lemma_rust_call_lines(file: Seq<char>, ms: Seq<Vec<CapturedNode>>)
    ensures
        forall|i: int|
            0 <= i < all_capture_edges(CaptureRule::RustCall, file, ms).len() ==> sited_edge(
                #[trigger] all_capture_edges(CaptureRule::RustCall, file, ms)[i],
                EdgeKind::Calls,
            ),
    decreases ms.len(),
{
    if ms.len() > 0 {
        lemma_rust_call_lines(file, ms.drop_last());
        lemma_capture_call_lines(file, ms.last()@);
        let a = all_capture_edges(CaptureRule::RustCall, file, ms.drop_last());
        let b = capture_edges(CaptureRule::RustCall, file, ms.last()@);
        assert forall|i: int| 0 <= i < (a + b).len() implies sited_edge(#[trigger] (a + b)[i], EdgeKind::Calls) by {
            if i >= a.len() {
                assert((a + b)[i] == b[i - a.len()]);
            }
        }
    }
}

proof fn lemma_match_lines(rule: MatchRule, file: Seq<char>, ms: Seq<Vec<CapturedNode>>)
    ensures
        forall|i: int|
            0 <= i < all_match_edges(rule, file, ms).len() ==> sited_edge(
                #[trigger] all_match_edges(rule, file, ms)[i],
                match rule {
                    MatchRule::RustImpl => EdgeKind::Implements,
                    MatchRule::TsCall => EdgeKind::Calls,
                },
            ),
    decreases ms.len(),
{
    if ms.len() > 0 {
        lemma_match_lines(rule, file, ms.drop_last());
        let rest = all_match_edges(rule, file, ms.drop_last());
        let k = match rule {
            MatchRule::RustImpl => EdgeKind::Implements,
            MatchRule::TsCall => EdgeKind::Calls,
        };
        match match_rule_edge(rule, file, ms.last()@) {
            Some(e) => {
                assert forall|i: int| 0 <= i < rest.push(e).len() implies sited_edge(#[trigger] rest.push(e)[i], k) by {
                    if i < rest.len() {
                        assert(rest.push(e)[i] == rest[i]);
                    }
                }
            },
            None => {},
        }
    }
}

/// Law: every call edge and every implements edge that extraction emits is
/// a tree-sitter edge that records the line of its site, so that LSP
/// resolution can look it up.
pub proof fn sited_edges_carry_lines(file: Seq<char>, ms: Seq<Vec<CapturedNode>>)
    ensures
        forall|i: int|
            0 <= i < all_capture_edges(CaptureRule::RustCall, file, ms).len() ==> sited_edge(
                #[trigger] all_capture_edges(CaptureRule::RustCall, file, ms)[i],
                EdgeKind::Calls,
            ),
        forall|i: int|
            0 <= i < all_match_edges(MatchRule::RustImpl, file, ms).len() ==> sited_edge(
                #[trigger] all_match_edges(MatchRule::RustImpl, file, ms)[i],
                EdgeKind::Implements,
            ),
        forall|i: int|
            0 <= i < all_match_edges(MatchRule::TsCall, file, ms).len() ==> sited_edge(
                #[trigger] all_match_edges(MatchRule::TsCall, file, ms)[i],
                EdgeKind::Calls,
            ),
{
    lemma_rust_call_lines(file, ms);
    lemma_match_lines(MatchRule::RustImpl, file, ms);
    lemma_match_lines(MatchRule::TsCall, file, ms);
}

proof fn lemma_key_in_other(a: Seq<SymbolView>, b: Seq<SymbolView>, recs: Seq<SymbolView>, i: int)
    requires
        merged_by_key(a, recs),
        merged_by_key(b, recs),
        0 <= i < a.len(),
    ensures
        exists|j: int| 0 <= j < b.len() && #[trigger] record_key(b[j]) == record_key(a[i]),
{
    let k = record_key(a[i]);
    lemma_first_with_key(recs, k);
    let f = first_with_key(recs, k);
    assert(record_key(recs[f]) == k);
    let j = choose|j: int| 0 <= j < b.len() && #[trigger] record_key(b[j]) == record_key(#[trigger] recs[f]);
    assert(record_key(b[j]) == record_key(a[i]));
}

proof fn lemma_same_keys_upto(a: Seq<SymbolView>, b: Seq<SymbolView>, recs: Seq<SymbolView>, i: int)
    requires
        merged_by_key(a, recs),
        merged_by_key(b, recs),
        0 <= i < a.len(),
        i < b.len(),
    ensures
        forall|k: int| 0 <= k <= i ==> record_key(#[trigger] a[k]) == record_key(b[k]),
    decreases i,
{
    if i > 0 {
        lemma_same_keys_upto(a, b, recs, i - 1);
    }
    let ka = record_key(a[i]);
    let kb = record_key(b[i]);
    if ka != kb {
        key_order(ka, kb, ka);
        if key_lt(ka, kb) {
            lemma_key_in_other(a, b, recs, i);
            let j = choose|j: int| 0 <= j < b.len() && #[trigger] record_key(b[j]) == record_key(a[i]);
            if j < i {
                assert(record_key(a[j]) == record_key(b[j]));
                assert(key_lt(record_key(a[j]), record_key(a[i])));
                key_order(ka, ka, ka);
            } else {
                assert(j > i);
                assert(key_lt(kb, record_key(b[j])));
                key_order(kb, ka, kb);
            }
        } else {
            lemma_key_in_other(b, a, recs, i);
            let j = choose|j: int| 0 <= j < a.len() && #[trigger] record_key(a[j]) == record_key(b[i]);
            if j < i {
                assert(record_key(a[j]) == record_key(b[j]));
                assert(key_lt(record_key(b[j]), record_key(b[i])));
                key_order(kb, kb, kb);
            } else {
                assert(j > i);
                assert(key_lt(ka, record_key(a[j])));
                key_order(ka, kb, ka);
            }
        }
    }
}

proof fn lemma_not_longer(a: Seq<SymbolView>, b: Seq<SymbolView>, recs: Seq<SymbolView>)
    requires
        merged_by_key(a, recs),
        merged_by_key(b, recs),
    ensures
        a.len() <= b.len(),
{
    if a.len() > b.len() {
        let n = b.len() as int;
        lemma_key_in_other(a, b, recs, n);
        let j = choose|j: int| 0 <= j < b.len() && #[trigger] record_key(b[j]) == record_key(a[n]);
        lemma_same_keys_upto(a, b, recs, j);
        assert(record_key(a[j]) == record_key(b[j]));
        assert(key_lt(record_key(a[j]), record_key(a[n])));
        key_order(record_key(a[n]), record_key(a[n]), record_key(a[n]));
    }
}

/// Law: the merge is determined by the records: two symbol lists that both
/// merge and sort the same records by key are equal.
pub proof fn merged_by_key_is_unique(a: Seq<SymbolView>, b: Seq<SymbolView>, recs: Seq<SymbolView>)
    requires
        merged_by_key(a, recs),
        merged_by_key(b, recs),
    ensures
        a == b,
{
    lemma_not_longer(a, b, recs);
    lemma_not_longer(b, a, recs);
    if a.len() > 0 {
        lemma_same_keys_upto(a, b, recs, a.len() - 1);
    }
    assert forall|i: int| 0 <= i < a.len() implies a[i] == b[i] by {
        assert(record_key(a[i]) == record_key(b[i]));
        assert(a[i] == merged_record(recs, record_key(a[i])));
        assert(b[i] == merged_record(recs, record_key(b[i])));
    }
    assert(a =~= b);
}

} // verus!
