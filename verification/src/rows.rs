//! Decoding of graph query result rows.
use vstd::prelude::*;
use crate::symbol::{
    defang_spec, symbol_kind_from_name, QualifiedName, Signature, Symbol, SymbolKind,
};
use crate::text::{chars_of, substring_from};

verus! {

/// One value of a graph query result, as far as the library reads it.
/// Values of any other type (floats, nodes, maps, ...) are `Other`.
#[derive(Debug, PartialEq, Eq)]
pub enum GraphValue {
    String(String),
    I64(i64),
    Bool(bool),
    Other,
}

/// Index of the last `::` that starts before `k`, or -1.
pub open spec fn rfind_double_colon(s: Seq<char>, k: int) -> int
    decreases k,
{
    if k <= 0 {
        -1
    } else if k < s.len() && s[k - 1] == ':' && s[k] == ':' {
        k - 1
    } else {
        rfind_double_colon(s, k - 1)
    }
}

/// Index of the last occurrence of `c` before `k`, or -1.
pub open spec fn rfind_char(s: Seq<char>, c: char, k: int) -> int
    decreases k,
{
    if k <= 0 {
        -1
    } else if s[k - 1] == c {
        k - 1
    } else {
        rfind_char(s, c, k - 1)
    }
}

/// The short name of a qualified name: what follows the last `::`, else
/// what follows the last `.`, else the whole name.
pub open spec fn short_name_spec(s: Seq<char>) -> Seq<char> {
    let dc = rfind_double_colon(s, s.len() as int);
    let dot = rfind_char(s, '.', s.len() as int);
    if dc >= 0 {
        s.skip(dc + 2)
    } else if dot >= 0 {
        s.skip(dot + 1)
    } else {
        s
    }
}

proof fn lemma_rfind_double_colon_range(s: Seq<char>, k: int)
    requires
        k >= 0,
    ensures
        -1 <= rfind_double_colon(s, k) < k,
        rfind_double_colon(s, k) >= 0 ==> rfind_double_colon(s, k) + 1 < s.len(),
    decreases k,
{
    if k > 0 {
        lemma_rfind_double_colon_range(s, k - 1);
    }
}

/// The short name of a qualified name, as stored in the `name` property.
pub fn short_name(qualified: &str) -> (r: &str)
    ensures
        r@ == short_name_spec(qualified@),
{
    let cs = chars_of(qualified);
    let n = cs.len();
    // last `::`
    let mut k: usize = n;
    while k > 0
        invariant
            k <= n,
            n == cs@.len(),
            cs@ == qualified@,
            rfind_double_colon(cs@, n as int) == rfind_double_colon(cs@, k as int),
        decreases k,
    {
        if k < n && cs[k - 1] == ':' && cs[k] == ':' {
            proof {
                lemma_rfind_double_colon_range(cs@, k as int);
            }
            return substring_from(qualified, k + 1);
        }
        k = k - 1;
    }
    let mut j: usize = n;
    while j > 0
        invariant
            j <= n,
            n == cs@.len(),
            cs@ == qualified@,
            rfind_double_colon(cs@, n as int) == -1,
            rfind_char(cs@, '.', n as int) == rfind_char(cs@, '.', j as int),
        decreases j,
    {
        if cs[j - 1] == '.' {
            return substring_from(qualified, j);
        }
        j = j - 1;
    }
    qualified
}

} // verus!

verus! {

/// The string held by a value, if it is a string.
pub open spec fn gv_str(v: GraphValue) -> Option<Seq<char>> {
    match v {
        GraphValue::String(s) => Some(s@),
        _ => None,
    }
}

/// The integer held by a value, if it is an integer.
pub open spec fn gv_i64(v: GraphValue) -> Option<i64> {
    match v {
        GraphValue::I64(n) => Some(n),
        _ => None,
    }
}

/// The boolean held by a value, if it is a boolean.
pub open spec fn gv_bool(v: GraphValue) -> Option<bool> {
    match v {
        GraphValue::Bool(b) => Some(b),
        _ => None,
    }
}

/// A row of the shape (qualified_name, kind, file_path, start_line,
/// end_line, signature, exported) with a known kind name.
pub open spec fn symbol_row_ok(row: Seq<GraphValue>) -> bool {
    &&& row.len() >= 7
    &&& gv_str(row[0]) is Some
    &&& gv_str(row[1]) is Some
    &&& symbol_kind_from_name(gv_str(row[1])->0) is Some
    &&& gv_str(row[2]) is Some
    &&& gv_i64(row[3]) is Some
    &&& gv_i64(row[4]) is Some
    &&& gv_str(row[5]) is Some
    &&& gv_bool(row[6]) is Some
}

/// `sym` is the symbol that a well-shaped `row` describes.
pub open spec fn symbol_from_row(sym: Symbol, row: Seq<GraphValue>) -> bool {
    &&& sym.qualified_name@ == defang_spec(gv_str(row[0])->0)
    &&& Some(sym.kind) == symbol_kind_from_name(gv_str(row[1])->0)
    &&& sym.file_path@ == gv_str(row[2])->0
    &&& sym.start_line == (gv_i64(row[3])->0) as u32
    &&& sym.end_line == (gv_i64(row[4])->0) as u32
    &&& sym.signature@ == gv_str(row[5])->0
    &&& sym.exported == gv_bool(row[6])->0
    &&& sym.jsdoc is None
    &&& sym.synthesized_description is None
    &&& sym.body_hash is None
    &&& sym.description_source_hash is None
}

/// Reads the string at `i` of a row, if it is one.
pub fn value_str(row: &Vec<GraphValue>, i: usize) -> (r: Option<&String>)
    ensures
        r is Some <==> (i < row@.len() && gv_str(row@[i as int]) is Some),
        r matches Some(s) ==> s@ == gv_str(row@[i as int])->0,
{
    if i < row.len() {
        match &row[i] {
            GraphValue::String(s) => Some(s),
            _ => None,
        }
    } else {
        None
    }
}

/// Reads the integer at `i` of a row, if it is one.
pub fn value_i64(row: &Vec<GraphValue>, i: usize) -> (r: Option<i64>)
    ensures
        r is Some <==> (i < row@.len() && gv_i64(row@[i as int]) is Some),
        r matches Some(n) ==> n == gv_i64(row@[i as int])->0,
{
    if i < row.len() {
        match &row[i] {
            GraphValue::I64(n) => Some(*n),
            _ => None,
        }
    } else {
        None
    }
}

/// Reads the boolean at `i` of a row, if it is one.
pub fn value_bool(row: &Vec<GraphValue>, i: usize) -> (r: Option<bool>)
    ensures
        r is Some <==> (i < row@.len() && gv_bool(row@[i as int]) is Some),
        r matches Some(b) ==> b == gv_bool(row@[i as int])->0,
{
    if i < row.len() {
        match &row[i] {
            GraphValue::Bool(b) => Some(*b),
            _ => None,
        }
    } else {
        None
    }
}

/// Decodes a symbol from a row of the shape (qualified_name, kind,
/// file_path, start_line, end_line, signature, exported). `None` on any
/// shape mismatch; values past the seventh are ignored.
pub fn parse_symbol_row(row: Vec<GraphValue>) -> (r: Option<Symbol>)
    ensures
        r is Some <==> symbol_row_ok(row@),
        r matches Some(sym) ==> symbol_from_row(sym, row@),
{
    symbol_of_row(&row)
}

/// [`parse_symbol_row`] on a borrowed row.
pub fn symbol_of_row(row: &Vec<GraphValue>) -> (r: Option<Symbol>)
    ensures
        r is Some <==> symbol_row_ok(row@),
        r matches Some(sym) ==> symbol_from_row(sym, row@),
{
    let row = row;
    let qname = match value_str(&row, 0) {
        Some(s) => s,
        None => return None,
    };
    let kind_s = match value_str(&row, 1) {
        Some(s) => s,
        None => return None,
    };
    let kind = match SymbolKind::from_name(kind_s.as_str()) {
        Some(k) => k,
        None => return None,
    };
    let file = match value_str(&row, 2) {
        Some(s) => s,
        None => return None,
    };
    let start = match value_i64(&row, 3) {
        Some(n) => n,
        None => return None,
    };
    let end = match value_i64(&row, 4) {
        Some(n) => n,
        None => return None,
    };
    let sig = match value_str(&row, 5) {
        Some(s) => s,
        None => return None,
    };
    let exported = match value_bool(&row, 6) {
        Some(b) => b,
        None => return None,
    };
    Some(
        Symbol {
            qualified_name: QualifiedName::new(qname.as_str()),
            kind,
            file_path: file.clone(),
            start_line: start as u32,
            end_line: end as u32,
            signature: Signature::new(sig.as_str()),
            jsdoc: None,
            synthesized_description: None,
            exported,
            body_hash: None,
            description_source_hash: None,
        },
    )
}

/// Decodes every well-shaped row into a symbol, dropping the others.
pub open spec fn symbols_of_rows(rows: Seq<Vec<GraphValue>>) -> Seq<Seq<GraphValue>>
    decreases rows.len(),
{
    if rows.len() == 0 {
        Seq::empty()
    } else if symbol_row_ok(rows.last()@) {
        symbols_of_rows(rows.drop_last()).push(rows.last()@)
    } else {
        symbols_of_rows(rows.drop_last())
    }
}

/// Decodes the rows of a symbol query, keeping those of the right shape in
/// their order.
pub fn parse_symbol_rows(rows: Vec<Vec<GraphValue>>) -> (r: Vec<Symbol>)
    ensures
        r@.len() == symbols_of_rows(rows@).len(),
        forall|i: int|
            0 <= i < r@.len() ==> symbol_from_row(#[trigger] r@[i], symbols_of_rows(rows@)[i]),
{
    let mut out: Vec<Symbol> = Vec::new();
    let mut i: usize = 0;
    while i < rows.len()
        invariant
            i <= rows@.len(),
            out@.len() == symbols_of_rows(rows@.take(i as int)).len(),
            forall|j: int|
                0 <= j < out@.len() ==> symbol_from_row(
                    #[trigger] out@[j],
                    symbols_of_rows(rows@.take(i as int))[j],
                ),
        decreases rows@.len() - i,
    {
        assert(rows@.take(i + 1).drop_last() =~= rows@.take(i as int));
        assert(rows@.take(i + 1).last() == rows@[i as int]);
        match symbol_of_row(&rows[i]) {
            Some(sym) => {
                out.push(sym);
            },
            None => {},
        }
        i = i + 1;
    }
    assert(rows@.take(rows@.len() as int) =~= rows@);
    out
}

} // verus!

verus! {

/// A symbol surfaced for description synthesis.
#[derive(Debug, PartialEq, Eq)]
pub struct SymbolForSynthesis {
    pub qualified_name: String,
    pub signature: String,
    pub file_path: String,
    pub start_line: u32,
    pub end_line: u32,
    pub has_description: bool,
}

/// A 1-hop neighbor of a symbol: its name and signature.
#[derive(Debug, PartialEq, Eq)]
pub struct SymbolNeighbor {
    pub qualified_name: String,
    pub signature: String,
}

/// The 1-hop neighborhood used to build a synthesis prompt.
#[derive(Debug, PartialEq, Eq)]
pub struct SynthesisContext {
    pub callers: Vec<SymbolNeighbor>,
    pub callees: Vec<SymbolNeighbor>,
}

impl SynthesisContext {
    /// A context with no neighbors.
    pub fn empty() -> (c: SynthesisContext)
        ensures
            c.callers@.len() == 0,
            c.callees@.len() == 0,
    {
        SynthesisContext { callers: Vec::new(), callees: Vec::new() }
    }
}

/// A symbol's description state plus the two hashes used to detect staleness.
#[derive(Debug, PartialEq, Eq)]
pub struct SymbolDescriptionInfo {
    pub description: Option<String>,
    pub body_hash: Option<String>,
    pub description_source_hash: Option<String>,
}

/// The string at `i`, or the empty string when `i` holds anything else.
pub open spec fn str_or_empty(row: Seq<GraphValue>, i: int) -> Seq<char> {
    if 0 <= i < row.len() && gv_str(row[i]) is Some {
        gv_str(row[i])->0
    } else {
        Seq::empty()
    }
}

/// The integer at `i` truncated to `u32`, or 0 when `i` holds anything else.
pub open spec fn u32_or_zero(row: Seq<GraphValue>, i: int) -> u32 {
    if 0 <= i < row.len() && gv_i64(row[i]) is Some {
        (gv_i64(row[i])->0) as u32
    } else {
        0
    }
}

/// Whether position `i` holds a string.
pub open spec fn has_str(row: Seq<GraphValue>, i: int) -> bool {
    0 <= i < row.len() && gv_str(row[i]) is Some
}

/// Whether position `i` holds a non-empty string.
pub open spec fn has_nonempty_str(row: Seq<GraphValue>, i: int) -> bool {
    has_str(row, i) && (gv_str(row[i])->0).len() > 0
}

/// The string at `i` if it is non-empty.
pub open spec fn nonempty_str(row: Seq<GraphValue>, i: int) -> Option<Seq<char>> {
    if has_nonempty_str(row, i) {
        Some(gv_str(row[i])->0)
    } else {
        None
    }
}

fn str_or_empty_exec(row: &Vec<GraphValue>, i: usize) -> (r: String)
    ensures
        r@ == str_or_empty(row@, i as int),
{
    match value_str(row, i) {
        Some(s) => s.clone(),
        None => String::new(),
    }
}

fn u32_or_zero_exec(row: &Vec<GraphValue>, i: usize) -> (r: u32)
    ensures
        r == u32_or_zero(row@, i as int),
{
    match value_i64(row, i) {
        Some(n) => n as u32,
        None => 0,
    }
}

fn nonempty_str_exec(row: &Vec<GraphValue>, i: usize) -> (r: Option<String>)
    ensures
        r is Some <==> has_nonempty_str(row@, i as int),
        r matches Some(s) ==> s@ == gv_str(row@[i as int])->0,
{
    match value_str(row, i) {
        Some(s) => {
            if !s.as_str().is_empty() {
                Some(s.clone())
            } else {
                None
            }
        },
        None => None,
    }
}

/// The neighbor a row (qualified_name, signature) describes, if its name is
/// a string; a non-string signature reads as empty.
pub open spec fn neighbor_of_row(row: Seq<GraphValue>) -> Option<(Seq<char>, Seq<char>)> {
    if has_str(row, 0) {
        Some((gv_str(row[0])->0, str_or_empty(row, 1)))
    } else {
        None
    }
}

/// The neighbors described by a list of rows, in order.
pub open spec fn neighbors_of_rows(rows: Seq<Vec<GraphValue>>) -> Seq<(Seq<char>, Seq<char>)>
    decreases rows.len(),
{
    if rows.len() == 0 {
        Seq::empty()
    } else {
        match neighbor_of_row(rows.last()@) {
            Some(n) => neighbors_of_rows(rows.drop_last()).push(n),
            None => neighbors_of_rows(rows.drop_last()),
        }
    }
}

/// Decodes (qualified_name, signature) neighbor rows.
pub fn parse_neighbor_rows(rows: Vec<Vec<GraphValue>>) -> (r: Vec<SymbolNeighbor>)
    ensures
        r@.len() == neighbors_of_rows(rows@).len(),
        forall|i: int|
            0 <= i < r@.len() ==> (#[trigger] r@[i]).qualified_name@ == neighbors_of_rows(
                rows@,
            )[i].0 && r@[i].signature@ == neighbors_of_rows(rows@)[i].1,
{
    let mut out: Vec<SymbolNeighbor> = Vec::new();
    let mut i: usize = 0;
    while i < rows.len()
        invariant
            i <= rows@.len(),
            out@.len() == neighbors_of_rows(rows@.take(i as int)).len(),
            forall|j: int|
                0 <= j < out@.len() ==> (#[trigger] out@[j]).qualified_name@ == neighbors_of_rows(
                    rows@.take(i as int),
                )[j].0 && out@[j].signature@ == neighbors_of_rows(rows@.take(i as int))[j].1,
        decreases rows@.len() - i,
    {
        assert(rows@.take(i + 1).drop_last() =~= rows@.take(i as int));
        assert(rows@.take(i + 1).last() == rows@[i as int]);
        let row = &rows[i];
        match value_str(row, 0) {
            Some(q) => {
                let sig = str_or_empty_exec(row, 1);
                out.push(SymbolNeighbor { qualified_name: q.clone(), signature: sig });
            },
            None => {},
        }
        i = i + 1;
    }
    assert(rows@.take(rows@.len() as int) =~= rows@);
    out
}

/// Whether a synthesis row has the string fields it needs (name and path).
pub open spec fn synthesis_row_ok(row: Seq<GraphValue>) -> bool {
    has_str(row, 0) && has_str(row, 2)
}

/// `s` is the synthesis entry described by the row (qualified_name,
/// signature, file_path, start_line, end_line, description).
pub open spec fn synthesis_from_row(s: SymbolForSynthesis, row: Seq<GraphValue>) -> bool {
    &&& s.qualified_name@ == gv_str(row[0])->0
    &&& s.signature@ == str_or_empty(row, 1)
    &&& s.file_path@ == gv_str(row[2])->0
    &&& s.start_line == u32_or_zero(row, 3)
    &&& s.end_line == u32_or_zero(row, 4)
    &&& s.has_description == has_nonempty_str(row, 5)
}

/// The rows that yield a synthesis entry, in order.
pub open spec fn synthesis_rows(rows: Seq<Vec<GraphValue>>) -> Seq<Seq<GraphValue>>
    decreases rows.len(),
{
    if rows.len() == 0 {
        Seq::empty()
    } else if synthesis_row_ok(rows.last()@) {
        synthesis_rows(rows.drop_last()).push(rows.last()@)
    } else {
        synthesis_rows(rows.drop_last())
    }
}

/// Decodes the rows of the synthesis listing, skipping rows without a
/// string name or path.
pub fn parse_synthesis_rows(rows: Vec<Vec<GraphValue>>) -> (r: Vec<SymbolForSynthesis>)
    ensures
        r@.len() == synthesis_rows(rows@).len(),
        forall|i: int|
            0 <= i < r@.len() ==> synthesis_from_row(#[trigger] r@[i], synthesis_rows(rows@)[i]),
{
    let mut out: Vec<SymbolForSynthesis> = Vec::new();
    let mut i: usize = 0;
    while i < rows.len()
        invariant
            i <= rows@.len(),
            out@.len() == synthesis_rows(rows@.take(i as int)).len(),
            forall|j: int|
                0 <= j < out@.len() ==> synthesis_from_row(
                    #[trigger] out@[j],
                    synthesis_rows(rows@.take(i as int))[j],
                ),
        decreases rows@.len() - i,
    {
        assert(rows@.take(i + 1).drop_last() =~= rows@.take(i as int));
        assert(rows@.take(i + 1).last() == rows@[i as int]);
        let row = &rows[i];
        match (value_str(row, 0), value_str(row, 2)) {
            (Some(q), Some(f)) => {
                let has_description = match nonempty_str_exec(row, 5) {
                    Some(_) => true,
                    None => false,
                };
                out.push(
                    SymbolForSynthesis {
                        qualified_name: q.clone(),
                        signature: str_or_empty_exec(row, 1),
                        file_path: f.clone(),
                        start_line: u32_or_zero_exec(row, 3),
                        end_line: u32_or_zero_exec(row, 4),
                        has_description,
                    },
                );
            },
            _ => {},
        }
        i = i + 1;
    }
    assert(rows@.take(rows@.len() as int) =~= rows@);
    out
}

/// Decodes the (description, body_hash, description_source_hash) row of a
/// description lookup. `None` when no row came back (no such symbol); an
/// empty or non-string field reads as absent.
pub fn parse_description_rows(rows: Vec<Vec<GraphValue>>) -> (r: Option<SymbolDescriptionInfo>)
    ensures
        r is Some <==> rows@.len() > 0,
        r matches Some(info) ==> {
            &&& (info.description is Some <==> has_nonempty_str(rows@[0]@, 0))
            &&& (info.description matches Some(d) ==> d@ == gv_str(rows@[0]@[0])->0)
            &&& (info.body_hash is Some <==> has_nonempty_str(rows@[0]@, 1))
            &&& (info.body_hash matches Some(h) ==> h@ == gv_str(rows@[0]@[1])->0)
            &&& (info.description_source_hash is Some <==> has_nonempty_str(rows@[0]@, 2))
            &&& (info.description_source_hash matches Some(h) ==> h@ == gv_str(rows@[0]@[2])->0)
        },
{
    if rows.len() == 0 {
        return None;
    }
    let row = &rows[0];
    Some(
        SymbolDescriptionInfo {
            description: nonempty_str_exec(row, 0),
            body_hash: nonempty_str_exec(row, 1),
            description_source_hash: nonempty_str_exec(row, 2),
        },
    )
}

/// The first value of the first row, if there is one.
pub open spec fn first_value(rows: Seq<Vec<GraphValue>>) -> Option<GraphValue> {
    if rows.len() > 0 && rows[0]@.len() > 0 {
        Some(rows[0]@[0])
    } else {
        None
    }
}

/// The first value of the first row, when it is a string.
pub fn first_string(rows: &Vec<Vec<GraphValue>>) -> (r: Option<String>)
    ensures
        r is Some <==> (first_value(rows@) matches Some(v) && gv_str(v) is Some),
        r matches Some(s) ==> s@ == gv_str(first_value(rows@)->0)->0,
{
    if rows.len() == 0 {
        return None;
    }
    match value_str(&rows[0], 0) {
        Some(s) => Some(s.clone()),
        None => None,
    }
}

/// The first value of the first row as an extractor version: a
/// non-negative integer, truncated to `u32`.
pub fn first_version(rows: &Vec<Vec<GraphValue>>) -> (r: Option<u32>)
    ensures
        r is Some <==> (first_value(rows@) matches Some(v) && gv_i64(v) matches Some(n) && n >= 0),
        r matches Some(x) ==> x == (gv_i64(first_value(rows@)->0)->0) as u32,
{
    if rows.len() == 0 {
        return None;
    }
    match value_i64(&rows[0], 0) {
        Some(n) => {
            if n >= 0 {
                Some(n as u32)
            } else {
                None
            }
        },
        None => None,
    }
}

/// The first value of the first row as a count; 0 when it is not an integer.
pub fn first_count(rows: &Vec<Vec<GraphValue>>) -> (r: usize)
    ensures
        r == (match first_value(rows@) {
            Some(GraphValue::I64(n)) => n as usize,
            _ => 0usize,
        }),
{
    if rows.len() == 0 {
        return 0;
    }
    match value_i64(&rows[0], 0) {
        Some(n) => n as usize,
        None => 0,
    }
}

/// The first value of every row whose first value is a string, in order.
pub open spec fn first_strings(rows: Seq<Vec<GraphValue>>) -> Seq<Seq<char>>
    decreases rows.len(),
{
    if rows.len() == 0 {
        Seq::empty()
    } else if has_str(rows.last()@, 0) {
        first_strings(rows.drop_last()).push(gv_str(rows.last()@[0])->0)
    } else {
        first_strings(rows.drop_last())
    }
}

/// Collects the first value of every row whose first value is a string
/// (the applied migration ids).
pub fn parse_first_strings(rows: &Vec<Vec<GraphValue>>) -> (r: Vec<String>)
    ensures
        r@.len() == first_strings(rows@).len(),
        forall|i: int| 0 <= i < r@.len() ==> (#[trigger] r@[i])@ == first_strings(rows@)[i],
{
    let mut out: Vec<String> = Vec::new();
    let mut i: usize = 0;
    while i < rows.len()
        invariant
            i <= rows@.len(),
            out@.len() == first_strings(rows@.take(i as int)).len(),
            forall|j: int|
                0 <= j < out@.len() ==> (#[trigger] out@[j])@ == first_strings(
                    rows@.take(i as int),
                )[j],
        decreases rows@.len() - i,
    {
        assert(rows@.take(i + 1).drop_last() =~= rows@.take(i as int));
        assert(rows@.take(i + 1).last() == rows@[i as int]);
        match value_str(&rows[i], 0) {
            Some(s) => out.push(s.clone()),
            None => {},
        }
        i = i + 1;
    }
    assert(rows@.take(rows@.len() as int) =~= rows@);
    out
}

} // verus!
