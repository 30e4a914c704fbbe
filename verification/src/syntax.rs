//! Parsing with tree-sitter and reading query matches back as plain
//! records: what a capture names, its text, its rows, the kinds of its
//! children and, for each enclosing node, its kind and name.
use vstd::prelude::*;
use streaming_iterator::StreamingIterator;
use crate::error::MycelError;
use crate::text::{push_str, string_of};

verus! {

/// A tree-sitter grammar.
#[verifier::external_type_specification]
#[verifier::external_body]
pub struct ExLanguage(tree_sitter::Language);

/// A tree-sitter parser.
#[verifier::external_type_specification]
#[verifier::external_body]
pub struct ExParser(tree_sitter::Parser);

/// A parsed syntax tree.
#[verifier::external_type_specification]
#[verifier::external_body]
pub struct ExTree(tree_sitter::Tree);

/// A compiled tree-sitter query.
#[verifier::external_type_specification]
#[verifier::external_body]
pub struct ExQuery(tree_sitter::Query);

/// A node of a parsed tree.
#[verifier::external_type_specification]
#[verifier::external_body]
pub struct ExNode<'tree>(tree_sitter::Node<'tree>);

/// The grammar was built for another tree-sitter ABI.
#[verifier::external_type_specification]
#[verifier::external_body]
pub struct ExLanguageError(tree_sitter::LanguageError);

/// A query does not compile against a grammar.
#[verifier::external_type_specification]
#[verifier::external_body]
pub struct ExQueryError(tree_sitter::QueryError);

/// The Rust grammar (`tree_sitter_rust::LANGUAGE`).
#[verifier::external_body]
pub(crate) fn rust_grammar() -> tree_sitter::Language {
    tree_sitter_rust::LANGUAGE.into()
}

/// The TypeScript grammar (`tree_sitter_typescript::LANGUAGE_TYPESCRIPT`).
#[verifier::external_body]
pub(crate) fn typescript_grammar() -> tree_sitter::Language {
    tree_sitter_typescript::LANGUAGE_TYPESCRIPT.into()
}

/// The TSX grammar (`tree_sitter_typescript::LANGUAGE_TSX`).
#[verifier::external_body]
pub(crate) fn tsx_grammar() -> tree_sitter::Language {
    tree_sitter_typescript::LANGUAGE_TSX.into()
}

/// A fresh parser (`Parser::new`).
#[verifier::external_body]
fn new_parser() -> tree_sitter::Parser {
    tree_sitter::Parser::new()
}

/// Sets the parser's grammar (`Parser::set_language`); fails when the
/// grammar's ABI version is not one this tree-sitter supports.
#[verifier::external_body]
fn set_parser_language(parser: &mut tree_sitter::Parser, lang: &tree_sitter::Language) -> Result<(), tree_sitter::LanguageError> {
    parser.set_language(lang)
}

/// Parses `content` from scratch (`Parser::parse` with no old tree);
/// `None` when parsing was cancelled or no grammar is set.
#[verifier::external_body]
fn parse_text(parser: &mut tree_sitter::Parser, content: &str) -> Option<tree_sitter::Tree> {
    parser.parse(content, None)
}

/// Compiles a query against a grammar (`Query::new`).
#[verifier::external_body]
fn compile_query(lang: &tree_sitter::Language, source: &str) -> Result<tree_sitter::Query, tree_sitter::QueryError> {
    tree_sitter::Query::new(lang, source)
}

/// The message of a grammar error (its `Display`).
#[verifier::external_body]
fn language_error_message(e: &tree_sitter::LanguageError) -> String {
    e.to_string()
}

/// The message of a query error (its `Display`).
#[verifier::external_body]
fn query_error_message(e: &tree_sitter::QueryError) -> String {
    e.to_string()
}

/// The bytes `start..end` of `bytes`, or `None` when that is not a range
/// within them.
pub fn text_window<'a>(bytes: &'a [u8], start: usize, end: usize) -> (r: Option<&'a [u8]>)
    ensures
        r is Some <==> start <= end <= bytes@.len(),
        r matches Some(w) ==> w@ == bytes@.subrange(start as int, end as int),
{
    if start <= end && end <= bytes.len() {
        Some(vstd::slice::slice_subrange(bytes, start, end))
    } else {
        None
    }
}

/// Every match of `query` over the whole tree, in the order the query
/// cursor yields them (`QueryCursor::matches`), each as its captures with
/// their capture names. Text predicates of the query read a node's text
/// through `text_window`, so a node whose range lies outside `content`
/// reads as no text rather than a panic.
#[verifier::external_body]
fn query_matches<'t>(query: &tree_sitter::Query, tree: &'t tree_sitter::Tree, content: &str) -> Vec<Vec<(String, tree_sitter::Node<'t>)>> {
    let mut cursor = tree_sitter::QueryCursor::new();
    let bytes = content.as_bytes();
    let mut it = cursor.matches(query, tree.root_node(), |n: tree_sitter::Node| text_window(bytes, n.start_byte(), n.end_byte()).into_iter());
    let mut out = Vec::new();
    while let Some(m) = it.next() {
        out.push(m.captures.iter().map(|c| (query.capture_names()[c.index as usize].to_string(), c.node)).collect());
    }
    out
}

/// `t` is a run of consecutive bytes of the UTF-8 encoding of `content`.
pub open spec fn is_piece_of(t: Seq<char>, content: Seq<char>) -> bool {
    exists|i: int, j: int|
        0 <= i <= j <= vstd::utf8::encode_utf8(content).len()
        && #[trigger] vstd::utf8::encode_utf8(content).subrange(i, j) == vstd::utf8::encode_utf8(t)
}

/// The node's text: the bytes of its range (`Node::byte_range`) in the
/// source, as `Node::utf8_text` reads them, but `None` rather than a panic
/// when the range lies outside `content`, and `None` when the bytes are not
/// valid UTF-8. What is claimed: a text that comes back is those bytes of
/// `content`. Which range the node covers is tree-sitter's and left unsaid.
#[verifier::external_body]
fn node_text(node: tree_sitter::Node, content: &str) -> (r: Option<String>)
    ensures
        r matches Some(t) ==> is_piece_of(t@, content@),
{
    content.as_bytes().get(node.byte_range()).and_then(|b| std::str::from_utf8(b).ok()).map(|t| t.to_string())
}

/// The node's grammar kind (`Node::kind`).
#[verifier::external_body]
fn node_kind(node: tree_sitter::Node) -> String {
    node.kind().to_string()
}

/// The 0-indexed rows the node starts and ends on (`Node::range`, its
/// start and end points). tree-sitter computes the end point by adding the
/// node's extent to its start point (`point_add` in `point.h`), so the end
/// row is never before the start row. Rows are `uint32_t` in tree-sitter's
/// points, widened to `usize` by the binding.
#[verifier::external_body]
fn node_rows(node: tree_sitter::Node) -> (r: (usize, usize))
    ensures
        r.0 <= r.1 <= u32::MAX,
{
    let range = node.range();
    (range.start_point.row, range.end_point.row)
}

/// The node's `name` field child (`Node::child_by_field_name`).
#[verifier::external_body]
fn node_name_child<'t>(node: tree_sitter::Node<'t>) -> Option<tree_sitter::Node<'t>> {
    node.child_by_field_name("name")
}

/// The node's enclosing nodes, innermost first (`Node::parent`, repeated
/// up to the root).
#[verifier::external_body]
fn node_ancestors<'t>(node: tree_sitter::Node<'t>) -> Vec<tree_sitter::Node<'t>> {
    let mut out = Vec::new();
    let mut cur = node;
    while let Some(p) = cur.parent() {
        out.push(p);
        cur = p;
    }
    out
}

/// The node's children in order (`Node::children`).
#[verifier::external_body]
fn node_children<'t>(node: tree_sitter::Node<'t>) -> Vec<tree_sitter::Node<'t>> {
    let mut cursor = node.walk();
    node.children(&mut cursor).collect()
}

/// A node enclosing a capture: its kind, whether it has a `name` field, and
/// that field's text.
#[derive(Debug, PartialEq, Eq)]
pub struct Ancestor {
    pub kind: String,
    pub has_name: bool,
    pub name: Option<String>,
}

/// A captured node as plain values.
#[derive(Debug, PartialEq, Eq)]
pub struct CapturedNode {
    /// The capture name in the query (`fn.name`, `callee`, ...).
    pub capture: String,
    /// The node's text; `None` when it is not valid UTF-8.
    pub text: Option<String>,
    /// 0-indexed first and last rows.
    pub start_row: usize,
    pub end_row: usize,
    /// The kinds of its children, in order.
    pub child_kinds: Vec<String>,
    /// Its enclosing nodes, innermost first.
    pub ancestors: Vec<Ancestor>,
}

/// What holds of an enclosing node read from `content`: no name without a
/// `name` field, and a name is text of `content`.
pub open spec fn ancestor_from(a: Ancestor, content: Seq<char>) -> bool {
    &&& !a.has_name ==> a.name is None
    &&& a.name matches Some(n) ==> is_piece_of(n@, content)
}

/// What holds of a captured node read from `content`: it ends on a row no
/// earlier than it starts on, and its text and the names of its enclosing
/// nodes are text of `content`.
pub open spec fn record_from(r: CapturedNode, content: Seq<char>) -> bool {
    &&& r.start_row <= r.end_row <= u32::MAX
    &&& r.text matches Some(t) ==> is_piece_of(t@, content)
    &&& forall|k: int| 0 <= k < r.ancestors@.len() ==> ancestor_from(#[trigger] r.ancestors@[k], content)
}

fn ancestor_record(node: tree_sitter::Node, content: &str) -> (a: Ancestor)
    ensures
        ancestor_from(a, content@),
{
    let kind = node_kind(node);
    match node_name_child(node) {
        Some(n) => Ancestor { kind, has_name: true, name: node_text(n, content) },
        None => Ancestor { kind, has_name: false, name: None },
    }
}

fn captured_record(capture: String, node: tree_sitter::Node, content: &str) -> (r: CapturedNode)
    ensures
        r.capture@ == capture@,
        record_from(r, content@),
{
    let ancestors = node_ancestors(node);
    let mut records: Vec<Ancestor> = Vec::new();
    let mut i: usize = 0;
    while i < ancestors.len()
        invariant
            i <= ancestors@.len(),
            forall|k: int| 0 <= k < records@.len() ==> ancestor_from(#[trigger] records@[k], content@),
        decreases ancestors@.len() - i,
    {
        records.push(ancestor_record(ancestors[i], content));
        i = i + 1;
    }
    let children = node_children(node);
    let mut kinds: Vec<String> = Vec::new();
    let mut j: usize = 0;
    while j < children.len()
        invariant
            j <= children@.len(),
        decreases children@.len() - j,
    {
        kinds.push(node_kind(children[j]));
        j = j + 1;
    }
    let rows = node_rows(node);
    CapturedNode {
        capture,
        text: node_text(node, content),
        start_row: rows.0,
        end_row: rows.1,
        child_kinds: kinds,
        ancestors: records,
    }
}

/// An extraction error for `file`: `Extract { file, message }`.
pub open spec fn extract_error(e: MycelError, file: Seq<char>) -> bool {
    e matches MycelError::Extract { file: f, message: _ } && f@ == file
}

/// Parses `content` with a grammar. Errors name the file: `set_language:`
/// and the grammar error, or `parse failed`.
/// The message of an extraction error, if `e` is one.
pub open spec fn error_message(e: MycelError) -> Seq<char> {
    match e {
        MycelError::Extract { file: _, message } => message@,
        _ => Seq::empty(),
    }
}

pub fn parse_source(lang: &tree_sitter::Language, file: &str, content: &str) -> (r: Result<tree_sitter::Tree, MycelError>)
    ensures
        r matches Err(e) ==> extract_error(e, file@),
        r matches Err(e) ==> error_message(e) == "parse failed"@
            || "set_language: "@.is_prefix_of(error_message(e)),
{
    let mut parser = new_parser();
    match set_parser_language(&mut parser, lang) {
        Ok(()) => {},
        Err(e) => {
            let mut message = string_of("set_language: ");
            let detail = language_error_message(&e);
            push_str(&mut message, detail.as_str());
            assert(message@.subrange(0, "set_language: "@.len() as int) =~= "set_language: "@);
            return Err(MycelError::Extract { file: string_of(file), message });
        },
    }
    match parse_text(&mut parser, content) {
        Some(t) => Ok(t),
        None => Err(MycelError::Extract { file: string_of(file), message: string_of("parse failed") }),
    }
}

/// Runs a query over a parsed source and reads every match back as plain
/// records. A query that does not compile is an error naming the file, with
/// `label`, `: ` and the query error as message.
pub fn run_query(
    lang: &tree_sitter::Language,
    tree: &tree_sitter::Tree,
    query_source: &str,
    content: &str,
    file: &str,
    label: &str,
) -> (r: Result<Vec<Vec<CapturedNode>>, MycelError>)
    ensures
        r matches Err(e) ==> extract_error(e, file@),
        r matches Err(e) ==> (label@ + ": "@).is_prefix_of(error_message(e)),
        r matches Ok(ms) ==> forall|i: int, j: int|
            0 <= i < ms@.len() && 0 <= j < ms@[i]@.len() ==> record_from(#[trigger] ms@[i]@[j], content@),
{
    let query = match compile_query(lang, query_source) {
        Ok(q) => q,
        Err(e) => {
            let mut message = string_of(label);
            push_str(&mut message, ": ");
            let detail = query_error_message(&e);
            push_str(&mut message, detail.as_str());
            assert(message@.subrange(0, (label@ + ": "@).len() as int) =~= label@ + ": "@);
            return Err(MycelError::Extract { file: string_of(file), message });
        },
    };
    let raw = query_matches(&query, tree, content);
    let mut out: Vec<Vec<CapturedNode>> = Vec::new();
    let mut i: usize = 0;
    while i < raw.len()
        invariant
            i <= raw@.len(),
            forall|a: int, b: int|
                0 <= a < out@.len() && 0 <= b < out@[a]@.len() ==> record_from(#[trigger] out@[a]@[b], content@),
        decreases raw@.len() - i,
    {
        let m = &raw[i];
        let mut caps: Vec<CapturedNode> = Vec::new();
        let mut j: usize = 0;
        while j < m.len()
            invariant
                j <= m@.len(),
                forall|k: int| 0 <= k < caps@.len() ==> record_from(#[trigger] caps@[k], content@),
            decreases m@.len() - j,
        {
            caps.push(captured_record(m[j].0.clone(), m[j].1, content));
            j = j + 1;
        }
        out.push(caps);
        i = i + 1;
    }
    Ok(out)
}

} // verus!
