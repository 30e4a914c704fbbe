use mycel::edge::EdgeKind;
use mycel::extract::{
    extractor_kind_for_extension, for_language, rust_output, ts_output, ExtractionOutput, ExtractorKind,
    tsx_extension, uses_tsx_grammar, RustExtractor, TypeScriptExtractor,
};
use mycel::symbol::SymbolKind;
use mycel::error::MycelError;
use mycel::syntax::{parse_source, run_query, Ancestor, CapturedNode};

const SIMPLE_MODULE: &str = "pub fn add(a: u32, b: u32) -> u32 {\n    a + b\n}\n\nfn double(x: u32) -> u32 {\n    add(x, x)\n}\n\npub const ANSWER: u32 = 42;\n";

const TRAIT_AND_IMPL: &str = "pub trait Greeter {\n    fn greet(&self, name: &str) -> String;\n}\n\npub struct FormalGreeter {\n    prefix: String,\n}\n\nimpl Greeter for FormalGreeter {\n    fn greet(&self, name: &str) -> String {\n        format!(\"{}{}\", self.prefix, name)\n    }\n}\n";

const IMPORTS_AND_EXPORTS: &str = "import { add } from './simple_function';\nimport type { Shape } from \"./shapes\";\n\nexport function greet(name: string): string {\n  return `Hi ${name}, sum is ${add(1, 2)}`;\n}\n\nfunction helper() {\n  greet('x');\n}\n\nexport class Box {\n  open(): void {\n    helper();\n  }\n}\n";

fn extract(path: &str, content: &str) -> ExtractionOutput {
    for_language(path).expect("extractor").extract(path, content).unwrap()
}

#[test]
fn rust_queries_compile() {
    let out = RustExtractor::new().extract("empty.rs", "").unwrap();
    assert!(out.symbols.is_empty());
    assert!(out.edges.is_empty());
    assert_eq!(out.language, "rust");
}

#[test]
fn typescript_queries_compile() {
    let ex = TypeScriptExtractor::new();
    assert!(ex.extract("empty.ts", "").is_ok());
    assert!(ex.extract("empty.tsx", "").is_ok());
}

#[test]
fn rust_call_edge_carries_from_line() {
    let out = extract("tests/fixtures/rust/simple_module.rs", SIMPLE_MODULE);
    let calls: Vec<_> = out.edges.iter().filter(|e| matches!(e.kind, EdgeKind::Calls)).collect();
    assert!(!calls.is_empty(), "fixture should produce >=1 CALL edge");
    for e in &calls {
        assert_eq!(e.from_line, Some(6), "edge {e:?}");
        assert_eq!(e.from, "tests/fixtures/rust/simple_module.rs::double");
        assert_eq!(e.to, "add");
    }
}

#[test]
fn rust_implements_edge_carries_from_line() {
    let out = extract("tests/fixtures/rust/trait_and_impl.rs", TRAIT_AND_IMPL);
    let impls: Vec<_> = out.edges.iter().filter(|e| matches!(e.kind, EdgeKind::Implements)).collect();
    assert!(!impls.is_empty(), "fixture should produce >=1 IMPLEMENTS edge");
    for e in &impls {
        assert_eq!(e.from_line, Some(9), "edge {e:?}");
        assert_eq!(e.from, "tests/fixtures/rust/trait_and_impl.rs::FormalGreeter");
        assert_eq!(e.to, "Greeter");
    }
}

#[test]
fn rust_symbols_with_visibility_and_signature() {
    let out = extract("src/m.rs", TRAIT_AND_IMPL);
    let names: Vec<&str> = out.symbols.iter().map(|s| s.qualified_name.as_str()).collect();
    assert!(names.contains(&"src/m.rs::Greeter"));
    assert!(names.contains(&"src/m.rs::FormalGreeter"));
    let greeter = out.symbols.iter().find(|s| s.qualified_name.as_str() == "src/m.rs::Greeter").unwrap();
    assert_eq!(greeter.kind, SymbolKind::Trait);
    assert!(greeter.exported);
    assert_eq!(greeter.start_line, 1);
    assert_eq!(greeter.end_line, 3);
    assert_eq!(greeter.signature.as_str(), "pub trait Greeter {");
    let greet = out.symbols.iter().find(|s| s.qualified_name.as_str() == "src/m.rs::greet").unwrap();
    assert_eq!(greet.kind, SymbolKind::Function);
    assert!(!greet.exported);
    assert_eq!(greet.file_path, "src/m.rs");
}

#[test]
fn rust_use_paths_become_imports() {
    let out = extract("a.rs", "use std::collections::HashMap;\nuse crate::x::{a, b};\n");
    let imports: Vec<_> = out.edges.iter().filter(|e| matches!(e.kind, EdgeKind::Imports)).collect();
    assert_eq!(imports.len(), 2);
    assert_eq!(imports[0].from, "a.rs");
    assert_eq!(imports[0].to, "std::collections::HashMap");
    assert_eq!(imports[0].from_line, None);
}

#[test]
fn typescript_call_edge_carries_from_line() {
    let out = extract("tests/fixtures/typescript/imports_and_exports.ts", IMPORTS_AND_EXPORTS);
    let calls: Vec<_> = out.edges.iter().filter(|e| matches!(e.kind, EdgeKind::Calls)).collect();
    assert!(!calls.is_empty(), "fixture should produce >=1 CALL edge");
    for e in &calls {
        assert!(e.from_line.is_some(), "CALL edge {e:?} missing from_line");
        assert!(e.from_line.unwrap() > 0, "from_line should be 1-indexed");
    }
    let add = calls.iter().find(|e| e.to == "add").unwrap();
    assert_eq!(add.from, "tests/fixtures/typescript/imports_and_exports.ts::greet");
    assert_eq!(add.from_line, Some(5));
    let helper = calls.iter().find(|e| e.to == "helper").unwrap();
    assert_eq!(helper.from, "tests/fixtures/typescript/imports_and_exports.ts::open");
}

#[test]
fn typescript_imports_strip_quotes() {
    let out = extract("m.ts", IMPORTS_AND_EXPORTS);
    let imports: Vec<&str> =
        out.edges.iter().filter(|e| matches!(e.kind, EdgeKind::Imports)).map(|e| e.to.as_str()).collect();
    assert_eq!(imports, vec!["./simple_function", "./shapes"]);
}

#[test]
fn typescript_exported_declaration_is_one_exported_symbol() {
    let out = extract("m.ts", IMPORTS_AND_EXPORTS);
    let greets: Vec<_> = out.symbols.iter().filter(|s| s.qualified_name.as_str() == "m.ts::greet").collect();
    assert_eq!(greets.len(), 1);
    assert!(greets[0].exported);
    assert_eq!(greets[0].start_line, 4);
    let helper = out.symbols.iter().find(|s| s.qualified_name.as_str() == "m.ts::helper").unwrap();
    assert!(!helper.exported);
    let boxes: Vec<_> = out.symbols.iter().filter(|s| s.qualified_name.as_str() == "m.ts::Box").collect();
    assert_eq!(boxes.len(), 1);
    assert!(boxes[0].exported);
    assert_eq!(boxes[0].kind, SymbolKind::Class);
    // sorted by (line, name)
    let lines: Vec<u32> = out.symbols.iter().map(|s| s.start_line).collect();
    let mut sorted = lines.clone();
    sorted.sort();
    assert_eq!(lines, sorted);
}

#[test]
fn extractor_by_extension() {
    assert_eq!(extractor_kind_for_extension(Some("rs")), Some(ExtractorKind::Rust));
    for e in ["ts", "tsx", "js", "jsx", "mts", "cts"] {
        assert_eq!(extractor_kind_for_extension(Some(e)), Some(ExtractorKind::TypeScript));
    }
    assert_eq!(extractor_kind_for_extension(Some("py")), None);
    assert_eq!(extractor_kind_for_extension(None), None);
    assert!(for_language("src/lib.rs").is_some());
    assert!(for_language("README").is_none());
    assert_eq!(for_language("a/b.tsx").unwrap().language_name(), "typescript");
}

fn cap(name: &str, text: &str, row: usize) -> CapturedNode {
    CapturedNode {
        capture: name.into(),
        text: Some(text.into()),
        start_row: row,
        end_row: row + 2,
        child_kinds: vec![],
        ancestors: vec![],
    }
}

#[test]
fn rules_on_plain_matches() {
    let mut callee = cap("callee", "helper", 4);
    callee.ancestors = vec![
        Ancestor { kind: "call_expression".into(), has_name: false, name: None },
        Ancestor { kind: "function_item".into(), has_name: true, name: Some("outer".into()) },
    ];
    let mut def = cap("fn.def", "pub fn outer() {\n}", 3);
    def.child_kinds = vec!["visibility_modifier".into(), "identifier".into()];
    let out = rust_output(
        "f.rs",
        &vec![vec![cap("fn.name", "outer", 3), def]],
        &vec![vec![cap("trait", "T", 9), cap("ty", "S", 9)]],
        &vec![vec![cap("use.path", "a::b", 0)]],
        &vec![vec![callee]],
    );
    assert_eq!(out.symbols.len(), 1);
    assert_eq!(out.symbols[0].qualified_name.as_str(), "f.rs::outer");
    assert_eq!(out.symbols[0].start_line, 4);
    assert_eq!(out.symbols[0].end_line, 6);
    assert_eq!(out.symbols[0].signature.as_str(), "pub fn outer() {");
    assert!(out.symbols[0].exported);
    assert_eq!(out.edges.len(), 3);
    assert_eq!((out.edges[0].from.as_str(), out.edges[0].to.as_str()), ("f.rs::S", "T"));
    assert_eq!(out.edges[0].from_line, Some(10));
    assert_eq!(out.edges[1].to, "a::b");
    assert_eq!((out.edges[2].from.as_str(), out.edges[2].to.as_str()), ("f.rs::outer", "helper"));
    assert_eq!(out.edges[2].from_line, Some(5));

    let mut site = cap("site", "go()", 2);
    site.ancestors = vec![Ancestor { kind: "arrow_function".into(), has_name: false, name: None }];
    let out = ts_output(
        "t.ts",
        &vec![
            vec![cap("fn.name", "b", 5), cap("fn.def", "function b() {}", 5)],
            vec![cap("fn.name", "a", 1), cap("fn.def", "function a() {}", 1)],
            vec![cap("fn.name", "b", 5), cap("fn.def", "function b() {}", 5), cap("exported", "export function b() {}", 5)],
        ],
        &vec![vec![cap("callee", "go", 2), site]],
        &vec![vec![cap("import.source", "'./x'", 0)]],
    );
    let names: Vec<&str> = out.symbols.iter().map(|s| s.qualified_name.as_str()).collect();
    assert_eq!(names, vec!["t.ts::a", "t.ts::b"]);
    assert!(!out.symbols[0].exported);
    assert!(out.symbols[1].exported);
    assert_eq!(out.edges[0].from, "t.ts::<anonymous>");
    assert_eq!(out.edges[0].from_line, Some(3));
    assert_eq!(out.edges[1].to, "./x");
}

#[test]
fn tsx_grammar_for_tsx_and_jsx() {
    assert!(tsx_extension(Some("tsx")));
    assert!(tsx_extension(Some("jsx")));
    assert!(!tsx_extension(Some("ts")));
    assert!(!tsx_extension(None));
    assert!(uses_tsx_grammar("web/App.jsx"));
    assert!(!uses_tsx_grammar("web/app.ts"));
}

#[test]
fn extraction_is_deterministic() {
    let a = extract("m.ts", IMPORTS_AND_EXPORTS);
    let b = extract("m.ts", IMPORTS_AND_EXPORTS);
    assert_eq!(a, b);
    let a = extract("m.rs", TRAIT_AND_IMPL);
    let b = extract("m.rs", TRAIT_AND_IMPL);
    assert_eq!(a, b);
}

#[test]
fn grammar_chosen_by_extension() {
    let ts = TypeScriptExtractor::new();
    assert!(ts.language_for("web/App.tsx") == ts.language_for("web/old.jsx"));
    assert!(ts.language_for("web/app.ts") == ts.language_for("web/old.js"));
    assert!(ts.language_for("web/App.tsx") != ts.language_for("web/app.ts"));
}

#[test]
fn query_error_names_label_and_texts_come_from_source() {
    let ts = TypeScriptExtractor::new();
    let lang = ts.language_for("m.ts");
    let tree = parse_source(&lang, "m.ts", IMPORTS_AND_EXPORTS).unwrap();
    match run_query(&lang, &tree, "(no_such_node) @x", IMPORTS_AND_EXPORTS, "m.ts", "ts probe") {
        Err(MycelError::Extract { file, message }) => {
            assert_eq!(file, "m.ts");
            assert!(message.starts_with("ts probe: "));
            assert!(message.len() > "ts probe: ".len());
        }
        other => panic!("unexpected {:?}", other),
    }
    let ms = run_query(
        &lang,
        &tree,
        "(function_declaration name: (identifier) @n)",
        IMPORTS_AND_EXPORTS,
        "m.ts",
        "ts names",
    )
    .unwrap();
    let mut names: Vec<String> = Vec::new();
    for m in &ms {
        for c in m {
            let t = c.text.clone().expect("text");
            assert!(IMPORTS_AND_EXPORTS.contains(t.as_str()));
            names.push(t);
        }
    }
    assert_eq!(names, vec!["greet".to_string(), "helper".to_string()]);
}

#[test]
fn rust_symbol_lines_run_forward() {
    let out = extract("tests/fixtures/rust/simple_module.rs", SIMPLE_MODULE);
    let spans: Vec<(&str, u32, u32)> =
        out.symbols.iter().map(|s| (s.qualified_name.as_str(), s.start_line, s.end_line)).collect();
    assert!(spans.contains(&("tests/fixtures/rust/simple_module.rs::add", 1, 3)));
    assert!(spans.contains(&("tests/fixtures/rust/simple_module.rs::double", 5, 7)));
    assert!(spans.contains(&("tests/fixtures/rust/simple_module.rs::ANSWER", 9, 9)));
    for s in &out.symbols {
        assert!(1 <= s.start_line && s.start_line <= s.end_line, "{s:?}");
    }
}
