use mycel::rows::{SymbolForSynthesis, SymbolNeighbor, SynthesisContext};
use mycel::synthesis::{
    build_prompt, clean_description, lists_only_missing, plan_synthesis, usable_description, SynthesisOptions,
};

#[test]
fn clean_description_strips_echoed_prefix() {
    assert_eq!(clean_description("Description: Validates a JWT token."), "Validates a JWT token.");
    assert_eq!(clean_description("description: Picks a tier."), "Picks a tier.");
}

#[test]
fn clean_description_strips_surrounding_quotes() {
    assert_eq!(clean_description("\"Returns the canonical path.\""), "Returns the canonical path.");
}

#[test]
fn clean_description_handles_combined_artifacts() {
    assert_eq!(clean_description("   Description: \"Logs a warning.\"   "), "Logs a warning.");
}

#[test]
fn clean_description_passthrough_for_clean_input() {
    assert_eq!(
        clean_description("Validates input and returns the parsed token."),
        "Validates input and returns the parsed token."
    );
}

#[test]
fn empty_completion_is_not_a_description() {
    assert_eq!(usable_description("   \"\"  "), None);
    assert_eq!(usable_description(" Does a thing. "), Some("Does a thing.".to_string()));
}

fn sym(name: &str, described: bool) -> SymbolForSynthesis {
    SymbolForSynthesis {
        qualified_name: name.into(),
        signature: "fn x()".into(),
        file_path: "foo.rs".into(),
        start_line: 1,
        end_line: 3,
        has_description: described,
    }
}

#[test]
fn build_prompt_includes_signature_and_neighbors() {
    let sym = SymbolForSynthesis {
        qualified_name: "foo::bar".into(),
        signature: "fn bar(x: u32) -> u32".into(),
        file_path: "foo.rs".into(),
        start_line: 1,
        end_line: 3,
        has_description: false,
    };
    let ctx = SynthesisContext {
        callers: vec![SymbolNeighbor { qualified_name: "foo::caller".into(), signature: "fn caller()".into() }],
        callees: vec![SymbolNeighbor { qualified_name: "foo::callee".into(), signature: "fn callee(y: u32)".into() }],
    };
    let prompt = build_prompt(&sym, Some("fn bar(x: u32) -> u32 { x + 1 }"), &ctx);
    assert!(prompt.contains("foo::bar"));
    assert!(prompt.contains("fn bar(x: u32) -> u32"));
    assert!(prompt.contains("foo::caller"));
    assert!(prompt.contains("foo::callee"));
    assert!(prompt.trim_end().ends_with("Description:"));
}

#[test]
fn plan_skips_described_unless_forced_and_honours_limit() {
    let opts = SynthesisOptions { force: false, limit: Some(3), ..Default::default() };
    let p = plan_synthesis(vec![sym("a", true), sym("b", false), sym("c", false), sym("d", false)], &opts);
    assert_eq!(p.outcome.considered, 3);
    assert_eq!(p.outcome.skipped, 1);
    assert_eq!(p.work.len(), 2);
    assert_eq!(p.work[0].qualified_name, "b");

    let forced = SynthesisOptions { force: true, limit: None, ..Default::default() };
    let p = plan_synthesis(vec![sym("a", true), sym("b", false)], &forced);
    assert_eq!(p.outcome.considered, 2);
    assert_eq!(p.outcome.skipped, 0);
    assert_eq!(p.work.len(), 2);
}

#[test]
fn outcome_accounts_for_every_symbol() {
    let opts = SynthesisOptions::default();
    let mut p = plan_synthesis(vec![sym("a", true), sym("b", false), sym("c", false)], &opts);
    p.outcome.record(true);
    p.outcome.record(false);
    let o = p.outcome;
    assert_eq!(o.synthesized + o.skipped + o.failed, o.considered);
    assert_eq!((o.synthesized, o.skipped, o.failed), (1, 1, 1));
}

#[test]
fn fully_described_symbols_get_no_model_work() {
    let opts = SynthesisOptions::default();
    assert!(lists_only_missing(&opts));
    assert!(!lists_only_missing(&SynthesisOptions { force: true, ..SynthesisOptions::default() }));
    let p = plan_synthesis(vec![sym("a", true), sym("b", true)], &opts);
    assert!(p.work.is_empty());
    assert_eq!(p.outcome.considered, 2);
    assert_eq!(p.outcome.skipped, 2);
    assert_eq!(p.outcome.synthesized, 0);
    assert_eq!(p.outcome.failed, 0);
    let p = plan_synthesis(vec![], &opts);
    assert!(p.work.is_empty());
    assert_eq!(p.outcome.considered, 0);
    assert_eq!(p.outcome.synthesized, 0);
    assert_eq!(p.outcome.failed, 0);
}
