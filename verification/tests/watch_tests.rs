use mycel::watch::{is_relevant, ChangeKind, PendingPaths};

#[test]
fn only_changes_trigger_reindexing() {
    assert!(is_relevant(ChangeKind::Create));
    assert!(is_relevant(ChangeKind::Modify));
    assert!(is_relevant(ChangeKind::Remove));
    assert!(!is_relevant(ChangeKind::Access));
    assert!(!is_relevant(ChangeKind::Any));
    assert!(!is_relevant(ChangeKind::Other));
}

#[test]
fn each_path_pending_once_per_tick() {
    let mut p = PendingPaths::new();
    p.record_event(
        ChangeKind::Modify,
        &vec!["/r/src/a.rs".into(), "/r/src/a.rs".into(), "/r/target/x.rs".into(), "/r/src/b.ts".into()],
    );
    p.record_event(ChangeKind::Access, &vec!["/r/src/c.rs".into()]);
    p.record_event(ChangeKind::Create, &vec!["/r/src/a.rs".into(), "/r/.git/HEAD".into()]);
    assert_eq!(p.len(), 2);
    let out = p.drain();
    assert_eq!(out, vec!["/r/src/a.rs".to_string(), "/r/src/b.ts".to_string()]);
    assert_eq!(p.len(), 0);
}
