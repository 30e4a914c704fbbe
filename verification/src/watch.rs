//! The file watcher's decisions: which change events matter, and the set of
//! changed paths collected between two ticks, each path at most once.
use vstd::prelude::*;
use crate::pipeline::{excluded_path, excluded_path_spec};
use crate::text::str_eq;

verus! {

/// The kinds of file-system events the watcher receives.
#[derive(Debug, Clone, Copy, PartialEq, Eq, Structural)]
pub enum ChangeKind {
    Any,
    Access,
    Create,
    Modify,
    Remove,
    Other,
}

/// Only creations, modifications and removals trigger re-indexing.
pub open spec fn relevant_kind(k: ChangeKind) -> bool {
    k == ChangeKind::Create || k == ChangeKind::Modify || k == ChangeKind::Remove
}

/// Whether an event of this kind can trigger re-indexing.
pub fn is_relevant(k: ChangeKind) -> (r: bool)
    ensures
        r == relevant_kind(k),
{
    match k {
        ChangeKind::Create | ChangeKind::Modify | ChangeKind::Remove => true,
        _ => false,
    }
}

/// The changed paths collected since the last tick, each once, in the
/// order they were first seen.
pub struct PendingPaths {
    paths: Vec<String>,
}

impl View for PendingPaths {
    type V = Seq<Seq<char>>;

    closed spec fn view(&self) -> Seq<Seq<char>> {
        self.paths@.map_values(|p: String| p@)
    }
}

impl PendingPaths {
    /// No path appears twice, and none lies under an excluded directory.
    pub open spec fn wf(&self) -> bool {
        &&& self@.no_duplicates()
        &&& forall|i: int| 0 <= i < self@.len() ==> !excluded_path_spec(#[trigger] self@[i])
    }

    /// Nothing pending.
    pub fn new() -> (r: PendingPaths)
        ensures
            r@ == Seq::<Seq<char>>::empty(),
            r.wf(),
    {
        let r = PendingPaths { paths: Vec::new() };
        assert(r@ =~= Seq::<Seq<char>>::empty());
        r
    }

    /// The number of pending paths.
    pub fn len(&self) -> (n: usize)
        ensures
            n == self@.len(),
    {
        self.paths.len()
    }

    fn contains(&self, path: &str) -> (r: bool)
        ensures
            r == self@.contains(path@),
    {
        let mut i: usize = 0;
        while i < self.paths.len()
            invariant
                i <= self.paths@.len(),
                forall|j: int| 0 <= j < i ==> self.paths@[j]@ != path@,
            decreases self.paths@.len() - i,
        {
            if str_eq(self.paths[i].as_str(), path) {
                assert(self@[i as int] == path@);
                return true;
            }
            i = i + 1;
        }
        false
    }

    /// Records the paths of one event: nothing for an irrelevant kind;
    /// otherwise each path outside `target/`, `node_modules/` and `.git/`
    /// that is not pending yet, in order.
    pub fn record_event(&mut self, kind: ChangeKind, paths: &Vec<String>)
        requires
            old(self).wf(),
        ensures
            final(self).wf(),
            !relevant_kind(kind) ==> final(self)@ == old(self)@,
            relevant_kind(kind) ==> final(self)@ == added_paths(old(self)@, paths@.map_values(|p: String| p@)),
    {
        if !is_relevant(kind) {
            return;
        }
        let ghost start = self@;
        let mut i: usize = 0;
        while i < paths.len()
            invariant
                i <= paths@.len(),
                self.wf(),
                self@ == added_paths(start, paths@.map_values(|p: String| p@).take(i as int)),
            decreases paths@.len() - i,
        {
            let ghost all = paths@.map_values(|p: String| p@);
            assert(all.take(i + 1).drop_last() =~= all.take(i as int));
            assert(all.take(i + 1).last() == paths@[i as int]@);
            let p = &paths[i];
            if !excluded_path(p.as_str()) && !self.contains(p.as_str()) {
                let ghost before = self@;
                self.paths.push(p.clone());
                assert(self@ =~= before.push(p@));
            }
            i = i + 1;
        }
        assert(paths@.map_values(|p: String| p@).take(i as int) =~= paths@.map_values(|p: String| p@));
    }

    /// Hands out every pending path, in order, and empties the set.
    pub fn drain(&mut self) -> (out: Vec<String>)
        ensures
            out@.map_values(|p: String| p@) == old(self)@,
            final(self)@ == Seq::<Seq<char>>::empty(),
            final(self).wf(),
    {
        let mut out: Vec<String> = Vec::new();
        std::mem::swap(&mut out, &mut self.paths);
        assert(self@ =~= Seq::<Seq<char>>::empty());
        out
    }
}

/// The pending paths after recording `paths`: each one that is not excluded
/// and not pending yet is added at the end.
pub open spec fn added_paths(pending: Seq<Seq<char>>, paths: Seq<Seq<char>>) -> Seq<Seq<char>>
    decreases paths.len(),
{
    if paths.len() == 0 {
        pending
    } else {
        let before = added_paths(pending, paths.drop_last());
        let p = paths.last();
        if excluded_path_spec(p) || before.contains(p) {
            before
        } else {
            before.push(p)
        }
    }
}

} // verus!
