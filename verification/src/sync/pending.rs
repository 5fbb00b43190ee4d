//! Changes collected over one debounce window of the watch phase.
use vstd::prelude::*;
use crate::manifest::validate::strings_view;
use crate::keyed::{entries_map, find_key, insert_entry, keys_unique, lemma_absent, lemma_value_at};

verus! {

/// What a file-system event says about the paths it names.
#[derive(Debug, Clone, Copy, PartialEq, Eq, Structural)]
pub enum ChangeKind {
    /// A pure read: opening, reading, or closing after a read.
    ReadAccess,
    /// Closing a file that was opened for writing.
    WriteClose,
    /// Any other event: create, modify, rename, remove.
    Change,
}

/// A change calls for a re-sync unless it is a pure read.
pub open spec fn actionable(kind: ChangeKind) -> bool {
    !(kind is ReadAccess)
}

/// Whether an event signals a change that should trigger a re-sync: pure
/// reads do not, a write-close does.
pub fn is_actionable(kind: &ChangeKind) -> (r: bool)
    ensures
        r == actionable(*kind),
{
    match kind {
        ChangeKind::ReadAccess => false,
        ChangeKind::WriteClose => true,
        ChangeKind::Change => true,
    }
}

/// The pending paths after an event on `paths`: each of them becomes
/// actionable if it was already or if the event is; no path is forgotten.
pub open spec fn merged(m: Map<Seq<char>, bool>, paths: Seq<Seq<char>>, a: bool) -> Map<Seq<char>, bool> {
    Map::new(
        |p: Seq<char>| m.dom().contains(p) || paths.contains(p),
        |p: Seq<char>| (m.dom().contains(p) && m[p]) || (paths.contains(p) && a),
    )
}

/// The paths touched since the last sync, each marked with whether any of
/// its events was actionable.
pub struct PendingChanges {
    entries: Vec<(String, bool)>,
}

impl View for PendingChanges {
    type V = Map<Seq<char>, bool>;

    closed spec fn view(&self) -> Map<Seq<char>, bool> {
        entries_map(self.entries@)
    }
}

proof fn lemma_merged_push(m: Map<Seq<char>, bool>, ps: Seq<Seq<char>>, x: Seq<char>, a: bool)
    ensures
        merged(m, ps.push(x), a) == merged(m, ps, a).insert(
            x,
            (merged(m, ps, a).dom().contains(x) && merged(m, ps, a)[x]) || a,
        ),
{
    let n = merged(m, ps, a);
    let l = merged(m, ps.push(x), a);
    let goal = n.insert(x, (n.dom().contains(x) && n[x]) || a);
    assert forall|p: Seq<char>| #[trigger] ps.push(x).contains(p) <==> (ps.contains(p) || p == x) by {
        if ps.contains(p) {
            let i = choose|i: int| 0 <= i < ps.len() && ps[i] == p;
            assert(ps.push(x)[i] == p);
        }
        if p == x {
            assert(ps.push(x)[ps.len() as int] == p);
        }
        if ps.push(x).contains(p) {
            let i = choose|i: int| 0 <= i < ps.push(x).len() && ps.push(x)[i] == p;
            if i < ps.len() {
                assert(ps[i] == p);
            }
        }
    }
    assert(l =~= goal);
}

impl PendingChanges {
    #[verifier::type_invariant]
    spec fn inv(self) -> bool {
        keys_unique(self.entries@)
    }

    /// No pending paths.
    pub fn new() -> (r: PendingChanges)
        ensures
            r@ == Map::<Seq<char>, bool>::empty(),
    {
        let r = PendingChanges { entries: Vec::new() };
        assert(r@ =~= Map::<Seq<char>, bool>::empty());
        r
    }

    /// Folds an event into the pending paths: each path it names is kept,
    /// and marked actionable if the event is. A later read never clears an
    /// earlier change.
    pub fn merge_event(&mut self, kind: &ChangeKind, paths: &[String])
        ensures
            final(self)@ == merged(old(self)@, strings_view(paths@), actionable(*kind)),
    {
        proof {
            use_type_invariant(&*self);
        }
        let a = is_actionable(kind);
        let mut entries: Vec<(String, bool)> = Vec::new();
        std::mem::swap(&mut entries, &mut self.entries);
        let ghost m0 = entries_map(entries@);
        let ghost ps = strings_view(paths@);
        proof {
            assert(merged(m0, ps.take(0), a) =~= m0);
        }
        let mut j: usize = 0;
        while j < paths.len()
            invariant
                j <= paths.len(),
                ps == strings_view(paths@),
                keys_unique(entries@),
                entries_map(entries@) == merged(m0, ps.take(j as int), a),
            decreases paths.len() - j,
        {
            let ghost s = entries@;
            let ghost n = entries_map(s);
            let ghost x = paths@[j as int]@;
            let v = match find_key(&entries, paths[j].as_str()) {
                Some(k) => {
                    proof {
                        lemma_value_at(s, k as int);
                    }
                    entries[k].1 || a
                }
                None => {
                    proof {
                        lemma_absent(s, x);
                    }
                    a
                }
            };
            insert_entry(&mut entries, paths[j].clone(), v);
            proof {
                assert(ps.take(j + 1) == ps.take(j as int).push(x));
                lemma_merged_push(m0, ps.take(j as int), x, a);
            }
            j += 1;
        }
        proof {
            assert(ps.take(j as int) == ps);
        }
        self.entries = entries;
    }

    /// Whether `path` is pending, and if so whether it is actionable.
    pub fn get(&self, path: &str) -> (r: Option<bool>)
        ensures
            r == (if self@.dom().contains(path@) { Some(self@[path@]) } else { None::<bool> }),
    {
        proof {
            use_type_invariant(&*self);
        }
        match find_key(&self.entries, path) {
            Some(k) => {
                proof {
                    lemma_value_at(self.entries@, k as int);
                }
                Some(self.entries[k].1)
            }
            None => {
                proof {
                    lemma_absent(self.entries@, path@);
                }
                None
            }
        }
    }

    /// The pending paths that call for a re-sync.
    pub fn actionable_paths(&self) -> (r: Vec<String>)
        ensures
            forall|p: Seq<char>| strings_view(r@).contains(p) <==> (self@.dom().contains(p) && self@[p]),
    {
        proof {
            use_type_invariant(&*self);
        }
        let ghost s = self.entries@;
        let mut out: Vec<String> = Vec::new();
        let mut k: usize = 0;
        while k < self.entries.len()
            invariant
                k <= self.entries.len(),
                s == self.entries@,
                keys_unique(s),
                forall|p: Seq<char>| strings_view(out@).contains(p) <==>
                    (exists|x: int| 0 <= x < k && #[trigger] s[x].0@ == p && s[x].1),
            decreases self.entries.len() - k,
        {
            if self.entries[k].1 {
                let name = self.entries[k].0.clone();
                let ghost before = out@;
                out.push(name);
                proof {
                    assert(strings_view(out@) == strings_view(before).push(name@));
                    assert forall|p: Seq<char>| strings_view(out@).contains(p) <==>
                        (exists|x: int| 0 <= x < k + 1 && #[trigger] s[x].0@ == p && s[x].1) by {
                        if strings_view(out@).contains(p) {
                            let i = choose|i: int| 0 <= i < strings_view(out@).len() && strings_view(out@)[i] == p;
                            if i < before.len() {
                                assert(strings_view(before)[i] == p);
                                assert(strings_view(before).contains(p));
                            } else {
                                assert(s[k as int].0@ == p);
                            }
                        }
                        if exists|x: int| 0 <= x < k + 1 && #[trigger] s[x].0@ == p && s[x].1 {
                            let x = choose|x: int| 0 <= x < k + 1 && #[trigger] s[x].0@ == p && s[x].1;
                            if x < k {
                                assert(strings_view(before).contains(p));
                                let i = choose|i: int| 0 <= i < strings_view(before).len() && strings_view(before)[i] == p;
                                assert(strings_view(out@)[i] == p);
                            } else {
                                assert(strings_view(out@)[before.len() as int] == p);
                            }
                        }
                    }
                }
            } else {
                proof {
                    assert forall|p: Seq<char>| strings_view(out@).contains(p) <==>
                        (exists|x: int| 0 <= x < k + 1 && #[trigger] s[x].0@ == p && s[x].1) by {
                        if exists|x: int| 0 <= x < k + 1 && #[trigger] s[x].0@ == p && s[x].1 {
                            let x = choose|x: int| 0 <= x < k + 1 && #[trigger] s[x].0@ == p && s[x].1;
                            assert(x != k);
                            assert(exists|y: int| 0 <= y < k && #[trigger] s[y].0@ == p && s[y].1);
                        }
                    }
                }
            }
            k += 1;
        }
        proof {
            assert forall|p: Seq<char>| strings_view(out@).contains(p) <==> (self@.dom().contains(p) && self@[p]) by {
                if exists|x: int| 0 <= x < s.len() && #[trigger] s[x].0@ == p && s[x].1 {
                    let x = choose|x: int| 0 <= x < s.len() && #[trigger] s[x].0@ == p && s[x].1;
                    lemma_value_at(s, x);
                }
                if self@.dom().contains(p) && self@[p] {
                    let i = choose|i: int| 0 <= i < s.len() && s[i].0@ == p;
                    assert(s[i].1);
                }
            }
        }
        out
    }
}

/// Once a path is marked actionable, no later event in the same window
/// clears it: merging any event keeps it pending and actionable.
pub proof fn law_actionable_is_sticky(m: Map<Seq<char>, bool>, paths: Seq<Seq<char>>, kind: ChangeKind, p: Seq<char>)
    requires
        m.dom().contains(p),
        m[p],
    ensures
        merged(m, paths, actionable(kind)).dom().contains(p),
        merged(m, paths, actionable(kind))[p],
{
}

/// Pure reads never make a path actionable: after merging a read, a path is
/// actionable exactly when it was before.
pub proof fn law_reads_change_nothing_actionable(m: Map<Seq<char>, bool>, paths: Seq<Seq<char>>, p: Seq<char>)
    ensures
        (merged(m, paths, actionable(ChangeKind::ReadAccess)).dom().contains(p)
            && merged(m, paths, actionable(ChangeKind::ReadAccess))[p]) <==> (m.dom().contains(p) && m[p]),
{
}

/// Every path an event names is pending after it is merged.
pub proof fn law_merged_paths_are_pending(m: Map<Seq<char>, bool>, paths: Seq<Seq<char>>, a: bool, i: int)
    requires
        0 <= i < paths.len(),
    ensures
        merged(m, paths, a).dom().contains(paths[i]),
{
    assert(paths.contains(paths[i]));
}

} // verus!
