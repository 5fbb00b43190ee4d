//! Vectors of `(name, value)` pairs used as small maps keyed by name: each
//! name occurs at most once, and the vector stands for the map from each
//! name to its value.
use vstd::prelude::*;
use crate::text::str_eq;

verus! {

/// No two entries carry the same name.
pub open spec fn keys_unique<V>(s: Seq<(String, V)>) -> bool {
    forall|i: int, j: int|
        #![trigger s[i], s[j]]
        0 <= i < s.len() && 0 <= j < s.len() && s[i].0@ == s[j].0@ ==> i == j
}

/// The map from each name to the view of its value.
pub open spec fn entries_map<V: View>(s: Seq<(String, V)>) -> Map<Seq<char>, V::V> {
    Map::new(
        |p: Seq<char>| exists|i: int| 0 <= i < s.len() && s[i].0@ == p,
        |p: Seq<char>| s[choose|i: int| 0 <= i < s.len() && s[i].0@ == p].1@,
    )
}

/// The entry at `k` is what the map gives for its name.
pub proof fn lemma_value_at<V: View>(s: Seq<(String, V)>, k: int)
    requires
        keys_unique(s),
        0 <= k < s.len(),
    ensures
        entries_map(s).dom().contains(s[k].0@),
        entries_map(s)[s[k].0@] == s[k].1@,
{
    let p = s[k].0@;
    assert(exists|i: int| 0 <= i < s.len() && s[i].0@ == p) by {
        assert(s[k].0@ == p);
    }
    let i = choose|i: int| 0 <= i < s.len() && s[i].0@ == p;
    assert(s[i].0@ == s[k].0@);
}

/// A name that no entry carries is not in the map.
pub proof fn lemma_absent<V: View>(s: Seq<(String, V)>, p: Seq<char>)
    requires
        forall|j: int| 0 <= j < s.len() ==> #[trigger] s[j].0@ != p,
    ensures
        !entries_map(s).dom().contains(p),
{
    if entries_map(s).dom().contains(p) {
        let i = choose|i: int| 0 <= i < s.len() && s[i].0@ == p;
        assert(s[i].0@ != p);
    }
}

/// Replacing the value of entry `k` (its name kept) updates the map at that
/// name only.
pub proof fn lemma_set_value<V: View>(s: Seq<(String, V)>, s2: Seq<(String, V)>, k: int)
    requires
        keys_unique(s),
        0 <= k < s.len(),
        s2.len() == s.len(),
        s2[k].0@ == s[k].0@,
        forall|j: int| 0 <= j < s.len() && j != k ==> s2[j] == s[j],
    ensures
        keys_unique(s2),
        entries_map(s2) == entries_map(s).insert(s[k].0@, s2[k].1@),
{
    assert forall|x: int| 0 <= x < s.len() implies #[trigger] s2[x].0@ == s[x].0@ by {
        if x != k {
            assert(s2[x] == s[x]);
        }
    }
    assert forall|i: int, j: int| 0 <= i < s2.len() && 0 <= j < s2.len() && #[trigger] s2[i].0@ == #[trigger] s2[j].0@ implies i == j by {
        assert(s2[i].0@ == s[i].0@);
        assert(s2[j].0@ == s[j].0@);
        assert(s[i].0@ == s[j].0@);
    }
    let m = entries_map(s);
    let m2 = entries_map(s2);
    let key = s[k].0@;
    let goal = m.insert(key, s2[k].1@);
    assert forall|p: Seq<char>| m2.dom().contains(p) <==> goal.dom().contains(p) by {
        if m2.dom().contains(p) {
            let i = choose|i: int| 0 <= i < s2.len() && s2[i].0@ == p;
            assert(s[i].0@ == p);
        }
        if m.dom().contains(p) {
            let i = choose|i: int| 0 <= i < s.len() && s[i].0@ == p;
            assert(s2[i].0@ == p);
        }
        if p == key {
            assert(s2[k].0@ == p);
        }
    }
    assert forall|p: Seq<char>| m2.dom().contains(p) implies m2[p] == goal[p] by {
        let i2 = choose|i: int| 0 <= i < s2.len() && s2[i].0@ == p;
        if p == key {
            assert(s2[k].0@ == p);
            assert(s2[i2].0@ == s2[k].0@);
            assert(i2 == k);
        } else {
            assert(s[i2].0@ == p);
            let i1 = choose|i: int| 0 <= i < s.len() && s[i].0@ == p;
            assert(s[i1].0@ == s[i2].0@);
            assert(i1 == i2);
            assert(i2 != k);
            assert(s2[i2] == s[i2]);
        }
    }
    assert(m2 =~= goal);
}

/// Appending an entry with a new name adds that name to the map.
pub proof fn lemma_push<V: View>(s: Seq<(String, V)>, s2: Seq<(String, V)>)
    requires
        keys_unique(s),
        s2.len() == s.len() + 1,
        forall|j: int| 0 <= j < s.len() ==> s2[j] == s[j],
        !entries_map(s).dom().contains(s2[s.len() as int].0@),
    ensures
        keys_unique(s2),
        entries_map(s2) == entries_map(s).insert(s2[s.len() as int].0@, s2[s.len() as int].1@),
{
    let n = s.len() as int;
    let key = s2[n].0@;
    assert forall|j: int| 0 <= j < n implies #[trigger] s[j].0@ != key by {
        if s[j].0@ == key {
            assert(entries_map(s).dom().contains(key));
        }
    }
    assert forall|i: int, j: int| 0 <= i < s2.len() && 0 <= j < s2.len() && #[trigger] s2[i].0@ == #[trigger] s2[j].0@ implies i == j by {
        if i < n && j < n {
            assert(s2[i] == s[i]);
            assert(s2[j] == s[j]);
        } else if i < n {
            assert(s2[i] == s[i]);
            assert(s[i].0@ != key);
        } else if j < n {
            assert(s2[j] == s[j]);
            assert(s[j].0@ != key);
        }
    }
    let m = entries_map(s);
    let m2 = entries_map(s2);
    let goal = m.insert(key, s2[n].1@);
    assert forall|p: Seq<char>| m2.dom().contains(p) <==> goal.dom().contains(p) by {
        if m2.dom().contains(p) {
            let i = choose|i: int| 0 <= i < s2.len() && s2[i].0@ == p;
            if i < n {
                assert(s2[i] == s[i]);
                assert(s[i].0@ == p);
            }
        }
        if m.dom().contains(p) {
            let i = choose|i: int| 0 <= i < s.len() && s[i].0@ == p;
            assert(s2[i] == s[i]);
            assert(s2[i].0@ == p);
        }
        if p == key {
            assert(s2[n].0@ == p);
        }
    }
    assert forall|p: Seq<char>| m2.dom().contains(p) implies m2[p] == goal[p] by {
        let i2 = choose|i: int| 0 <= i < s2.len() && s2[i].0@ == p;
        if p == key {
            assert(s2[n].0@ == p);
            assert(s2[i2].0@ == s2[n].0@);
            assert(i2 == n);
        } else {
            assert(i2 != n);
            assert(s2[i2] == s[i2]);
            assert(s[i2].0@ == p);
            let i1 = choose|i: int| 0 <= i < s.len() && s[i].0@ == p;
            assert(s[i1].0@ == s[i2].0@);
            assert(i1 == i2);
        }
    }
    assert(m2 =~= goal);
}

/// The index of the entry named `p`, if any.
pub fn find_key<V>(entries: &Vec<(String, V)>, p: &str) -> (r: Option<usize>)
    ensures
        match r {
            Some(k) => k < entries@.len() && entries@[k as int].0@ == p@,
            None => forall|j: int| 0 <= j < entries@.len() ==> #[trigger] entries@[j].0@ != p@,
        },
{
    let mut k: usize = 0;
    while k < entries.len()
        invariant
            k <= entries.len(),
            forall|j: int| 0 <= j < k ==> #[trigger] entries@[j].0@ != p@,
        decreases entries.len() - k,
    {
        if str_eq(entries[k].0.as_str(), p) {
            return Some(k);
        }
        k += 1;
    }
    None
}

/// Sets the value for `name`: replaces the value of the entry that carries
/// it, or appends a new entry.
pub fn insert_entry<V: View>(entries: &mut Vec<(String, V)>, name: String, value: V)
    requires
        keys_unique(old(entries)@),
    ensures
        keys_unique(final(entries)@),
        entries_map(final(entries)@) == entries_map(old(entries)@).insert(name@, value@),
{
    let ghost s = entries@;
    let ghost key = name@;
    let ghost val = value@;
    match find_key(entries, name.as_str()) {
        Some(k) => {
            entries.set(k, (name, value));
            proof {
                lemma_set_value(s, entries@, k as int);
            }
        }
        None => {
            proof {
                lemma_absent(s, key);
            }
            entries.push((name, value));
            proof {
                lemma_push(s, entries@);
            }
        }
    }
}

} // verus!
