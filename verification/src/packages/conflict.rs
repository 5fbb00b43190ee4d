//! Path conflicts between a package about to be installed and those already
//! on the SD card.
use vstd::prelude::*;
use crate::text::{
    append, chars_of, join, join_exec, split_char, split_char_exec, string_of, trim_end_matches,
    trim_end_matches_exec, vec_eq, debug_quote, debug_quoted,
};
use super::PackageError;
use super::path::{segments, PackagePath};
use super::state::{InstalledPackage, State};

verus! {

/// An installed path and the source of the package that owns it.
pub type Entry = (Seq<char>, Seq<char>);

/// Two segment lists agree on their common prefix: one path lies inside the
/// other, or they are the same.
pub open spec fn seg_prefix_match(a: Seq<Seq<char>>, b: Seq<Seq<char>>) -> bool {
    forall|i: int| 0 <= i < a.len() && 0 <= i < b.len() ==> a[i] == b[i]
}

/// Two paths overlap at segment boundaries.
pub open spec fn paths_overlap(a: Seq<char>, b: Seq<char>) -> bool {
    seg_prefix_match(segments(a), segments(b))
}

/// The table holds an entry for path `k`.
pub open spec fn has_key(es: Seq<Entry>, k: Seq<char>) -> bool {
    exists|i: int| 0 <= i < es.len() && es[i].0 == k
}

/// Records that `k` is owned by `v`: an existing entry for `k` takes the new
/// owner in place, otherwise the entry goes at the end.
pub open spec fn insert_entry(es: Seq<Entry>, k: Seq<char>, v: Seq<char>) -> Seq<Entry> {
    if has_key(es, k) {
        es.update(choose|i: int| 0 <= i < es.len() && es[i].0 == k, (k, v))
    } else {
        es.push((k, v))
    }
}

/// Records every path of `paths` as owned by `owner`, in order.
pub open spec fn insert_paths(es: Seq<Entry>, paths: Seq<Seq<char>>, owner: Seq<char>) -> Seq<Entry>
    decreases paths.len(),
{
    if paths.len() == 0 {
        es
    } else {
        insert_entry(insert_paths(es, paths.drop_last(), owner), paths.last(), owner)
    }
}

/// The paths of a package, as plain strings.
pub open spec fn package_paths(p: InstalledPackage) -> Seq<Seq<char>> {
    p.paths@.map_values(|x: PackagePath| x@)
}

/// The table of installed paths of every package but those from `skip`.
pub open spec fn installed_table(pkgs: Seq<InstalledPackage>, skip: Seq<char>) -> Seq<Entry>
    decreases pkgs.len(),
{
    if pkgs.len() == 0 {
        Seq::empty()
    } else {
        let rest = installed_table(pkgs.drop_last(), skip);
        if pkgs.last().id@ == skip {
            rest
        } else {
            insert_paths(rest, package_paths(pkgs.last()), pkgs.last().id@)
        }
    }
}

/// A path as it appears in a message: quoted and escaped, or as is.
pub open spec fn render(s: Seq<char>, quoted: bool) -> Seq<char> {
    if quoted { debug_quoted(s) } else { s }
}

/// `"<new> conflicts with <installed> (owned by <owner>)"`.
pub open spec fn conflict_line(np: Seq<char>, e: Entry, quoted: bool) -> Seq<char> {
    render(np, quoted) + " conflicts with "@ + render(e.0, quoted) + " (owned by "@ + e.1 + ")"@
}

/// The messages for one new path, in table order.
pub open spec fn lines_for(np: Seq<char>, es: Seq<Entry>, quoted: bool) -> Seq<Seq<char>>
    decreases es.len(),
{
    if es.len() == 0 {
        Seq::empty()
    } else {
        let rest = lines_for(np, es.drop_last(), quoted);
        if paths_overlap(np, es.last().0) {
            rest.push(conflict_line(np, es.last(), quoted))
        } else {
            rest
        }
    }
}

/// The messages for all new paths, in the order of the new paths.
pub open spec fn conflict_lines(nps: Seq<Seq<char>>, es: Seq<Entry>, quoted: bool) -> Seq<Seq<char>>
    decreases nps.len(),
{
    if nps.len() == 0 {
        Seq::empty()
    } else {
        conflict_lines(nps.drop_last(), es, quoted) + lines_for(nps.last(), es, quoted)
    }
}

/// Some new path overlaps a path of a package not from `skip`.
pub open spec fn any_overlap(pkgs: Seq<InstalledPackage>, nps: Seq<Seq<char>>, skip: Seq<char>) -> bool {
    exists|n: int, i: int, j: int|
        0 <= n < nps.len() && 0 <= i < pkgs.len() && pkgs[i].id@ != skip
        && 0 <= j < package_paths(pkgs[i]).len()
        && #[trigger] paths_overlap(nps[n], package_paths(pkgs[i])[j])
}

/// What a conflict check answers: `Ok` when no line was produced, else the
/// lines joined into one `Conflicts` error.
pub open spec fn conflict_result(lines: Seq<Seq<char>>, r: Result<(), PackageError>) -> bool {
    if lines.len() == 0 {
        r is Ok
    } else {
        r matches Err(PackageError::Conflicts(m)) && m@ == join(lines, "\n  "@)
    }
}

// ---------------------------------------------------------------------------
// Lemmas
// ---------------------------------------------------------------------------

proof fn lemma_insert_entry_keys(es: Seq<Entry>, k: Seq<char>, v: Seq<char>)
    ensures
        forall|x: Seq<char>| has_key(insert_entry(es, k, v), x) <==> (has_key(es, x) || x == k),
{
    let r = insert_entry(es, k, v);
    if has_key(es, k) {
        let c = choose|i: int| 0 <= i < es.len() && es[i].0 == k;
        assert forall|x: Seq<char>| has_key(r, x) <==> (has_key(es, x) || x == k) by {
            if has_key(r, x) {
                let i = choose|i: int| 0 <= i < r.len() && r[i].0 == x;
                if i != c {
                    assert(es[i].0 == x);
                }
            }
            if has_key(es, x) {
                let i = choose|i: int| 0 <= i < es.len() && es[i].0 == x;
                if i != c {
                    assert(r[i].0 == x);
                } else {
                    assert(r[c].0 == x);
                }
            }
            if x == k {
                assert(r[c].0 == x);
            }
        }
    } else {
        assert forall|x: Seq<char>| has_key(r, x) <==> (has_key(es, x) || x == k) by {
            if has_key(r, x) {
                let i = choose|i: int| 0 <= i < r.len() && r[i].0 == x;
                if i < es.len() {
                    assert(es[i].0 == x);
                }
            }
            if has_key(es, x) {
                let i = choose|i: int| 0 <= i < es.len() && es[i].0 == x;
                assert(r[i].0 == x);
            }
            if x == k {
                assert(r[es.len() as int].0 == x);
            }
        }
    }
}

proof fn lemma_insert_paths_keys(es: Seq<Entry>, paths: Seq<Seq<char>>, owner: Seq<char>)
    ensures
        forall|x: Seq<char>| has_key(insert_paths(es, paths, owner), x) <==> (has_key(es, x) || paths.contains(x)),
    decreases paths.len(),
{
    if paths.len() > 0 {
        let d = paths.drop_last();
        lemma_insert_paths_keys(es, d, owner);
        lemma_insert_entry_keys(insert_paths(es, d, owner), paths.last(), owner);
        assert forall|x: Seq<char>| paths.contains(x) <==> (d.contains(x) || x == paths.last()) by {
            if paths.contains(x) {
                let i = choose|i: int| 0 <= i < paths.len() && paths[i] == x;
                if i < d.len() {
                    assert(d[i] == x);
                }
            }
            if d.contains(x) {
                let i = choose|i: int| 0 <= i < d.len() && d[i] == x;
                assert(paths[i] == x);
            }
            if x == paths.last() {
                assert(paths[paths.len() - 1] == x);
            }
        }
    }
}

/// Package `i` of the list is not from `skip` and has path `x` at `j`.
pub open spec fn owned_at(pkgs: Seq<InstalledPackage>, skip: Seq<char>, x: Seq<char>, i: int, j: int) -> bool {
    0 <= i < pkgs.len() && pkgs[i].id@ != skip && 0 <= j < package_paths(pkgs[i]).len()
        && package_paths(pkgs[i])[j] == x
}

/// Some package not from `skip` has path `x`.
pub open spec fn owns_path(pkgs: Seq<InstalledPackage>, skip: Seq<char>, x: Seq<char>) -> bool {
    exists|i: int, j: int| #[trigger] owned_at(pkgs, skip, x, i, j)
}

/// The installed table has an entry for exactly the paths of the packages
/// not from `skip`.
proof fn lemma_installed_keys(pkgs: Seq<InstalledPackage>, skip: Seq<char>, x: Seq<char>)
    ensures
        has_key(installed_table(pkgs, skip), x) <==> owns_path(pkgs, skip, x),
    decreases pkgs.len(),
{
    if pkgs.len() > 0 {
        let d = pkgs.drop_last();
        let last = pkgs.last();
        let n = pkgs.len() - 1;
        assert(pkgs[n] == last);
        lemma_installed_keys(d, skip, x);
        let rest = installed_table(d, skip);
        if owns_path(d, skip, x) {
            let (i, j) = choose|i: int, j: int| #[trigger] owned_at(d, skip, x, i, j);
            assert(d[i] == pkgs[i]);
            assert(owned_at(pkgs, skip, x, i, j));
        }
        if owns_path(pkgs, skip, x) {
            let (i, j) = choose|i: int, j: int| #[trigger] owned_at(pkgs, skip, x, i, j);
            if i < n {
                assert(d[i] == pkgs[i]);
                assert(owned_at(d, skip, x, i, j));
            } else {
                assert(package_paths(last)[j] == x);
                assert(package_paths(last).contains(x));
            }
        }
        if last.id@ == skip {
            assert(installed_table(pkgs, skip) == rest);
            if owns_path(pkgs, skip, x) {
                let (i, j) = choose|i: int, j: int| #[trigger] owned_at(pkgs, skip, x, i, j);
                assert(i < n);
            }
        } else {
            lemma_insert_paths_keys(rest, package_paths(last), last.id@);
            assert(installed_table(pkgs, skip) == insert_paths(rest, package_paths(last), last.id@));
            if package_paths(last).contains(x) {
                let j = choose|j: int| 0 <= j < package_paths(last).len() && package_paths(last)[j] == x;
                assert(owned_at(pkgs, skip, x, n, j));
            }
        }
    }
}

proof fn lemma_lines_for_nonempty(np: Seq<char>, es: Seq<Entry>, quoted: bool)
    ensures
        lines_for(np, es, quoted).len() > 0 <==> exists|i: int| 0 <= i < es.len() && #[trigger] paths_overlap(np, es[i].0),
    decreases es.len(),
{
    if es.len() > 0 {
        let d = es.drop_last();
        lemma_lines_for_nonempty(np, d, quoted);
        if exists|i: int| 0 <= i < es.len() && #[trigger] paths_overlap(np, es[i].0) {
            let i = choose|i: int| 0 <= i < es.len() && #[trigger] paths_overlap(np, es[i].0);
            if i < d.len() {
                assert(paths_overlap(np, d[i].0));
            }
        }
        if exists|i: int| 0 <= i < d.len() && #[trigger] paths_overlap(np, d[i].0) {
            let i = choose|i: int| 0 <= i < d.len() && #[trigger] paths_overlap(np, d[i].0);
            assert(paths_overlap(np, es[i].0));
        }
        if paths_overlap(np, es.last().0) {
            assert(paths_overlap(np, es[es.len() - 1].0));
        }
    }
}

proof fn lemma_conflict_lines_nonempty(nps: Seq<Seq<char>>, es: Seq<Entry>, quoted: bool)
    ensures
        conflict_lines(nps, es, quoted).len() > 0 <==> exists|n: int|
            0 <= n < nps.len() && #[trigger] lines_for(nps[n], es, quoted).len() > 0,
    decreases nps.len(),
{
    if nps.len() > 0 {
        let d = nps.drop_last();
        lemma_conflict_lines_nonempty(d, es, quoted);
        if exists|n: int| 0 <= n < nps.len() && #[trigger] lines_for(nps[n], es, quoted).len() > 0 {
            let n = choose|n: int| 0 <= n < nps.len() && #[trigger] lines_for(nps[n], es, quoted).len() > 0;
            if n < d.len() {
                assert(lines_for(d[n], es, quoted).len() > 0);
            }
        }
        if exists|n: int| 0 <= n < d.len() && #[trigger] lines_for(d[n], es, quoted).len() > 0 {
            let n = choose|n: int| 0 <= n < d.len() && #[trigger] lines_for(d[n], es, quoted).len() > 0;
            assert(lines_for(nps[n], es, quoted).len() > 0);
        }
        if lines_for(nps.last(), es, quoted).len() > 0 {
            assert(lines_for(nps[nps.len() - 1], es, quoted).len() > 0);
        }
    }
}

/// A conflict check finds at least one conflict exactly when a new path and
/// an installed path of another package overlap at segment boundaries.
pub proof fn law_conflict_iff_overlap(pkgs: Seq<InstalledPackage>, nps: Seq<Seq<char>>, skip: Seq<char>, quoted: bool)
    ensures
        conflict_lines(nps, installed_table(pkgs, skip), quoted).len() > 0 <==> any_overlap(pkgs, nps, skip),
{
    let es = installed_table(pkgs, skip);
    lemma_conflict_lines_nonempty(nps, es, quoted);
    if conflict_lines(nps, es, quoted).len() > 0 {
        let n = choose|n: int| 0 <= n < nps.len() && #[trigger] lines_for(nps[n], es, quoted).len() > 0;
        lemma_lines_for_nonempty(nps[n], es, quoted);
        let k = choose|k: int| 0 <= k < es.len() && #[trigger] paths_overlap(nps[n], es[k].0);
        lemma_installed_keys(pkgs, skip, es[k].0);
        assert(has_key(es, es[k].0));
        let (i, j) = choose|i: int, j: int| #[trigger] owned_at(pkgs, skip, es[k].0, i, j);
        assert(paths_overlap(nps[n], package_paths(pkgs[i])[j]));
    }
    if any_overlap(pkgs, nps, skip) {
        let (n, i, j) = choose|n: int, i: int, j: int|
            0 <= n < nps.len() && 0 <= i < pkgs.len() && pkgs[i].id@ != skip
            && 0 <= j < package_paths(pkgs[i]).len()
            && #[trigger] paths_overlap(nps[n], package_paths(pkgs[i])[j]);
        let x = package_paths(pkgs[i])[j];
        assert(owned_at(pkgs, skip, x, i, j));
        lemma_installed_keys(pkgs, skip, x);
        let k = choose|k: int| 0 <= k < es.len() && es[k].0 == x;
        assert(paths_overlap(nps[n], es[k].0));
        lemma_lines_for_nonempty(nps[n], es, quoted);
        assert(lines_for(nps[n], es, quoted).len() > 0);
    }
}

// ---------------------------------------------------------------------------
// Executable check
// ---------------------------------------------------------------------------

/// The view of an executable table.
pub open spec fn table_view(t: Seq<(Vec<char>, Vec<char>)>) -> Seq<Entry> {
    t.map_values(|e: (Vec<char>, Vec<char>)| (e.0@, e.1@))
}

/// No two entries of the table share a path.
pub open spec fn keys_unique(es: Seq<Entry>) -> bool {
    forall|i: int, j: int| 0 <= i < es.len() && 0 <= j < es.len() && i != j ==> es[i].0 != es[j].0
}

/// The view of a list of character vectors.
pub open spec fn lines_view(v: Seq<Vec<char>>) -> Seq<Seq<char>> {
    v.map_values(|x: Vec<char>| x@)
}

fn insert_entry_exec(t: &mut Vec<(Vec<char>, Vec<char>)>, k: Vec<char>, v: Vec<char>)
    requires
        keys_unique(table_view(old(t)@)),
    ensures
        table_view(final(t)@) == insert_entry(table_view(old(t)@), k@, v@),
        keys_unique(table_view(final(t)@)),
{
    let ghost es = table_view(t@);
    let mut i: usize = 0;
    while i < t.len()
        invariant
            i <= t.len(),
            es == table_view(t@),
            es == table_view(old(t)@),
            keys_unique(es),
            forall|j: int| 0 <= j < i ==> es[j].0 != k@,
        decreases t.len() - i,
    {
        if vec_eq(&t[i].0, &k) {
            proof {
                assert(es[i as int].0 == k@);
                assert(has_key(es, k@));
                let c = choose|c: int| 0 <= c < es.len() && es[c].0 == k@;
                assert(c == i);
            }
            let ghost kv = (k@, v@);
            t.set(i, (k, v));
            proof {
                assert(table_view(t@) == es.update(i as int, kv));
                assert(insert_entry(es, kv.0, kv.1) == es.update(i as int, kv));
            }
            return;
        }
        i += 1;
    }
    proof {
        assert(!has_key(es, k@));
    }
    t.push((k, v));
    proof {
        assert(table_view(t@) == es.push((k@, v@)));
    }
}

/// The table of installed paths, built in package order.
fn build_table(pkgs: &Vec<InstalledPackage>, skip: &str) -> (t: Vec<(Vec<char>, Vec<char>)>)
    ensures
        table_view(t@) == installed_table(pkgs@, skip@),
        keys_unique(table_view(t@)),
{
    let mut t: Vec<(Vec<char>, Vec<char>)> = Vec::new();
    let mut i: usize = 0;
    proof {
        assert(table_view(t@) == installed_table(pkgs@.take(0), skip@));
    }
    while i < pkgs.len()
        invariant
            i <= pkgs.len(),
            table_view(t@) == installed_table(pkgs@.take(i as int), skip@),
            keys_unique(table_view(t@)),
        decreases pkgs.len() - i,
    {
        let p = &pkgs[i];
        proof {
            assert(pkgs@.take(i + 1).drop_last() == pkgs@.take(i as int));
            assert(pkgs@.take(i + 1).last() == *p);
        }
        if !crate::text::str_eq(p.id.as_str(), skip) {
            let ghost base = table_view(t@);
            let ghost pp = package_paths(*p);
            let mut j: usize = 0;
            while j < p.paths.len()
                invariant
                    j <= p.paths.len(),
                    pp == package_paths(*p),
                    pp.len() == p.paths.len(),
                    table_view(t@) == insert_paths(base, pp.take(j as int), p.id@),
                    keys_unique(table_view(t@)),
                decreases p.paths.len() - j,
            {
                proof {
                    assert(pp.take(j + 1).drop_last() == pp.take(j as int));
                    assert(pp.take(j + 1).last() == p.paths@[j as int]@);
                }
                insert_entry_exec(&mut t, chars_of(p.paths[j].as_str()), chars_of(p.id.as_str()));
                j += 1;
            }
            proof {
                assert(pp.take(j as int) == pp);
            }
        }
        i += 1;
    }
    proof {
        assert(pkgs@.take(pkgs.len() as int) == pkgs@);
    }
    t
}

/// The segments of a path: trailing slashes dropped, split on `/`.
fn segments_exec(p: &Vec<char>) -> (r: Vec<Vec<char>>)
    ensures
        lines_view(r@) == segments(p@),
{
    let t = trim_end_matches_exec(p, &chars_of("/"));
    let r = split_char_exec(&t, '/');
    proof {
        assert(lines_view(r@) == r@.map_values(|v: Vec<char>| v@));
    }
    r
}

/// Whether two segment lists agree on their common prefix.
fn seg_prefix_match_exec(a: &Vec<Vec<char>>, b: &Vec<Vec<char>>) -> (r: bool)
    ensures
        r == seg_prefix_match(lines_view(a@), lines_view(b@)),
{
    let shorter = if a.len() < b.len() { a.len() } else { b.len() };
    let mut i: usize = 0;
    while i < shorter
        invariant
            i <= shorter,
            shorter <= a.len(),
            shorter <= b.len(),
            shorter == a.len() || shorter == b.len(),
            forall|j: int| 0 <= j < i ==> lines_view(a@)[j] == lines_view(b@)[j],
        decreases shorter - i,
    {
        if !vec_eq(&a[i], &b[i]) {
            proof {
                assert(lines_view(a@)[i as int] != lines_view(b@)[i as int]);
            }
            return false;
        }
        i += 1;
    }
    true
}

/// A string as it appears in a message.
fn render_exec(s: &Vec<char>, quoted: bool) -> (r: Vec<char>)
    ensures
        r@ == render(s@, quoted),
{
    if quoted {
        let q = debug_quote(string_of(s).as_str());
        chars_of(q.as_str())
    } else {
        crate::text::slice(s, 0, s.len())
    }
}

fn conflict_line_exec(np: &Vec<char>, ip: &Vec<char>, owner: &Vec<char>, quoted: bool) -> (r: Vec<char>)
    ensures
        r@ == conflict_line(np@, (ip@, owner@), quoted),
{
    let mut m = render_exec(np, quoted);
    append(&mut m, &chars_of(" conflicts with "));
    append(&mut m, &render_exec(ip, quoted));
    append(&mut m, &chars_of(" (owned by "));
    append(&mut m, owner);
    append(&mut m, &chars_of(")"));
    m
}

/// Checks new paths against a table of installed paths.
fn check_table(nps: &Vec<Vec<char>>, t: &Vec<(Vec<char>, Vec<char>)>, quoted: bool) -> (r: Result<(), PackageError>)
    ensures
        conflict_result(conflict_lines(lines_view(nps@), table_view(t@), quoted), r),
{
    let ghost es = table_view(t@);
    let mut lines: Vec<Vec<char>> = Vec::new();
    let mut n: usize = 0;
    while n < nps.len()
        invariant
            n <= nps.len(),
            es == table_view(t@),
            lines_view(lines@) == conflict_lines(lines_view(nps@).take(n as int), es, quoted),
        decreases nps.len() - n,
    {
        let np = &nps[n];
        let np_segs = segments_exec(np);
        let ghost before = lines_view(lines@);
        let mut k: usize = 0;
        while k < t.len()
            invariant
                k <= t.len(),
                es == table_view(t@),
                lines_view(np_segs@) == segments(np@),
                lines_view(lines@) == before + lines_for(np@, es.take(k as int), quoted),
            decreases t.len() - k,
        {
            proof {
                assert(es.take(k + 1).drop_last() == es.take(k as int));
                assert(es.take(k + 1).last() == es[k as int]);
            }
            let ip_segs = segments_exec(&t[k].0);
            let ghost old_lines = lines@;
            proof {
                assert(es[k as int] == (t@[k as int].0@, t@[k as int].1@));
            }
            if seg_prefix_match_exec(&np_segs, &ip_segs) {
                let line = conflict_line_exec(np, &t[k].0, &t[k].1, quoted);
                let ghost lv = line@;
                lines.push(line);
                proof {
                    assert(es[k as int] == (t@[k as int].0@, t@[k as int].1@));
                    assert(lines_view(lines@) == lines_view(lines@.drop_last()).push(lv));
                    assert(lines@.drop_last() == old_lines);
                    assert(lines_view(lines@) == before + lines_for(np@, es.take(k + 1), quoted));
                }
            }
            k += 1;
        }
        proof {
            assert(es.take(k as int) == es);
            let v = lines_view(nps@);
            assert(v.take(n + 1).drop_last() == v.take(n as int));
            assert(v.take(n + 1).last() == np@);
        }
        n += 1;
    }
    proof {
        assert(lines_view(nps@).take(n as int) == lines_view(nps@));
    }
    if lines.len() == 0 {
        Ok(())
    } else {
        let joined = join_exec(&lines, &chars_of("\n  "));
        proof {
            assert(lines@.map_values(|v: Vec<char>| v@) == lines_view(lines@));
        }
        Err(PackageError::Conflicts(string_of(&joined)))
    }
}

/// Checks new paths against the packages of a list, leaving out those from
/// `skip`.
pub(crate) fn check_package_paths(pkgs: &Vec<InstalledPackage>, nps: &Vec<Vec<char>>, skip: &str, quoted: bool)
    -> (r: Result<(), PackageError>)
    ensures
        conflict_result(conflict_lines(lines_view(nps@), installed_table(pkgs@, skip@), quoted), r),
{
    let t = build_table(pkgs, skip);
    check_table(nps, &t, quoted)
}

/// Checks whether any of `new_paths` overlaps a path owned by an installed
/// package; packages from `skip_id` are left out (an update skips the
/// package it replaces). Overlap is a segment-wise prefix match, so
/// `SCRIPTS/TOOLS` and `SCRIPTS/TOOLSET` do not conflict. Each conflict is
/// reported with both paths quoted.
pub fn check_conflicts(state: &State, new_paths: &[String], skip_id: &str) -> (r: Result<(), PackageError>)
    ensures
        conflict_result(
            conflict_lines(new_paths@.map_values(|s: String| s@), installed_table(state.packages@, skip_id@), true),
            r,
        ),
{
    let mut nps: Vec<Vec<char>> = Vec::new();
    let mut i: usize = 0;
    while i < new_paths.len()
        invariant
            i <= new_paths.len(),
            lines_view(nps@) == new_paths@.map_values(|s: String| s@).take(i as int),
        decreases new_paths.len() - i,
    {
        let c = chars_of(new_paths[i].as_str());
        let ghost before = nps@;
        nps.push(c);
        proof {
            assert(nps@ == before.push(c));
            assert(lines_view(nps@) == lines_view(before).push(c@));
            assert(new_paths@.map_values(|s: String| s@).take(i + 1)
                == new_paths@.map_values(|s: String| s@).take(i as int).push(new_paths@[i as int]@));
        }
        i += 1;
    }
    proof {
        assert(new_paths@.map_values(|s: String| s@).take(i as int) == new_paths@.map_values(|s: String| s@));
    }
    check_package_paths(&state.packages, &nps, skip_id, true)
}

} // verus!

verus! {

/// One segment list begins the other: the same path, or one lying inside
/// the other at a segment boundary.
pub open spec fn nested_segments(a: Seq<Seq<char>>, b: Seq<Seq<char>>) -> bool {
    ||| (a.len() <= b.len() && b.subrange(0, a.len() as int) == a)
    ||| (b.len() <= a.len() && a.subrange(0, b.len() as int) == b)
}

proof fn lemma_overlap_is_nesting(a: Seq<char>, b: Seq<char>)
    ensures
        paths_overlap(a, b) <==> nested_segments(segments(a), segments(b)),
{
    let sa = segments(a);
    let sb = segments(b);
    if paths_overlap(a, b) {
        if sa.len() <= sb.len() {
            assert(sb.subrange(0, sa.len() as int) =~= sa);
        } else {
            assert(sa.subrange(0, sb.len() as int) =~= sb);
        }
    }
    if nested_segments(sa, sb) {
        if sa.len() <= sb.len() && sb.subrange(0, sa.len() as int) == sa {
            assert forall|i: int| 0 <= i < sa.len() && 0 <= i < sb.len() implies sa[i] == sb[i] by {
                assert(sb.subrange(0, sa.len() as int)[i] == sb[i]);
            }
        } else {
            assert forall|i: int| 0 <= i < sa.len() && 0 <= i < sb.len() implies sa[i] == sb[i] by {
                assert(sa.subrange(0, sb.len() as int)[i] == sa[i]);
            }
        }
    }
}

/// Overlap does not depend on which path is new: `a` overlaps `b` exactly
/// when `b` overlaps `a`.
pub proof fn law_overlap_symmetric(a: Seq<char>, b: Seq<char>)
    ensures
        paths_overlap(a, b) == paths_overlap(b, a),
{
    lemma_overlap_is_nesting(a, b);
    lemma_overlap_is_nesting(b, a);
}

/// A conflict check refuses the new paths exactly when one of them and a
/// path of an installed package (other than those from `skip_id`) lie one
/// inside the other at segment boundaries, whichever of the two is the
/// longer: a new path that encloses an installed one conflicts as much as
/// one that lies inside it.
pub proof fn law_conflict_iff_nested(state: &State, new_paths: &[String], skip_id: &str, r: Result<(), PackageError>)
    requires
        call_ensures(check_conflicts, (state, new_paths, skip_id), r),
    ensures
        r is Err <==> exists|n: int, i: int, j: int|
            0 <= n < new_paths@.len() && 0 <= i < state.packages@.len() && state.packages@[i].id@ != skip_id@
            && 0 <= j < state.packages@[i].paths@.len()
            && #[trigger] nested_segments(segments(new_paths@[n]@), segments(state.packages@[i].paths@[j]@)),
{
    let pkgs = state.packages@;
    let nps = new_paths@.map_values(|s: String| s@);
    law_conflict_iff_overlap(pkgs, nps, skip_id@, true);
    if any_overlap(pkgs, nps, skip_id@) {
        let (n, i, j) = choose|n: int, i: int, j: int|
            0 <= n < nps.len() && 0 <= i < pkgs.len() && pkgs[i].id@ != skip_id@
            && 0 <= j < package_paths(pkgs[i]).len()
            && #[trigger] paths_overlap(nps[n], package_paths(pkgs[i])[j]);
        lemma_overlap_is_nesting(nps[n], package_paths(pkgs[i])[j]);
        assert(nps[n] == new_paths@[n]@);
        assert(package_paths(pkgs[i])[j] == pkgs[i].paths@[j]@);
        assert(nested_segments(segments(new_paths@[n]@), segments(state.packages@[i].paths@[j]@)));
    }
    if exists|n: int, i: int, j: int|
        0 <= n < new_paths@.len() && 0 <= i < state.packages@.len() && state.packages@[i].id@ != skip_id@
        && 0 <= j < state.packages@[i].paths@.len()
        && #[trigger] nested_segments(segments(new_paths@[n]@), segments(state.packages@[i].paths@[j]@)) {
        let (n, i, j) = choose|n: int, i: int, j: int|
            0 <= n < new_paths@.len() && 0 <= i < state.packages@.len() && state.packages@[i].id@ != skip_id@
            && 0 <= j < state.packages@[i].paths@.len()
            && #[trigger] nested_segments(segments(new_paths@[n]@), segments(state.packages@[i].paths@[j]@));
        assert(nps[n] == new_paths@[n]@);
        assert(package_paths(pkgs[i])[j] == pkgs[i].paths@[j]@);
        lemma_overlap_is_nesting(nps[n], package_paths(pkgs[i])[j]);
        assert(paths_overlap(nps[n], package_paths(pkgs[i])[j]));
    }
}

} // verus!
