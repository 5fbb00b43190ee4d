//! The list of packages installed on an SD card, and the rules that keep it.
use vstd::prelude::*;
use vstd::utf8::{decode_utf8, encode_utf8, is_char_boundary};
use vstd::string::StringSliceAdditionalSpecFns;
use crate::source::version::Channel;
use crate::text::{append, chars_of, str_eq, string_of};
use super::PackageError;
use super::path::PackagePath;

verus! {

/// A single package installed on the SD card.
#[derive(Debug)]
pub struct InstalledPackage {
    /// The package id its manifest declares (`host/owner/repo[/sub]`).
    pub id: String,
    /// Display name from the package manifest.
    pub name: String,
    pub channel: Channel,
    /// Tag name or branch name (empty for commit/local).
    pub version: String,
    /// Full SHA (empty for local).
    pub commit: String,
    /// Relative paths on the SD card.
    pub paths: Vec<PackagePath>,
    /// True if dev dependencies were included.
    pub dev: bool,
    /// Where it was fetched from, when that differs from its id (a fork).
    pub origin: Option<String>,
    /// The variant manifest installed, when the package has variants.
    pub variant: Option<String>,
    /// The directory a local install came from.
    pub local_path: Option<String>,
}

/// The text of an optional string.
pub open spec fn opt_text(o: Option<String>) -> Option<Seq<char>> {
    match o {
        Some(s) => Some(s@),
        None => None,
    }
}

/// A copy of an optional string.
pub fn clone_opt(o: &Option<String>) -> (r: Option<String>)
    ensures
        opt_text(r) == opt_text(*o),
{
    match o {
        Some(s) => Some(s.clone()),
        None => None,
    }
}

/// Two records that say the same thing.
pub open spec fn same_package(a: InstalledPackage, b: InstalledPackage) -> bool {
    &&& a.id@ == b.id@
    &&& a.name@ == b.name@
    &&& a.channel == b.channel
    &&& a.version@ == b.version@
    &&& a.commit@ == b.commit@
    &&& a.paths@ == b.paths@
    &&& a.dev == b.dev
    &&& opt_text(a.origin) == opt_text(b.origin)
    &&& opt_text(a.variant) == opt_text(b.variant)
    &&& opt_text(a.local_path) == opt_text(b.local_path)
}

impl Clone for InstalledPackage {
    fn clone(&self) -> (r: InstalledPackage)
        ensures
            same_package(r, *self),
    {
        let paths = self.paths.clone();
        proof {
            assert forall|i: int| 0 <= i < paths@.len() implies paths@[i] == self.paths@[i] by {
                assert(vstd::pervasive::cloned::<PackagePath>(self.paths[i], paths[i]));
            }
            assert(paths@ =~= self.paths@);
        }
        InstalledPackage {
            id: self.id.clone(),
            name: self.name.clone(),
            channel: self.channel,
            version: self.version.clone(),
            commit: self.commit.clone(),
            paths,
            dev: self.dev,
            origin: clone_opt(&self.origin),
            variant: clone_opt(&self.variant),
            local_path: clone_opt(&self.local_path),
        }
    }
}

/// The UTF-8 bytes of a commit string.
pub open spec fn commit_bytes(commit: Seq<char>) -> Seq<u8> {
    encode_utf8(commit)
}

/// A commit that `short_commit` can shorten without splitting a character.
pub open spec fn short_commit_ok(commit: Seq<char>) -> bool {
    commit_bytes(commit).len() > 7 ==> is_char_boundary(commit_bytes(commit), 7)
}

/// The first 7 bytes of the commit, or all of it when it is no longer.
pub open spec fn spec_short_commit(commit: Seq<char>) -> Seq<char> {
    if commit_bytes(commit).len() > 7 {
        decode_utf8(commit_bytes(commit).subrange(0, 7))
    } else {
        commit
    }
}

/// `"<channel>[ <version>][ (<short commit>)]"`.
pub open spec fn spec_channel_info(channel: Channel, version: Seq<char>, commit: Seq<char>) -> Seq<char> {
    let a = channel.spec_name();
    let b = if version.len() > 0 { a + " "@ + version } else { a };
    if commit.len() > 0 { b + " ("@ + spec_short_commit(commit) + ")"@ } else { b }
}

impl InstalledPackage {
    /// The first 7 characters of the commit hash, or the whole string if shorter.
    pub fn short_commit(&self) -> (r: &str)
        requires
            short_commit_ok(self.commit@),
        ensures
            r@ == spec_short_commit(self.commit@),
    {
        let s = self.commit.as_str();
        if s.as_bytes().len() > 7 {
            let (head, _tail) = s.split_at(7);
            proof {
                vstd::utf8::encode_utf8_decode_utf8(head@);
                assert(s@ == self.commit@);
                assert(head.spec_bytes() == commit_bytes(self.commit@).subrange(0, 7));
                assert(head.spec_bytes() == encode_utf8(head@));
                assert(head@ == decode_utf8(encode_utf8(head@)));
                assert(head@ == spec_short_commit(self.commit@));
            }
            head
        } else {
            proof {
                assert(s.spec_bytes() == commit_bytes(self.commit@));
            }
            s
        }
    }

    /// A display string like `"tag v1.0.0 (abc1234)"`.
    pub fn channel_info(&self) -> (r: String)
        requires
            short_commit_ok(self.commit@),
        ensures
            r@ == spec_channel_info(self.channel, self.version@, self.commit@),
    {
        let mut info = chars_of(self.channel.to_string().as_str());
        if !self.version.as_str().is_empty() {
            append(&mut info, &chars_of(" "));
            append(&mut info, &chars_of(self.version.as_str()));
        }
        if !self.commit.as_str().is_empty() {
            append(&mut info, &chars_of(" ("));
            append(&mut info, &chars_of(self.short_commit()));
            append(&mut info, &chars_of(")"));
        }
        string_of(&info)
    }
}

// ---------------------------------------------------------------------------
// The model of a package list
// ---------------------------------------------------------------------------

/// Index `i` holds the first package whose source is `q`.
pub open spec fn is_first_id(pkgs: Seq<InstalledPackage>, q: Seq<char>, i: int) -> bool {
    &&& 0 <= i < pkgs.len()
    &&& pkgs[i].id@ == q
    &&& forall|j: int| 0 <= j < i ==> pkgs[j].id@ != q
}

/// Some package of the list has source `q`.
pub open spec fn has_id(pkgs: Seq<InstalledPackage>, q: Seq<char>) -> bool {
    exists|i: int| 0 <= i < pkgs.len() && pkgs[i].id@ == q
}

/// The index of the first package whose source is `q`.
pub open spec fn id_index(pkgs: Seq<InstalledPackage>, q: Seq<char>) -> int {
    choose|i: int| is_first_id(pkgs, q, i)
}

/// The packages named `q`, in list order.
pub open spec fn with_name(pkgs: Seq<InstalledPackage>, q: Seq<char>) -> Seq<InstalledPackage>
    decreases pkgs.len(),
{
    if pkgs.len() == 0 {
        pkgs
    } else {
        let rest = with_name(pkgs.drop_last(), q);
        if pkgs.last().name@ == q {
            rest.push(pkgs.last())
        } else {
            rest
        }
    }
}

/// The list without the packages whose source is `q`, order kept.
pub open spec fn without_id(pkgs: Seq<InstalledPackage>, q: Seq<char>) -> Seq<InstalledPackage>
    decreases pkgs.len(),
{
    if pkgs.len() == 0 {
        pkgs
    } else {
        let rest = without_id(pkgs.drop_last(), q);
        if pkgs.last().id@ == q {
            rest
        } else {
            rest.push(pkgs.last())
        }
    }
}

/// The list after adding `pkg`: it takes the place of the first package with
/// the same source, or goes at the end.
pub open spec fn spec_add(pkgs: Seq<InstalledPackage>, pkg: InstalledPackage) -> Seq<InstalledPackage> {
    if has_id(pkgs, pkg.id@) {
        pkgs.update(id_index(pkgs, pkg.id@), pkg)
    } else {
        pkgs.push(pkg)
    }
}

/// No two packages share a source.
pub open spec fn ids_unique(pkgs: Seq<InstalledPackage>) -> bool {
    forall|i: int, j: int|
        0 <= i < pkgs.len() && 0 <= j < pkgs.len() && i != j ==> pkgs[i].id@ != pkgs[j].id@
}

/// The sources of a list of packages.
pub open spec fn ids_of(pkgs: Seq<InstalledPackage>) -> Seq<Seq<char>> {
    pkgs.map_values(|p: InstalledPackage| p.id@)
}

/// What a lookup of `q` gives: the package with that source, else the only
/// package with that name.
pub open spec fn find_ok(pkgs: Seq<InstalledPackage>, q: Seq<char>, p: InstalledPackage) -> bool {
    if has_id(pkgs, q) {
        p == pkgs[id_index(pkgs, q)]
    } else {
        with_name(pkgs, q).len() == 1 && p == with_name(pkgs, q)[0]
    }
}

/// When a lookup of `q` fails, and with which error.
pub open spec fn find_err(pkgs: Seq<InstalledPackage>, q: Seq<char>, e: PackageError) -> bool {
    &&& !has_id(pkgs, q)
    &&& with_name(pkgs, q).len() != 1
    &&& (with_name(pkgs, q).len() == 0 ==> (e matches PackageError::NotFound(s) && s@ == q))
    &&& (with_name(pkgs, q).len() > 1 ==> (e matches PackageError::Ambiguous { name, sources } && name@ == q
        && sources@.map_values(|s: String| s@) == ids_of(with_name(pkgs, q))))
}

pub proof fn lemma_id_index(pkgs: Seq<InstalledPackage>, q: Seq<char>)
    ensures
        has_id(pkgs, q) ==> is_first_id(pkgs, q, id_index(pkgs, q)),
        forall|i: int| is_first_id(pkgs, q, i) ==> i == id_index(pkgs, q),
{
    if has_id(pkgs, q) {
        let k = choose|k: int| 0 <= k < pkgs.len() && pkgs[k].id@ == q;
        lemma_first_exists(pkgs, q, k);
    }
    assert forall|i: int| is_first_id(pkgs, q, i) implies i == id_index(pkgs, q) by {
        let c = id_index(pkgs, q);
        assert(is_first_id(pkgs, q, c));
        if i < c {
        } else if c < i {
        }
    }
}

proof fn lemma_first_exists(pkgs: Seq<InstalledPackage>, q: Seq<char>, k: int)
    requires
        0 <= k < pkgs.len(),
        pkgs[k].id@ == q,
    ensures
        exists|i: int| is_first_id(pkgs, q, i),
    decreases k,
{
    if forall|j: int| 0 <= j < k ==> pkgs[j].id@ != q {
        assert(is_first_id(pkgs, q, k));
    } else {
        let j = choose|j: int| 0 <= j < k && pkgs[j].id@ != q ==> false;
        let j2 = choose|j: int| 0 <= j < k && pkgs[j].id@ == q;
        lemma_first_exists(pkgs, q, j2);
    }
}

proof fn lemma_without_id_len(pkgs: Seq<InstalledPackage>, q: Seq<char>)
    ensures
        without_id(pkgs, q).len() <= pkgs.len(),
        forall|i: int| 0 <= i < without_id(pkgs, q).len() ==> without_id(pkgs, q)[i].id@ != q,
    decreases pkgs.len(),
{
    if pkgs.len() > 0 {
        lemma_without_id_len(pkgs.drop_last(), q);
    }
}

proof fn lemma_without_id_push(pkgs: Seq<InstalledPackage>, q: Seq<char>, p: InstalledPackage)
    ensures
        without_id(pkgs.push(p), q) == if p.id@ == q {
            without_id(pkgs, q)
        } else {
            without_id(pkgs, q).push(p)
        },
{
    assert(pkgs.push(p).drop_last() == pkgs);
}

proof fn lemma_with_name_push(pkgs: Seq<InstalledPackage>, q: Seq<char>, p: InstalledPackage)
    ensures
        with_name(pkgs.push(p), q) == if p.name@ == q {
            with_name(pkgs, q).push(p)
        } else {
            with_name(pkgs, q)
        },
{
    assert(pkgs.push(p).drop_last() == pkgs);
}

// ---------------------------------------------------------------------------
// Operations on a package list, shared by `State` and `PackageStore`
// ---------------------------------------------------------------------------

/// The position of the first package whose source is `q`.
pub(crate) fn id_position(pkgs: &Vec<InstalledPackage>, q: &str) -> (r: Option<usize>)
    ensures
        match r {
            Some(i) => is_first_id(pkgs@, q@, i as int) && i == id_index(pkgs@, q@),
            None => !has_id(pkgs@, q@),
        },
{
    let mut i: usize = 0;
    while i < pkgs.len()
        invariant
            i <= pkgs.len(),
            forall|j: int| 0 <= j < i ==> pkgs@[j].id@ != q@,
        decreases pkgs.len() - i,
    {
        if str_eq(pkgs[i].id.as_str(), q) {
            proof {
                lemma_id_index(pkgs@, q@);
            }
            return Some(i);
        }
        i += 1;
    }
    None
}

/// The first package whose source is `q`.
pub(crate) fn find_id_in<'a>(pkgs: &'a Vec<InstalledPackage>, q: &str) -> (r: Option<&'a InstalledPackage>)
    ensures
        match r {
            Some(p) => has_id(pkgs@, q@) && *p == pkgs@[id_index(pkgs@, q@)],
            None => !has_id(pkgs@, q@),
        },
{
    match id_position(pkgs, q) {
        Some(i) => Some(&pkgs[i]),
        None => None,
    }
}

/// The packages named `q`, in list order.
pub(crate) fn find_name_in<'a>(pkgs: &'a Vec<InstalledPackage>, q: &str) -> (r: Vec<&'a InstalledPackage>)
    ensures
        r@.map_values(|p: &InstalledPackage| *p) == with_name(pkgs@, q@),
{
    let mut out: Vec<&'a InstalledPackage> = Vec::new();
    let mut i: usize = 0;
    while i < pkgs.len()
        invariant
            i <= pkgs.len(),
            out@.map_values(|p: &InstalledPackage| *p) == with_name(pkgs@.take(i as int), q@),
        decreases pkgs.len() - i,
    {
        proof {
            assert(pkgs@.take(i + 1) == pkgs@.take(i as int).push(pkgs@[i as int]));
            lemma_with_name_push(pkgs@.take(i as int), q@, pkgs@[i as int]);
        }
        if str_eq(pkgs[i].name.as_str(), q) {
            out.push(&pkgs[i]);
        }
        i += 1;
    }
    assert(pkgs@.take(pkgs.len() as int) == pkgs@);
    out
}

/// Lookup by source first, then by name.
pub(crate) fn find_in<'a>(pkgs: &'a Vec<InstalledPackage>, q: &str) -> (r: Result<&'a InstalledPackage, PackageError>)
    ensures
        match r {
            Ok(p) => find_ok(pkgs@, q@, *p),
            Err(e) => find_err(pkgs@, q@, e),
        },
{
    if let Some(p) = find_id_in(pkgs, q) {
        return Ok(p);
    }
    let matches = find_name_in(pkgs, q);
    proof {
        assert(matches@.map_values(|p: &InstalledPackage| *p).len() == matches@.len());
    }
    if matches.len() == 0 {
        Err(PackageError::NotFound(q.to_owned()))
    } else if matches.len() == 1 {
        proof {
            assert(matches@.map_values(|p: &InstalledPackage| *p)[0] == *matches@[0]);
        }
        Ok(matches[0])
    } else {
        let mut sources: Vec<String> = Vec::new();
        let mut k: usize = 0;
        while k < matches.len()
            invariant
                k <= matches.len(),
                matches@.map_values(|p: &InstalledPackage| *p) == with_name(pkgs@, q@),
                sources@.len() == k,
                forall|j: int| 0 <= j < k ==> sources@[j]@ == matches@[j].id@,
            decreases matches.len() - k,
        {
            sources.push(matches[k].id.clone());
            k += 1;
        }
        proof {
            let w = with_name(pkgs@, q@);
            assert forall|j: int| 0 <= j < w.len() implies sources@.map_values(|s: String| s@)[j] == ids_of(w)[j] by {
                assert(matches@.map_values(|p: &InstalledPackage| *p)[j] == *matches@[j]);
            }
            assert(sources@.map_values(|s: String| s@) == ids_of(w));
        }
        Err(PackageError::Ambiguous { name: q.to_owned(), sources })
    }
}

/// Drops every package whose source is `q`.
pub(crate) fn remove_id_in(pkgs: &mut Vec<InstalledPackage>, q: &str)
    ensures
        final(pkgs)@ == without_id(old(pkgs)@, q@),
{
    let ghost orig = pkgs@;
    let mut i: usize = 0;
    let mut k: usize = 0;
    assert(orig.len() == pkgs.len());
    while i < pkgs.len()
        invariant
            k <= orig.len(),
            orig.len() <= usize::MAX,
            i == without_id(orig.take(k as int), q@).len(),
            pkgs@ == without_id(orig.take(k as int), q@) + orig.skip(k as int),
            i <= pkgs.len(),
            pkgs.len() - i == orig.len() - k,
        decreases pkgs.len() - i,
    {
        proof {
            assert(orig.take(k + 1) == orig.take(k as int).push(orig[k as int]));
            lemma_without_id_push(orig.take(k as int), q@, orig[k as int]);
            assert(pkgs@[i as int] == orig[k as int]);
        }
        if str_eq(pkgs[i].id.as_str(), q) {
            pkgs.remove(i);
            proof {
                assert(pkgs@ == without_id(orig.take(k + 1), q@) + orig.skip(k + 1));
            }
        } else {
            proof {
                assert(pkgs@ == without_id(orig.take(k + 1), q@) + orig.skip(k + 1));
            }
            i += 1;
        }
        k += 1;
    }
    proof {
        assert(orig.take(k as int) == orig);
        assert(pkgs@ == without_id(orig, q@));
    }
}

/// Adds `pkg`, replacing the first package with the same source.
pub(crate) fn add_in(pkgs: &mut Vec<InstalledPackage>, pkg: InstalledPackage)
    ensures
        final(pkgs)@ == spec_add(old(pkgs)@, pkg),
{
    match id_position(pkgs, pkg.id.as_str()) {
        Some(i) => {
            pkgs.set(i, pkg);
        },
        None => {
            pkgs.push(pkg);
        },
    }
}

// ---------------------------------------------------------------------------
// State
// ---------------------------------------------------------------------------

/// The list of installed packages on an SD card.
#[derive(Debug, Clone)]
pub struct State {
    pub packages: Vec<InstalledPackage>,
}

impl Default for State {
    fn default() -> (r: State)
        ensures
            r.packages@.len() == 0,
    {
        State { packages: Vec::new() }
    }
}

impl State {
    /// The package whose canonical id is `canonical`, if any: the identity
    /// it was installed under, the source it is known by.
    pub fn find_by_source(&self, canonical: &str) -> (r: Option<&InstalledPackage>)
        ensures
            match r {
                Some(p) => has_id(self.packages@, canonical@)
                    && *p == self.packages@[id_index(self.packages@, canonical@)],
                None => !has_id(self.packages@, canonical@),
            },
    {
        find_id_in(&self.packages, canonical)
    }

    /// All packages whose name matches, in list order.
    pub fn find_by_name(&self, name: &str) -> (r: Vec<&InstalledPackage>)
        ensures
            r@.map_values(|p: &InstalledPackage| *p) == with_name(self.packages@, name@),
    {
        find_name_in(&self.packages, name)
    }

    /// Lookup by source first, then by name; an error when the name is
    /// unknown or shared by several packages.
    pub fn find(&self, query: &str) -> (r: Result<&InstalledPackage, PackageError>)
        ensures
            match r {
                Ok(p) => find_ok(self.packages@, query@, *p),
                Err(e) => find_err(self.packages@, query@, e),
            },
    {
        find_in(&self.packages, query)
    }

    /// Removes the package with the given canonical source.
    pub fn remove(&mut self, canonical: &str)
        ensures
            final(self).packages@ == without_id(old(self).packages@, canonical@),
    {
        remove_id_in(&mut self.packages, canonical);
    }

    /// Adds a package, replacing the one with the same source if present.
    pub fn add(&mut self, pkg: InstalledPackage)
        ensures
            final(self).packages@ == spec_add(old(self).packages@, pkg),
    {
        add_in(&mut self.packages, pkg);
    }
}

// ---------------------------------------------------------------------------
// Laws of the package list
// ---------------------------------------------------------------------------

/// After adding a package, a lookup of its source finds it.
pub proof fn law_add_then_find(pkgs: Seq<InstalledPackage>, pkg: InstalledPackage)
    ensures
        has_id(spec_add(pkgs, pkg), pkg.id@),
        spec_add(pkgs, pkg)[id_index(spec_add(pkgs, pkg), pkg.id@)] == pkg,
{
    let q = pkg.id@;
    let s = spec_add(pkgs, pkg);
    lemma_id_index(pkgs, q);
    if has_id(pkgs, q) {
        let i = id_index(pkgs, q);
        assert(is_first_id(s, q, i));
        lemma_id_index(s, q);
    } else {
        let i = pkgs.len() as int;
        assert(is_first_id(s, q, i));
        lemma_id_index(s, q);
    }
}

/// Adding keeps every source unique, and changes the length by at most one.
pub proof fn law_add_keeps_ids_unique(pkgs: Seq<InstalledPackage>, pkg: InstalledPackage)
    requires
        ids_unique(pkgs),
    ensures
        ids_unique(spec_add(pkgs, pkg)),
        has_id(pkgs, pkg.id@) ==> spec_add(pkgs, pkg).len() == pkgs.len(),
        !has_id(pkgs, pkg.id@) ==> spec_add(pkgs, pkg).len() == pkgs.len() + 1,
{
    lemma_id_index(pkgs, pkg.id@);
}

/// After removing a source, no package has it, and the others keep their order.
pub proof fn law_remove_then_absent(pkgs: Seq<InstalledPackage>, q: Seq<char>)
    ensures
        !has_id(without_id(pkgs, q), q),
        !has_id(pkgs, q) ==> without_id(pkgs, q) == pkgs,
{
    lemma_without_id_len(pkgs, q);
    lemma_without_id_identity(pkgs, q);
}

proof fn lemma_without_id_identity(pkgs: Seq<InstalledPackage>, q: Seq<char>)
    ensures
        !has_id(pkgs, q) ==> without_id(pkgs, q) == pkgs,
    decreases pkgs.len(),
{
    if pkgs.len() > 0 && !has_id(pkgs, q) {
        let d = pkgs.drop_last();
        assert(!has_id(d, q)) by {
            if has_id(d, q) {
                let j = choose|j: int| 0 <= j < d.len() && d[j].id@ == q;
                assert(pkgs[j].id@ == q);
            }
        }
        lemma_without_id_identity(d, q);
        assert(pkgs.last().id@ != q);
        assert(d.push(pkgs.last()) == pkgs);
    }
}

/// Removing a source right after adding a package with it gives the same
/// list as removing it from the list before the addition.
pub proof fn law_remove_undoes_add(pkgs: Seq<InstalledPackage>, pkg: InstalledPackage)
    ensures
        without_id(spec_add(pkgs, pkg), pkg.id@) == without_id(pkgs, pkg.id@),
{
    let q = pkg.id@;
    lemma_id_index(pkgs, q);
    if has_id(pkgs, q) {
        lemma_without_id_update(pkgs, q, id_index(pkgs, q), pkg);
    } else {
        lemma_without_id_push(pkgs, q, pkg);
    }
}

proof fn lemma_without_id_update(pkgs: Seq<InstalledPackage>, q: Seq<char>, i: int, p: InstalledPackage)
    requires
        0 <= i < pkgs.len(),
        pkgs[i].id@ == q,
        p.id@ == q,
    ensures
        without_id(pkgs.update(i, p), q) == without_id(pkgs, q),
    decreases pkgs.len(),
{
    let u = pkgs.update(i, p);
    if i == pkgs.len() - 1 {
        assert(u.drop_last() == pkgs.drop_last());
    } else {
        lemma_without_id_update(pkgs.drop_last(), q, i, p);
        assert(u.drop_last() == pkgs.drop_last().update(i, p));
        assert(u.last() == pkgs.last());
    }
}

/// Removing a source is idempotent.
pub proof fn law_remove_idempotent(pkgs: Seq<InstalledPackage>, q: Seq<char>)
    ensures
        without_id(without_id(pkgs, q), q) == without_id(pkgs, q),
{
    law_remove_then_absent(pkgs, q);
    law_remove_then_absent(without_id(pkgs, q), q);
}

} // verus!
