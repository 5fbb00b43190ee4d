//! Update channels and version resolution against tags and branches.
use vstd::prelude::*;
use super::SourceError;
use crate::text::{chars_of, owned, str_eq, string_of, slice, starts_with_char};

verus! {

/// How an installed package follows its upstream.
#[derive(Debug, Clone, Copy, PartialEq, Eq, Structural)]
pub enum Channel {
    Tag,
    Branch,
    Commit,
    Local,
}

impl Channel {
    pub open spec fn spec_name(self) -> Seq<char> {
        match self {
            Channel::Tag => "tag"@,
            Channel::Branch => "branch"@,
            Channel::Commit => "commit"@,
            Channel::Local => "local"@,
        }
    }

    /// A pinned commit: updates need an explicit version.
    /// The channel a state file names: `tag`, `branch`, `commit` or `local`.
    pub fn from_name(s: &str) -> (r: Option<Channel>)
        ensures
            match r {
                Some(c) => c.spec_name() == s@,
                None => forall|c: Channel| #[trigger] c.spec_name() != s@,
            },
    {
        proof {
            reveal_strlit("tag");
            reveal_strlit("branch");
            reveal_strlit("commit");
            reveal_strlit("local");
        }
        if str_eq(s, "tag") {
            Some(Channel::Tag)
        } else if str_eq(s, "branch") {
            Some(Channel::Branch)
        } else if str_eq(s, "commit") {
            Some(Channel::Commit)
        } else if str_eq(s, "local") {
            Some(Channel::Local)
        } else {
            proof {
                assert forall|c: Channel| #[trigger] c.spec_name() != s@ by {
                    match c {
                        Channel::Tag => {},
                        Channel::Branch => {},
                        Channel::Commit => {},
                        Channel::Local => {},
                    }
                }
            }
            None
        }
    }

    pub fn is_pinned(&self) -> (r: bool)
        ensures
            r == (*self == Channel::Commit),
    {
        match self {
            Channel::Commit => true,
            _ => false,
        }
    }

    pub fn is_local(&self) -> (r: bool)
        ensures
            r == (*self == Channel::Local),
    {
        match self {
            Channel::Local => true,
            _ => false,
        }
    }

    /// The lower-case name of the channel, as stored in the state file.
    pub fn to_string(&self) -> (r: String)
        ensures
            r@ == self.spec_name(),
    {
        match self {
            Channel::Tag => "tag".to_owned(),
            Channel::Branch => "branch".to_owned(),
            Channel::Commit => "commit".to_owned(),
            Channel::Local => "local".to_owned(),
        }
    }
}


// ---------------------------------------------------------------------------
// Semantic-version tags
// ---------------------------------------------------------------------------

/// Whether `semver::Version::parse` accepts the text.
pub uninterp spec fn semver_parses(text: Seq<char>) -> bool;

/// The sign (-1, 0 or 1) of `semver::Version`'s order between the versions
/// parsed from two texts.
pub uninterp spec fn semver_order(a: Seq<char>, b: Seq<char>) -> int;

/// `semver::Version::parse(text).is_ok()`.
#[verifier::external_body]
pub(crate) fn semver_is_valid(text: &str) -> (r: bool)
    ensures
        r == semver_parses(text@),
{
    semver::Version::parse(text).is_ok()
}

/// Parses both texts with `semver::Version::parse` (both succeed, by the
/// `requires`) and compares the versions with `Version`'s `Ord`: -1, 0 or 1.
/// As `Ord` promises of a total order, comparing the other way round gives
/// the opposite sign, and the order is transitive: when `b` is not below
/// `a` and `a` is not below a third version `c`, `b` is not below `c`.
#[verifier::external_body]
pub(crate) fn semver_compare(a: &str, b: &str) -> (r: i8)
    requires
        semver_parses(a@),
        semver_parses(b@),
    ensures
        r == -1 || r == 0 || r == 1,
        r == semver_order(a@, b@),
        semver_order(b@, a@) == -r,
        forall|c: Seq<char>| semver_parses(c) && r <= 0 && #[trigger] semver_order(a@, c) >= 0
            ==> semver_order(b@, c) >= 0,
{
    match semver::Version::parse(a).unwrap().cmp(&semver::Version::parse(b).unwrap()) {
        std::cmp::Ordering::Less => -1,
        std::cmp::Ordering::Equal => 0,
        std::cmp::Ordering::Greater => 1,
    }
}

/// A tag without its leading `v`, if it has one.
pub open spec fn strip_v(t: Seq<char>) -> Seq<char> {
    if t.len() > 0 && t[0] == 'v' {
        t.subrange(1, t.len() as int)
    } else {
        t
    }
}

/// The tags that name a semantic version (with or without a leading `v`),
/// in input order.
pub open spec fn semver_candidates(tags: Seq<Seq<char>>) -> Seq<Seq<char>>
    decreases tags.len(),
{
    if tags.len() == 0 {
        tags
    } else {
        let rest = semver_candidates(tags.drop_last());
        if semver_parses(strip_v(tags.last())) {
            rest.push(tags.last())
        } else {
            rest
        }
    }
}

/// The first index from `i` on whose tag is a lower version than `t`.
pub open spec fn first_lower(s: Seq<Seq<char>>, t: Seq<char>, i: int) -> int
    decreases s.len() - i,
{
    if i >= s.len() {
        s.len() as int
    } else if semver_order(strip_v(s[i]), strip_v(t)) < 0 {
        i
    } else {
        first_lower(s, t, i + 1)
    }
}

/// Inserts `t` after every tag of `s` that is not lower than it.
pub open spec fn insert_desc(s: Seq<Seq<char>>, t: Seq<char>) -> Seq<Seq<char>> {
    s.insert(first_lower(s, t, 0), t)
}

/// The tags in descending version order; tags of equal versions keep their
/// input order.
pub open spec fn sort_desc(ts: Seq<Seq<char>>) -> Seq<Seq<char>>
    decreases ts.len(),
{
    if ts.len() == 0 {
        ts
    } else {
        insert_desc(sort_desc(ts.drop_last()), ts.last())
    }
}

/// The semantic-version tags, highest version first.
pub open spec fn spec_sort_semver_tags(tags: Seq<Seq<char>>) -> Seq<Seq<char>> {
    sort_desc(semver_candidates(tags))
}

/// The views of a list of strings.
pub open spec fn strings_view(v: Seq<String>) -> Seq<Seq<char>> {
    v.map_values(|s: String| s@)
}

proof fn lemma_first_lower_bounds(s: Seq<Seq<char>>, t: Seq<char>, i: int)
    requires
        0 <= i <= s.len(),
    ensures
        i <= first_lower(s, t, i) <= s.len(),
    decreases s.len() - i,
{
    if i < s.len() {
        lemma_first_lower_bounds(s, t, i + 1);
    }
}

proof fn lemma_candidates_valid(tags: Seq<Seq<char>>)
    ensures
        forall|i: int| 0 <= i < semver_candidates(tags).len() ==> semver_parses(strip_v(#[trigger] semver_candidates(tags)[i])),
    decreases tags.len(),
{
    if tags.len() > 0 {
        let rest = semver_candidates(tags.drop_last());
        lemma_candidates_valid(tags.drop_last());
        if semver_parses(strip_v(tags.last())) {
            let c = rest.push(tags.last());
            assert forall|i: int| 0 <= i < c.len() implies semver_parses(strip_v(#[trigger] c[i])) by {
                if i < rest.len() {
                    assert(c[i] == rest[i]);
                }
            }
        }
    }
}

proof fn lemma_sort_desc_valid(ts: Seq<Seq<char>>)
    requires
        forall|i: int| 0 <= i < ts.len() ==> semver_parses(strip_v(#[trigger] ts[i])),
    ensures
        sort_desc(ts).len() == ts.len(),
        forall|i: int| 0 <= i < sort_desc(ts).len() ==> semver_parses(strip_v(#[trigger] sort_desc(ts)[i])),
    decreases ts.len(),
{
    if ts.len() > 0 {
        let d = ts.drop_last();
        assert forall|i: int| 0 <= i < d.len() implies semver_parses(strip_v(#[trigger] d[i])) by {
            assert(d[i] == ts[i]);
        }
        lemma_sort_desc_valid(d);
        let s = sort_desc(d);
        lemma_first_lower_bounds(s, ts.last(), 0);
        assert(semver_parses(strip_v(ts[ts.len() - 1])));
    }
}

/// Whether a tag names a semantic version (with or without a leading `v`).
pub fn is_semver_tag(tag: &str) -> (r: bool)
    ensures
        r == semver_parses(strip_v(tag@)),
{
    let stripped = strip_v_exec(tag);
    semver_is_valid(stripped.as_str())
}

/// A tag without its leading `v`.
fn strip_v_exec(t: &str) -> (r: String)
    ensures
        r@ == strip_v(t@),
{
    let v = chars_of(t);
    if starts_with_char(&v, 'v') {
        string_of(&slice(&v, 1, v.len()))
    } else {
        owned(t)
    }
}

/// Each tag is a version no lower than every tag after it.
pub open spec fn desc_sorted(s: Seq<Seq<char>>) -> bool {
    forall|a: int, b: int| 0 <= a < b < s.len() ==> semver_order(strip_v(#[trigger] s[a]), strip_v(#[trigger] s[b])) >= 0
}

/// Inserts `tag` into a list sorted by descending version, after every tag
/// that is not lower.
fn insert_desc_exec(sorted: &mut Vec<String>, tag: String)
    requires
        forall|i: int| 0 <= i < old(sorted)@.len() ==> semver_parses(strip_v(#[trigger] old(sorted)@[i]@)),
        semver_parses(strip_v(tag@)),
        desc_sorted(strings_view(old(sorted)@)),
    ensures
        strings_view(final(sorted)@) == insert_desc(strings_view(old(sorted)@), tag@),
        desc_sorted(strings_view(final(sorted)@)),
        strings_view(final(sorted)@).contains(tag@),
        forall|x: Seq<char>| strings_view(old(sorted)@).contains(x) ==> strings_view(final(sorted)@).contains(x),
{
    let ghost s = strings_view(sorted@);
    let t = strip_v_exec(tag.as_str());
    let mut i: usize = 0;
    while i < sorted.len()
        invariant
            i <= sorted.len(),
            s == strings_view(sorted@),
            s == strings_view(old(sorted)@),
            t@ == strip_v(tag@),
            semver_parses(t@),
            forall|j: int| 0 <= j < sorted@.len() ==> semver_parses(strip_v(#[trigger] sorted@[j]@)),
            first_lower(s, tag@, 0) == first_lower(s, tag@, i as int),
            forall|j: int| 0 <= j < i ==> semver_order(strip_v(#[trigger] s[j]), t@) >= 0,
        ensures
            i <= sorted.len(),
            s == strings_view(sorted@),
            first_lower(s, tag@, 0) == i,
            forall|j: int| 0 <= j < i ==> semver_order(strip_v(#[trigger] s[j]), t@) >= 0,
            i < s.len() ==> semver_order(t@, strip_v(s[i as int])) > 0,
            i < s.len() ==> forall|c: Seq<char>| semver_parses(c) && #[trigger] semver_order(strip_v(s[i as int]), c) >= 0
                ==> semver_order(t@, c) >= 0,
        decreases sorted.len() - i,
    {
        let e = strip_v_exec(sorted[i].as_str());
        proof {
            assert(s[i as int] == sorted@[i as int]@);
        }
        if semver_compare(e.as_str(), t.as_str()) < 0 {
            break;
        }
        i += 1;
    }
    let ghost tv = tag@;
    sorted.insert(i, tag);
    proof {
        let n = s.insert(i as int, tv);
        assert(strings_view(sorted@) == n);
        assert(n[i as int] == tv);
        assert forall|a: int, b: int| 0 <= a < b < n.len() implies semver_order(strip_v(#[trigger] n[a]), strip_v(#[trigger] n[b])) >= 0 by {
            if b < i {
                assert(n[a] == s[a] && n[b] == s[b]);
            } else if b == i {
                assert(n[a] == s[a]);
            } else if a < i {
                assert(n[a] == s[a] && n[b] == s[b - 1]);
                assert(semver_order(strip_v(s[a]), strip_v(s[b - 1])) >= 0);
            } else if a == i {
                assert(n[b] == s[b - 1]);
                assert(semver_parses(strip_v(sorted@[b]@)));
                assert(semver_parses(strip_v(s[b - 1])));
                if b - 1 > i {
                    assert(semver_order(strip_v(s[i as int]), strip_v(s[b - 1])) >= 0);
                }
            } else {
                assert(n[a] == s[a - 1] && n[b] == s[b - 1]);
            }
        }
        assert forall|x: Seq<char>| s.contains(x) implies n.contains(x) by {
            let k = choose|k: int| 0 <= k < s.len() && s[k] == x;
            if k < i {
                assert(n[k] == x);
            } else {
                assert(n[k + 1] == x);
            }
        }
    }
}

/// Sorts tags in descending semantic-version order; tags that are not
/// semantic versions (with or without a leading `v`) are dropped, and tags of
/// equal versions keep their input order.
pub fn sort_semver_tags(tags: &[String]) -> (r: Vec<String>)
    ensures
        strings_view(r@) == spec_sort_semver_tags(strings_view(tags@)),
        desc_sorted(strings_view(r@)),
        forall|x: Seq<char>| #[trigger] semver_candidates(strings_view(tags@)).contains(x) ==> strings_view(r@).contains(x),
{
    let ghost tv = strings_view(tags@);
    let mut valid: Vec<String> = Vec::new();
    let mut i: usize = 0;
    while i < tags.len()
        invariant
            i <= tags.len(),
            tv == strings_view(tags@),
            strings_view(valid@) == semver_candidates(tv.take(i as int)),
        decreases tags.len() - i,
    {
        proof {
            assert(tv.take(i + 1).drop_last() == tv.take(i as int));
            assert(tv.take(i + 1).last() == tags@[i as int]@);
        }
        let stripped = strip_v_exec(tags[i].as_str());
        if semver_is_valid(stripped.as_str()) {
            let c = tags[i].clone();
            let ghost before = valid@;
            valid.push(c);
            proof {
                assert(strings_view(valid@) == strings_view(before).push(c@));
            }
        }
        i += 1;
    }
    proof {
        assert(tv.take(i as int) == tv);
        lemma_candidates_valid(tv);
        assert forall|j: int| 0 <= j < valid@.len() implies semver_parses(strip_v(#[trigger] valid@[j]@)) by {
            assert(strings_view(valid@)[j] == valid@[j]@);
        }
    }
    let mut sorted: Vec<String> = Vec::new();
    let mut k: usize = 0;
    while k < valid.len()
        invariant
            k <= valid.len(),
            strings_view(valid@) == semver_candidates(tv),
            forall|j: int| 0 <= j < valid@.len() ==> semver_parses(strip_v(#[trigger] valid@[j]@)),
            strings_view(sorted@) == sort_desc(strings_view(valid@).take(k as int)),
            forall|j: int| 0 <= j < sorted@.len() ==> semver_parses(strip_v(#[trigger] sorted@[j]@)),
            desc_sorted(strings_view(sorted@)),
            forall|j: int| 0 <= j < k ==> strings_view(sorted@).contains(#[trigger] strings_view(valid@)[j]),
        decreases valid.len() - k,
    {
        let ghost vv = strings_view(valid@);
        proof {
            assert(vv.take(k + 1).drop_last() == vv.take(k as int));
            assert(vv.take(k + 1).last() == valid@[k as int]@);
            assert(semver_parses(strip_v(vv[k as int])));
        }
        let c = valid[k].clone();
        insert_desc_exec(&mut sorted, c);
        proof {
            let vk = vv.take(k + 1);
            assert forall|j: int| 0 <= j < vk.len() implies semver_parses(strip_v(#[trigger] vk[j])) by {
                assert(vk[j] == vv[j]);
            }
            lemma_sort_desc_valid(vk);
            assert forall|j: int| 0 <= j < sorted@.len() implies semver_parses(strip_v(#[trigger] sorted@[j]@)) by {
                assert(strings_view(sorted@)[j] == sorted@[j]@);
            }
        }
        k += 1;
    }
    proof {
        assert(strings_view(valid@).take(k as int) == strings_view(valid@));
        assert forall|x: Seq<char>| #[trigger] semver_candidates(tv).contains(x) implies strings_view(sorted@).contains(x) by {
            let j = choose|j: int| 0 <= j < strings_view(valid@).len() && strings_view(valid@)[j] == x;
            assert(strings_view(sorted@).contains(strings_view(valid@)[j]));
        }
    }
    sorted
}

// ---------------------------------------------------------------------------
// Version resolution
// ---------------------------------------------------------------------------

/// The outcome of version resolution.
#[derive(Debug, Clone)]
pub struct ResolvedVersion {
    /// "tag", "branch", or "commit".
    pub channel: String,
    /// Tag name or branch name (empty for commit).
    pub version: String,
    /// Full commit hash, where it is already known.
    pub hash: String,
}

/// The model of a [`ResolvedVersion`]: channel, version and hash.
pub type ResolvedModel = (Seq<char>, Seq<char>, Seq<char>);

/// What resolving `version` gives. An empty request takes the highest
/// semantic-version tag, else the default branch at its head commit; a
/// request names a tag, else a branch, else a commit.
pub open spec fn spec_resolve_version(
    tags: Seq<Seq<char>>,
    branches: Seq<Seq<char>>,
    default_branch: Seq<char>,
    head_commit: Seq<char>,
    version: Seq<char>,
) -> ResolvedModel {
    if version.len() == 0 {
        let sorted = spec_sort_semver_tags(tags);
        if sorted.len() > 0 {
            ("tag"@, sorted[0], Seq::empty())
        } else {
            ("branch"@, default_branch, head_commit)
        }
    } else if tags.contains(version) {
        ("tag"@, version, Seq::empty())
    } else if branches.contains(version) {
        ("branch"@, version, Seq::empty())
    } else {
        ("commit"@, Seq::empty(), version)
    }
}

fn contains_string(list: &[String], s: &str) -> (r: bool)
    ensures
        r == strings_view(list@).contains(s@),
{
    let mut i: usize = 0;
    while i < list.len()
        invariant
            i <= list.len(),
            forall|j: int| 0 <= j < i ==> list@[j]@ != s@,
        decreases list.len() - i,
    {
        if str_eq(list[i].as_str(), s) {
            proof {
                assert(strings_view(list@)[i as int] == s@);
            }
            return true;
        }
        i += 1;
    }
    proof {
        if strings_view(list@).contains(s@) {
            let j = choose|j: int| 0 <= j < list@.len() && strings_view(list@)[j] == s@;
            assert(list@[j]@ == s@);
        }
    }
    false
}

/// Resolves a version request against the repository's tags and branches.
/// Resolution itself never fails; the hash of a tag or branch named by the
/// request is left empty for the caller to fill from the checkout.
pub fn resolve_version(
    tags: &[String],
    branches: &[String],
    default_branch: &str,
    head_commit: &str,
    version: &str,
) -> (r: Result<ResolvedVersion, SourceError>)
    ensures
        r matches Ok(rv) && (rv.channel@, rv.version@, rv.hash@) == spec_resolve_version(
            strings_view(tags@),
            strings_view(branches@),
            default_branch@,
            head_commit@,
            version@,
        ),
        version@.len() == 0 ==> (r matches Ok(rv)
            && latest_is_highest(strings_view(tags@), default_branch@, head_commit@, (rv.channel@, rv.version@, rv.hash@))),
{
    if version.is_empty() {
        return Ok(resolve_latest(tags, default_branch, head_commit));
    }
    if contains_string(tags, version) {
        return Ok(ResolvedVersion { channel: owned("tag"), version: owned(version), hash: String::new() });
    }
    if contains_string(branches, version) {
        return Ok(ResolvedVersion { channel: owned("branch"), version: owned(version), hash: String::new() });
    }
    Ok(ResolvedVersion { channel: owned("commit"), version: String::new(), hash: owned(version) })
}

/// A tag that names a semantic version (with or without a leading `v`).
pub open spec fn is_version_tag(tags: Seq<Seq<char>>, t: Seq<char>) -> bool {
    tags.contains(t) && semver_parses(strip_v(t))
}

/// The latest resolution: the highest semantic-version tag when the
/// repository has one (a tag no other semantic-version tag is above), else
/// the default branch at its head commit.
pub open spec fn latest_is_highest(tags: Seq<Seq<char>>, default_branch: Seq<char>, head_commit: Seq<char>, r: ResolvedModel) -> bool {
    if exists|t: Seq<char>| #[trigger] is_version_tag(tags, t) {
        &&& r.0 == "tag"@
        &&& is_version_tag(tags, r.1)
        &&& forall|t: Seq<char>| #[trigger] is_version_tag(tags, t) ==> t == r.1 || semver_order(strip_v(r.1), strip_v(t)) >= 0
    } else {
        r == ("branch"@, default_branch, head_commit)
    }
}

proof fn lemma_candidates_contain(tags: Seq<Seq<char>>, x: Seq<char>)
    ensures
        semver_candidates(tags).contains(x) <==> is_version_tag(tags, x),
    decreases tags.len(),
{
    if tags.len() > 0 {
        let d = tags.drop_last();
        let l = tags.last();
        lemma_candidates_contain(d, x);
        assert(tags == d.push(l));
        let rest = semver_candidates(d);
        if tags.contains(x) {
            let k = choose|k: int| 0 <= k < tags.len() && tags[k] == x;
            if k < d.len() {
                assert(d[k] == x);
            }
        }
        if d.contains(x) {
            let k = choose|k: int| 0 <= k < d.len() && d[k] == x;
            assert(tags[k] == x);
        }
        if semver_parses(strip_v(l)) {
            let c = rest.push(l);
            if c.contains(x) {
                let k = choose|k: int| 0 <= k < c.len() && c[k] == x;
                if k < rest.len() {
                    assert(rest[k] == x);
                }
            }
            if rest.contains(x) {
                let k = choose|k: int| 0 <= k < rest.len() && rest[k] == x;
                assert(c[k] == x);
            }
            assert(c[rest.len() as int] == l);
        }
    }
}

proof fn lemma_sort_desc_within(ts: Seq<Seq<char>>)
    ensures
        forall|i: int| 0 <= i < sort_desc(ts).len() ==> ts.contains(#[trigger] sort_desc(ts)[i]),
    decreases ts.len(),
{
    if ts.len() > 0 {
        let d = ts.drop_last();
        lemma_sort_desc_within(d);
        let s = sort_desc(d);
        let k = first_lower(s, ts.last(), 0);
        lemma_first_lower_bounds(s, ts.last(), 0);
        let n = s.insert(k, ts.last());
        assert forall|i: int| 0 <= i < n.len() implies ts.contains(#[trigger] n[i]) by {
            if i < k {
                assert(n[i] == s[i]);
                let j = choose|j: int| 0 <= j < d.len() && d[j] == s[i];
                assert(ts[j] == d[j]);
            } else if i == k {
                assert(ts[ts.len() - 1] == ts.last());
            } else {
                assert(n[i] == s[i - 1]);
                let j = choose|j: int| 0 <= j < d.len() && d[j] == s[i - 1];
                assert(ts[j] == d[j]);
            }
        }
    }
}

fn resolve_latest(tags: &[String], default_branch: &str, head_commit: &str) -> (r: ResolvedVersion)
    ensures
        (r.channel@, r.version@, r.hash@) == spec_resolve_version(
            strings_view(tags@),
            Seq::empty(),
            default_branch@,
            head_commit@,
            Seq::empty(),
        ),
        latest_is_highest(strings_view(tags@), default_branch@, head_commit@, (r.channel@, r.version@, r.hash@)),
{
    let ghost tv = strings_view(tags@);
    let sorted = sort_semver_tags(tags);
    let ghost sv = strings_view(sorted@);
    proof {
        lemma_candidates_valid(tv);
        lemma_sort_desc_valid(semver_candidates(tv));
        lemma_sort_desc_within(semver_candidates(tv));
    }
    if sorted.len() > 0 {
        let v = sorted[0].clone();
        proof {
            assert(sv[0] == sorted@[0]@);
            assert(semver_candidates(tv).contains(sv[0]));
            lemma_candidates_contain(tv, sv[0]);
            assert forall|t: Seq<char>| #[trigger] is_version_tag(tv, t) implies t == sv[0] || semver_order(strip_v(sv[0]), strip_v(t)) >= 0 by {
                lemma_candidates_contain(tv, t);
                let j = choose|j: int| 0 <= j < sv.len() && sv[j] == t;
                if j > 0 {
                    assert(semver_order(strip_v(sv[0]), strip_v(sv[j])) >= 0);
                }
            }
            assert(is_version_tag(tv, sv[0]));
        }
        return ResolvedVersion { channel: owned("tag"), version: v, hash: String::new() };
    }
    proof {
        assert forall|t: Seq<char>| !is_version_tag(tv, t) by {
            lemma_candidates_contain(tv, t);
            if semver_candidates(tv).contains(t) {
                assert(sv.contains(t));
            }
        }
    }
    ResolvedVersion { channel: owned("branch"), version: owned(default_branch), hash: owned(head_commit) }
}

} // verus!
