//! What `pkg info` shows about a package.
use vstd::prelude::*;
use crate::manifest::{display_filter_parts, Author, ContentItem, Manifest, RadioCapabilitiesFilter, UrlEntry, Variant};
use crate::source::PackageRef;
use crate::text::{append, chars_of, join, join_exec, string_of};

verus! {

/// A package's manifest, version and repository.
pub struct InfoResult {
    pub manifest: Manifest,
    pub version: String,
    pub repository_url: Option<String>,
}

/// Puts together the information on a package from its manifest and, for
/// a remote package, the version its fetch resolved: a local package has no
/// version and no repository URL; a remote one shows its clone URL.
pub fn fetch_info(pkg_ref: &PackageRef, manifest: Manifest, resolved_version: String) -> (r: InfoResult)
    ensures
        r.manifest == manifest,
        pkg_ref@.is_local() ==> r.version@.len() == 0 && r.repository_url is None,
        !pkg_ref@.is_local() ==> r.version@ == resolved_version@
            && (r.repository_url matches Some(u) && pkg_ref@.clone_url() == Some(u@)),
{
    if pkg_ref.is_local() {
        return InfoResult { manifest, version: String::new(), repository_url: None };
    }
    InfoResult { manifest, version: resolved_version, repository_url: pkg_ref.clone_url() }
}

/// The texts of a list of strings.
pub open spec fn texts(v: Seq<String>) -> Seq<Seq<char>> {
    v.map_values(|s: String| s@)
}

/// How wide the label column is.
pub const LABEL_WIDTH: usize = 14;

/// A label padded with spaces to the width of the label column; a longer
/// label stands as it is.
pub open spec fn padded_label(label: Seq<char>) -> Seq<char> {
    if label.len() < LABEL_WIDTH {
        label + Seq::new((LABEL_WIDTH - label.len()) as nat, |i: int| ' ')
    } else {
        label
    }
}

/// A line of the sheet: the padded label, then the value.
pub open spec fn field_line(label: Seq<char>, value: Seq<char>) -> Seq<char> {
    padded_label(label) + value
}

/// The keywords after the title: each after a `#`, separated by spaces.
pub open spec fn keyword_text(keywords: Seq<String>) -> Seq<char> {
    join(keywords.map_values(|k: String| "#"@ + k@), " "@)
}

/// An author as shown: the name, and the e-mail address in angle brackets
/// where there is one.
pub open spec fn author_text(a: Author) -> Seq<char> {
    match a.email {
        Some(e) => a.name@ + " <"@ + e@ + ">"@,
        None => a.name@,
    }
}

/// The display requirement a capabilities filter states, as text.
pub open spec fn display_text(caps: Option<RadioCapabilitiesFilter>) -> Option<Seq<char>> {
    match caps {
        Some(c) => match c.display {
            Some(d) => Some(join(display_filter_parts(d), ", "@)),
            None => None,
        },
        None => None,
    }
}

/// The repository line, where there is a repository.
pub open spec fn repository_line(url: Option<String>) -> Seq<Seq<char>> {
    match url {
        Some(u) => seq![field_line("repository:"@, u@)],
        None => Seq::empty(),
    }
}

/// The display line, where a display requirement is stated and not empty.
pub open spec fn display_line(caps: Option<RadioCapabilitiesFilter>) -> Seq<Seq<char>> {
    match display_text(caps) {
        Some(d) => optional_line(d.len() > 0, field_line("display:"@, d)),
        None => Seq::empty(),
    }
}

/// One line when `present`, else none.
pub open spec fn optional_line(present: bool, line: Seq<char>) -> Seq<Seq<char>> {
    if present { seq![line] } else { Seq::empty() }
}

/// The line of a content group: its label and the names of its items;
/// none for an empty group.
pub open spec fn group_part(label: Seq<char>, items: Seq<ContentItem>) -> Seq<Seq<char>> {
    optional_line(
        items.len() > 0,
        "  "@ + label + ": "@ + join(items.map_values(|c: ContentItem| c.name@), ", "@),
    )
}

/// The lines of the content groups, in the order libraries, tools,
/// widgets, telemetry, functions, mixes, sounds, images, files.
pub open spec fn group_lines(m: Manifest) -> Seq<Seq<char>> {
    group_part("libraries"@, m.libraries@) + group_part("tools"@, m.tools@) + group_part(
        "widgets"@,
        m.widgets@,
    ) + group_part("telemetry"@, m.telemetry@) + group_part("functions"@, m.functions@)
        + group_part("mixes"@, m.mixes@) + group_part("sounds"@, m.sounds@) + group_part(
        "images"@,
        m.images@,
    ) + group_part("files"@, m.files@)
}

/// The line of a variant: its path, and its display requirement in
/// brackets.
pub open spec fn variant_line(v: Variant) -> Seq<char> {
    let caps = match v.capabilities.display {
        Some(d) => join(display_filter_parts(d), ", "@),
        None => Seq::empty(),
    };
    "  "@ + v.path@ + " ("@ + caps + ")"@
}

/// A heading over some lines, where there are any.
pub open spec fn section(heading: Seq<char>, lines: Seq<Seq<char>>) -> Seq<Seq<char>> {
    if lines.len() == 0 { lines } else { seq![heading] + lines }
}

/// The first lines under the title: the id; the description, version,
/// license, minimum firmware and display requirement where they are given.
pub open spec fn head_lines(r: InfoResult) -> Seq<Seq<char>> {
    let pkg = r.manifest.package;
    seq![field_line("id:"@, pkg.id@)] + optional_line(pkg.description@.len() > 0, pkg.description@)
        + optional_line(r.version@.len() > 0, field_line("version:"@, r.version@)) + optional_line(
        pkg.license@.len() > 0,
        field_line("license:"@, pkg.license@),
    ) + optional_line(
        pkg.min_edgetx_version@.len() > 0,
        field_line("min-edgetx:"@, pkg.min_edgetx_version@),
    ) + display_line(pkg.capabilities)
}

/// The lines of a package's links.
pub open spec fn url_lines(urls: Seq<UrlEntry>) -> Seq<Seq<char>> {
    urls.map_values(|u: UrlEntry| field_line(u.name@ + ":"@, u.url@))
}

/// The authors line, where there are authors.
pub open spec fn authors_line(authors: Seq<Author>) -> Seq<Seq<char>> {
    optional_line(
        authors.len() > 0,
        field_line("authors:"@, join(authors.map_values(|a: Author| author_text(a)), ", "@)),
    )
}

/// The lines under the title: the first lines, the links, the repository,
/// the authors, then the contents and the variants each under a heading.
pub open spec fn info_lines(r: InfoResult) -> Seq<Seq<char>> {
    let pkg = r.manifest.package;
    head_lines(r) + url_lines(pkg.urls@) + repository_line(r.repository_url) + authors_line(
        pkg.authors@,
    ) + section("contents:"@, group_lines(r.manifest)) + section(
        "variants:"@,
        pkg.variants@.map_values(|v: Variant| variant_line(v)),
    )
}

/// What `pkg info` prints: the title (the package's display name, shown in
/// bold), the keywords after it, and the lines below.
pub struct InfoSheet {
    pub title: String,
    pub keywords: String,
    pub lines: Vec<String>,
}

fn push_text(lines: &mut Vec<String>, line: String)
    ensures
        texts(final(lines)@) == texts(old(lines)@).push(line@),
{
    lines.push(line);
    assert(texts(lines@) =~= texts(old(lines)@).push(line@));
}

fn push_texts(lines: &mut Vec<String>, more: Vec<String>)
    ensures
        texts(final(lines)@) == texts(old(lines)@) + texts(more@),
{
    let mut i: usize = 0;
    while i < more.len()
        invariant
            i <= more.len(),
            texts(lines@) == texts(old(lines)@) + texts(more@.take(i as int)),
        decreases more.len() - i,
    {
        push_text(lines, more[i].clone());
        assert(texts(more@.take(i + 1)) =~= texts(more@.take(i as int)).push(more@[i as int]@));
        i += 1;
    }
    assert(more@.take(more.len() as int) == more@);
}

fn field_line_exec(label: Vec<char>, value: &str) -> (r: String)
    ensures
        r@ == field_line(label@, value@),
{
    let mut v = label;
    if v.len() < LABEL_WIDTH {
        let ghost l = v@;
        let pad = LABEL_WIDTH - v.len();
        let mut i: usize = 0;
        while i < pad
            invariant
                i <= pad,
                pad == LABEL_WIDTH - l.len(),
                v@ == l + Seq::new(i as nat, |k: int| ' '),
            decreases pad - i,
        {
            v.push(' ');
            i += 1;
            assert(v@ =~= l + Seq::new(i as nat, |k: int| ' '));
        }
    }
    append(&mut v, &chars_of(value));
    string_of(&v)
}

fn keyword_text_exec(keywords: &Vec<String>) -> (r: String)
    ensures
        r@ == keyword_text(keywords@),
{
    let mut parts: Vec<Vec<char>> = Vec::new();
    let mut i: usize = 0;
    while i < keywords.len()
        invariant
            i <= keywords.len(),
            parts@.map_values(|v: Vec<char>| v@) == keywords@.take(i as int).map_values(
                |k: String| "#"@ + k@,
            ),
        decreases keywords.len() - i,
    {
        let mut p = chars_of("#");
        append(&mut p, &chars_of(keywords[i].as_str()));
        let ghost before = parts@;
        parts.push(p);
        proof {
            assert(keywords@.take(i + 1) == keywords@.take(i as int).push(keywords@[i as int]));
            assert(parts@.map_values(|v: Vec<char>| v@) =~= before.map_values(|v: Vec<char>| v@).push(
                "#"@ + keywords@[i as int]@,
            ));
        }
        i += 1;
        assert(parts@.map_values(|v: Vec<char>| v@) =~= keywords@.take(i as int).map_values(
            |k: String| "#"@ + k@,
        ));
    }
    assert(keywords@.take(keywords.len() as int) == keywords@);
    string_of(&join_exec(&parts, &chars_of(" ")))
}

fn authors_text_exec(authors: &Vec<Author>) -> (r: String)
    ensures
        r@ == join(authors@.map_values(|a: Author| author_text(a)), ", "@),
{
    let mut parts: Vec<Vec<char>> = Vec::new();
    let mut i: usize = 0;
    while i < authors.len()
        invariant
            i <= authors.len(),
            parts@.map_values(|v: Vec<char>| v@) == authors@.take(i as int).map_values(
                |a: Author| author_text(a),
            ),
        decreases authors.len() - i,
    {
        let mut p = chars_of(authors[i].name.as_str());
        match &authors[i].email {
            Some(e) => {
                append(&mut p, &chars_of(" <"));
                append(&mut p, &chars_of(e.as_str()));
                append(&mut p, &chars_of(">"));
            },
            None => {},
        }
        let ghost before = parts@;
        parts.push(p);
        proof {
            assert(authors@.take(i + 1) == authors@.take(i as int).push(authors@[i as int]));
            assert(parts@.map_values(|v: Vec<char>| v@) =~= before.map_values(|v: Vec<char>| v@).push(
                author_text(authors@[i as int]),
            ));
        }
        i += 1;
        assert(parts@.map_values(|v: Vec<char>| v@) =~= authors@.take(i as int).map_values(
            |a: Author| author_text(a),
        ));
    }
    assert(authors@.take(authors.len() as int) == authors@);
    string_of(&join_exec(&parts, &chars_of(", ")))
}

fn group_part_exec(label: &str, items: &Vec<ContentItem>) -> (r: Vec<String>)
    ensures
        texts(r@) == group_part(label@, items@),
{
    let mut out: Vec<String> = Vec::new();
    if items.len() == 0 {
        assert(texts(out@) =~= group_part(label@, items@));
        return out;
    }
    let mut names: Vec<Vec<char>> = Vec::new();
    let mut i: usize = 0;
    while i < items.len()
        invariant
            i <= items.len(),
            names@.map_values(|v: Vec<char>| v@) == items@.take(i as int).map_values(
                |c: ContentItem| c.name@,
            ),
        decreases items.len() - i,
    {
        let ghost before = names@;
        names.push(chars_of(items[i].name.as_str()));
        proof {
            assert(items@.take(i + 1) == items@.take(i as int).push(items@[i as int]));
            assert(names@.map_values(|v: Vec<char>| v@) =~= before.map_values(|v: Vec<char>| v@).push(
                items@[i as int].name@,
            ));
        }
        i += 1;
        assert(names@.map_values(|v: Vec<char>| v@) =~= items@.take(i as int).map_values(
            |c: ContentItem| c.name@,
        ));
    }
    assert(items@.take(items.len() as int) == items@);
    let mut line = chars_of("  ");
    append(&mut line, &chars_of(label));
    append(&mut line, &chars_of(": "));
    append(&mut line, &join_exec(&names, &chars_of(", ")));
    push_text(&mut out, string_of(&line));
    assert(texts(out@) =~= group_part(label@, items@));
    out
}

fn group_lines_exec(m: &Manifest) -> (r: Vec<String>)
    ensures
        texts(r@) == group_lines(*m),
{
    let mut out: Vec<String> = Vec::new();
    push_texts(&mut out, group_part_exec("libraries", &m.libraries));
    push_texts(&mut out, group_part_exec("tools", &m.tools));
    push_texts(&mut out, group_part_exec("widgets", &m.widgets));
    push_texts(&mut out, group_part_exec("telemetry", &m.telemetry));
    push_texts(&mut out, group_part_exec("functions", &m.functions));
    push_texts(&mut out, group_part_exec("mixes", &m.mixes));
    push_texts(&mut out, group_part_exec("sounds", &m.sounds));
    push_texts(&mut out, group_part_exec("images", &m.images));
    push_texts(&mut out, group_part_exec("files", &m.files));
    assert(texts(out@) =~= group_lines(*m));
    out
}

fn variant_lines_exec(variants: &Vec<Variant>) -> (r: Vec<String>)
    ensures
        texts(r@) == variants@.map_values(|v: Variant| variant_line(v)),
{
    let mut out: Vec<String> = Vec::new();
    let mut i: usize = 0;
    while i < variants.len()
        invariant
            i <= variants.len(),
            texts(out@) == variants@.take(i as int).map_values(|v: Variant| variant_line(v)),
        decreases variants.len() - i,
    {
        let v = &variants[i];
        let mut line = chars_of("  ");
        append(&mut line, &chars_of(v.path.as_str()));
        append(&mut line, &chars_of(" ("));
        match &v.capabilities.display {
            Some(d) => append(&mut line, &chars_of(d.to_string().as_str())),
            None => {},
        }
        append(&mut line, &chars_of(")"));
        push_text(&mut out, string_of(&line));
        proof {
            assert(variants@.take(i + 1) == variants@.take(i as int).push(variants@[i as int]));
        }
        i += 1;
        assert(texts(out@) =~= variants@.take(i as int).map_values(|v: Variant| variant_line(v)));
    }
    assert(variants@.take(variants.len() as int) == variants@);
    out
}

fn url_lines_exec(urls: &Vec<UrlEntry>) -> (r: Vec<String>)
    ensures
        texts(r@) == url_lines(urls@),
{
    let mut out: Vec<String> = Vec::new();
    let mut i: usize = 0;
    while i < urls.len()
        invariant
            i <= urls.len(),
            texts(out@) == urls@.take(i as int).map_values(
                |u: UrlEntry| field_line(u.name@ + ":"@, u.url@),
            ),
        decreases urls.len() - i,
    {
        let mut label = chars_of(urls[i].name.as_str());
        append(&mut label, &chars_of(":"));
        push_text(&mut out, field_line_exec(label, urls[i].url.as_str()));
        proof {
            assert(urls@.take(i + 1) == urls@.take(i as int).push(urls@[i as int]));
        }
        i += 1;
        assert(texts(out@) =~= urls@.take(i as int).map_values(
            |u: UrlEntry| field_line(u.name@ + ":"@, u.url@),
        ));
    }
    assert(urls@.take(urls.len() as int) == urls@);
    out
}

fn head_lines_exec(r: &InfoResult) -> (out: Vec<String>)
    ensures
        texts(out@) == head_lines(*r),
{
    let pkg = &r.manifest.package;
    let mut lines: Vec<String> = Vec::new();
    push_text(&mut lines, field_line_exec(chars_of("id:"), pkg.id.as_str()));
    let ghost a0 = texts(lines@);
    if !pkg.description.as_str().is_empty() {
        push_text(&mut lines, pkg.description.clone());
    }
    assert(texts(lines@) =~= a0 + optional_line(pkg.description@.len() > 0, pkg.description@));
    let ghost a1 = texts(lines@);
    if !r.version.as_str().is_empty() {
        push_text(&mut lines, field_line_exec(chars_of("version:"), r.version.as_str()));
    }
    assert(texts(lines@) =~= a1 + optional_line(r.version@.len() > 0, field_line("version:"@, r.version@)));
    let ghost a2 = texts(lines@);
    if !pkg.license.as_str().is_empty() {
        push_text(&mut lines, field_line_exec(chars_of("license:"), pkg.license.as_str()));
    }
    assert(texts(lines@) =~= a2 + optional_line(pkg.license@.len() > 0, field_line("license:"@, pkg.license@)));
    let ghost a3 = texts(lines@);
    if !pkg.min_edgetx_version.as_str().is_empty() {
        push_text(&mut lines, field_line_exec(chars_of("min-edgetx:"), pkg.min_edgetx_version.as_str()));
    }
    assert(texts(lines@) =~= a3 + optional_line(
        pkg.min_edgetx_version@.len() > 0,
        field_line("min-edgetx:"@, pkg.min_edgetx_version@),
    ));
    let ghost a4 = texts(lines@);
    match &pkg.capabilities {
        Some(caps) => match &caps.display {
            Some(d) => {
                let text = d.to_string();
                if !text.as_str().is_empty() {
                    push_text(&mut lines, field_line_exec(chars_of("display:"), text.as_str()));
                }
            },
            None => {},
        },
        None => {},
    }
    assert(texts(lines@) =~= a4 + display_line(pkg.capabilities));
    assert(texts(lines@) =~= head_lines(*r));
    lines
}

fn repository_line_exec(url: &Option<String>) -> (out: Vec<String>)
    ensures
        texts(out@) == repository_line(*url),
{
    let mut lines: Vec<String> = Vec::new();
    match url {
        Some(u) => push_text(&mut lines, field_line_exec(chars_of("repository:"), u.as_str())),
        None => {},
    }
    assert(texts(lines@) =~= repository_line(*url));
    lines
}

fn authors_line_exec(authors: &Vec<Author>) -> (out: Vec<String>)
    ensures
        texts(out@) == authors_line(authors@),
{
    let mut lines: Vec<String> = Vec::new();
    if authors.len() > 0 {
        let text = authors_text_exec(authors);
        push_text(&mut lines, field_line_exec(chars_of("authors:"), text.as_str()));
    }
    assert(texts(lines@) =~= authors_line(authors@));
    lines
}

fn section_exec(heading: &str, lines: Vec<String>) -> (out: Vec<String>)
    ensures
        texts(out@) == section(heading@, texts(lines@)),
{
    let mut out: Vec<String> = Vec::new();
    if lines.len() > 0 {
        push_text(&mut out, heading.to_owned());
        push_texts(&mut out, lines);
        assert(texts(out@) =~= section(heading@, texts(lines@)));
    } else {
        assert(texts(out@) =~= section(heading@, texts(lines@)));
    }
    out
}

/// Lays out what `pkg info` prints about a package.
pub fn info_sheet(r: &InfoResult) -> (s: InfoSheet)
    ensures
        s.title@ == (if r.manifest.package.name@.len() == 0 {
            r.manifest.package.id@
        } else {
            r.manifest.package.name@
        }),
        s.keywords@ == keyword_text(r.manifest.package.keywords@),
        texts(s.lines@) == info_lines(*r),
{
    let pkg = &r.manifest.package;
    let mut lines = head_lines_exec(r);
    push_texts(&mut lines, url_lines_exec(&pkg.urls));
    push_texts(&mut lines, repository_line_exec(&r.repository_url));
    push_texts(&mut lines, authors_line_exec(&pkg.authors));
    push_texts(&mut lines, section_exec("contents:", group_lines_exec(&r.manifest)));
    push_texts(&mut lines, section_exec("variants:", variant_lines_exec(&pkg.variants)));
    let title = pkg.display_name().to_owned();
    InfoSheet { title, keywords: keyword_text_exec(&pkg.keywords), lines }
}

} // verus!
