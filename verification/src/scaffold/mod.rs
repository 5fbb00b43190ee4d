//! Creating a new script in a package from a template: the script types,
//! the checks on the name and dependencies, and where the files go.
use vstd::prelude::*;
use crate::manifest::{ContentItem, Manifest, ManifestError};
use crate::manifest::validate::{debug_string_list, debug_strings};
use crate::text::{
    append, chars_of, debug_quote, debug_quoted, decimal, decimal_exec, find, find_exec, owned,
    path_join, path_join_exec, slice, str_eq, string_of, is_ascii_alpha, is_ascii_alpha_exec,
    is_ascii_alnum, is_ascii_alnum_exec,
};

verus! {

/// Errors of scaffolding a script.
#[derive(Debug)]
pub enum ScaffoldError {
    Validation(String),
    Manifest(ManifestError),
    Io { context: String, message: String },
}

/// One file a script type creates from a template; an empty file name
/// means a loose `<name>.lua` file rather than a file in the script's
/// directory.
pub struct TemplateFile {
    pub template: &'static str,
    pub filename: &'static str,
}

/// How a script type is laid out: its directory, its templates, and the
/// longest name the radio accepts (0: no limit).
pub struct ScriptSpec {
    pub dir_prefix: &'static str,
    pub templates: Vec<TemplateFile>,
    pub max_name_len: usize,
}

impl ScriptSpec {
    /// Whether the script lives in a directory of its own.
    pub fn dir_based(&self) -> (r: bool)
        requires
            self.templates@.len() > 0,
        ensures
            r == (self.templates@[0].filename@.len() > 0),
    {
        !self.templates[0].filename.is_empty()
    }
}

/// A kind of Lua script.
#[derive(Debug, Clone, Copy, PartialEq, Eq, Structural)]
pub enum ScriptType {
    Tool,
    Telemetry,
    Function,
    Mix,
    Widget,
    Library,
}

impl ScriptType {
    pub open spec fn spec_yaml_key(self) -> Seq<char> {
        match self {
            ScriptType::Tool => "tools"@,
            ScriptType::Telemetry => "telemetry"@,
            ScriptType::Function => "functions"@,
            ScriptType::Mix => "mixes"@,
            ScriptType::Widget => "widgets"@,
            ScriptType::Library => "libraries"@,
        }
    }

    pub open spec fn spec_name(self) -> Seq<char> {
        match self {
            ScriptType::Tool => "tool"@,
            ScriptType::Telemetry => "telemetry"@,
            ScriptType::Function => "function"@,
            ScriptType::Mix => "mix"@,
            ScriptType::Widget => "widget"@,
            ScriptType::Library => "library"@,
        }
    }

    /// The directory under which scripts of the type live.
    pub open spec fn spec_dir_prefix(self) -> Seq<char> {
        match self {
            ScriptType::Tool => "SCRIPTS/TOOLS"@,
            ScriptType::Telemetry => "SCRIPTS/TELEMETRY"@,
            ScriptType::Function => "SCRIPTS/FUNCTIONS"@,
            ScriptType::Mix => "SCRIPTS/MIXES"@,
            ScriptType::Widget => "WIDGETS"@,
            ScriptType::Library => "SCRIPTS"@,
        }
    }

    /// The longest name the radio accepts (0: no limit).
    pub open spec fn spec_max_name_len(self) -> nat {
        match self {
            ScriptType::Telemetry | ScriptType::Function | ScriptType::Mix => 6,
            ScriptType::Widget => 8,
            _ => 0,
        }
    }

    /// The template and file name of each file the type creates.
    pub open spec fn spec_templates(self) -> Seq<(Seq<char>, Seq<char>)> {
        match self {
            ScriptType::Tool => seq![("tool.lua.tmpl"@, "main.lua"@)],
            ScriptType::Telemetry => seq![("telemetry.lua.tmpl"@, ""@)],
            ScriptType::Function => seq![("function.lua.tmpl"@, ""@)],
            ScriptType::Mix => seq![("mix.lua.tmpl"@, ""@)],
            ScriptType::Widget => seq![("widget_main.lua.tmpl"@, "main.lua"@), ("widget_loadable.lua.tmpl"@, "loadable.lua"@)],
            ScriptType::Library => seq![("library.lua.tmpl"@, "main.lua"@)],
        }
    }

    /// The manifest key that lists scripts of the type.
    pub fn yaml_key(&self) -> (r: &'static str)
        ensures
            r@ == self.spec_yaml_key(),
    {
        match self {
            ScriptType::Tool => "tools",
            ScriptType::Telemetry => "telemetry",
            ScriptType::Function => "functions",
            ScriptType::Mix => "mixes",
            ScriptType::Widget => "widgets",
            ScriptType::Library => "libraries",
        }
    }

    /// The type's name as users write it.
    pub fn to_string(&self) -> (r: String)
        ensures
            r@ == self.spec_name(),
    {
        match self {
            ScriptType::Tool => "tool".to_owned(),
            ScriptType::Telemetry => "telemetry".to_owned(),
            ScriptType::Function => "function".to_owned(),
            ScriptType::Mix => "mix".to_owned(),
            ScriptType::Widget => "widget".to_owned(),
            ScriptType::Library => "library".to_owned(),
        }
    }

    /// Reads a type name (`tool`, `telemetry`, `function`, `mix`, `widget`
    /// or `library`).
    pub fn parse(s: &str) -> (r: Result<ScriptType, ScaffoldError>)
        ensures
            match r {
                Ok(t) => t.spec_name() == s@,
                Err(e) => (forall|t: ScriptType| t.spec_name() != s@)
                    && (e matches ScaffoldError::Validation(m) && m@ == "unknown script type "@ + debug_quoted(s@)
                        + " (valid types: tool, telemetry, function, mix, widget, library)"@),
            },
    {
        if str_eq(s, "tool") {
            Ok(ScriptType::Tool)
        } else if str_eq(s, "telemetry") {
            Ok(ScriptType::Telemetry)
        } else if str_eq(s, "function") {
            Ok(ScriptType::Function)
        } else if str_eq(s, "mix") {
            Ok(ScriptType::Mix)
        } else if str_eq(s, "widget") {
            Ok(ScriptType::Widget)
        } else if str_eq(s, "library") {
            Ok(ScriptType::Library)
        } else {
            let mut m = chars_of("unknown script type ");
            append(&mut m, &chars_of(debug_quote(s).as_str()));
            append(&mut m, &chars_of(" (valid types: tool, telemetry, function, mix, widget, library)"));
            proof {
                assert forall|t: ScriptType| t.spec_name() != s@ by {
                    match t {
                        ScriptType::Tool => {},
                        ScriptType::Telemetry => {},
                        ScriptType::Function => {},
                        ScriptType::Mix => {},
                        ScriptType::Widget => {},
                        ScriptType::Library => {},
                    }
                }
            }
            Err(ScaffoldError::Validation(string_of(&m)))
        }
    }

    /// How scripts of the type are laid out.
    pub fn spec(&self) -> (r: ScriptSpec)
        ensures
            r.dir_prefix@ == self.spec_dir_prefix(),
            r.max_name_len == self.spec_max_name_len(),
            r.templates@.map_values(|t: TemplateFile| (t.template@, t.filename@)) == self.spec_templates(),
    {
        let mut templates: Vec<TemplateFile> = Vec::new();
        let r = match self {
            ScriptType::Tool => {
                templates.push(TemplateFile { template: "tool.lua.tmpl", filename: "main.lua" });
                ScriptSpec { dir_prefix: "SCRIPTS/TOOLS", templates, max_name_len: 0 }
            },
            ScriptType::Telemetry => {
                templates.push(TemplateFile { template: "telemetry.lua.tmpl", filename: "" });
                ScriptSpec { dir_prefix: "SCRIPTS/TELEMETRY", templates, max_name_len: 6 }
            },
            ScriptType::Function => {
                templates.push(TemplateFile { template: "function.lua.tmpl", filename: "" });
                ScriptSpec { dir_prefix: "SCRIPTS/FUNCTIONS", templates, max_name_len: 6 }
            },
            ScriptType::Mix => {
                templates.push(TemplateFile { template: "mix.lua.tmpl", filename: "" });
                ScriptSpec { dir_prefix: "SCRIPTS/MIXES", templates, max_name_len: 6 }
            },
            ScriptType::Widget => {
                templates.push(TemplateFile { template: "widget_main.lua.tmpl", filename: "main.lua" });
                templates.push(TemplateFile { template: "widget_loadable.lua.tmpl", filename: "loadable.lua" });
                ScriptSpec { dir_prefix: "WIDGETS", templates, max_name_len: 8 }
            },
            ScriptType::Library => {
                templates.push(TemplateFile { template: "library.lua.tmpl", filename: "main.lua" });
                ScriptSpec { dir_prefix: "SCRIPTS", templates, max_name_len: 0 }
            },
        };
        assert(r.templates@.map_values(|t: TemplateFile| (t.template@, t.filename@)) =~= self.spec_templates());
        r
    }
}

/// What a scaffold is asked to do.
pub struct Options {
    pub script_type: ScriptType,
    pub name: String,
    pub depends: Vec<String>,
    pub src_dir: String,
    pub dev: bool,
}

/// The files a scaffold created and the content path it added.
pub struct ScaffoldResult {
    pub files: Vec<String>,
    pub content_path: String,
}

// ---------------------------------------------------------------------------
// Checks
// ---------------------------------------------------------------------------

/// The pattern a script name must match.
pub open spec fn name_pattern() -> Seq<char> {
    "^[A-Za-z][A-Za-z0-9_]*$"@
}

/// Whether a script name matches the name pattern: an ASCII letter, then
/// ASCII letters, digits and underscores.
pub open spec fn valid_script_name(name: Seq<char>) -> bool {
    &&& name.len() > 0
    &&& is_ascii_alpha(name[0])
    &&& forall|i: int| 1 <= i < name.len() ==> is_ascii_alnum(#[trigger] name[i]) || name[i] == '_'
}

/// Checks a script name against the name pattern.
pub fn valid_script_name_exec(name: &str) -> (r: bool)
    ensures
        r == valid_script_name(name@),
{
    let v = chars_of(name);
    if v.len() == 0 || !is_ascii_alpha_exec(v[0]) {
        return false;
    }
    let mut i: usize = 1;
    while i < v.len()
        invariant
            1 <= i <= v.len(),
            v@ == name@,
            forall|j: int| 1 <= j < i ==> is_ascii_alnum(#[trigger] v@[j]) || v@[j] == '_',
        decreases v.len() - i,
    {
        if !(is_ascii_alnum_exec(v[i]) || v[i] == '_') {
            return false;
        }
        i += 1;
    }
    true
}

/// The items listed under a manifest key (an unknown key lists none).
pub open spec fn items_under(m: &Manifest, key: Seq<char>) -> Seq<ContentItem> {
    if key == "tools"@ {
        m.tools@
    } else if key == "telemetry"@ {
        m.telemetry@
    } else if key == "functions"@ {
        m.functions@
    } else if key == "mixes"@ {
        m.mixes@
    } else if key == "widgets"@ {
        m.widgets@
    } else if key == "libraries"@ {
        m.libraries@
    } else if key == "sounds"@ {
        m.sounds@
    } else if key == "images"@ {
        m.images@
    } else if key == "files"@ {
        m.files@
    } else {
        Seq::empty()
    }
}

/// Some item has this name.
pub open spec fn name_listed(items: Seq<ContentItem>, name: Seq<char>) -> bool {
    exists|i: int| 0 <= i < items.len() && items[i].name@ == name
}

/// The names not given to any library, in order.
pub open spec fn unresolved_deps(libs: Seq<ContentItem>, depends: Seq<Seq<char>>) -> Seq<Seq<char>>
    decreases depends.len(),
{
    if depends.len() == 0 {
        depends
    } else {
        let rest = unresolved_deps(libs, depends.drop_last());
        if name_listed(libs, depends.last()) { rest } else { rest.push(depends.last()) }
    }
}

/// The UTF-8 length of a name, as `str::len` counts it.
pub open spec fn byte_len(s: Seq<char>) -> nat {
    vstd::utf8::encode_utf8(s).len()
}

/// The first check a scaffold fails, with its message, or `None`.
pub open spec fn scaffold_failure(opts: &Options, m: &Manifest) -> Option<Seq<char>> {
    let t = opts.script_type;
    let name = opts.name@;
    let key = t.spec_yaml_key();
    let unresolved = unresolved_deps(m.libraries@, opts.depends@.map_values(|s: String| s@));
    if !valid_script_name(name) {
        Some("invalid name "@ + debug_quoted(name) + ": must match "@ + name_pattern())
    } else if t.spec_max_name_len() > 0 && byte_len(name) > t.spec_max_name_len() {
        Some("name "@ + debug_quoted(name) + " is too long for "@ + t.spec_name() + " scripts (max "@
            + decimal(t.spec_max_name_len()) + " characters)"@)
    } else if name_listed(items_under(m, key), name) {
        Some("name "@ + debug_quoted(name) + " already exists in "@ + key)
    } else if unresolved.len() > 0 {
        Some("unresolved dependencies: "@ + debug_string_list(unresolved) + " (must reference libraries entries)"@)
    } else {
        None
    }
}

/// Where a new script's content goes, relative to the package: its own
/// directory, or a loose `<name>.lua` file.
pub open spec fn spec_content_path(t: ScriptType, name: Seq<char>) -> Seq<char> {
    if t.spec_templates()[0].1.len() > 0 {
        t.spec_dir_prefix() + "/"@ + name
    } else {
        t.spec_dir_prefix() + "/"@ + name + ".lua"@
    }
}

/// The files a new script creates, in template order.
pub open spec fn spec_script_files(t: ScriptType, name: Seq<char>, src_dir: Seq<char>) -> Seq<Seq<char>> {
    let cp = spec_content_path(t, name);
    if t.spec_templates()[0].1.len() > 0 {
        t.spec_templates().map_values(|tf: (Seq<char>, Seq<char>)| path_join(path_join(src_dir, cp), tf.1))
    } else {
        t.spec_templates().map_values(|tf: (Seq<char>, Seq<char>)| path_join(src_dir, cp))
    }
}

/// A scaffold that passed its checks: the content path, the directory to
/// create, and each file to write with the template it comes from.
pub struct ScaffoldPlan {
    pub content_path: String,
    pub base_dir: String,
    pub files: Vec<(String, &'static str)>,
}

fn lists_name(items: &Vec<ContentItem>, name: &str) -> (r: bool)
    ensures
        r == name_listed(items@, name@),
{
    let mut i: usize = 0;
    while i < items.len()
        invariant
            i <= items.len(),
            forall|j: int| 0 <= j < i ==> items@[j].name@ != name@,
        decreases items.len() - i,
    {
        if str_eq(items[i].name.as_str(), name) {
            return true;
        }
        i += 1;
    }
    false
}

fn name_taken(m: &Manifest, key: &str, name: &str) -> (r: bool)
    ensures
        r == name_listed(items_under(m, key@), name@),
{
    if str_eq(key, "tools") {
        lists_name(&m.tools, name)
    } else if str_eq(key, "telemetry") {
        lists_name(&m.telemetry, name)
    } else if str_eq(key, "functions") {
        lists_name(&m.functions, name)
    } else if str_eq(key, "mixes") {
        lists_name(&m.mixes, name)
    } else if str_eq(key, "widgets") {
        lists_name(&m.widgets, name)
    } else if str_eq(key, "libraries") {
        lists_name(&m.libraries, name)
    } else if str_eq(key, "sounds") {
        lists_name(&m.sounds, name)
    } else if str_eq(key, "images") {
        lists_name(&m.images, name)
    } else if str_eq(key, "files") {
        lists_name(&m.files, name)
    } else {
        false
    }
}

fn unresolved_exec(libs: &Vec<ContentItem>, depends: &Vec<String>) -> (r: Vec<String>)
    ensures
        r@.map_values(|s: String| s@) == unresolved_deps(libs@, depends@.map_values(|s: String| s@)),
{
    let ghost dv = depends@.map_values(|s: String| s@);
    let mut out: Vec<String> = Vec::new();
    let mut i: usize = 0;
    while i < depends.len()
        invariant
            i <= depends.len(),
            dv == depends@.map_values(|s: String| s@),
            out@.map_values(|s: String| s@) == unresolved_deps(libs@, dv.take(i as int)),
        decreases depends.len() - i,
    {
        proof {
            assert(dv.take(i + 1).drop_last() == dv.take(i as int));
            assert(dv.take(i + 1).last() == depends@[i as int]@);
        }
        if !lists_name(libs, depends[i].as_str()) {
            let c = depends[i].clone();
            let ghost before = out@;
            out.push(c);
            proof {
                assert(out@ == before.push(c));
            }
        }
        i += 1;
    }
    proof {
        assert(dv.take(i as int) == dv);
    }
    out
}

/// Checks a new script against the package's manifest and plans its
/// files: the name must match the pattern and fit the radio's limit, must
/// not be taken, and every dependency must name a library.
pub fn plan_scaffold(opts: &Options, m: &Manifest) -> (r: Result<ScaffoldPlan, ScaffoldError>)
    ensures
        match scaffold_failure(opts, m) {
            Some(msg) => r matches Err(ScaffoldError::Validation(e)) && e@ == msg,
            None => r matches Ok(plan)
                && plan.content_path@ == spec_content_path(opts.script_type, opts.name@)
                && plan.base_dir@ == (if opts.script_type.spec_templates()[0].1.len() > 0 {
                    path_join(opts.src_dir@, spec_content_path(opts.script_type, opts.name@))
                } else {
                    path_join(opts.src_dir@, opts.script_type.spec_dir_prefix())
                })
                && plan.files@.map_values(|f: (String, &'static str)| f.0@)
                    == spec_script_files(opts.script_type, opts.name@, opts.src_dir@)
                && plan.files@.map_values(|f: (String, &'static str)| f.1@)
                    == opts.script_type.spec_templates().map_values(|tf: (Seq<char>, Seq<char>)| tf.0),
        },
{
    let st = opts.script_type.spec();
    let name = opts.name.as_str();
    if !valid_script_name_exec(name) {
        let mut e = chars_of("invalid name ");
        append(&mut e, &chars_of(debug_quote(name).as_str()));
        append(&mut e, &chars_of(": must match "));
        append(&mut e, &chars_of("^[A-Za-z][A-Za-z0-9_]*$"));
        return Err(ScaffoldError::Validation(string_of(&e)));
    }
    let blen = name.as_bytes().len();
    if st.max_name_len > 0 && blen > st.max_name_len {
        let mut e = chars_of("name ");
        append(&mut e, &chars_of(debug_quote(name).as_str()));
        append(&mut e, &chars_of(" is too long for "));
        append(&mut e, &chars_of(opts.script_type.to_string().as_str()));
        append(&mut e, &chars_of(" scripts (max "));
        append(&mut e, &decimal_exec(st.max_name_len as u64));
        append(&mut e, &chars_of(" characters)"));
        return Err(ScaffoldError::Validation(string_of(&e)));
    }
    let key = opts.script_type.yaml_key();
    if name_taken(m, key, name) {
        let mut e = chars_of("name ");
        append(&mut e, &chars_of(debug_quote(name).as_str()));
        append(&mut e, &chars_of(" already exists in "));
        append(&mut e, &chars_of(key));
        return Err(ScaffoldError::Validation(string_of(&e)));
    }
    let unresolved = unresolved_exec(&m.libraries, &opts.depends);
    if unresolved.len() > 0 {
        let mut e = chars_of("unresolved dependencies: ");
        append(&mut e, &chars_of(debug_strings(&unresolved).as_str()));
        append(&mut e, &chars_of(" (must reference libraries entries)"));
        return Err(ScaffoldError::Validation(string_of(&e)));
    }
    proof {
        assert(opts.script_type.spec_templates().len() > 0);
        assert(st.templates@.map_values(|t: TemplateFile| (t.template@, t.filename@)).len() == st.templates@.len());
        assert(st.templates@.map_values(|t: TemplateFile| (t.template@, t.filename@))[0] == (st.templates@[0].template@, st.templates@[0].filename@));
    }
    let dir_based = st.dir_based();
    let mut cp = chars_of(st.dir_prefix);
    append(&mut cp, &chars_of("/"));
    append(&mut cp, &chars_of(name));
    if !dir_based {
        append(&mut cp, &chars_of(".lua"));
    }
    let content_path = string_of(&cp);
    let base_dir = if dir_based {
        path_join_exec(opts.src_dir.as_str(), content_path.as_str())
    } else {
        path_join_exec(opts.src_dir.as_str(), st.dir_prefix)
    };
    let ghost tv = st.templates@.map_values(|t: TemplateFile| (t.template@, t.filename@));
    let mut files: Vec<(String, &'static str)> = Vec::new();
    let mut i: usize = 0;
    while i < st.templates.len()
        invariant
            i <= st.templates.len(),
            tv == st.templates@.map_values(|t: TemplateFile| (t.template@, t.filename@)),
            tv == opts.script_type.spec_templates(),
            dir_based == (tv[0].1.len() > 0),
            content_path@ == spec_content_path(opts.script_type, opts.name@),
            dir_based ==> base_dir@ == path_join(opts.src_dir@, content_path@),
            files@.map_values(|f: (String, &'static str)| f.0@) == spec_script_files(opts.script_type, opts.name@, opts.src_dir@).take(i as int),
            files@.map_values(|f: (String, &'static str)| f.1@) == tv.map_values(|tf: (Seq<char>, Seq<char>)| tf.0).take(i as int),
        decreases st.templates.len() - i,
    {
        let tf = &st.templates[i];
        let path = if dir_based {
            path_join_exec(base_dir.as_str(), tf.filename)
        } else {
            path_join_exec(opts.src_dir.as_str(), content_path.as_str())
        };
        let ghost before = files@;
        files.push((path, tf.template));
        proof {
            assert(tv[i as int] == (tf.template@, tf.filename@));
            let f0 = spec_script_files(opts.script_type, opts.name@, opts.src_dir@);
            assert(f0.take(i + 1) == f0.take(i as int).push(f0[i as int]));
            let f1 = tv.map_values(|tf: (Seq<char>, Seq<char>)| tf.0);
            assert(f1.take(i + 1) == f1.take(i as int).push(f1[i as int]));
            assert(files@.map_values(|f: (String, &'static str)| f.0@) == before.map_values(|f: (String, &'static str)| f.0@).push(path@));
            assert(files@.map_values(|f: (String, &'static str)| f.1@) == before.map_values(|f: (String, &'static str)| f.1@).push(tf.template@));
        }
        i += 1;
    }
    proof {
        let f0 = spec_script_files(opts.script_type, opts.name@, opts.src_dir@);
        assert(f0.take(i as int) == f0);
        let f1 = tv.map_values(|tf: (Seq<char>, Seq<char>)| tf.0);
        assert(f1.take(i as int) == f1);
    }
    Ok(ScaffoldPlan { content_path, base_dir, files })
}

// ---------------------------------------------------------------------------
// Templates
// ---------------------------------------------------------------------------

/// `s` with every non-overlapping occurrence of `p`, from the left,
/// replaced by `r`.
pub open spec fn replace_all(s: Seq<char>, p: Seq<char>, r: Seq<char>) -> Seq<char>
    decreases s.len(),
{
    if p.len() == 0 {
        s
    } else {
        match find(s, p) {
            None => s,
            Some(i) => if 0 <= i && i + p.len() <= s.len() {
                s.take(i) + r + replace_all(s.skip(i + p.len()), p, r)
            } else {
                s
            },
        }
    }
}

/// The marker a template holds where the script's name goes.
pub open spec fn name_marker() -> Seq<char> {
    "{{ .Name }}"@
}

/// Fills a template: every `{{ .Name }}` becomes the script's name.
pub fn render_template(content: &str, name: &str) -> (r: String)
    ensures
        r@ == replace_all(content@, name_marker(), name@),
{
    let marker = chars_of("{{ .Name }}");
    let rv = chars_of(name);
    proof {
        reveal_strlit("{{ .Name }}");
    }
    let mut rest = chars_of(content);
    let mut out: Vec<char> = Vec::new();
    while rest.len() > 0
        invariant
            marker@ == name_marker(),
            marker@.len() == 11,
            rv@ == name@,
            out@ + replace_all(rest@, marker@, rv@) == replace_all(content@, marker@, rv@),
        decreases rest.len(),
    {
        match find_exec(&rest, &marker) {
            None => {
                append(&mut out, &rest);
                rest = Vec::new();
                proof {
                    assert(out@ + replace_all(rest@, marker@, rv@) == out@);
                }
            },
            Some(i) => {
                proof {
                    crate::text::lemma_find_bounds(rest@, marker@);
                }
                let n = rest.len();
                let k = marker.len();
                assert(i + k <= n);
                let head = slice(&rest, 0, i);
                let tail = slice(&rest, i + k, n);
                let ghost old_out = out@;
                let ghost old_rest = rest@;
                append(&mut out, &head);
                append(&mut out, &rv);
                rest = tail;
                proof {
                    assert(old_rest.take(i as int) == head@);
                    assert(old_rest.skip(i + 11) == rest@);
                    assert(replace_all(old_rest, marker@, rv@) == head@ + rv@ + replace_all(rest@, marker@, rv@));
                    assert(out@ == old_out + head@ + rv@);
                    assert(out@ + replace_all(rest@, marker@, rv@) == old_out + replace_all(old_rest, marker@, rv@));
                }
            },
        }
    }
    proof {
        assert(replace_all(rest@, marker@, rv@) == rest@);
        assert(out@ + rest@ == out@);
    }
    string_of(&out)
}

} // verus!
