//! Arguments of the development commands, and what is read from them.
use vstd::prelude::*;
use crate::scaffold::ScriptType;
use crate::text::{
    append, chars_of, debug_quote, debug_quoted, ends_with, ends_with_exec, parse_unsigned,
    parse_unsigned_bounded, slice, split_char, split_char_exec, string_of, trim_ws, trim_ws_exec,
};

verus! {

/// The development commands.
#[derive(Debug)]
pub enum DevCommands {
    Init(InitArgs),
    Scaffold(ScaffoldArgs),
    Sync(SyncArgs),
    Simulator(SimulatorArgs),
}

/// Arguments of `dev init`.
#[derive(Debug)]
pub struct InitArgs {
    /// Package name; the directory's name when not given.
    pub name: Option<String>,
    /// Directory to create the manifest in.
    pub src_dir: String,
}

/// Arguments of `dev scaffold`.
#[derive(Debug)]
pub struct ScaffoldArgs {
    /// Script type: tool, telemetry, function, mix, widget or library.
    pub script_type: String,
    /// Script name.
    pub name: String,
    /// Directory holding the manifest.
    pub src_dir: String,
    /// Comma-separated library dependencies.
    pub depends: Option<String>,
    /// Mark the script as a development dependency.
    pub dev: bool,
}

/// Arguments of `dev sync`.
#[derive(Debug)]
pub struct SyncArgs {
    /// Directory to keep in step.
    pub target_dir: String,
    /// Directory holding the manifest.
    pub src_dir: String,
    /// Leave development dependencies out.
    pub no_dev: bool,
}

/// Arguments of `dev simulator`.
#[derive(Debug)]
pub struct SimulatorArgs {
    /// Radio model; picked interactively when not given.
    pub radio: Option<String>,
    /// SD card directory to use instead of the default one.
    pub sdcard: Option<String>,
    /// Do not sync a package found in the working directory.
    pub no_watch: bool,
    /// Reset the SD card before starting.
    pub reset: bool,
    /// Run without a window.
    pub headless: bool,
    /// Exit after this long (`5s`, `30s`, `1m`, `100ms`).
    pub timeout: Option<String>,
    /// Save the screen as PNG at exit.
    pub screenshot: Option<String>,
    /// Action script to run.
    pub script: Option<String>,
    pub subcommand: Option<SimulatorSubcommands>,
}

/// Subcommands of `dev simulator`.
#[derive(Debug)]
pub enum SimulatorSubcommands {
    /// List the radio models.
    List,
}

/// A timeout given on the command line.
#[derive(Debug, Clone, Copy, PartialEq, Eq, Structural)]
pub enum Timeout {
    Millis(u64),
    Seconds(u64),
    Minutes(u64),
}

/// The whole-number value of a timeout's digits, when it fits.
pub open spec fn timeout_count(s: Seq<char>) -> Option<u64> {
    match parse_unsigned(s) {
        Some(n) => if n <= u64::MAX { Some(n as u64) } else { None },
        None => None,
    }
}

/// How a timeout reads: whole milliseconds (`ms`), seconds (`s`) or
/// minutes (`m`). Digits that do not read as a number give `invalid
/// duration`; a text without one of the units is refused with a hint.
pub open spec fn spec_parse_duration(s: Seq<char>) -> Result<Timeout, Seq<char>> {
    if ends_with(s, "ms"@) {
        match timeout_count(s.take(s.len() - 2)) {
            Some(n) => Ok(Timeout::Millis(n)),
            None => Err("invalid duration"@),
        }
    } else if ends_with(s, "s"@) {
        match timeout_count(s.drop_last()) {
            Some(n) => Ok(Timeout::Seconds(n)),
            None => Err("invalid duration"@),
        }
    } else if ends_with(s, "m"@) {
        match timeout_count(s.drop_last()) {
            Some(n) => Ok(Timeout::Minutes(n)),
            None => Err("invalid duration"@),
        }
    } else {
        Err("invalid duration "@ + debug_quoted(s) + ": expected format like 5s, 30s, 1m, 100ms"@)
    }
}

/// Reads a timeout such as `5s`, `30s`, `1m` or `100ms`.
pub fn parse_duration(s: &str) -> (r: Result<Timeout, String>)
    ensures
        match spec_parse_duration(s@) {
            Ok(t) => r == Ok::<Timeout, String>(t),
            Err(m) => r matches Err(e) && e@ == m,
        },
{
    let v = chars_of(s);
    proof {
        reveal_strlit("ms");
        reveal_strlit("s");
        reveal_strlit("m");
    }
    if ends_with_exec(&v, &chars_of("ms")) {
        let rest = slice(&v, 0, v.len() - 2);
        assert(rest@ == s@.take(s@.len() - 2));
        return match parse_unsigned_bounded(&rest, u64::MAX) {
            Some(n) => Ok(Timeout::Millis(n)),
            None => Err("invalid duration".to_owned()),
        };
    }
    let seconds = ends_with_exec(&v, &chars_of("s"));
    if seconds || ends_with_exec(&v, &chars_of("m")) {
        let rest = slice(&v, 0, v.len() - 1);
        assert(rest@ == s@.drop_last());
        return match parse_unsigned_bounded(&rest, u64::MAX) {
            Some(n) => if seconds { Ok(Timeout::Seconds(n)) } else { Ok(Timeout::Minutes(n)) },
            None => Err("invalid duration".to_owned()),
        };
    }
    let mut m = chars_of("invalid duration ");
    append(&mut m, &chars_of(debug_quote(s).as_str()));
    append(&mut m, &chars_of(": expected format like 5s, 30s, 1m, 100ms"));
    Err(string_of(&m))
}

/// The package name `dev init` writes: the given one, else the name of the
/// directory, else `my-package`.
pub fn init_package_name(name: Option<&str>, dir_name: Option<&str>) -> (r: String)
    ensures
        r@ == match name {
            Some(n) => n@,
            None => match dir_name {
                Some(d) => d@,
                None => "my-package"@,
            },
        },
{
    match name {
        Some(n) => n.to_owned(),
        None => match dir_name {
            Some(d) => d.to_owned(),
            None => "my-package".to_owned(),
        },
    }
}

/// The manifest `dev init` writes for a package name.
pub open spec fn spec_init_manifest(name: Seq<char>) -> Seq<char> {
    "package:\n  name: "@ + name + "\n  description: \"\"\n  license: \"\"\n"@
}

/// The manifest `dev init` writes for a package name.
pub fn init_manifest(name: &str) -> (r: String)
    ensures
        r@ == spec_init_manifest(name@),
{
    let mut v = chars_of("package:\n  name: ");
    append(&mut v, &chars_of(name));
    append(&mut v, &chars_of("\n  description: \"\"\n  license: \"\"\n"));
    string_of(&v)
}

/// The dependencies given to `dev scaffold`: the comma-separated names,
/// each trimmed; none when the flag is absent.
pub open spec fn spec_parse_depends(depends: Option<Seq<char>>) -> Seq<Seq<char>> {
    match depends {
        Some(d) => split_char(d, ',').map_values(|p: Seq<char>| trim_ws(p)),
        None => Seq::empty(),
    }
}

/// Splits the `depends` flag of `dev scaffold`.
pub fn parse_depends(depends: Option<&str>) -> (r: Vec<String>)
    ensures
        r@.map_values(|s: String| s@) == spec_parse_depends(match depends {
            Some(d) => Some(d@),
            None => None,
        }),
{
    let mut out: Vec<String> = Vec::new();
    let d = match depends {
        Some(d) => d,
        None => {
            assert(out@.map_values(|s: String| s@) =~= Seq::<Seq<char>>::empty());
            return out;
        }
    };
    let parts = split_char_exec(&chars_of(d), ',');
    let ghost pv = parts@.map_values(|v: Vec<char>| v@);
    let ghost goal = split_char(d@, ',').map_values(|p: Seq<char>| trim_ws(p));
    let mut i: usize = 0;
    while i < parts.len()
        invariant
            i <= parts.len(),
            pv == parts@.map_values(|v: Vec<char>| v@),
            pv == split_char(d@, ','),
            goal == pv.map_values(|p: Seq<char>| trim_ws(p)),
            out@.map_values(|s: String| s@) == goal.take(i as int),
        decreases parts.len() - i,
    {
        let t = string_of(&trim_ws_exec(&parts[i]));
        let ghost before = out@;
        out.push(t);
        proof {
            assert(pv[i as int] == parts@[i as int]@);
            assert(out@.map_values(|s: String| s@) == before.map_values(|s: String| s@).push(t@));
            assert(goal.take(i + 1) == goal.take(i as int).push(goal[i as int]));
        }
        i += 1;
    }
    proof {
        assert(goal.take(i as int) == goal);
    }
    out
}

/// The manifest key `dev scaffold` reports for a script type: the type's
/// section, or the text itself for an unknown type.
pub fn scaffold_yaml_key(script_type: &str) -> (r: String)
    ensures
        (exists|t: ScriptType| #[trigger] t.spec_name() == script_type@) ==> (exists|t: ScriptType|
            #[trigger] t.spec_name() == script_type@ && r@ == t.spec_yaml_key()),
        (forall|t: ScriptType| #[trigger] t.spec_name() != script_type@) ==> r@ == script_type@,
{
    match ScriptType::parse(script_type) {
        Ok(t) => t.yaml_key().to_owned(),
        Err(_) => script_type.to_owned(),
    }
}

} // verus!
