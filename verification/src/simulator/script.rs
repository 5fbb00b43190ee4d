//! Action scripts that drive a simulator session: waits, key presses and
//! screenshots, one command per line.
use vstd::prelude::*;
use crate::text::{
    all_digits, append, ascii_lower_char, chars_of, debug_quote, debug_quoted, decimal,
    decimal_exec, ends_with, ends_with_exec, eq_ignore_ascii_case, find, find_char_exec,
    is_ascii_digit, is_ascii_upper, lowercase, parse_unsigned, parse_unsigned_bounded, slice,
    string_of, to_lowercase, to_uppercase, trim_ws, trim_ws_exec, uppercase, vec_eq, words,
    words_exec,
};

verus! {

/// How long a `wait` lasts: whole milliseconds, or a number of seconds or
/// minutes written as a floating-point number (converted by the program).
#[derive(Debug, Clone, PartialEq, Eq)]
pub enum WaitTime {
    Millis(u64),
    Seconds(String),
    Minutes(String),
}

/// One command of an action script.
#[derive(Debug, Clone)]
pub enum ScriptCommand {
    Wait(WaitTime),
    KeyPress(String),
    KeyRelease(String),
    Screenshot(String),
}

/// The model of a [`WaitTime`].
pub enum WaitModel {
    Millis(u64),
    Seconds(Seq<char>),
    Minutes(Seq<char>),
}

/// The model of a [`ScriptCommand`].
pub enum CommandModel {
    Wait(WaitModel),
    KeyPress(Seq<char>),
    KeyRelease(Seq<char>),
    Screenshot(Seq<char>),
}

impl View for WaitTime {
    type V = WaitModel;

    open spec fn view(&self) -> WaitModel {
        match self {
            WaitTime::Millis(n) => WaitModel::Millis(*n),
            WaitTime::Seconds(s) => WaitModel::Seconds(s@),
            WaitTime::Minutes(s) => WaitModel::Minutes(s@),
        }
    }
}

impl View for ScriptCommand {
    type V = CommandModel;

    open spec fn view(&self) -> CommandModel {
        match self {
            ScriptCommand::Wait(w) => CommandModel::Wait(w@),
            ScriptCommand::KeyPress(s) => CommandModel::KeyPress(s@),
            ScriptCommand::KeyRelease(s) => CommandModel::KeyRelease(s@),
            ScriptCommand::Screenshot(s) => CommandModel::Screenshot(s@),
        }
    }
}

// ---------------------------------------------------------------------------
// Floating-point number syntax
// ---------------------------------------------------------------------------

/// `s` without one leading `+` or `-`.
pub open spec fn strip_sign(s: Seq<char>) -> Seq<char> {
    if s.len() > 0 && (s[0] == '+' || s[0] == '-') { s.skip(1) } else { s }
}

/// The position of the first `e` or `E`, or the length.
pub open spec fn exp_position(s: Seq<char>, i: int) -> int
    decreases s.len() - i,
{
    if i >= s.len() {
        s.len() as int
    } else if s[i] == 'e' || s[i] == 'E' {
        i
    } else {
        exp_position(s, i + 1)
    }
}

/// Digits with at most one `.`, and at least one digit.
pub open spec fn mantissa_ok(m: Seq<char>) -> bool {
    match find(m, seq!['.']) {
        None => m.len() > 0 && all_digits(m),
        Some(d) => m.len() >= 2 && all_digits(m.take(d)) && all_digits(m.skip(d + 1)),
    }
}

/// An optional sign followed by at least one digit.
pub open spec fn exponent_ok(x: Seq<char>) -> bool {
    strip_sign(x).len() > 0 && all_digits(strip_sign(x))
}

/// The texts `f64`'s `from_str` accepts: an optional sign, then `inf`,
/// `infinity` or `nan` in any case, or digits with an optional `.` and an
/// optional exponent (`e` or `E`, an optional sign, digits).
pub open spec fn float_syntax(s: Seq<char>) -> bool {
    let b = strip_sign(s);
    let e = exp_position(b, 0);
    ||| eq_ignore_ascii_case(b, "inf"@)
    ||| eq_ignore_ascii_case(b, "infinity"@)
    ||| eq_ignore_ascii_case(b, "nan"@)
    ||| (mantissa_ok(b.take(e)) && (e == b.len() || exponent_ok(b.skip(e + 1))))
}

fn all_digits_exec(s: &Vec<char>, lo: usize, hi: usize) -> (r: bool)
    requires
        lo <= hi <= s.len(),
    ensures
        r == all_digits(s@.subrange(lo as int, hi as int)),
{
    let mut i = lo;
    while i < hi
        invariant
            lo <= i <= hi <= s.len(),
            all_digits(s@.subrange(lo as int, i as int)),
        decreases hi - i,
    {
        if !('0' <= s[i] && s[i] <= '9') {
            proof {
                assert(s@.subrange(lo as int, hi as int)[i - lo] == s@[i as int]);
            }
            return false;
        }
        proof {
            assert forall|j: int| 0 <= j < i + 1 - lo implies is_ascii_digit(#[trigger] s@.subrange(lo as int, i + 1)[j]) by {
                if j < i - lo {
                    assert(s@.subrange(lo as int, i + 1)[j] == s@.subrange(lo as int, i as int)[j]);
                }
            }
        }
        i += 1;
    }
    true
}

pub(crate) fn eq_ascii_ci(a: &Vec<char>, b: &str) -> (r: bool)
    ensures
        r == eq_ignore_ascii_case(a@, b@),
{
    let bv = chars_of(b);
    if a.len() != bv.len() {
        return false;
    }
    let mut i: usize = 0;
    while i < a.len()
        invariant
            i <= a.len(),
            a.len() == bv.len(),
            bv@ == b@,
            forall|j: int| 0 <= j < i ==> ascii_lower_char(#[trigger] a@[j]) == ascii_lower_char(bv@[j]),
        decreases a.len() - i,
    {
        let x = a[i];
        let y = bv[i];
        let lx = if 'A' <= x && x <= 'Z' { ((x as u8) + 32) as char } else { x };
        let ly = if 'A' <= y && y <= 'Z' { ((y as u8) + 32) as char } else { y };
        proof {
            assert(lx == ascii_lower_char(x));
            assert(ly == ascii_lower_char(y));
        }
        if lx != ly {
            proof {
                assert(a@[i as int] == x && b@[i as int] == y);
                assert(ascii_lower_char(a@[i as int]) != ascii_lower_char(b@[i as int]));
            }
            return false;
        }
        i += 1;
    }
    true
}

/// Whether `f64`'s `from_str` accepts the text.
pub fn is_float_syntax(s: &Vec<char>) -> (r: bool)
    ensures
        r == float_syntax(s@),
{
    let b = if s.len() > 0 && (s[0] == '+' || s[0] == '-') { slice(s, 1, s.len()) } else { slice(s, 0, s.len()) };
    assert(b@ == strip_sign(s@));
    if eq_ascii_ci(&b, "inf") || eq_ascii_ci(&b, "infinity") || eq_ascii_ci(&b, "nan") {
        return true;
    }
    let mut e: usize = 0;
    while e < b.len() && b[e] != 'e' && b[e] != 'E'
        invariant
            e <= b.len(),
            exp_position(b@, 0) == exp_position(b@, e as int),
        decreases b.len() - e,
    {
        e += 1;
    }
    assert(exp_position(b@, 0) == e);
    let m = slice(&b, 0, e);
    assert(m@ == b@.take(e as int));
    let mant = match find_char_exec(&m, '.') {
        None => m.len() > 0 && all_digits_exec(&m, 0, m.len()),
        Some(d) => {
            proof {
                crate::text::lemma_find_bounds(m@, seq!['.']);
            }
            assert(find(m@, seq!['.']) == Some(d as int));
            assert(m@.subrange(0, d as int) == m@.take(d as int));
            assert(m@.subrange(d + 1, m.len() as int) == m@.skip(d + 1));
            m.len() >= 2 && all_digits_exec(&m, 0, d) && all_digits_exec(&m, d + 1, m.len())
        },
    };
    proof {
        if find(m@, seq!['.']) is None {
            assert(m@.subrange(0, m.len() as int) == m@);
        }
    }
    if !mant {
        return false;
    }
    if e == b.len() {
        return true;
    }
    let x = slice(&b, e + 1, b.len());
    assert(x@ == b@.skip(e + 1));
    let y = if x.len() > 0 && (x[0] == '+' || x[0] == '-') { slice(&x, 1, x.len()) } else { slice(&x, 0, x.len()) };
    assert(y@ == strip_sign(x@));
    assert(y@.subrange(0, y.len() as int) == y@);
    y.len() > 0 && all_digits_exec(&y, 0, y.len())
}

// ---------------------------------------------------------------------------
// Durations
// ---------------------------------------------------------------------------

/// How a duration reads: `<integer>ms`, `<number>s` or `<number>m`.
pub open spec fn spec_parse_duration(s: Seq<char>) -> Option<WaitModel> {
    if ends_with(s, "ms"@) {
        match parse_unsigned(s.take(s.len() - 2)) {
            Some(n) => if n <= u64::MAX { Some(WaitModel::Millis(n as u64)) } else { None },
            None => None,
        }
    } else if ends_with(s, "s"@) {
        if float_syntax(s.drop_last()) { Some(WaitModel::Seconds(s.drop_last())) } else { None }
    } else if ends_with(s, "m"@) {
        if float_syntax(s.drop_last()) { Some(WaitModel::Minutes(s.drop_last())) } else { None }
    } else {
        None
    }
}

/// Parses a duration: `<integer>ms`, `<number>s` or `<number>m`. A text
/// of another form is refused with the message `invalid duration "<s>"`.
pub fn parse_duration(s: &str) -> (r: Result<WaitTime, String>)
    ensures
        match spec_parse_duration(s@) {
            Some(w) => r matches Ok(t) && t@ == w,
            None => r matches Err(m) && m@ == "invalid duration "@ + debug_quoted(s@),
        },
{
    let v = chars_of(s);
    proof {
        reveal_strlit("ms");
        reveal_strlit("s");
        reveal_strlit("m");
    }
    if ends_with_exec(&v, &chars_of("ms")) {
        let rest = slice(&v, 0, v.len() - 2);
        assert(rest@ == s@.take(s@.len() - 2));
        match parse_unsigned_bounded(&rest, u64::MAX) {
            Some(n) => return Ok(WaitTime::Millis(n)),
            None => return Err(invalid_duration(s)),
        }
    }
    if ends_with_exec(&v, &chars_of("s")) || ends_with_exec(&v, &chars_of("m")) {
        let rest = slice(&v, 0, v.len() - 1);
        assert(rest@ == s@.drop_last());
        if !is_float_syntax(&rest) {
            return Err(invalid_duration(s));
        }
        if ends_with_exec(&v, &chars_of("s")) {
            return Ok(WaitTime::Seconds(string_of(&rest)));
        }
        return Ok(WaitTime::Minutes(string_of(&rest)));
    }
    Err(invalid_duration(s))
}

fn invalid_duration(s: &str) -> (m: String)
    ensures
        m@ == "invalid duration "@ + debug_quoted(s@),
{
    let mut v = chars_of("invalid duration ");
    append(&mut v, &chars_of(debug_quote(s).as_str()));
    string_of(&v)
}

// ---------------------------------------------------------------------------
// Scripts
// ---------------------------------------------------------------------------

/// `line <n>: ` for the line at index `i`.
pub open spec fn line_prefix(i: int) -> Seq<char> {
    "line "@ + decimal((i + 1) as nat) + ": "@
}

/// What one line contributes: nothing (blank or comment), a command, or the
/// error message.
pub open spec fn parse_line(line: Seq<char>, i: int) -> Result<Option<CommandModel>, Seq<char>> {
    let t = trim_ws(line);
    let parts = words(t);
    if t.len() == 0 || t[0] == '#' || parts.len() == 0 {
        Ok(None)
    } else if parts[0] == "wait"@ {
        if parts.len() != 2 {
            Err(line_prefix(i) + "wait requires a duration argument"@)
        } else {
            match spec_parse_duration(parts[1]) {
                Some(w) => Ok(Some(CommandModel::Wait(w))),
                None => Err(line_prefix(i) + "invalid duration "@ + debug_quoted(parts[1])),
            }
        }
    } else if parts[0] == "key"@ {
        if parts.len() != 3 {
            Err(line_prefix(i) + "key requires <name> press|release"@)
        } else if lowercase(parts[2]) == "press"@ {
            Ok(Some(CommandModel::KeyPress(uppercase(parts[1]))))
        } else if lowercase(parts[2]) == "release"@ {
            Ok(Some(CommandModel::KeyRelease(uppercase(parts[1]))))
        } else {
            Err(line_prefix(i) + "key action must be press or release, got "@ + debug_quoted(lowercase(parts[2])))
        }
    } else if parts[0] == "screenshot"@ {
        if parts.len() != 2 {
            Err(line_prefix(i) + "screenshot requires a file path"@)
        } else {
            Ok(Some(CommandModel::Screenshot(parts[1])))
        }
    } else {
        Err(line_prefix(i) + "unknown command "@ + debug_quoted(parts[0]))
    }
}

/// The commands of the first `n` lines, or the error of the first bad line.
pub open spec fn parse_lines(lines: Seq<Seq<char>>, n: int) -> Result<Seq<CommandModel>, Seq<char>>
    decreases n,
{
    if n <= 0 {
        Ok(Seq::empty())
    } else {
        match parse_lines(lines, n - 1) {
            Err(e) => Err(e),
            Ok(cmds) => match parse_line(lines[n - 1], n - 1) {
                Err(e) => Err(e),
                Ok(None) => Ok(cmds),
                Ok(Some(c)) => Ok(cmds.push(c)),
            },
        }
    }
}

proof fn lemma_error_persists(lines: Seq<Seq<char>>, k: int, n: int)
    requires
        1 <= k <= n,
        parse_lines(lines, k) is Err,
    ensures
        parse_lines(lines, n) == parse_lines(lines, k),
    decreases n - k,
{
    if k < n {
        lemma_error_persists(lines, k, n - 1);
    }
}

fn line_error(i: usize, rest: Vec<char>) -> (m: String)
    requires
        i < usize::MAX,
    ensures
        m@ == line_prefix(i as int) + rest@,
{
    let mut v = chars_of("line ");
    append(&mut v, &decimal_exec((i + 1) as u64));
    append(&mut v, &chars_of(": "));
    append(&mut v, &rest);
    string_of(&v)
}

fn parse_line_exec(line: &str, i: usize) -> (r: Result<Option<ScriptCommand>, String>)
    requires
        i < usize::MAX,
    ensures
        match parse_line(line@, i as int) {
            Ok(None) => r matches Ok(None),
            Ok(Some(c)) => r matches Ok(Some(cmd)) && cmd@ == c,
            Err(e) => r matches Err(m) && m@ == e,
        },
{
    let t = trim_ws_exec(&chars_of(line));
    let parts = words_exec(&t);
    let ghost pv = parts@.map_values(|v: Vec<char>| v@);
    if t.len() == 0 || t[0] == '#' || parts.len() == 0 {
        return Ok(None);
    }
    assert(pv[0] == parts@[0]@);
    if vec_eq(&parts[0], &chars_of("wait")) {
        if parts.len() != 2 {
            return Err(line_error(i, chars_of("wait requires a duration argument")));
        }
        assert(pv[1] == parts@[1]@);
        let arg = string_of(&parts[1]);
        match parse_duration(arg.as_str()) {
            Ok(w) => return Ok(Some(ScriptCommand::Wait(w))),
            Err(_) => {
                let mut m = chars_of("invalid duration ");
                append(&mut m, &chars_of(debug_quote(arg.as_str()).as_str()));
                return Err(line_error(i, m));
            },
        }
    }
    if vec_eq(&parts[0], &chars_of("key")) {
        if parts.len() != 3 {
            return Err(line_error(i, chars_of("key requires <name> press|release")));
        }
        assert(pv[1] == parts@[1]@ && pv[2] == parts@[2]@);
        let name = to_uppercase(string_of(&parts[1]).as_str());
        let action = to_lowercase(string_of(&parts[2]).as_str());
        let av = chars_of(action.as_str());
        if vec_eq(&av, &chars_of("press")) {
            return Ok(Some(ScriptCommand::KeyPress(name)));
        }
        if vec_eq(&av, &chars_of("release")) {
            return Ok(Some(ScriptCommand::KeyRelease(name)));
        }
        let mut m = chars_of("key action must be press or release, got ");
        append(&mut m, &chars_of(debug_quote(action.as_str()).as_str()));
        return Err(line_error(i, m));
    }
    if vec_eq(&parts[0], &chars_of("screenshot")) {
        if parts.len() != 2 {
            return Err(line_error(i, chars_of("screenshot requires a file path")));
        }
        assert(pv[1] == parts@[1]@);
        return Ok(Some(ScriptCommand::Screenshot(string_of(&parts[1]))));
    }
    let mut m = chars_of("unknown command ");
    append(&mut m, &chars_of(debug_quote(string_of(&parts[0]).as_str()).as_str()));
    Err(line_error(i, m))
}

/// Parses the lines of an action script: blank lines and `#` comments are
/// skipped; every other line is `wait <duration>`, `key <name>
/// press|release` or `screenshot <path>`. The first bad line is the error,
/// prefixed with its line number.
pub fn parse_script_reader(lines: &[String]) -> (r: Result<Vec<ScriptCommand>, String>)
    ensures
        match parse_lines(lines@.map_values(|s: String| s@), lines@.len() as int) {
            Ok(cmds) => r matches Ok(v) && v@.map_values(|c: ScriptCommand| c@) == cmds,
            Err(e) => r matches Err(m) && m@ == e,
        },
{
    let ghost lv = lines@.map_values(|s: String| s@);
    let mut out: Vec<ScriptCommand> = Vec::new();
    let mut i: usize = 0;
    assert(out@.map_values(|c: ScriptCommand| c@) =~= Seq::<CommandModel>::empty());
    while i < lines.len()
        invariant
            i <= lines.len(),
            lv == lines@.map_values(|s: String| s@),
            parse_lines(lv, i as int) == Ok::<Seq<CommandModel>, Seq<char>>(out@.map_values(|c: ScriptCommand| c@)),
        decreases lines.len() - i,
    {
        assert(lv[i as int] == lines@[i as int]@);
        match parse_line_exec(lines[i].as_str(), i) {
            Err(m) => {
                proof {
                    lemma_error_persists(lv, i + 1, lv.len() as int);
                }
                return Err(m);
            },
            Ok(None) => {},
            Ok(Some(c)) => {
                let ghost before = out@;
                out.push(c);
                proof {
                    assert(out@ == before.push(c));
                    assert(out@.map_values(|c: ScriptCommand| c@) == before.map_values(|c: ScriptCommand| c@).push(c@));
                }
            },
        }
        i += 1;
    }
    Ok(out)
}

} // verus!
