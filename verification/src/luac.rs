//! The Lua bytecode compiler module: where it is kept, and what its
//! `compile` export's replies mean.
use vstd::prelude::*;
use crate::source::resolve::user_cache_dir;
use crate::text::{append, chars_of, path_join, path_join_exec, signed_decimal, signed_decimal_exec, string_of, trim_ws, trim_ws_exec};

verus! {

/// Errors of fetching, loading or running the compiler.
#[derive(Debug)]
pub enum LuacError {
    CacheDir,
    Http { context: String, message: String },
    Io { context: String, message: String },
    InvalidWasm,
    Runtime(String),
    Compile { message: String },
}

/// The message of an error.
pub open spec fn spec_luac_message(e: LuacError) -> Seq<char> {
    match e {
        LuacError::CacheDir => "cannot determine cache directory"@,
        LuacError::Http { context, message } => context@ + ": "@ + message@,
        LuacError::Io { context, message } => context@ + ": "@ + message@,
        LuacError::InvalidWasm => "downloaded Lua compiler is not a valid WASM binary"@,
        LuacError::Runtime(m) => "Lua compiler: "@ + m@,
        LuacError::Compile { message } => message@,
    }
}

impl LuacError {
    /// The error's message.
    pub fn message(&self) -> (r: String)
        ensures
            r@ == spec_luac_message(*self),
    {
        match self {
            LuacError::CacheDir => "cannot determine cache directory".to_owned(),
            LuacError::Http { context, message } | LuacError::Io { context, message } => {
                let mut v = chars_of(context.as_str());
                append(&mut v, &chars_of(": "));
                append(&mut v, &chars_of(message.as_str()));
                string_of(&v)
            },
            LuacError::InvalidWasm => "downloaded Lua compiler is not a valid WASM binary".to_owned(),
            LuacError::Runtime(m) => crate::text::concat("Lua compiler: ", m.as_str()),
            LuacError::Compile { message } => message.clone(),
        }
    }
}

/// The compiler's cache under a user cache directory.
pub open spec fn luac_dir(base: Seq<char>) -> Seq<char> {
    path_join(path_join(base, "edgetx-cli"@), "luac"@)
}

/// The compiler's cache under the user cache directory `base`.
pub fn luac_dir_under(base: &str) -> (r: String)
    ensures
        r@ == luac_dir(base@),
{
    path_join_exec(path_join_exec(base, "edgetx-cli").as_str(), "luac")
}

/// The compiler's cache of this user: `edgetx-cli/luac` under the user's
/// cache directory, or an error when there is none.
pub fn cache_dir() -> (r: Result<String, LuacError>)
    ensures
        match r {
            Ok(p) => exists|base: Seq<char>| p@ == #[trigger] luac_dir(base),
            Err(e) => e is CacheDir,
        },
{
    match user_cache_dir() {
        Some(base) => Ok(luac_dir_under(base.as_str())),
        None => Err(LuacError::CacheDir),
    }
}

/// The size of the buffer the source is copied into: its length, but at
/// least one byte (an empty source is a valid chunk; an empty allocation
/// is not).
pub fn source_buffer_len(len: usize) -> (r: usize)
    ensures
        r == (if len == 0 { 1 } else { len }),
{
    if len == 0 { 1 } else { len }
}

/// What the `compile` export's return value calls for.
#[derive(Debug)]
pub enum CompileReply {
    /// The bytecode is ready: read this many bytes of output.
    Output(usize),
    /// The source did not compile: read the error text.
    SyntaxError,
    /// The compiler failed.
    Failed(LuacError),
}

/// The meaning of `compile`'s return value: a positive one is the length
/// of the bytecode; -2 a syntax error; -1 no Lua state; -3 a failed dump.
pub open spec fn reply_matches(ret: i32, r: CompileReply) -> bool {
    if ret > 0 {
        r == CompileReply::Output(ret as usize)
    } else if ret == -2 {
        r is SyntaxError
    } else if ret == -1 {
        r matches CompileReply::Failed(LuacError::Runtime(m)) && m@ == "could not create a Lua state"@
    } else if ret == -3 {
        r matches CompileReply::Failed(LuacError::Runtime(m)) && m@ == "writing bytecode failed"@
    } else {
        r matches CompileReply::Failed(LuacError::Runtime(m)) && m@ == "compile returned "@ + signed_decimal(
            ret as int,
        )
    }
}

/// Reads `compile`'s return value.
pub fn compile_reply(ret: i32) -> (r: CompileReply)
    ensures
        reply_matches(ret, r),
{
    if ret > 0 {
        CompileReply::Output(ret as usize)
    } else if ret == -2 {
        CompileReply::SyntaxError
    } else if ret == -1 {
        CompileReply::Failed(LuacError::Runtime("could not create a Lua state".to_owned()))
    } else if ret == -3 {
        CompileReply::Failed(LuacError::Runtime("writing bytecode failed".to_owned()))
    } else {
        let mut v = chars_of("compile returned ");
        append(&mut v, &signed_decimal_exec(ret));
        CompileReply::Failed(LuacError::Runtime(string_of(&v)))
    }
}

/// The message of a syntax error, from what reading the compiler's error
/// buffer gave: nothing when it reported no error text, the text read
/// (trimmed), or the error that stopped the read.
pub open spec fn spec_compile_message(read: Option<Result<Seq<char>, Seq<char>>>) -> Seq<char> {
    match read {
        None => "unknown compile error"@,
        Some(Ok(text)) => trim_ws(text),
        Some(Err(e)) => "unknown compile error ("@ + e + ")"@,
    }
}

/// The message of a syntax error.
pub fn compile_message(read: Option<Result<String, String>>) -> (r: String)
    ensures
        r@ == spec_compile_message(match read {
            None => None,
            Some(Ok(t)) => Some(Ok(t@)),
            Some(Err(e)) => Some(Err(e@)),
        }),
{
    match read {
        None => "unknown compile error".to_owned(),
        Some(Ok(text)) => string_of(&trim_ws_exec(&chars_of(text.as_str()))),
        Some(Err(e)) => {
            let mut v = chars_of("unknown compile error (");
            append(&mut v, &chars_of(e.as_str()));
            append(&mut v, &chars_of(")"));
            string_of(&v)
        },
    }
}

} // verus!
