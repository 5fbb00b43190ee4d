use edgetx_cli::luac::{cache_dir, compile_message, compile_reply, luac_dir_under, source_buffer_len, CompileReply, LuacError};

#[test]
fn cache_dir_ends_with_luac() {
    let dir = cache_dir().unwrap();
    assert!(dir.ends_with("edgetx-cli/luac"), "got {dir}");
    assert_eq!(luac_dir_under("/home/u/.cache"), "/home/u/.cache/edgetx-cli/luac");
}

#[test]
fn compile_replies() {
    assert!(matches!(compile_reply(120), CompileReply::Output(120)));
    assert!(matches!(compile_reply(-2), CompileReply::SyntaxError));
    match compile_reply(-1) {
        CompileReply::Failed(e) => assert_eq!(e.message(), "Lua compiler: could not create a Lua state"),
        other => panic!("unexpected {other:?}"),
    }
    match compile_reply(-3) {
        CompileReply::Failed(e) => assert_eq!(e.message(), "Lua compiler: writing bytecode failed"),
        other => panic!("unexpected {other:?}"),
    }
    match compile_reply(0) {
        CompileReply::Failed(e) => assert_eq!(e.message(), "Lua compiler: compile returned 0"),
        other => panic!("unexpected {other:?}"),
    }
    match compile_reply(-7) {
        CompileReply::Failed(e) => assert_eq!(e.message(), "Lua compiler: compile returned -7"),
        other => panic!("unexpected {other:?}"),
    }
}

#[test]
fn compile_messages_and_buffers() {
    assert_eq!(compile_message(None), "unknown compile error");
    assert_eq!(compile_message(Some(Ok("  [string]:1: syntax error \n".into()))), "[string]:1: syntax error");
    assert_eq!(compile_message(Some(Err("get_error_ptr returned null".into()))), "unknown compile error (get_error_ptr returned null)");
    assert_eq!(source_buffer_len(0), 1);
    assert_eq!(source_buffer_len(42), 42);
    assert_eq!(LuacError::InvalidWasm.message(), "downloaded Lua compiler is not a valid WASM binary");
    assert_eq!(LuacError::CacheDir.message(), "cannot determine cache directory");
    let io = LuacError::Io { context: "reading x".into(), message: "denied".into() };
    assert_eq!(io.message(), "reading x: denied");
}
