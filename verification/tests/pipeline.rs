use luaproc::error::{Error, SyntaxProblem};
use luaproc::expand::DEFAULT_DEPTH;
use luaproc::lexer::lex;
use luaproc::process::{preprocess, process_file, rewrite_expanded};
use luaproc::render::render_tokens;
use luaproc::step::Source;

fn run(text: &str, flags: &[&str]) -> Result<String, Error> {
    preprocess(
        "main.lua".to_string(),
        text.to_string(),
        flags.iter().map(|f| f.to_string()).collect(),
        &vec![],
        DEFAULT_DEPTH,
    )
}

#[test]
fn process_file_guards_the_tokens() {
    let tokens = process_file("m.lua".to_string(), "x = 1 -- one".to_string()).unwrap();
    assert_eq!(render_tokens(tokens), "#ifndef m.lua #define m.lua #end x = 1 #endif");
}

#[test]
fn process_file_reports_text_that_does_not_lex() {
    assert!(matches!(
        process_file("m.lua".to_string(), "x = 'a'".to_string()),
        Err(Error::TokenizationError)
    ));
}

#[test]
fn rewriting_passes_run_in_order() {
    // Pasting comes first, then string literals are merged, then commas go.
    let tokens = lex("m", "f(a ## b, \"x\" \"y\", ) \"p\" ## \"q\"".to_string()).unwrap();
    assert_eq!(render_tokens(rewrite_expanded(tokens)), "f ( ab , \"xy\" ) \"p\" ## \"q\"");
}

#[test]
fn preprocess_runs_the_whole_pipeline() {
    let text = "
        #define LOG!(level, #...) = print(#level#, #...) #end
        #define NAME!(a, b) = a ## b #end
        -- a comment
        #ifdef debug!
          LOG!(info, 1, 2)
        #else
          LOG!(info)
        #endif
        local NAME!(foo, bar) = \"a\" \"b\"
    ";
    assert_eq!(
        run(text, &["debug"]).unwrap(),
        "print ( \"info\" , 1 , 2 ) local foobar = \"ab\""
    );
    assert_eq!(run(text, &[]).unwrap(), "print ( \"info\" ) local foobar = \"ab\"");
    assert_eq!(run(text, &["other", "x"]).unwrap(), "print ( \"info\" ) local foobar = \"ab\"");
}

#[test]
fn preprocess_of_plain_text_renders_it() {
    assert_eq!(run("local x = {1, 2}\nreturn x", &[]).unwrap(), "local x = { 1 , 2 } return x");
    assert_eq!(run("", &[]).unwrap(), "");
}

#[test]
fn preprocess_gives_no_text_on_error() {
    assert!(matches!(run("x '", &[]), Err(Error::TokenizationError)));
    assert!(matches!(run("a X! b", &[]), Err(Error::UndefinedMacroError { .. })));
    assert!(matches!(
        run("a #ifdef b! c", &[]),
        Err(Error::SyntaxError { problem: SyntaxProblem::UnterminatedConditional, .. })
    ));
    assert!(matches!(run("#include \"gone.lua\"", &[]), Err(Error::IncludeIOError { .. })));
}

#[test]
fn preprocess_includes_sources() {
    let sources = vec![Source {
        path: "defs.lua".to_string(),
        tokens: lex("defs.lua", "#define PI! = 3.14 #end".to_string()).unwrap(),
    }];
    let out = preprocess(
        "main.lua".to_string(),
        "#include \"defs.lua\"\n#include \"defs.lua\"\nr = PI!".to_string(),
        vec![],
        &sources,
        DEFAULT_DEPTH,
    )
    .unwrap();
    assert_eq!(out, "r = 3.14");
}

#[test]
fn a_file_that_includes_itself_is_expanded_once() {
    let sources = vec![Source {
        path: "main.lua".to_string(),
        tokens: lex("main.lua", "a #include \"main.lua\" b".to_string()).unwrap(),
    }];
    let out = preprocess(
        "main.lua".to_string(),
        "a #include \"main.lua\" b".to_string(),
        vec![],
        &sources,
        DEFAULT_DEPTH,
    )
    .unwrap();
    assert_eq!(out, "a b");
}

#[test]
fn preprocess_handles_a_longer_file() {
    let mut text = String::from("#define SQ!(x) = (x * x) #end\n");
    for i in 0..300 {
        text.push_str(&format!("local v{} = SQ!({}) + f(\"s{}\", {{1, 2}}) -- line {}\n", i, i, i, i));
    }
    let out = run(&text, &[]).unwrap();
    assert!(out.starts_with("local v0 = ( 0 * 0 ) + f ( \"s0\" , { 1 , 2 } ) local v1 ="));
    assert!(out.ends_with("local v299 = ( 299 * 299 ) + f ( \"s299\" , { 1 , 2 } )"));
}
