use luaproc::error::{Error, SyntaxProblem};
use luaproc::expand::{process_tokens, DEFAULT_DEPTH};
use luaproc::guard::add_flags;
use luaproc::lexer::lex;
use luaproc::render::render_tokens;
use luaproc::step::Source;
use luaproc::table::{FuncMacro, ValueMacro};
use luaproc::token::{Token, TokenKind};

fn lexes(text: &str) -> Vec<Token> {
    lex("main.lua", text.to_string()).expect("the text lexes")
}

fn expand_with(text: &str, sources: &Vec<Source>) -> Result<Vec<Token>, Error> {
    let mut value_macros: Vec<ValueMacro> = vec![];
    let mut func_macros: Vec<FuncMacro> = vec![];
    process_tokens(lexes(text), &mut value_macros, &mut func_macros, sources, DEFAULT_DEPTH)
}

fn expand(text: &str) -> Result<Vec<Token>, Error> {
    expand_with(text, &vec![])
}

fn expands_to(text: &str) -> String {
    render_tokens(expand(text).expect("the text expands"))
}

fn syntax_problem(text: &str) -> (SyntaxProblem, i32, i32) {
    match expand(text) {
        Err(Error::SyntaxError { problem, location }) => (problem, location.line, location.column),
        other => panic!("expected a syntax error, got {:?}", other),
    }
}

#[test]
fn plain_tokens_expand_to_themselves() {
    assert_eq!(expands_to("local x = f(1, \"two\") ; #else #end ## #... #...# #a#"),
        "local x = f ( 1 , \"two\" ) ; #else #end ## #... #...# #a#");
    let tokens = lexes("a + b");
    let mut value_macros = vec![ValueMacro { name: "a".to_string(), tokens: vec![] }];
    let mut func_macros = vec![];
    let out = process_tokens(tokens, &mut value_macros, &mut func_macros, &vec![], 0).unwrap();
    assert_eq!(render_tokens(out), "a + b");
    assert_eq!(value_macros.len(), 1);
}

#[test]
fn expanding_twice_changes_nothing() {
    let once = expand("#define ADD!(a, b) = a + b #end x = ADD!(1, 2) #endif y").unwrap();
    let text = render_tokens(once.clone());
    assert_eq!(text, "x = 1 + 2 y");
    let mut value_macros = vec![];
    let mut func_macros = vec![];
    let twice = process_tokens(once, &mut value_macros, &mut func_macros, &vec![], 0).unwrap();
    assert_eq!(render_tokens(twice), text);
    assert!(value_macros.is_empty() && func_macros.is_empty());
}

#[test]
fn value_macro_expands_to_its_body() {
    assert_eq!(expands_to("#define X! = 1 + 2 #end X!"), "1 + 2");
    assert_eq!(expands_to("#define X! = 1 + 2 #end a X! b X!"), "a 1 + 2 b 1 + 2");
}

#[test]
fn value_macro_without_body_expands_to_nothing() {
    assert_eq!(expands_to("#define X! #end a X! b"), "a b");
    assert_eq!(expands_to("#define X! = #end a X! b"), "a b");
}

#[test]
fn function_macro_binds_parameters_by_position() {
    assert_eq!(expands_to("#define ADD!(a, b) = a + b #end ADD!(1, 2)"), "1 + 2");
    assert_eq!(expands_to("#define ADD![a, b] = a + b #end ADD!{1, 2}"), "1 + 2");
    assert_eq!(expands_to("#define P!(a; b) = b a #end P!(x y; z)"), "z x y");
}

#[test]
fn function_macro_arguments_may_nest_brackets() {
    assert_eq!(
        expands_to("#define F!(a, b) = [a] [b] #end F!(g(1, 2), {3, 4})"),
        "[ g ( 1 , 2 ) ] [ { 3 , 4 } ]"
    );
}

#[test]
fn function_macro_without_body() {
    assert_eq!(expands_to("#define F!(a) #end x F!(1) y"), "x y");
}

#[test]
fn missing_arguments_leave_parameters_in_place() {
    assert_eq!(expands_to("#define F!(a, b) = a b #end F!(1)"), "1 b");
    assert_eq!(expands_to("#define F!(a, b) = a b #end F!()"), "a b");
}

#[test]
fn surplus_arguments_are_dropped_without_vararg() {
    assert_eq!(expands_to("#define F!(a, b) = a b #end F!(1, 2, 3)"), "1 2");
}

#[test]
fn parameters_are_bound_one_after_the_other() {
    // What the first argument brings in, the second parameter replaces.
    assert_eq!(expands_to("#define F!(a, b) = a #end F!(b, 2)"), "2");
}

#[test]
fn stringify_gives_one_string_token() {
    let out = expand("#define M!(x) = #x# #end M!(foo)").unwrap();
    assert_eq!(out.len(), 1);
    assert_eq!(out[0].kind, TokenKind::String);
    assert_eq!(out[0].value, "\"foo\"");
}

#[test]
fn stringify_renders_and_escapes_the_argument() {
    let out = expand("#define M!(x) = #x# #end M!(print(\"a\") + 1)").unwrap();
    assert_eq!(out.len(), 1);
    assert_eq!(out[0].value, "\"print ( \\\"a\\\" ) + 1\"");
}

#[test]
fn vararg_splices_the_surplus_arguments() {
    assert_eq!(expands_to("#define L!(#...) = f(#...) #end L!(1, 2, 3)"), "f ( 1 , 2 , 3 )");
    assert_eq!(
        expands_to("#define L!(a, #...) = a: f(#...) #end L!(1, 2, 3)"),
        "1 : f ( 2 , 3 )"
    );
    assert_eq!(expands_to("#define L!(a, #...) = f(a #...) #end L!(1)"), "f ( 1 )");
}

#[test]
fn stringify_vararg_joins_quoted_arguments() {
    assert_eq!(
        expands_to("#define S!(#...) = g(#...#) #end S!(a, b + 1)"),
        "g ( \"a\" , \"b + 1\" )"
    );
}

#[test]
fn replaced_tokens_take_the_place_of_the_parameter() {
    let out = expand("#define F!(a) =\n  a #end\nF!(1 + 2)").unwrap();
    assert_eq!(out.len(), 3);
    assert!(out.iter().all(|t| (t.location.line, t.location.column) == (2, 3)));
}

#[test]
fn bodies_are_expanded_when_invoked() {
    assert_eq!(expands_to("#define A! = B! #end #define B! = 1 #end A!"), "1");
    assert_eq!(
        expands_to("#define TWICE!(x) = x x #end #define ONE! = 1 #end TWICE!(ONE!)"),
        "1 1"
    );
}

#[test]
fn nested_definitions_are_captured_whole() {
    assert_eq!(
        expands_to("#define OUTER! = #define INNER! = 5 #end INNER! #end OUTER! INNER!"),
        "5 5"
    );
    assert!(matches!(
        expand("#define OUTER! = #define INNER! = 5 #end #end INNER!"),
        Err(Error::UndefinedMacroError { .. })
    ));
}

#[test]
fn unclosed_body_runs_to_the_end() {
    assert_eq!(expands_to("a #define X! = 1 2 3"), "a");
}

#[test]
fn name_followed_by_bang_in_a_body_is_a_call() {
    assert_eq!(expands_to("#define ONE! = 1 #end #define X! = ONE ! #end X!"), "1");
    assert_eq!(
        expands_to("#define ONE! = 1 #end #define CALL!(f) = f ! #end CALL!(ONE)"),
        "1"
    );
}

#[test]
fn later_definition_overwrites_earlier() {
    assert_eq!(expands_to("#define X! = 1 #end #define X! = 2 #end X!"), "2");
    assert_eq!(expands_to("#define F!(a) = a #end #define F!(a) = a a #end F!(1)"), "1 1");
}

#[test]
fn value_macro_goes_before_function_macro() {
    assert_eq!(expands_to("#define X!(a) = a #end #define X! = v #end X!(1)"), "v ( 1 )");
}

#[test]
fn conditional_keeps_the_selected_branch() {
    let text = "#ifdef a! X #else Y #endif";
    let mut value_macros = vec![];
    let mut func_macros = vec![];
    let with = add_flags(vec!["a".to_string()], lexes(text));
    let out =
        process_tokens(with, &mut value_macros, &mut func_macros, &vec![], DEFAULT_DEPTH).unwrap();
    assert_eq!(render_tokens(out), "X");
    assert_eq!(expands_to(text), "Y");
    assert_eq!(expands_to("#ifdef a! X #endif"), "");
    assert_eq!(expands_to("p #ifndef a! X #else Y #endif q"), "p X q");
    assert_eq!(expands_to("#define a! #end #ifndef a! X #else Y #endif"), "Y");
    assert_eq!(expands_to("#define a!(x) #end #ifdef a! X #endif"), "X");
}

#[test]
fn nested_conditionals_are_resolved_with_their_branch() {
    let text = "#ifdef a! #ifdef b! X #else W #endif Y #else #ifndef b! Z #endif #endif";
    assert_eq!(expands_to(text), "Z");
    assert_eq!(expands_to(&format!("#define a! #end {}", text)), "W Y");
    assert_eq!(expands_to(&format!("#define a! #end #define b! #end {}", text)), "X Y");
    // The untaken branch is not looked into.
    assert_eq!(expands_to("#ifdef a! UNKNOWN! #define #endif ok"), "ok");
}

#[test]
fn definitions_in_a_taken_branch_stay() {
    assert_eq!(expands_to("#ifndef a! #define X! = 1 #end #endif X!"), "1");
}

#[test]
fn stray_endif_is_dropped_and_stray_else_is_kept() {
    assert_eq!(expands_to("a #endif b"), "a b");
    assert_eq!(expands_to("a #else b"), "a #else b");
}

#[test]
fn undef_removes_the_macro() {
    match expand("#define X! = 1 #end #undef X! X!") {
        Err(Error::UndefinedMacroError { name, location }) => {
            assert_eq!(name, "X!");
            assert_eq!((location.line, location.column), (1, 31));
        }
        other => panic!("expected an undefined macro, got {:?}", other),
    }
    assert!(matches!(
        expand("#define F!(a) = a #end #undef F! F!(1)"),
        Err(Error::UndefinedMacroError { .. })
    ));
    assert_eq!(expands_to("#undef NEVER! a"), "a");
    assert_eq!(expands_to("#define X! #end #undef X! #ifdef X! yes #else no #endif"), "no");
}

#[test]
fn undefined_macro_fails() {
    match expand("a\n  X!") {
        Err(Error::UndefinedMacroError { name, location }) => {
            assert_eq!(name, "X!");
            assert_eq!((location.line, location.column), (2, 3));
            assert_eq!(location.file, "main.lua");
        }
        other => panic!("expected an undefined macro, got {:?}", other),
    }
}

#[test]
fn unterminated_conditional_fails() {
    assert_eq!(syntax_problem("a #ifdef a! X"), (SyntaxProblem::UnterminatedConditional, 1, 3));
    assert_eq!(
        syntax_problem("#ifndef a! X #else Y"),
        (SyntaxProblem::UnterminatedConditional, 1, 1)
    );
    assert_eq!(
        syntax_problem("#ifdef a! #ifdef b! X #endif"),
        (SyntaxProblem::UnterminatedConditional, 1, 1)
    );
}

#[test]
fn malformed_directives_fail() {
    assert_eq!(syntax_problem("#ifdef a X #endif"), (SyntaxProblem::ConditionalName, 1, 1));
    assert_eq!(syntax_problem("x #ifndef"), (SyntaxProblem::ConditionalName, 1, 3));
    assert_eq!(syntax_problem("#define X = 1 #end"), (SyntaxProblem::DefinitionName, 1, 1));
    assert_eq!(syntax_problem("#define X!"), (SyntaxProblem::DefinitionForm, 1, 9));
    assert_eq!(syntax_problem("#define X! 5 #end"), (SyntaxProblem::DefinitionShape, 1, 9));
    assert_eq!(syntax_problem("#undef X"), (SyntaxProblem::UndefName, 1, 1));
    assert_eq!(syntax_problem("#include X!"), (SyntaxProblem::IncludePath, 1, 1));
}

#[test]
fn malformed_parameter_lists_fail() {
    for text in [
        "#define F!(1) = a #end",
        "#define F!() = a #end",
        "#define F!(a b) = a #end",
        "#define F!(a,) = a #end",
        "#define F!(a, #..., b) = a #end",
        "#define F!(#... b) = a #end",
        "#define F!(a",
        "#define F!(a) a #end",
        "#define F!(a)",
    ] {
        assert_eq!(syntax_problem(text), (SyntaxProblem::FunctionMacro, 1, 9), "{}", text);
    }
}

#[test]
fn malformed_argument_lists_fail() {
    for text in ["F! 1", "F!", "F!(1, 2", "F!(", "F!(g(1)", "F!(1,"] {
        match expand(&format!("#define F!(a) = a #end\n{}", text)) {
            Err(Error::ArgumentParseError { location }) => {
                assert_eq!((location.line, location.column), (2, 1), "{}", text);
            }
            other => panic!("expected an argument error for {}, got {:?}", text, other),
        }
    }
}

#[test]
fn empty_arguments_are_arguments() {
    assert_eq!(expands_to("#define F!(a, b, c) = [a] [b] [c] #end F!(1,,3)"), "[ 1 ] [ ] [ 3 ]");
    assert_eq!(expands_to("#define F!(a, b) = [a] [b] #end F!(1,)"), "[ 1 ] [ ]");
    assert_eq!(expands_to("#define F!(a, b) = [a] [b] #end F!(,1)"), "[ 1 ] [ b ]");
}

#[test]
fn self_reference_runs_out_of_depth() {
    match expand("#define X! = a X! #end\n X!") {
        Err(Error::ExpansionTooDeep { .. }) => {}
        other => panic!("expected the depth to run out, got {:?}", other),
    }
}

#[test]
fn depth_counts_nested_expansions() {
    let text = "#define A! = B! #end #define B! = 1 #end A!";
    let run = |depth: usize| {
        process_tokens(lexes(text), &mut vec![], &mut vec![], &vec![], depth)
            .map(render_tokens)
    };
    assert!(matches!(run(0), Err(Error::ExpansionTooDeep { .. })));
    assert!(matches!(run(1), Err(Error::ExpansionTooDeep { .. })));
    assert_eq!(run(2).unwrap(), "1");
    assert_eq!(run(3).unwrap(), "1");
    assert_eq!(run(DEFAULT_DEPTH).unwrap(), "1");
}

#[test]
fn include_splices_the_source_in() {
    let sources = vec![Source {
        path: "lib.lua".to_string(),
        tokens: lex("lib.lua", "#define TWO! = 2 #end local one = 1".to_string()).unwrap(),
    }];
    let out = expand_with("a #include \"lib.lua\" b TWO!", &sources).unwrap();
    assert_eq!(render_tokens(out), "a local one = 1 b 2");
}

#[test]
fn including_twice_expands_once() {
    let sources = vec![Source {
        path: "lib.lua".to_string(),
        tokens: lex("lib.lua", "hello".to_string()).unwrap(),
    }];
    let out = expand_with("#include \"lib.lua\" #include \"lib.lua\" x", &sources).unwrap();
    assert_eq!(render_tokens(out), "hello x");
}

#[test]
fn includes_may_nest() {
    let sources = vec![
        Source {
            path: "a.lua".to_string(),
            tokens: lex("a.lua", "a1 #include \"b.lua\" a2".to_string()).unwrap(),
        },
        Source {
            path: "b.lua".to_string(),
            tokens: lex("b.lua", "b #include \"a.lua\"".to_string()).unwrap(),
        },
    ];
    let out = expand_with("#include \"a.lua\" #include \"b.lua\"", &sources).unwrap();
    assert_eq!(render_tokens(out), "a1 b a2");
}

#[test]
fn include_of_an_unknown_source_fails() {
    match expand("x\n#include \"nowhere.lua\"") {
        Err(Error::IncludeIOError { path, location }) => {
            assert_eq!(path, "nowhere.lua");
            assert_eq!((location.line, location.column), (2, 1));
        }
        other => panic!("expected a missing source, got {:?}", other),
    }
}

#[test]
fn table_keeps_what_the_run_defined() {
    let mut value_macros = vec![];
    let mut func_macros = vec![];
    let tokens = lexes("#define X! = 1 #end #define F!(a, #...) = a #end #define Y! #end #undef Y!");
    let out =
        process_tokens(tokens, &mut value_macros, &mut func_macros, &vec![], DEFAULT_DEPTH).unwrap();
    assert!(out.is_empty());
    assert_eq!(value_macros.len(), 1);
    assert_eq!(value_macros[0].name, "X!");
    assert_eq!(render_tokens(value_macros[0].tokens.clone()), "1");
    assert_eq!(func_macros.len(), 1);
    assert_eq!(func_macros[0].name, "F!");
    assert_eq!(func_macros[0].params, vec!["a".to_string()]);
    assert!(func_macros[0].vararg);
}
