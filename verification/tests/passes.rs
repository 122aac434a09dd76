use luaproc::guard::{add_flags, add_header_guard};
use luaproc::lexer::lex;
use luaproc::params::{parse_func_arg, parse_func_args, parse_func_params, parse_func_params_rest};
use luaproc::render::render_tokens;
use luaproc::rewrite::{
    apply_bang_pastes, apply_pastes, apply_pastes_rest, concat_string_lits,
    concat_string_lits_rest, join_by_commas, replace_tokens, replace_tokens_with,
    strip_trailing_commas,
};
use luaproc::scan::{get_macro_body, scan_branch, skip_nested_ifdefs};
use luaproc::text::{quote, text_is, unquote};
use luaproc::token::{Location, Token, TokenKind};

fn lexes(text: &str) -> Vec<Token> {
    lex("main.lua", text.to_string()).expect("the text lexes")
}

fn token(kind: TokenKind, value: &str) -> Token {
    Token { kind, value: value.to_string(), location: Location::nowhere() }
}

fn rendered(tokens: &Vec<Token>) -> String {
    render_tokens(tokens.clone())
}

#[test]
fn render_joins_lexemes_with_single_spaces() {
    assert_eq!(render_tokens(vec![]), "");
    assert_eq!(render_tokens(vec![token(TokenKind::Name, "a")]), "a");
    assert_eq!(render_tokens(lexes("f(1,2)   ;\n x")), "f ( 1 , 2 ) ; x");
    assert_eq!(render_tokens(lexes("1.50 \"a  b\"")), "1.50 \"a  b\"");
}

#[test]
fn paste_joins_two_names() {
    let out = apply_pastes(lexes("a ## b"));
    assert_eq!(out.len(), 1);
    assert_eq!(out[0].kind, TokenKind::Name);
    assert_eq!(out[0].value, "ab");
    assert_eq!((out[0].location.line, out[0].location.column), (1, 1));
}

#[test]
fn paste_joins_chains() {
    assert_eq!(rendered(&apply_pastes(lexes("x a##b##c y d ## e"))), "x abc y de");
}

#[test]
fn paste_without_a_name_behind_it_takes_the_next_token_along() {
    assert_eq!(rendered(&apply_pastes(lexes("a ## 1 b"))), "a b");
    assert_eq!(rendered(&apply_pastes(lexes("a ## b ## 1 c"))), "ab c");
    assert_eq!(rendered(&apply_pastes(lexes("a ##"))), "a");
}

#[test]
fn paste_without_a_name_before_it_stays() {
    assert_eq!(rendered(&apply_pastes(lexes("## b"))), "## b");
    assert_eq!(rendered(&apply_pastes(lexes("1 ## b"))), "1 ## b");
}

#[test]
fn apply_pastes_rest_reports_where_the_chain_ends() {
    let tokens = lexes("a ## b ## c d");
    let mut text = "a".to_string();
    assert_eq!(apply_pastes_rest(&tokens, 1, &mut text), 5);
    assert_eq!(text, "abc");
    let mut text = "x".to_string();
    assert_eq!(apply_pastes_rest(&tokens, 5, &mut text), 5);
    assert_eq!(text, "x");
    assert_eq!(apply_pastes_rest(&tokens, 6, &mut text), 6);
}

#[test]
fn bang_merges_a_name_with_the_bang_behind_it() {
    let out = apply_bang_pastes(lexes("a ! b 1 ! c !"));
    let kinds: Vec<TokenKind> = out.iter().map(|t| t.kind).collect();
    assert_eq!(
        kinds,
        vec![
            TokenKind::Macro,
            TokenKind::Name,
            TokenKind::Number,
            TokenKind::Special,
            TokenKind::Macro
        ]
    );
    assert_eq!(rendered(&out), "a! b 1 ! c!");
    assert_eq!((out[4].location.line, out[4].location.column), (1, 11));
}

#[test]
fn bang_leaves_other_tokens_alone() {
    assert_eq!(rendered(&apply_bang_pastes(lexes("a != b !"))), "a != b!");
    assert_eq!(rendered(&apply_bang_pastes(lexes("! a"))), "! a");
    assert!(apply_bang_pastes(vec![]).is_empty());
}

#[test]
fn adjacent_string_literals_are_merged() {
    let out = concat_string_lits(lexes("x \"ab\" \"cd\" \"\" y \"e\""));
    assert_eq!(rendered(&out), "x \"abcd\" y \"e\"");
    assert_eq!(out[1].kind, TokenKind::String);
    assert_eq!((out[1].location.line, out[1].location.column), (1, 3));
}

#[test]
fn string_literals_apart_are_not_merged() {
    assert_eq!(rendered(&concat_string_lits(lexes("\"a\" , \"b\""))), "\"a\" , \"b\"");
}

#[test]
fn concat_string_lits_rest_collects_the_run() {
    let tokens = lexes("\"a\" \"bc\" x \"d\"");
    let mut text = String::new();
    assert_eq!(concat_string_lits_rest(&tokens, 0, &mut text), 2);
    assert_eq!(text, "abc");
    assert_eq!(concat_string_lits_rest(&tokens, 2, &mut text), 2);
    assert_eq!(text, "abc");
}

#[test]
fn trailing_comma_is_stripped() {
    assert_eq!(rendered(&strip_trailing_commas(lexes("f(1, 2, )"))), "f ( 1 , 2 )");
    assert_eq!(rendered(&strip_trailing_commas(lexes("{a,} [b,] (c,)"))), "{ a } [ b ] ( c )");
}

#[test]
fn other_commas_stay() {
    assert_eq!(rendered(&strip_trailing_commas(lexes("f(1, 2) , ; )"))), "f ( 1 , 2 ) , ; )");
    assert_eq!(rendered(&strip_trailing_commas(lexes("(a,,)"))), "( a , )");
    assert_eq!(rendered(&strip_trailing_commas(lexes("a ,"))), "a ,");
}

#[test]
fn join_by_commas_separates_lists() {
    assert!(join_by_commas(vec![]).is_empty());
    assert_eq!(rendered(&join_by_commas(vec![lexes("a b")])), "a b");
    let out = join_by_commas(vec![lexes("a b"), vec![], lexes("c")]);
    assert_eq!(rendered(&out), "a b , , c");
    assert_eq!(out[2].kind, TokenKind::Delimiter);
    assert_eq!((out[2].location.line, out[2].location.column), (0, 0));
    assert_eq!(out[2].location.file, "");
}

#[test]
fn replace_tokens_matches_kind_and_lexeme() {
    let out = replace_tokens(
        lexes("x \"x\" x! y"),
        token(TokenKind::Name, "x"),
        vec![token(TokenKind::Number, "1")],
    );
    assert_eq!(rendered(&out), "1 \"x\" x! y");
}

#[test]
fn replace_tokens_stringifies() {
    let out = replace_tokens(lexes("#x# #y#"), token(TokenKind::Name, "x"), lexes("a \"b\""));
    assert_eq!(out.len(), 2);
    assert_eq!(out[0].kind, TokenKind::String);
    assert_eq!(out[0].value, "\"a \\\"b\\\"\"");
    assert_eq!(out[1].kind, TokenKind::Stringify);
}

#[test]
fn replace_tokens_with_uses_the_given_text() {
    let out = replace_tokens_with(
        lexes("x #x#"),
        token(TokenKind::Name, "x"),
        lexes("1 2"),
        "<text>".to_string(),
    );
    assert_eq!(rendered(&out), "1 2 <text>");
    assert_eq!((out[1].location.line, out[1].location.column), (1, 1));
    assert_eq!((out[2].location.line, out[2].location.column), (1, 3));
}

#[test]
fn header_guard_wraps_the_tokens() {
    let out = add_header_guard("dir/f.lua".to_string(), lexes("a b"));
    assert_eq!(rendered(&out), "#ifndef dir/f.lua #define dir/f.lua #end a b #endif");
    let kinds: Vec<TokenKind> = out.iter().map(|t| t.kind).collect();
    assert_eq!(
        kinds,
        vec![
            TokenKind::Ifndef,
            TokenKind::Macro,
            TokenKind::Define,
            TokenKind::Macro,
            TokenKind::EndDefine,
            TokenKind::Name,
            TokenKind::Name,
            TokenKind::Endif
        ]
    );
    assert_eq!(out[0].location.file, "dir/f.lua");
    assert_eq!((out[7].location.line, out[7].location.column), (0, 0));
}

#[test]
fn flags_become_empty_definitions() {
    let out = add_flags(vec!["a".to_string(), "debug".to_string()], lexes("x"));
    assert_eq!(rendered(&out), "#define a! #end #define debug! #end x");
    assert_eq!(out[1].kind, TokenKind::Macro);
    assert_eq!(rendered(&add_flags(vec![], lexes("x y"))), "x y");
}

#[test]
fn macro_body_ends_at_its_own_end() {
    let tokens = lexes("a #define b #end c #end d");
    let mut pos = 0;
    let body = get_macro_body(&tokens, &mut pos);
    assert_eq!(rendered(&body), "a #define b #end c");
    assert_eq!(pos, 6);
    let body = get_macro_body(&tokens, &mut pos);
    assert_eq!(rendered(&body), "d");
    assert_eq!(pos, 7);
    let body = get_macro_body(&tokens, &mut pos);
    assert!(body.is_empty());
    assert_eq!(pos, 7);
}

#[test]
fn nested_conditional_is_skipped_whole() {
    let tokens = lexes("a #ifndef x! b #endif c #endif d #endif");
    let mut pos = 0;
    skip_nested_ifdefs(&tokens, &mut pos);
    assert_eq!(pos, 7);
    skip_nested_ifdefs(&tokens, &mut pos);
    assert_eq!(pos, 9);
    skip_nested_ifdefs(&tokens, &mut pos);
    assert_eq!(pos, 9);
}

#[test]
fn branch_ends_at_else_or_endif() {
    let tokens = lexes("a #ifdef x! b #else c #endif d #else e #endif");
    assert_eq!(tokens.len(), 11);
    assert_eq!(scan_branch(&tokens, 0, true), 8);
    assert_eq!(scan_branch(&tokens, 0, false), 10);
    assert_eq!(scan_branch(&tokens, 9, false), 10);
    assert_eq!(scan_branch(&tokens, 11, true), 11);
    assert_eq!(scan_branch(&lexes("a b"), 0, true), 2);
}

#[test]
fn parameter_list_is_read() {
    let tokens = lexes("a, b, c) rest");
    let mut pos = 0;
    let (names, vararg) = parse_func_params(&tokens, &mut pos).unwrap();
    assert_eq!(names, vec!["a", "b", "c"]);
    assert!(!vararg);
    assert_eq!(pos, 6);

    let tokens = lexes("a, #...] rest");
    let mut pos = 0;
    let (names, vararg) = parse_func_params(&tokens, &mut pos).unwrap();
    assert_eq!(names, vec!["a"]);
    assert!(vararg);
    assert_eq!(pos, 4);

    let tokens = lexes("#...}");
    let mut pos = 0;
    let (names, vararg) = parse_func_params(&tokens, &mut pos).unwrap();
    assert!(names.is_empty());
    assert!(vararg);
    assert_eq!(pos, 2);
}

#[test]
fn malformed_parameter_list_changes_nothing() {
    let tokens = lexes("a, b, 1)");
    let mut pos = 0;
    assert!(parse_func_params(&tokens, &mut pos).is_none());
    assert_eq!(pos, 0);
    let mut names = vec!["a".to_string()];
    let mut pos = 1;
    assert!(parse_func_params_rest(&tokens, &mut pos, &mut names).is_none());
    assert_eq!(pos, 1);
    assert_eq!(names, vec!["a"]);
    let tokens = lexes("a, b)");
    assert_eq!(parse_func_params_rest(&tokens, &mut pos, &mut names), Some(false));
    assert_eq!(pos, 4);
    assert_eq!(names, vec!["a", "b"]);
}

#[test]
fn argument_ends_at_delimiter_or_closing_bracket() {
    let tokens = lexes("f(a, b) [c; d], e ) x");
    let mut pos = 0;
    let arg = parse_func_arg(&tokens, &mut pos).unwrap();
    assert_eq!(rendered(&arg), "f ( a , b ) [ c ; d ]");
    assert_eq!(pos, 11);
    pos = 12;
    let arg = parse_func_arg(&tokens, &mut pos).unwrap();
    assert_eq!(rendered(&arg), "e");
    assert_eq!(pos, 13);
    let arg = parse_func_arg(&tokens, &mut pos).unwrap();
    assert!(arg.is_empty());
    assert_eq!(pos, 13);
    pos = 14;
    assert!(parse_func_arg(&tokens, &mut pos).is_none());
    assert_eq!(pos, 14);
}

#[test]
fn argument_list_is_read() {
    let tokens = lexes("(1, g(2, 3), ) x");
    let mut pos = 0;
    let args = parse_func_args(&tokens, &mut pos).unwrap();
    let texts: Vec<String> = args.iter().map(rendered).collect();
    assert_eq!(texts, vec!["1", "g ( 2 , 3 )", ""]);
    assert_eq!(pos, 11);

    let tokens = lexes("[] x");
    let mut pos = 0;
    assert!(parse_func_args(&tokens, &mut pos).unwrap().is_empty());
    assert_eq!(pos, 2);

    let tokens = lexes("x (1)");
    let mut pos = 0;
    assert!(parse_func_args(&tokens, &mut pos).is_none());
    assert_eq!(pos, 0);
}

#[test]
fn text_helpers() {
    assert!(text_is(&"(".to_string(), "("));
    assert!(!text_is(&"((".to_string(), "("));
    assert_eq!(unquote(&"\"abc\"".to_string()), "abc");
    assert_eq!(unquote(&"\"\"".to_string()), "");
    assert_eq!(unquote(&"x".to_string()), "");
    assert_eq!(unquote(&"\u{e9}t\u{e9}".to_string()), "t");
    assert_eq!(quote(&"a b".to_string()), "\"a b\"");
}
