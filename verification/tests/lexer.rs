use luaproc::lexer::{
    apply_match, apply_pattern, get_lex_patterns, lex, lex_text, lex_with, new_pattern,
    update_location,
};
use luaproc::token::{Location, Token, TokenKind};

fn kinds(tokens: &[Token]) -> Vec<TokenKind> {
    tokens.iter().map(|t| t.kind).collect()
}

fn values(tokens: &[Token]) -> Vec<String> {
    tokens.iter().map(|t| t.value.clone()).collect()
}

fn lexes(text: &str) -> Vec<Token> {
    lex("main.lua", text.to_string()).expect("the text lexes")
}

#[test]
fn lex_empty_text_gives_no_tokens() {
    assert!(lexes("").is_empty());
    assert!(lexes("  \n\t ").is_empty());
}

#[test]
fn lex_classifies_literals_and_names() {
    let tokens = lexes("12 3.5 -7 \"hi\" true false nil foo _bar9");
    assert_eq!(
        kinds(&tokens),
        vec![
            TokenKind::Number,
            TokenKind::Number,
            TokenKind::Number,
            TokenKind::String,
            TokenKind::Boolean,
            TokenKind::Boolean,
            TokenKind::Nil,
            TokenKind::Name,
            TokenKind::Name,
        ]
    );
    assert_eq!(
        values(&tokens),
        vec!["12", "3.5", "-7", "\"hi\"", "true", "false", "nil", "foo", "_bar9"]
    );
}

#[test]
fn lex_classifies_directives() {
    let tokens = lexes("#include #ifndef #ifdef #endif #else #define #end #undef");
    assert_eq!(
        kinds(&tokens),
        vec![
            TokenKind::Include,
            TokenKind::Ifndef,
            TokenKind::Ifdef,
            TokenKind::Endif,
            TokenKind::Else,
            TokenKind::Define,
            TokenKind::EndDefine,
            TokenKind::Undef,
        ]
    );
}

#[test]
fn lex_classifies_macro_operators() {
    let tokens = lexes("#x# ## #...# #... name!");
    assert_eq!(
        kinds(&tokens),
        vec![
            TokenKind::Stringify,
            TokenKind::Paste,
            TokenKind::StringifyVararg,
            TokenKind::Vararg,
            TokenKind::Macro,
        ]
    );
    assert_eq!(values(&tokens), vec!["#x#", "##", "#...#", "#...", "name!"]);
}

#[test]
fn lex_classifies_structural_tokens() {
    let tokens = lexes(", ; ( ) [ ] { } == + ..");
    assert_eq!(
        kinds(&tokens),
        vec![
            TokenKind::Delimiter,
            TokenKind::Delimiter,
            TokenKind::Brace,
            TokenKind::Brace,
            TokenKind::Brace,
            TokenKind::Brace,
            TokenKind::Brace,
            TokenKind::Brace,
            TokenKind::Special,
            TokenKind::Special,
            TokenKind::Special,
        ]
    );
}

#[test]
fn lex_takes_the_first_pattern_that_matches() {
    // Keywords go before names, with no regard to what follows them.
    let tokens = lexes("truex");
    assert_eq!(kinds(&tokens), vec![TokenKind::Boolean, TokenKind::Name]);
    assert_eq!(values(&tokens), vec!["true", "x"]);
    // A number's sign belongs to the number.
    let tokens = lexes("a-5");
    assert_eq!(kinds(&tokens), vec![TokenKind::Name, TokenKind::Number]);
    assert_eq!(values(&tokens), vec!["a", "-5"]);
    // `#endif` is not `#end` followed by a name.
    let tokens = lexes("#endif");
    assert_eq!(kinds(&tokens), vec![TokenKind::Endif]);
}

#[test]
fn lex_special_is_a_maximal_run() {
    let tokens = lexes("a <=> b");
    assert_eq!(values(&tokens), vec!["a", "<=>", "b"]);
    assert_eq!(tokens[1].kind, TokenKind::Special);
}

#[test]
fn lex_separates_a_name_from_a_distant_bang() {
    let tokens = lexes("foo !");
    assert_eq!(kinds(&tokens), vec![TokenKind::Name, TokenKind::Special]);
}

#[test]
fn lex_records_where_each_token_starts() {
    let tokens = lexes("print(x)\n  y = 10");
    let places: Vec<(i32, i32)> =
        tokens.iter().map(|t| (t.location.line, t.location.column)).collect();
    assert_eq!(places, vec![(1, 1), (1, 6), (1, 7), (1, 8), (2, 3), (2, 5), (2, 7)]);
    assert!(tokens.iter().all(|t| t.location.file == "main.lua"));
}

#[test]
fn lex_counts_columns_in_characters() {
    let tokens = lexes("\"h\u{e9}\" x");
    assert_eq!(tokens[0].value, "\"h\u{e9}\"");
    assert_eq!((tokens[1].location.line, tokens[1].location.column), (1, 6));
}

#[test]
fn lex_deletes_line_comments() {
    let tokens = lexes("a -- the rest is ignored ( \" \nb --");
    assert_eq!(values(&tokens), vec!["a", "b"]);
    assert_eq!((tokens[1].location.line, tokens[1].location.column), (2, 1));
}

#[test]
fn lex_treats_dashes_inside_a_string_as_a_comment() {
    // The comment is cut out before string literals are looked at: the
    // literal loses its end and goes on in the next line.
    let tokens = lexes("s = \"a--b\nc\"");
    assert_eq!(values(&tokens), vec!["s", "=", "\"a\nc\""]);
    // Where no quote follows, the text does not lex at all.
    assert!(lex("main.lua", "s = \"a--b\"".to_string()).is_none());
}

#[test]
fn lex_fails_where_no_pattern_matches() {
    assert!(lex("main.lua", "a ' b".to_string()).is_none());
    assert!(lex("main.lua", "`".to_string()).is_none());
    assert!(lex("main.lua", "\"open".to_string()).is_none());
}

#[test]
fn lex_string_literal_with_escapes() {
    let tokens = lexes(r#""a\"b" x"#);
    assert_eq!(values(&tokens), vec![r#""a\"b""#, "x"]);
}

#[test]
fn lex_text_does_not_delete_comments() {
    let tokens = lex_text("f", "a - - b").unwrap();
    assert_eq!(values(&tokens), vec!["a", "-", "-", "b"]);
}

#[test]
fn update_location_counts_lines_and_columns() {
    let mut location = Location { file: "f".to_string(), line: 1, column: 1 };
    update_location("ab\ncd\n\nxyz", &mut location);
    assert_eq!((location.line, location.column), (4, 4));
    update_location("", &mut location);
    assert_eq!((location.line, location.column), (4, 4));
    assert_eq!(location.file, "f");
}

#[test]
fn patterns_come_in_the_order_of_trial() {
    let patterns = get_lex_patterns().expect("the patterns compile");
    let kinds: Vec<TokenKind> = patterns.iter().map(|p| p.kind).collect();
    assert_eq!(
        kinds,
        vec![
            TokenKind::Number,
            TokenKind::String,
            TokenKind::Boolean,
            TokenKind::Macro,
            TokenKind::Include,
            TokenKind::Ifndef,
            TokenKind::Ifdef,
            TokenKind::Endif,
            TokenKind::Else,
            TokenKind::Define,
            TokenKind::EndDefine,
            TokenKind::Undef,
            TokenKind::Nil,
            TokenKind::Stringify,
            TokenKind::Paste,
            TokenKind::Name,
            TokenKind::StringifyVararg,
            TokenKind::Vararg,
            TokenKind::Special,
            TokenKind::Delimiter,
            TokenKind::Brace,
        ]
    );
}

#[test]
fn new_pattern_refuses_what_is_no_regular_expression() {
    assert!(new_pattern("(", TokenKind::Name).is_none());
    let pattern = new_pattern("a+", TokenKind::Name).unwrap();
    assert_eq!(pattern.kind, TokenKind::Name);
}

#[test]
fn apply_pattern_reads_a_prefix() {
    let pattern = new_pattern("a+", TokenKind::Name).unwrap();
    let mut location = Location { file: "f".to_string(), line: 1, column: 1 };
    let (token, len) = apply_pattern(&pattern, "aab", &mut location).unwrap();
    assert_eq!((token.value.as_str(), len), ("aa", 2));
    assert_eq!((location.line, location.column), (1, 3));
    assert!(apply_pattern(&pattern, "baa", &mut location).is_none());
    // A pattern that matches nothing but the empty prefix gives no token.
    let empty = new_pattern("a*", TokenKind::Name).unwrap();
    assert!(apply_pattern(&empty, "b", &mut location).is_none());
    assert_eq!((location.line, location.column), (1, 3));
}

#[test]
fn lex_with_uses_the_given_patterns() {
    let patterns = vec![
        new_pattern("ab", TokenKind::Special).unwrap(),
        new_pattern("a", TokenKind::Name).unwrap(),
    ];
    let tokens = lex_with(&patterns, "f", "a ab\naab").unwrap();
    assert_eq!(values(&tokens), vec!["a", "ab", "a", "ab"]);
    assert_eq!(
        kinds(&tokens),
        vec![TokenKind::Name, TokenKind::Special, TokenKind::Name, TokenKind::Special]
    );
    assert!(lex_with(&patterns, "f", "a b").is_none());
    assert!(lex_with(&vec![], "f", " ").unwrap().is_empty());
}

#[test]
fn apply_match_takes_only_non_empty_prefixes() {
    let mut location = Location { file: "f".to_string(), line: 3, column: 7 };
    assert!(apply_match(None, TokenKind::Name, "abc", &mut location).is_none());
    assert!(apply_match(Some((0, 0)), TokenKind::Name, "abc", &mut location).is_none());
    assert!(apply_match(Some((1, 2)), TokenKind::Name, "abc", &mut location).is_none());
    assert!(apply_match(Some((0, 4)), TokenKind::Name, "abc", &mut location).is_none());
    assert_eq!((location.line, location.column), (3, 7));
    let (token, len) = apply_match(Some((0, 2)), TokenKind::Name, "abc", &mut location).unwrap();
    assert_eq!(len, 2);
    assert_eq!(token.value, "ab");
    assert_eq!(token.kind, TokenKind::Name);
    assert_eq!((token.location.line, token.location.column), (3, 7));
    assert_eq!((location.line, location.column), (3, 9));
}
