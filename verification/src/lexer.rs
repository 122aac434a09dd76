//! The lexer: text to located tokens.
//!
//! Line comments are deleted from the whole text first. Then, again and
//! again, leading whitespace is passed over and the first of a fixed list of
//! patterns that matches a non-empty prefix of what is left gives the next
//! token. The order of the list decides between patterns that match at the
//! same place.

pub use crate::token::{Location, Token, TokenKind};
use crate::token::{lemma_views_push, views, LocationView, TokenView};
use regex::Regex;
use vstd::prelude::*;
use vstd::string::*;

verus! {

/// Whether the character has the Unicode property `White_Space`, as
/// `char::is_whitespace` tells.
pub uninterp spec fn whitespace(c: char) -> bool;

/// Asks `char::is_whitespace`. The contract only gives the answer its name.
#[verifier::external_body]
pub(crate) fn is_whitespace(c: char) -> (r: bool)
    ensures
        r == whitespace(c),
{
    c.is_whitespace()
}

/// A compiled regular expression of the `regex` crate. Nothing inside it is
/// looked at here: it is made by [`regex_new`] and handed to the searches.
#[verifier::external_type_specification]
#[verifier::external_body]
pub struct ExRegex(Regex);

/// Whether `Regex::new` accepts the text as a regular expression.
pub uninterp spec fn compiles(pattern: Seq<char>) -> bool;

/// The pattern that a compiled regular expression searches by: for one
/// that `Regex::new` made, the text it was made from. Every regular
/// expression of this crate is made by [`regex_new`].
pub uninterp spec fn pattern_of(regex: Regex) -> Seq<char>;

/// Compiles `pattern` with `Regex::new`; an error becomes `None`. The
/// contract names whether the pattern compiles, and says that the regular
/// expression that comes out holds the pattern it was made from.
#[verifier::external_body]
pub(crate) fn regex_new(pattern: &str) -> (r: Option<Regex>)
    ensures
        r is Some == compiles(pattern@),
        r matches Some(regex) ==> pattern_of(regex) == pattern@,
{
    Regex::new(pattern).ok()
}

/// The leftmost match in `haystack` of the regular expression compiled from
/// `pattern`, as the offsets of its first character and of the character
/// behind its last, counted in characters. `None` if nothing matches.
pub uninterp spec fn first_match(pattern: Seq<char>, haystack: Seq<char>) -> Option<(usize, usize)>;

/// Searches `haystack` with `Regex::find`. The byte offsets of the match
/// are handed on as character offsets. The contract names the result, by
/// the pattern that the regular expression holds, and states of it what
/// `Match` documents: the match starts no later than it ends, inside the
/// haystack.
#[verifier::external_body]
pub(crate) fn regex_find(regex: &Regex, haystack: &str) -> (r: Option<(usize, usize)>)
    ensures
        r == first_match(pattern_of(*regex), haystack@),
        r matches Some(found) ==> found.0 <= found.1 <= haystack@.len(),
{
    let found = regex.find(haystack)?;
    Some((haystack[..found.start()].chars().count(), haystack[..found.end()].chars().count()))
}

/// The text with every match of the regular expression compiled from
/// `pattern` replaced by `replacement`.
pub uninterp spec fn replaced_all(pattern: Seq<char>, text: Seq<char>, replacement: Seq<char>)
    -> Seq<char>;

/// Replaces every match in `text` with `Regex::replace_all`. The contract
/// only gives the result its name, by the pattern that the regular
/// expression holds.
#[verifier::external_body]
pub(crate) fn regex_replace_all(regex: &Regex, text: &str, replacement: &str) -> (r: String)
    ensures
        r@ == replaced_all(pattern_of(*regex), text@, replacement@),
{
    regex.replace_all(text, replacement).into_owned()
}

/// The position after one more character: a newline starts the next line
/// at column 1, any other character moves one column on.
pub open spec fn advanced_by(location: LocationView, c: char) -> LocationView {
    if c == '\n' {
        LocationView { file: location.file, line: location.line + 1, column: 1 }
    } else {
        LocationView { file: location.file, line: location.line, column: location.column + 1 }
    }
}

/// The position after `text`.
pub open spec fn advanced(location: LocationView, text: Seq<char>) -> LocationView
    decreases text.len(),
{
    if text.len() == 0 {
        location
    } else {
        advanced(advanced_by(location, text[0]), text.skip(1))
    }
}

/// Text moves a position on by at most one line or column per character.
pub proof fn lemma_advanced_bounds(location: LocationView, text: Seq<char>, column_bound: int)
    requires
        location.column <= column_bound,
        1 <= column_bound,
    ensures
        advanced(location, text).file == location.file,
        location.line <= advanced(location, text).line <= location.line + text.len(),
        advanced(location, text).column <= column_bound + text.len(),
        advanced(location, text).column >= location.column || advanced(location, text).column >= 1,
    decreases text.len(),
{
    if text.len() > 0 {
        lemma_advanced_bounds(advanced_by(location, text[0]), text.skip(1), column_bound + 1);
    }
}

/// Moves the location on over `input`: each newline leads to the next line
/// and back to column 1, every other character to the next column.
pub fn update_location(input: &str, location: &mut Location)
    requires
        input@.len() < i32::MAX,
        old(location).line + input@.len() <= i32::MAX,
        old(location).column + input@.len() <= i32::MAX,
    ensures
        final(location)@ == advanced(old(location)@, input@),
{
    let n = input.unicode_len();
    let ghost column_bound: int = if location.column < 1 {
        1
    } else {
        location.column as int
    };
    let mut i: usize = 0;
    assert(input@.skip(0) =~= input@);
    while i < n
        invariant
            i <= n,
            n == input@.len(),
            n < i32::MAX,
            old(location).line + n <= i32::MAX,
            column_bound + n <= i32::MAX,
            1 <= column_bound,
            location.line <= old(location).line + i,
            location.column <= column_bound + i,
            advanced(location@, input@.skip(i as int)) == advanced(old(location)@, input@),
        decreases n - i,
    {
        let c = input.get_char(i);
        proof {
            assert(input@.skip(i as int)[0] == c);
            assert(input@.skip(i as int).skip(1) =~= input@.skip(i + 1));
        }
        if c == '\n' {
            location.line += 1;
            location.column = 1;
        } else {
            location.column += 1;
        }
        i += 1;
    }
}

/// A lexical pattern: a compiled regular expression and the kind of the
/// tokens it matches. A pattern is made by [`new_pattern`] alone, so its
/// regular expression is one that `Regex::new` compiled.
#[derive(Debug)]
pub struct Pattern {
    regex: Regex,
    pub kind: TokenKind,
}

/// The value of a [`Pattern`]: the text of its regular expression, and the
/// kind.
pub ghost struct PatternView {
    pub regex: Seq<char>,
    pub kind: TokenKind,
}

impl View for Pattern {
    type V = PatternView;

    closed spec fn view(&self) -> PatternView {
        PatternView { regex: pattern_of(self.regex), kind: self.kind }
    }
}

/// The values of a list of patterns.
pub open spec fn pattern_views(patterns: Seq<Pattern>) -> Seq<PatternView> {
    patterns.map_values(|p: Pattern| p@)
}

/// The pattern for tokens of `kind`: `regex`, anchored at the start of the
/// input.
pub open spec fn anchored(regex: Seq<char>, kind: TokenKind) -> PatternView {
    PatternView { regex: "^"@ + regex, kind }
}

/// The lexical patterns in the order in which they are tried. Keywords and
/// operators stand before the general patterns for names and punctuation
/// that would match them too.
pub open spec fn lex_patterns() -> Seq<PatternView> {
    seq![
        anchored(r"-?\d+(\.\d+)?"@, TokenKind::Number),
        anchored(r#""([^"\\]|\\.)*""#@, TokenKind::String),
        anchored(r"(true|false)"@, TokenKind::Boolean),
        anchored(r"([a-zA-Z_]\w*!)"@, TokenKind::Macro),
        anchored(r"(#include)"@, TokenKind::Include),
        anchored(r"(#ifndef)"@, TokenKind::Ifndef),
        anchored(r"(#ifdef)"@, TokenKind::Ifdef),
        anchored(r"(#endif)"@, TokenKind::Endif),
        anchored(r"(#else)"@, TokenKind::Else),
        anchored(r"(#define)"@, TokenKind::Define),
        anchored(r"(#end)"@, TokenKind::EndDefine),
        anchored(r"(#undef)"@, TokenKind::Undef),
        anchored(r"(nil)"@, TokenKind::Nil),
        anchored(r"(#[a-zA-Z_]\w*#)"@, TokenKind::Stringify),
        anchored(r"##"@, TokenKind::Paste),
        anchored(r"([a-zA-Z_]\w*)"@, TokenKind::Name),
        anchored(r"#\.\.\.#"@, TokenKind::StringifyVararg),
        anchored(r"#\.\.\."@, TokenKind::Vararg),
        anchored(r"([+\-*/!@#$%&|:<>=?~^.]+)"@, TokenKind::Special),
        anchored(r"[,;]"@, TokenKind::Delimiter),
        anchored(r"[()\[\]{}]"@, TokenKind::Brace),
    ]
}

/// Whether every pattern of the list is a regular expression.
pub open spec fn all_compile(patterns: Seq<PatternView>) -> bool {
    forall|i: int| 0 <= i < patterns.len() ==> compiles(#[trigger] patterns[i].regex)
}

/// Makes the pattern for tokens of `kind` from a regular expression, which
/// it anchors at the start of the input and compiles. `None` if the text is
/// no regular expression.
pub fn new_pattern(regex: &str, kind: TokenKind) -> (r: Option<Pattern>)
    ensures
        r is Some == compiles(anchored(regex@, kind).regex),
        r matches Some(pattern) ==> pattern@ == anchored(regex@, kind),
{
    let mut anchored = "^".to_owned();
    anchored.append(regex);
    match regex_new(anchored.as_str()) {
        Some(compiled) => Some(Pattern { regex: compiled, kind }),
        None => None,
    }
}

/// Appends the pattern for tokens of `kind` to the list. Tells whether the
/// regular expression compiled; if not, the list is as it was.
pub fn push_pattern(patterns: &mut Vec<Pattern>, regex: &str, kind: TokenKind) -> (r: bool)
    ensures
        r == compiles(anchored(regex@, kind).regex),
        r ==> pattern_views(final(patterns)@) == pattern_views(old(patterns)@).push(
            anchored(regex@, kind),
        ),
        !r ==> final(patterns)@ == old(patterns)@,
{
    match new_pattern(regex, kind) {
        Some(pattern) => {
            proof {
                assert(pattern_views(patterns@.push(pattern)) =~= pattern_views(patterns@).push(
                    pattern@,
                ));
            }
            patterns.push(pattern);
            true
        },
        None => false,
    }
}

/// The lexical patterns, compiled, in the order in which they are tried.
/// `None` if one of them is no regular expression.
pub fn get_lex_patterns() -> (r: Option<Vec<Pattern>>)
    ensures
        r is Some == all_compile(lex_patterns()),
        r matches Some(patterns) ==> pattern_views(patterns@) == lex_patterns(),
{
    let mut patterns: Vec<Pattern> = Vec::new();
    let ghost all = lex_patterns();
    assert(all.len() == 21);
    if !push_pattern(&mut patterns, r"-?\d+(\.\d+)?", TokenKind::Number) {
        return None;
    }
    if !push_pattern(&mut patterns, r#""([^"\\]|\\.)*""#, TokenKind::String) {
        return None;
    }
    if !push_pattern(&mut patterns, r"(true|false)", TokenKind::Boolean) {
        return None;
    }
    if !push_pattern(&mut patterns, r"([a-zA-Z_]\w*!)", TokenKind::Macro) {
        return None;
    }
    if !push_pattern(&mut patterns, r"(#include)", TokenKind::Include) {
        return None;
    }
    if !push_pattern(&mut patterns, r"(#ifndef)", TokenKind::Ifndef) {
        return None;
    }
    if !push_pattern(&mut patterns, r"(#ifdef)", TokenKind::Ifdef) {
        return None;
    }
    if !push_pattern(&mut patterns, r"(#endif)", TokenKind::Endif) {
        return None;
    }
    if !push_pattern(&mut patterns, r"(#else)", TokenKind::Else) {
        return None;
    }
    if !push_pattern(&mut patterns, r"(#define)", TokenKind::Define) {
        return None;
    }
    if !push_pattern(&mut patterns, r"(#end)", TokenKind::EndDefine) {
        return None;
    }
    if !push_pattern(&mut patterns, r"(#undef)", TokenKind::Undef) {
        return None;
    }
    if !push_pattern(&mut patterns, r"(nil)", TokenKind::Nil) {
        return None;
    }
    if !push_pattern(&mut patterns, r"(#[a-zA-Z_]\w*#)", TokenKind::Stringify) {
        return None;
    }
    if !push_pattern(&mut patterns, r"##", TokenKind::Paste) {
        return None;
    }
    if !push_pattern(&mut patterns, r"([a-zA-Z_]\w*)", TokenKind::Name) {
        return None;
    }
    if !push_pattern(&mut patterns, r"#\.\.\.#", TokenKind::StringifyVararg) {
        return None;
    }
    if !push_pattern(&mut patterns, r"#\.\.\.", TokenKind::Vararg) {
        return None;
    }
    if !push_pattern(&mut patterns, r"([+\-*/!@#$%&|:<>=?~^.]+)", TokenKind::Special) {
        return None;
    }
    if !push_pattern(&mut patterns, r"[,;]", TokenKind::Delimiter) {
        return None;
    }
    if !push_pattern(&mut patterns, r"[()\[\]{}]", TokenKind::Brace) {
        return None;
    }
    assert(pattern_views(patterns@) =~= all);
    assert forall|i: int| 0 <= i < all.len() implies compiles(#[trigger] all[i].regex) by {
        assert(all[i] == pattern_views(patterns@)[i]);
    }
    Some(patterns)
}

/// The length of the prefix that a match stands for: a match counts only
/// if it starts at the first character and is not empty.
pub open spec fn prefix_len(found: Option<(usize, usize)>, input: Seq<char>) -> Option<int> {
    match found {
        Some((start, end)) if start == 0 && 0 < end <= input.len() => Some(end as int),
        _ => None,
    }
}

/// A token read from the front of the input: its value and how many
/// characters it takes up.
pub ghost struct Lexeme {
    pub token: TokenView,
    pub len: int,
}

/// The token that a match of a pattern for `kind` at the front of `input`
/// gives, at `location`.
pub open spec fn lexeme_of(
    found: Option<(usize, usize)>,
    kind: TokenKind,
    input: Seq<char>,
    location: LocationView,
) -> Option<Lexeme> {
    match prefix_len(found, input) {
        Some(len) => Some(
            Lexeme { token: TokenView { kind, value: input.take(len), location }, len },
        ),
        None => None,
    }
}

/// Turns what the search for a pattern found into a token. A match that
/// is empty or starts behind the first character is no token. With a token,
/// the location moves on over its text and the number of characters it
/// takes up is returned with it.
pub fn apply_match(
    found: Option<(usize, usize)>,
    kind: TokenKind,
    input: &str,
    location: &mut Location,
) -> (r: Option<(Token, usize)>)
    requires
        input@.len() < i32::MAX,
        old(location).line + input@.len() <= i32::MAX,
        old(location).column + input@.len() <= i32::MAX,
    ensures
        match lexeme_of(found, kind, input@, old(location)@) {
            Some(lexeme) => r matches Some(read) && read.0@ == lexeme.token && read.1 == lexeme.len
                && final(location)@ == advanced(old(location)@, input@.take(lexeme.len)),
            None => r is None && final(location)@ == old(location)@,
        },
{
    match found {
        Some((start, end)) => {
            if start == 0 && 0 < end && end <= input.unicode_len() {
                let text = input.substring_char(0, end);
                assert(text@ =~= input@.take(end as int));
                let token = Token { kind, value: text.to_owned(), location: location.clone() };
                update_location(text, location);
                Some((token, end))
            } else {
                None
            }
        },
        None => None,
    }
}

/// Tries one pattern at the front of the input.
pub fn apply_pattern(pattern: &Pattern, input: &str, location: &mut Location) -> (r: Option<
    (Token, usize),
>)
    requires
        input@.len() < i32::MAX,
        old(location).line + input@.len() <= i32::MAX,
        old(location).column + input@.len() <= i32::MAX,
    ensures
        match lexeme_of(
            first_match(pattern@.regex, input@),
            pattern@.kind,
            input@,
            old(location)@,
        ) {
            Some(lexeme) => r matches Some(read) && read.0@ == lexeme.token && read.1 == lexeme.len
                && final(location)@ == advanced(old(location)@, input@.take(lexeme.len)),
            None => r is None && final(location)@ == old(location)@,
        },
{
    let found = regex_find(&pattern.regex, input);
    apply_match(found, pattern.kind, input, location)
}

/// The token that the first pattern matching a non-empty prefix of `input`
/// gives, at `location`. `None` if no pattern matches.
pub open spec fn first_lexeme(patterns: Seq<PatternView>, input: Seq<char>, location: LocationView)
    -> Option<Lexeme>
    decreases patterns.len(),
{
    if patterns.len() == 0 {
        None
    } else {
        match lexeme_of(
            first_match(patterns[0].regex, input),
            patterns[0].kind,
            input,
            location,
        ) {
            Some(lexeme) => Some(lexeme),
            None => first_lexeme(patterns.skip(1), input, location),
        }
    }
}

/// A token takes up at least one character and no more than there are.
pub proof fn lemma_first_lexeme_len(
    patterns: Seq<PatternView>,
    input: Seq<char>,
    location: LocationView,
)
    ensures
        first_lexeme(patterns, input, location) matches Some(lexeme) ==> 0 < lexeme.len
            <= input.len() && lexeme.token.value == input.take(lexeme.len)
            && lexeme.token.location == location,
    decreases patterns.len(),
{
    if patterns.len() > 0 {
        lemma_first_lexeme_len(patterns.skip(1), input, location);
    }
}

/// Tries the patterns in order at the front of the input and reads the
/// token of the first that matches.
pub fn apply_patterns(patterns: &Vec<Pattern>, input: &str, location: &mut Location) -> (r: Option<
    (Token, usize),
>)
    requires
        input@.len() < i32::MAX,
        old(location).line + input@.len() <= i32::MAX,
        old(location).column + input@.len() <= i32::MAX,
    ensures
        match first_lexeme(pattern_views(patterns@), input@, old(location)@) {
            Some(lexeme) => r matches Some(read) && read.0@ == lexeme.token && read.1 == lexeme.len
                && final(location)@ == advanced(old(location)@, input@.take(lexeme.len)),
            None => r is None && final(location)@ == old(location)@,
        },
{
    let ghost all = pattern_views(patterns@);
    let mut i: usize = 0;
    assert(all.skip(0) =~= all);
    while i < patterns.len()
        invariant
            i <= patterns.len(),
            all == pattern_views(patterns@),
            location@ == old(location)@,
            input@.len() < i32::MAX,
            location.line + input@.len() <= i32::MAX,
            location.column + input@.len() <= i32::MAX,
            first_lexeme(all.skip(i as int), input@, location@) == first_lexeme(
                all,
                input@,
                location@,
            ),
        decreases patterns.len() - i,
    {
        proof {
            assert(all.skip(i as int)[0] == patterns@[i as int]@);
            assert(all.skip(i as int).skip(1) =~= all.skip(i + 1));
        }
        match apply_pattern(&patterns[i], input, location) {
            Some(read) => {
                return Some(read);
            },
            None => {},
        }
        i += 1;
    }
    None
}

/// How many whitespace characters stand at the front of `input`.
pub open spec fn leading_whitespace(input: Seq<char>) -> nat
    decreases input.len(),
{
    if input.len() > 0 && whitespace(input[0]) {
        1 + leading_whitespace(input.skip(1))
    } else {
        0
    }
}

/// Counts the whitespace characters at the front of `input`.
pub fn count_leading_whitespace(input: &str) -> (r: usize)
    ensures
        r == leading_whitespace(input@),
        r <= input@.len(),
{
    let n = input.unicode_len();
    let mut i: usize = 0;
    assert(input@.skip(0) =~= input@);
    loop
        invariant_except_break
            i + leading_whitespace(input@.skip(i as int)) == leading_whitespace(input@),
        invariant
            i <= n,
            n == input@.len(),
        ensures
            i <= n,
            i == leading_whitespace(input@),
        decreases n - i,
    {
        if i >= n {
            break;
        }
        let c = input.get_char(i);
        proof {
            assert(input@.skip(i as int)[0] == c);
            assert(input@.skip(i as int).skip(1) =~= input@.skip(i + 1));
        }
        if !is_whitespace(c) {
            break;
        }
        i += 1;
    }
    i
}

/// The tokens of `input`, which starts at `location`: whitespace is passed
/// over, and the first pattern that matches a non-empty prefix of what is
/// left gives the next token. `None` if, somewhere before the end of the
/// input, no pattern matches.
pub open spec fn lexed_from(patterns: Seq<PatternView>, input: Seq<char>, location: LocationView)
    -> Option<Seq<TokenView>>
    decreases input.len(),
{
    let skipped = if leading_whitespace(input) <= input.len() {
        leading_whitespace(input) as int
    } else {
        input.len() as int
    };
    let rest = input.skip(skipped);
    let here = advanced(location, input.take(skipped));
    if rest.len() == 0 {
        Some(Seq::empty())
    } else {
        match first_lexeme(patterns, rest, here) {
            // A token takes up at least one character, so lexing ends.
            Some(lexeme) if 0 < lexeme.len <= rest.len() => match lexed_from(
                patterns,
                rest.skip(lexeme.len),
                advanced(here, rest.take(lexeme.len)),
            ) {
                Some(more) => Some(seq![lexeme.token] + more),
                None => None,
            },
            _ => None,
        }
    }
}

/// Whatever the patterns match, no token is empty and every token lies in
/// the file that lexing started in.
pub proof fn lemma_lexed_tokens_are_not_empty(
    patterns: Seq<PatternView>,
    input: Seq<char>,
    location: LocationView,
)
    ensures
        lexed_from(patterns, input, location) matches Some(tokens) ==> forall|i: int|
            0 <= i < tokens.len() ==> (#[trigger] tokens[i]).value.len() > 0
                && tokens[i].location.file == location.file,
    decreases input.len(),
{
    let skipped = if leading_whitespace(input) <= input.len() {
        leading_whitespace(input) as int
    } else {
        input.len() as int
    };
    let rest = input.skip(skipped);
    let here = advanced(location, input.take(skipped));
    lemma_advanced_bounds(location, input.take(skipped), if location.column < 1 {
        1
    } else {
        location.column
    });
    if rest.len() > 0 {
        lemma_first_lexeme_len(patterns, rest, here);
        match first_lexeme(patterns, rest, here) {
            Some(lexeme) => {
                if 0 < lexeme.len <= rest.len() {
                    let next = advanced(here, rest.take(lexeme.len));
                    lemma_advanced_bounds(here, rest.take(lexeme.len), if here.column < 1 {
                        1
                    } else {
                        here.column
                    });
                    lemma_lexed_tokens_are_not_empty(patterns, rest.skip(lexeme.len), next);
                    match lexed_from(patterns, rest.skip(lexeme.len), next) {
                        Some(more) => {
                            let tokens = seq![lexeme.token] + more;
                            assert forall|i: int| 0 <= i < tokens.len() implies (
                            #[trigger] tokens[i]).value.len() > 0 && tokens[i].location.file
                                == location.file by {
                                if i > 0 {
                                    assert(tokens[i] == more[i - 1]);
                                }
                            }
                        },
                        None => {},
                    }
                }
            },
            None => {},
        }
    }
}

/// Where the first token of a file starts.
pub open spec fn start_of(file: Seq<char>) -> LocationView {
    LocationView { file, line: 1, column: 1 }
}

/// Lexes a text that holds no comments with the given patterns: see
/// [`lexed_from`]. Positions are counted from line 1, column 1 of `file`.
pub fn lex_with(patterns: &Vec<Pattern>, file: &str, text: &str) -> (r: Option<Vec<Token>>)
    requires
        text@.len() < i32::MAX,
    ensures
        match lexed_from(pattern_views(patterns@), text@, start_of(file@)) {
            Some(tokens) => r matches Some(found) && views(found@) == tokens,
            None => r is None,
        },
{
    let ghost rules = pattern_views(patterns@);
    let n = text.unicode_len();
    let mut location = Location { file: file.to_owned(), line: 1, column: 1 };
    let mut tokens: Vec<Token> = Vec::new();
    let mut pos: usize = 0;
    let ghost goal = lexed_from(rules, text@, start_of(file@));
    proof {
        assert(text@.skip(0) =~= text@);
        let first = lexed_from(rules, text@, location@);
        if first is Some {
            assert(views(tokens@) + first->Some_0 =~= first->Some_0);
        }
    }
    loop
        invariant_except_break
            match lexed_from(rules, text@.skip(pos as int), location@) {
                Some(more) => goal == Some(views(tokens@) + more),
                None => goal is None,
            },
        invariant
            pos <= n,
            n == text@.len(),
            n < i32::MAX,
            rules == pattern_views(patterns@),
            goal == lexed_from(rules, text@, start_of(file@)),
            location.line <= 1 + pos,
            location.column <= 1 + pos,
        ensures
            match goal {
                Some(all) => views(tokens@) == all,
                None => false,
            },
        decreases n - pos,
    {
        let ghost input = text@.skip(pos as int);
        let ghost before = views(tokens@);
        let ghost start = location@;
        let rest = text.substring_char(pos, n);
        assert(rest@ =~= input);
        let skipped = count_leading_whitespace(rest);
        let blank = rest.substring_char(0, skipped);
        assert(blank@ =~= input.take(skipped as int));
        proof {
            lemma_advanced_bounds(start, blank@, 1 + pos);
        }
        update_location(blank, &mut location);
        pos += skipped;
        if pos >= n {
            proof {
                assert(input.skip(skipped as int).len() == 0);
                assert(before + Seq::<TokenView>::empty() =~= before);
            }
            break;
        }
        let rest = text.substring_char(pos, n);
        assert(rest@ =~= input.skip(skipped as int));
        proof {
            lemma_first_lexeme_len(rules, rest@, location@);
        }
        let ghost here = location@;
        match apply_patterns(patterns, rest, &mut location) {
            None => {
                return None;
            },
            Some(read) => {
                let (token, len) = read;
                proof {
                    lemma_advanced_bounds(here, rest@.take(len as int), 1 + pos);
                    lemma_views_push(tokens@, token);
                    assert(rest@.skip(len as int) =~= text@.skip(pos + len));
                    let more = lexed_from(rules, text@.skip(pos + len), location@);
                    if more is Some {
                        assert(before.push(token@) + more->Some_0 =~= before + (seq![token@]
                            + more->Some_0));
                    }
                }
                tokens.push(token);
                pos += len;
            },
        }
    }
    Some(tokens)
}

/// The tokens of a text that holds no comments, lexed with the lexical
/// patterns: see [`lexed_from`]. `None` also if one of the patterns is no
/// regular expression.
pub open spec fn lexed_text(file: Seq<char>, text: Seq<char>) -> Option<Seq<TokenView>> {
    if all_compile(lex_patterns()) {
        lexed_from(lex_patterns(), text, start_of(file))
    } else {
        None
    }
}

/// Lexes a text that holds no comments with the lexical patterns.
pub fn lex_text(file: &str, text: &str) -> (r: Option<Vec<Token>>)
    requires
        text@.len() < i32::MAX,
    ensures
        match lexed_text(file@, text@) {
            Some(tokens) => r matches Some(found) && views(found@) == tokens,
            None => r is None,
        },
{
    match get_lex_patterns() {
        Some(patterns) => lex_with(&patterns, file, text),
        None => None,
    }
}

/// The regular expression that matches a line comment.
pub open spec fn comment_pattern() -> Seq<char> {
    "--.*"@
}

/// The tokens of a source text. Line comments, from `--` to the end of the
/// line, are deleted from the whole text before anything else is looked at,
/// a `--` inside a string literal included. `None` if the text cannot be
/// lexed, or holds more characters than a position can count.
pub open spec fn lexed(file: Seq<char>, text: Seq<char>) -> Option<Seq<TokenView>> {
    let stripped = replaced_all(comment_pattern(), text, ""@);
    if compiles(comment_pattern()) && stripped.len() < i32::MAX {
        lexed_text(file, stripped)
    } else {
        None
    }
}

/// Lexes a source text: deletes its line comments and reads its tokens,
/// each with the position at which it starts. Fails, giving nothing, if at
/// some position no pattern matches.
pub fn lex(file: &str, input: String) -> (r: Option<Vec<Token>>)
    ensures
        match lexed(file@, input@) {
            Some(tokens) => r matches Some(found) && views(found@) == tokens,
            None => r is None,
        },
{
    match regex_new("--.*") {
        None => None,
        Some(comment) => {
            let stripped = regex_replace_all(&comment, input.as_str(), "");
            if stripped.as_str().unicode_len() < i32::MAX as usize {
                lex_text(file, stripped.as_str())
            } else {
                None
            }
        },
    }
}

} // verus!
