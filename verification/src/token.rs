//! Tokens, their source locations, and the mathematical views that the
//! contracts of this crate are stated over.

use crate::text::text_is;
use vstd::prelude::*;

verus! {

/// The closed set of token classes.
#[derive(Debug, Clone, Copy, PartialEq, Eq, Structural)]
pub enum TokenKind {
    Number,
    String,
    Boolean,
    Nil,
    Name,
    Special,
    Delimiter,
    Brace,
    Macro,
    Include,
    Define,
    EndDefine,
    Undef,
    Ifdef,
    Ifndef,
    Endif,
    Else,
    Stringify,
    Paste,
    Vararg,
    StringifyVararg,
}

/// Where a token starts: a file, a line and a column, both counted from 1.
/// Synthesized tokens carry line 0 and column 0.
#[derive(Debug)]
pub struct Location {
    pub file: String,
    pub line: i32,
    pub column: i32,
}

/// A classified lexeme with its position.
#[derive(Debug)]
pub struct Token {
    pub kind: TokenKind,
    pub value: String,
    pub location: Location,
}

/// The value of a [`Location`].
pub ghost struct LocationView {
    pub file: Seq<char>,
    pub line: int,
    pub column: int,
}

/// The value of a [`Token`].
pub ghost struct TokenView {
    pub kind: TokenKind,
    pub value: Seq<char>,
    pub location: LocationView,
}

impl View for Location {
    type V = LocationView;

    open spec fn view(&self) -> LocationView {
        LocationView { file: self.file@, line: self.line as int, column: self.column as int }
    }
}

impl View for Token {
    type V = TokenView;

    open spec fn view(&self) -> TokenView {
        TokenView { kind: self.kind, value: self.value@, location: self.location@ }
    }
}

impl Clone for Location {
    fn clone(&self) -> (r: Self)
        ensures
            r@ == self@,
    {
        Location { file: self.file.clone(), line: self.line, column: self.column }
    }
}

impl Clone for Token {
    fn clone(&self) -> (r: Self)
        ensures
            r@ == self@,
    {
        Token { kind: self.kind, value: self.value.clone(), location: self.location.clone() }
    }
}

/// The values of a sequence of tokens, in order.
pub open spec fn views(tokens: Seq<Token>) -> Seq<TokenView> {
    tokens.map_values(|t: Token| t@)
}

/// `views` distributes over `push`.
pub proof fn lemma_views_push(tokens: Seq<Token>, token: Token)
    ensures
        views(tokens.push(token)) == views(tokens).push(token@),
{
    assert(views(tokens.push(token)) =~= views(tokens).push(token@));
}

/// The position that synthesized tokens carry when no single source
/// position applies.
pub open spec fn nowhere() -> LocationView {
    LocationView { file: Seq::empty(), line: 0, column: 0 }
}

/// Whether the lexeme is one of the opening brackets `(`, `[`, `{`.
pub open spec fn is_opener(value: Seq<char>) -> bool {
    value == "("@ || value == "["@ || value == "{"@
}

/// Whether the lexeme is one of the closing brackets `)`, `]`, `}`.
pub open spec fn is_closer(value: Seq<char>) -> bool {
    value == ")"@ || value == "]"@ || value == "}"@
}

impl Location {
    /// The placeholder position of synthesized tokens.
    pub fn nowhere() -> (r: Location)
        ensures
            r@ == nowhere(),
    {
        Location { file: String::new(), line: 0, column: 0 }
    }
}

impl Token {
    /// A token of the given kind and lexeme at the given position.
    pub fn new(kind: TokenKind, value: &str, location: Location) -> (r: Token)
        ensures
            r@ == (TokenView { kind, value: value@, location: location@ }),
    {
        Token { kind, value: value.to_owned(), location }
    }

    /// Whether the lexeme is an opening bracket.
    pub fn opens(&self) -> (r: bool)
        ensures
            r == is_opener(self@.value),
    {
        text_is(&self.value, "(") || text_is(&self.value, "[") || text_is(&self.value, "{")
    }

    /// Whether the lexeme is a closing bracket.
    pub fn closes(&self) -> (r: bool)
        ensures
            r == is_closer(self@.value),
    {
        text_is(&self.value, ")") || text_is(&self.value, "]") || text_is(&self.value, "}")
    }
}

/// Appends copies of `more` to `out`.
pub fn append_tokens(out: &mut Vec<Token>, more: &Vec<Token>)
    ensures
        views(final(out)@) == views(old(out)@) + views(more@),
{
    let mut i: usize = 0;
    while i < more.len()
        invariant
            i <= more.len(),
            views(out@) == views(old(out)@) + views(more@).take(i as int),
        decreases more.len() - i,
    {
        let token = more[i].clone();
        proof {
            lemma_views_push(out@, token);
            assert(views(more@).take(i + 1) =~= views(more@).take(i as int).push(more@[i as int]@));
        }
        out.push(token);
        i += 1;
    }
    assert(views(more@).take(more.len() as int) =~= views(more@));
}

/// Copies of the tokens at positions `from..to`.
pub fn copy_range(tokens: &Vec<Token>, from: usize, to: usize) -> (r: Vec<Token>)
    requires
        from <= to <= tokens.len(),
    ensures
        views(r@) == views(tokens@).subrange(from as int, to as int),
{
    let mut out: Vec<Token> = Vec::new();
    let mut i: usize = from;
    while i < to
        invariant
            from <= i <= to <= tokens.len(),
            views(out@) == views(tokens@).subrange(from as int, i as int),
        decreases to - i,
    {
        let token = tokens[i].clone();
        proof {
            lemma_views_push(out@, token);
            assert(views(tokens@).subrange(from as int, i + 1) =~= views(tokens@).subrange(
                from as int,
                i as int,
            ).push(tokens@[i as int]@));
        }
        out.push(token);
        i += 1;
    }
    out
}

} // verus!
