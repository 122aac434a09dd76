//! Tokens that are put in front of and behind a file's own: the header guard
//! that makes a second inclusion of a file a no-op, and the definitions that
//! predefined flags stand for.

use crate::token::{append_tokens, lemma_views_push, nowhere, views, Location, LocationView, Token, TokenKind, TokenView};
use vstd::prelude::*;
use vstd::string::*;

verus! {

/// The position of the guard tokens of the file at `path`.
pub open spec fn guard_location(path: Seq<char>) -> LocationView {
    LocationView { file: path, line: 0, column: 0 }
}

/// The five tokens that open the header guard of `path`: a test that the
/// guard macro, named like the path, is not defined yet, and its definition
/// with an empty body.
pub open spec fn guard_prefix(path: Seq<char>) -> Seq<TokenView> {
    let location = guard_location(path);
    seq![
        TokenView { kind: TokenKind::Ifndef, value: "#ifndef"@, location },
        TokenView { kind: TokenKind::Macro, value: path, location },
        TokenView { kind: TokenKind::Define, value: "#define"@, location },
        TokenView { kind: TokenKind::Macro, value: path, location },
        TokenView { kind: TokenKind::EndDefine, value: "#end"@, location },
    ]
}

/// The tokens of a file inside the header guard of `path`.
pub open spec fn guarded(path: Seq<char>, tokens: Seq<TokenView>) -> Seq<TokenView> {
    guard_prefix(path) + tokens + seq![
        TokenView { kind: TokenKind::Endif, value: "#endif"@, location: guard_location(path) },
    ]
}

/// Wraps a file's tokens in its header guard.
pub fn add_header_guard(path: String, tokens: Vec<Token>) -> (r: Vec<Token>)
    ensures
        views(r@) == guarded(path@, views(tokens@)),
{
    let mut out: Vec<Token> = Vec::new();
    let here = Location { file: path.clone(), line: 0, column: 0 };
    out.push(Token::new(TokenKind::Ifndef, "#ifndef", here.clone()));
    out.push(Token { kind: TokenKind::Macro, value: path.clone(), location: here.clone() });
    out.push(Token::new(TokenKind::Define, "#define", here.clone()));
    out.push(Token { kind: TokenKind::Macro, value: path, location: here.clone() });
    out.push(Token::new(TokenKind::EndDefine, "#end", here.clone()));
    assert(views(out@) =~= guard_prefix(path@));
    append_tokens(&mut out, &tokens);
    let last = Token::new(TokenKind::Endif, "#endif", here);
    proof {
        lemma_views_push(out@, last);
        assert(views(out@).push(last@) =~= guarded(path@, views(tokens@)));
    }
    out.push(last);
    out
}

/// The definition of one flag: the macro `flag!` with an empty body.
pub open spec fn flag_definition(flag: Seq<char>) -> Seq<TokenView> {
    seq![
        TokenView { kind: TokenKind::Define, value: "#define"@, location: nowhere() },
        TokenView { kind: TokenKind::Macro, value: flag + "!"@, location: nowhere() },
        TokenView { kind: TokenKind::EndDefine, value: "#end"@, location: nowhere() },
    ]
}

/// The definitions of the flags, in order.
pub open spec fn flag_definitions(flags: Seq<Seq<char>>) -> Seq<TokenView>
    decreases flags.len(),
{
    if flags.len() == 0 {
        Seq::empty()
    } else {
        flag_definition(flags[0]) + flag_definitions(flags.skip(1))
    }
}

/// The texts of a sequence of strings.
pub open spec fn texts(strings: Seq<String>) -> Seq<Seq<char>> {
    strings.map_values(|s: String| s@)
}

/// Puts, in front of the tokens, the definition of each flag as an empty
/// value macro named `flag!`.
pub fn add_flags(flags: Vec<String>, tokens: Vec<Token>) -> (r: Vec<Token>)
    ensures
        views(r@) == flag_definitions(texts(flags@)) + views(tokens@),
{
    let ghost all = texts(flags@);
    let mut out: Vec<Token> = Vec::new();
    let mut i: usize = 0;
    proof {
        assert(all.skip(0) =~= all);
        assert(views(out@) + flag_definitions(all) =~= flag_definitions(all));
    }
    while i < flags.len()
        invariant
            i <= flags.len(),
            all == texts(flags@),
            views(out@) + flag_definitions(all.skip(i as int)) == flag_definitions(all),
        decreases flags.len() - i,
    {
        let ghost rest = all.skip(i as int);
        let ghost before = views(out@);
        let mut name = flags[i].clone();
        name.append("!");
        out.push(Token::new(TokenKind::Define, "#define", Location::nowhere()));
        out.push(Token { kind: TokenKind::Macro, value: name, location: Location::nowhere() });
        out.push(Token::new(TokenKind::EndDefine, "#end", Location::nowhere()));
        proof {
            assert(rest[0] == flags@[i as int]@);
            assert(rest.skip(1) =~= all.skip(i + 1));
            assert(views(out@) =~= before + flag_definition(rest[0]));
            assert(views(out@) + flag_definitions(all.skip(i + 1)) =~= before + flag_definitions(
                rest,
            ));
        }
        i += 1;
    }
    proof {
        assert(views(out@) + Seq::<TokenView>::empty() =~= views(out@));
    }
    append_tokens(&mut out, &tokens);
    out
}

} // verus!
