//! The token rewriting passes: substitution of a token by a token list,
//! bang normalization, pasting, merging of adjacent string literals and the
//! removal of trailing commas.

use crate::render::{debug_quote, debug_text, render_tokens, rendered};
use crate::text::{quote, quoted, text_is, unquote, unquoted};
use crate::token::{
    append_tokens, is_closer, lemma_views_push, nowhere, views, Location, LocationView, Token,
    TokenKind, TokenView,
};
use vstd::prelude::*;
use vstd::string::*;

verus! {

/// The values of a list of token lists.
pub open spec fn list_views(lists: Seq<Vec<Token>>) -> Seq<Seq<TokenView>> {
    lists.map_values(|list: Vec<Token>| views(list@))
}

/// The synthesized `,` that separates joined token lists.
pub open spec fn comma() -> TokenView {
    TokenView { kind: TokenKind::Delimiter, value: ","@, location: nowhere() }
}

/// The token lists in order, with a synthesized `,` between neighbours.
pub open spec fn comma_joined(lists: Seq<Seq<TokenView>>) -> Seq<TokenView>
    decreases lists.len(),
{
    if lists.len() == 0 {
        Seq::empty()
    } else if lists.len() == 1 {
        lists[0]
    } else {
        lists[0] + seq![comma()] + comma_joined(lists.skip(1))
    }
}

/// Concatenates the token lists, separating neighbours by a `,` delimiter
/// that carries the placeholder position.
pub fn join_by_commas(tokens: Vec<Vec<Token>>) -> (r: Vec<Token>)
    ensures
        views(r@) == comma_joined(list_views(tokens@)),
{
    let ghost all = list_views(tokens@);
    let mut out: Vec<Token> = Vec::new();
    let mut i: usize = 0;
    proof {
        assert(all.skip(0) =~= all);
        assert(views(out@) + comma_joined(all) =~= comma_joined(all));
    }
    while i < tokens.len()
        invariant
            i <= tokens.len(),
            all == list_views(tokens@),
            views(out@) + comma_joined(all.skip(i as int)) == comma_joined(all),
        decreases tokens.len() - i,
    {
        let ghost rest = all.skip(i as int);
        let ghost before = views(out@);
        append_tokens(&mut out, &tokens[i]);
        if i + 1 < tokens.len() {
            let sep = Token::new(TokenKind::Delimiter, ",", Location::nowhere());
            proof {
                lemma_views_push(out@, sep);
            }
            out.push(sep);
        }
        proof {
            assert(rest[0] == views(tokens@[i as int]@));
            assert(rest.skip(1) =~= all.skip(i + 1));
            if i + 1 >= tokens.len() {
                assert(comma_joined(all.skip(i + 1)) =~= Seq::<TokenView>::empty());
            }
            assert(views(out@) + comma_joined(all.skip(i + 1)) =~= before + comma_joined(rest));
        }
        i += 1;
    }
    proof {
        assert(comma_joined(all.skip(i as int)) =~= Seq::<TokenView>::empty());
        assert(views(out@) + Seq::<TokenView>::empty() =~= views(out@));
    }
    out
}

/// The tokens, each moved to `location`.
pub open spec fn relocated(tokens: Seq<TokenView>, location: LocationView) -> Seq<TokenView> {
    tokens.map_values(|t: TokenView| TokenView { kind: t.kind, value: t.value, location })
}

/// What one token becomes when `old` is replaced by `new`: a token with the
/// kind and lexeme of `old` becomes `new`, moved to the token's position; a
/// stringify operator that names `old` becomes one string literal reading
/// `stringified`; any other token stays.
pub open spec fn replacement(
    token: TokenView,
    old: TokenView,
    new: Seq<TokenView>,
    stringified: Seq<char>,
) -> Seq<TokenView> {
    if token.kind == old.kind && token.value == old.value {
        relocated(new, token.location)
    } else if token.kind == TokenKind::Stringify && unquoted(token.value) == old.value {
        seq![TokenView { kind: TokenKind::String, value: stringified, location: token.location }]
    } else {
        seq![token]
    }
}

/// Every token replaced as [`replacement`] says, in order.
pub open spec fn replaced_with(
    tokens: Seq<TokenView>,
    old: TokenView,
    new: Seq<TokenView>,
    stringified: Seq<char>,
) -> Seq<TokenView>
    decreases tokens.len(),
{
    if tokens.len() == 0 {
        Seq::empty()
    } else {
        replacement(tokens[0], old, new, stringified) + replaced_with(
            tokens.skip(1),
            old,
            new,
            stringified,
        )
    }
}

/// Substitution of `old` by `new`, the stringify operator yielding the
/// quoted rendering of `new`.
pub open spec fn replaced(tokens: Seq<TokenView>, old: TokenView, new: Seq<TokenView>) -> Seq<
    TokenView,
> {
    replaced_with(tokens, old, new, debug_text(rendered(new)))
}

/// Appends copies of `more` to `out`, each moved to `location`.
pub fn append_relocated(out: &mut Vec<Token>, more: &Vec<Token>, location: &Location)
    ensures
        views(final(out)@) == views(old(out)@) + relocated(views(more@), location@),
{
    let ghost target = relocated(views(more@), location@);
    let mut i: usize = 0;
    while i < more.len()
        invariant
            i <= more.len(),
            target == relocated(views(more@), location@),
            views(out@) == views(old(out)@) + target.take(i as int),
        decreases more.len() - i,
    {
        let token = Token {
            kind: more[i].kind,
            value: more[i].value.clone(),
            location: location.clone(),
        };
        proof {
            lemma_views_push(out@, token);
            assert(target.take(i + 1) =~= target.take(i as int).push(token@));
        }
        out.push(token);
        i += 1;
    }
    assert(target.take(more.len() as int) =~= target);
}

/// Replaces every token that has the kind and lexeme of `old` by `new`, and
/// every stringify operator naming `old` by a string literal that reads
/// `stringified`. Replacements take the position of the token they replace.
pub fn replace_tokens_with(
    tokens: Vec<Token>,
    old: Token,
    new: Vec<Token>,
    stringified: String,
) -> (r: Vec<Token>)
    ensures
        views(r@) == replaced_with(views(tokens@), old@, views(new@), stringified@),
{
    let ghost all = views(tokens@);
    let mut out: Vec<Token> = Vec::new();
    let mut i: usize = 0;
    proof {
        assert(all.skip(0) =~= all);
        assert(views(out@) + replaced_with(all, old@, views(new@), stringified@)
            =~= replaced_with(all, old@, views(new@), stringified@));
    }
    while i < tokens.len()
        invariant
            i <= tokens.len(),
            all == views(tokens@),
            views(out@) + replaced_with(all.skip(i as int), old@, views(new@), stringified@)
                == replaced_with(all, old@, views(new@), stringified@),
        decreases tokens.len() - i,
    {
        let ghost rest = all.skip(i as int);
        let ghost before = views(out@);
        let token = &tokens[i];
        if token.kind == old.kind && token.value == old.value {
            append_relocated(&mut out, &new, &token.location);
        } else if token.kind == TokenKind::Stringify && unquote(&token.value) == old.value {
            let literal = Token {
                kind: TokenKind::String,
                value: stringified.clone(),
                location: token.location.clone(),
            };
            proof {
                lemma_views_push(out@, literal);
                assert(before.push(literal@) =~= before + seq![literal@]);
            }
            out.push(literal);
        } else {
            let copy = token.clone();
            proof {
                lemma_views_push(out@, copy);
                assert(before.push(copy@) =~= before + seq![copy@]);
            }
            out.push(copy);
        }
        proof {
            assert(rest[0] == tokens@[i as int]@);
            assert(rest.skip(1) =~= all.skip(i + 1));
            assert(views(out@) == before + replacement(rest[0], old@, views(new@), stringified@));
            assert(views(out@) + replaced_with(all.skip(i + 1), old@, views(new@), stringified@)
                =~= before + replaced_with(rest, old@, views(new@), stringified@));
        }
        i += 1;
    }
    proof {
        assert(views(out@) + Seq::<TokenView>::empty() =~= views(out@));
    }
    out
}

/// Replaces every token that has the kind and lexeme of `old` by `new`, and
/// every stringify operator `#name#` whose name is the lexeme of `old` by a
/// single string literal holding the quoted rendering of `new`.
pub fn replace_tokens(tokens: Vec<Token>, old: Token, new: Vec<Token>) -> (r: Vec<Token>)
    ensures
        views(r@) == replaced(views(tokens@), old@, views(new@)),
{
    let mut copy: Vec<Token> = Vec::new();
    append_tokens(&mut copy, &new);
    assert(views(copy@) =~= views(new@));
    let text = render_tokens(copy);
    let stringified = debug_quote(text.as_str());
    replace_tokens_with(tokens, old, new, stringified)
}

/// A name and the `!` after it, as one macro call site.
pub open spec fn bang_call(name: TokenView) -> TokenView {
    TokenView { kind: TokenKind::Macro, value: name.value + "!"@, location: name.location }
}

/// The tokens with every name that a `!` lexeme follows merged with it into
/// a macro call site, scanning from the left.
pub open spec fn bang_merged(tokens: Seq<TokenView>) -> Seq<TokenView>
    decreases tokens.len(),
{
    if tokens.len() == 0 {
        Seq::empty()
    } else if tokens.len() >= 2 && tokens[0].kind == TokenKind::Name && tokens[1].value == "!"@ {
        seq![bang_call(tokens[0])] + bang_merged(tokens.skip(2))
    } else {
        seq![tokens[0]] + bang_merged(tokens.skip(1))
    }
}

/// Merges every name that is immediately followed by a `!` lexeme into one
/// macro call site `name!`, in one pass from the left.
pub fn apply_bang_pastes(tokens: Vec<Token>) -> (r: Vec<Token>)
    ensures
        views(r@) == bang_merged(views(tokens@)),
{
    let ghost all = views(tokens@);
    let mut out: Vec<Token> = Vec::new();
    let mut i: usize = 0;
    proof {
        assert(all.skip(0) =~= all);
        assert(views(out@) + bang_merged(all) =~= bang_merged(all));
    }
    while i < tokens.len()
        invariant
            i <= tokens.len(),
            all == views(tokens@),
            views(out@) + bang_merged(all.skip(i as int)) == bang_merged(all),
        decreases tokens.len() - i,
    {
        let ghost rest = all.skip(i as int);
        let ghost before = views(out@);
        let token = &tokens[i];
        proof {
            assert(rest[0] == tokens@[i as int]@);
            if i + 1 < tokens.len() {
                assert(rest[1] == tokens@[i + 1]@);
            }
        }
        if token.kind == TokenKind::Name && i + 1 < tokens.len() && text_is(
            &tokens[i + 1].value,
            "!",
        ) {
            let mut value = token.value.clone();
            value.append("!");
            let call = Token { kind: TokenKind::Macro, value, location: token.location.clone() };
            proof {
                lemma_views_push(out@, call);
                assert(rest.skip(2) =~= all.skip(i + 2));
                assert(before.push(call@) + bang_merged(all.skip(i + 2)) =~= before + bang_merged(
                    rest,
                ));
            }
            out.push(call);
            i += 2;
        } else {
            let copy = token.clone();
            proof {
                lemma_views_push(out@, copy);
                assert(rest.skip(1) =~= all.skip(i + 1));
                assert(before.push(copy@) + bang_merged(all.skip(i + 1)) =~= before + bang_merged(
                    rest,
                ));
            }
            out.push(copy);
            i += 1;
        }
    }
    proof {
        assert(views(out@) + Seq::<TokenView>::empty() =~= views(out@));
    }
    out
}

/// How many tokens the paste chain at the front of `tokens` takes up: each
/// paste operator together with the token after it, up to and including the
/// first pair whose second token is no name.
pub open spec fn paste_chain_len(tokens: Seq<TokenView>) -> nat
    decreases tokens.len(),
{
    if tokens.len() >= 1 && tokens[0].kind == TokenKind::Paste {
        if tokens.len() >= 2 && tokens[1].kind == TokenKind::Name {
            2 + paste_chain_len(tokens.skip(2))
        } else if tokens.len() >= 2 {
            2
        } else {
            1
        }
    } else {
        0
    }
}

/// The lexemes of the names that the paste chain at the front of `tokens`
/// appends, concatenated.
pub open spec fn paste_chain_text(tokens: Seq<TokenView>) -> Seq<char>
    decreases tokens.len(),
{
    if tokens.len() >= 2 && tokens[0].kind == TokenKind::Paste && tokens[1].kind
        == TokenKind::Name {
        tokens[1].value + paste_chain_text(tokens.skip(2))
    } else {
        Seq::empty()
    }
}

/// The paste chain never reaches past the end.
pub proof fn lemma_paste_chain_len_bound(tokens: Seq<TokenView>)
    ensures
        paste_chain_len(tokens) <= tokens.len(),
    decreases tokens.len(),
{
    if tokens.len() >= 2 && tokens[0].kind == TokenKind::Paste && tokens[1].kind
        == TokenKind::Name {
        lemma_paste_chain_len_bound(tokens.skip(2));
    }
}

/// The tokens with every name merged with the paste chain that follows it.
/// A paste operator that follows a name and is itself followed by something
/// other than a name is discarded together with that token; a paste operator
/// that follows no name stays.
pub open spec fn pasted(tokens: Seq<TokenView>) -> Seq<TokenView>
    decreases tokens.len(),
{
    if tokens.len() == 0 {
        Seq::empty()
    } else if tokens[0].kind == TokenKind::Name {
        let rest = tokens.skip(1);
        let n = if paste_chain_len(rest) <= rest.len() {
            paste_chain_len(rest)
        } else {
            rest.len()
        };
        seq![
            TokenView {
                kind: TokenKind::Name,
                value: tokens[0].value + paste_chain_text(rest),
                location: tokens[0].location,
            },
        ] + pasted(rest.skip(n as int))
    } else {
        seq![tokens[0]] + pasted(tokens.skip(1))
    }
}

/// Consumes the paste chain that starts at `pos`, appending the pasted names
/// to `text`, and returns the position after the chain.
pub fn apply_pastes_rest(tokens: &Vec<Token>, pos: usize, text: &mut String) -> (end: usize)
    requires
        pos <= tokens.len(),
    ensures
        end == pos + paste_chain_len(views(tokens@).skip(pos as int)),
        end <= tokens.len(),
        final(text)@ == old(text)@ + paste_chain_text(views(tokens@).skip(pos as int)),
{
    let ghost all = views(tokens@);
    let mut i: usize = pos;
    proof {
        lemma_paste_chain_len_bound(all.skip(pos as int));
        assert(text@ + paste_chain_text(all.skip(pos as int)) =~= old(text)@ + paste_chain_text(
            all.skip(pos as int),
        ));
    }
    loop
        invariant_except_break
            i + paste_chain_len(all.skip(i as int)) == pos + paste_chain_len(
                all.skip(pos as int),
            ),
            text@ + paste_chain_text(all.skip(i as int)) == old(text)@ + paste_chain_text(
                all.skip(pos as int),
            ),
        invariant
            pos <= i <= tokens.len(),
            all == views(tokens@),
        ensures
            pos <= i <= tokens.len(),
            i == pos + paste_chain_len(all.skip(pos as int)),
            text@ == old(text)@ + paste_chain_text(all.skip(pos as int)),
        decreases tokens.len() - i,
    {
        let ghost rest = all.skip(i as int);
        proof {
            lemma_paste_chain_len_bound(rest);
            if i < tokens.len() {
                assert(rest[0] == tokens@[i as int]@);
            }
            if i + 1 < tokens.len() {
                assert(rest[1] == tokens@[i + 1]@);
            }
        }
        if i < tokens.len() && tokens[i].kind == TokenKind::Paste {
            if i + 1 < tokens.len() && tokens[i + 1].kind == TokenKind::Name {
                let ghost before = text@;
                text.append(tokens[i + 1].value.as_str());
                proof {
                    assert(rest.skip(2) =~= all.skip(i + 2));
                    assert(text@ + paste_chain_text(all.skip(i + 2)) =~= before + paste_chain_text(
                        rest,
                    ));
                }
                i += 2;
            } else if i + 1 < tokens.len() {
                proof {
                    assert(text@ + paste_chain_text(rest) =~= text@);
                }
                i += 2;
                break;
            } else {
                proof {
                    assert(text@ + paste_chain_text(rest) =~= text@);
                }
                i += 1;
                break;
            }
        } else {
            proof {
                assert(text@ + paste_chain_text(rest) =~= text@);
            }
            break;
        }
    }
    i
}

/// Applies the paste operator: a name followed by `##` and another name
/// becomes one name, chains included (`a ## b ## c` becomes `abc`).
pub fn apply_pastes(tokens: Vec<Token>) -> (r: Vec<Token>)
    ensures
        views(r@) == pasted(views(tokens@)),
{
    let ghost all = views(tokens@);
    let mut out: Vec<Token> = Vec::new();
    let mut i: usize = 0;
    proof {
        assert(all.skip(0) =~= all);
        assert(views(out@) + pasted(all) =~= pasted(all));
    }
    while i < tokens.len()
        invariant
            i <= tokens.len(),
            all == views(tokens@),
            views(out@) + pasted(all.skip(i as int)) == pasted(all),
        decreases tokens.len() - i,
    {
        let ghost rest = all.skip(i as int);
        let ghost before = views(out@);
        let token = &tokens[i];
        proof {
            assert(rest[0] == tokens@[i as int]@);
        }
        if token.kind == TokenKind::Name {
            let mut value = token.value.clone();
            let end = apply_pastes_rest(&tokens, i + 1, &mut value);
            let name = Token { kind: TokenKind::Name, value, location: token.location.clone() };
            proof {
                let tail = rest.skip(1);
                assert(tail =~= all.skip(i + 1));
                lemma_paste_chain_len_bound(tail);
                assert(tail.skip(paste_chain_len(tail) as int) =~= all.skip(end as int));
                lemma_views_push(out@, name);
                assert(before.push(name@) + pasted(all.skip(end as int)) =~= before + pasted(rest));
            }
            out.push(name);
            i = end;
        } else {
            let copy = token.clone();
            proof {
                lemma_views_push(out@, copy);
                assert(rest.skip(1) =~= all.skip(i + 1));
                assert(before.push(copy@) + pasted(all.skip(i + 1)) =~= before + pasted(rest));
            }
            out.push(copy);
            i += 1;
        }
    }
    proof {
        assert(views(out@) + Seq::<TokenView>::empty() =~= views(out@));
    }
    out
}

/// How many string literals stand at the front of `tokens`.
pub open spec fn string_run_len(tokens: Seq<TokenView>) -> nat
    decreases tokens.len(),
{
    if tokens.len() >= 1 && tokens[0].kind == TokenKind::String {
        1 + string_run_len(tokens.skip(1))
    } else {
        0
    }
}

/// The unquoted contents of the string literals at the front of `tokens`,
/// concatenated.
pub open spec fn string_run_text(tokens: Seq<TokenView>) -> Seq<char>
    decreases tokens.len(),
{
    if tokens.len() >= 1 && tokens[0].kind == TokenKind::String {
        unquoted(tokens[0].value) + string_run_text(tokens.skip(1))
    } else {
        Seq::empty()
    }
}

/// The run of string literals never reaches past the end.
pub proof fn lemma_string_run_len_bound(tokens: Seq<TokenView>)
    ensures
        string_run_len(tokens) <= tokens.len(),
    decreases tokens.len(),
{
    if tokens.len() >= 1 && tokens[0].kind == TokenKind::String {
        lemma_string_run_len_bound(tokens.skip(1));
    }
}

/// The tokens with every maximal run of adjacent string literals merged into
/// one literal at the position of the first.
pub open spec fn strings_merged(tokens: Seq<TokenView>) -> Seq<TokenView>
    decreases tokens.len(),
{
    if tokens.len() == 0 {
        Seq::empty()
    } else if tokens[0].kind == TokenKind::String {
        let n = if 1 <= string_run_len(tokens) <= tokens.len() {
            string_run_len(tokens)
        } else {
            1
        };
        seq![
            TokenView {
                kind: TokenKind::String,
                value: quoted(string_run_text(tokens)),
                location: tokens[0].location,
            },
        ] + strings_merged(tokens.skip(n as int))
    } else {
        seq![tokens[0]] + strings_merged(tokens.skip(1))
    }
}

/// Consumes the string literals that start at `pos`, appending their
/// unquoted contents to `text`, and returns the position after them.
pub fn concat_string_lits_rest(tokens: &Vec<Token>, pos: usize, text: &mut String) -> (end: usize)
    requires
        pos <= tokens.len(),
    ensures
        end == pos + string_run_len(views(tokens@).skip(pos as int)),
        end <= tokens.len(),
        final(text)@ == old(text)@ + string_run_text(views(tokens@).skip(pos as int)),
{
    let ghost all = views(tokens@);
    let mut i: usize = pos;
    proof {
        assert(text@ + string_run_text(all.skip(pos as int)) =~= old(text)@ + string_run_text(
            all.skip(pos as int),
        ));
    }
    while i < tokens.len() && tokens[i].kind == TokenKind::String
        invariant
            pos <= i <= tokens.len(),
            all == views(tokens@),
            i + string_run_len(all.skip(i as int)) == pos + string_run_len(all.skip(pos as int)),
            text@ + string_run_text(all.skip(i as int)) == old(text)@ + string_run_text(
                all.skip(pos as int),
            ),
        decreases tokens.len() - i,
    {
        let ghost rest = all.skip(i as int);
        let ghost before = text@;
        let part = unquote(&tokens[i].value);
        text.append(part.as_str());
        proof {
            assert(rest[0] == tokens@[i as int]@);
            assert(rest.skip(1) =~= all.skip(i + 1));
            assert(text@ + string_run_text(all.skip(i + 1)) =~= before + string_run_text(rest));
        }
        i += 1;
    }
    proof {
        let rest = all.skip(i as int);
        if i < tokens.len() {
            assert(rest[0] == tokens@[i as int]@);
        }
        assert(text@ + string_run_text(rest) =~= text@);
    }
    i
}

/// Merges adjacent string literals: their unquoted contents are
/// concatenated and quoted again.
pub fn concat_string_lits(tokens: Vec<Token>) -> (r: Vec<Token>)
    ensures
        views(r@) == strings_merged(views(tokens@)),
{
    let ghost all = views(tokens@);
    let mut out: Vec<Token> = Vec::new();
    let mut i: usize = 0;
    proof {
        assert(all.skip(0) =~= all);
        assert(views(out@) + strings_merged(all) =~= strings_merged(all));
    }
    while i < tokens.len()
        invariant
            i <= tokens.len(),
            all == views(tokens@),
            views(out@) + strings_merged(all.skip(i as int)) == strings_merged(all),
        decreases tokens.len() - i,
    {
        let ghost rest = all.skip(i as int);
        let ghost before = views(out@);
        let token = &tokens[i];
        proof {
            assert(rest[0] == tokens@[i as int]@);
            assert(rest.skip(1) =~= all.skip(i + 1));
        }
        if token.kind == TokenKind::String {
            let mut text = unquote(&token.value);
            let end = concat_string_lits_rest(&tokens, i + 1, &mut text);
            let literal = Token {
                kind: TokenKind::String,
                value: quote(&text),
                location: token.location.clone(),
            };
            proof {
                lemma_string_run_len_bound(rest);
                assert(rest.skip(string_run_len(rest) as int) =~= all.skip(end as int));
                lemma_views_push(out@, literal);
                assert(before.push(literal@) + strings_merged(all.skip(end as int)) =~= before
                    + strings_merged(rest));
            }
            out.push(literal);
            i = end;
        } else {
            let copy = token.clone();
            proof {
                lemma_views_push(out@, copy);
                assert(before.push(copy@) + strings_merged(all.skip(i + 1)) =~= before
                    + strings_merged(rest));
            }
            out.push(copy);
            i += 1;
        }
    }
    proof {
        assert(views(out@) + Seq::<TokenView>::empty() =~= views(out@));
    }
    out
}

/// The tokens with every `,` that a closing bracket follows removed,
/// scanning from the left; the bracket is kept and not looked at again.
pub open spec fn commas_stripped(tokens: Seq<TokenView>) -> Seq<TokenView>
    decreases tokens.len(),
{
    if tokens.len() == 0 {
        Seq::empty()
    } else if tokens.len() >= 2 && tokens[0].value == ","@ && is_closer(tokens[1].value) {
        seq![tokens[1]] + commas_stripped(tokens.skip(2))
    } else {
        seq![tokens[0]] + commas_stripped(tokens.skip(1))
    }
}

/// Drops every `,` that is immediately followed by a closing bracket, so
/// that a generated call site whose last argument came out empty stays
/// well-formed.
pub fn strip_trailing_commas(tokens: Vec<Token>) -> (r: Vec<Token>)
    ensures
        views(r@) == commas_stripped(views(tokens@)),
{
    let ghost all = views(tokens@);
    let mut out: Vec<Token> = Vec::new();
    let mut i: usize = 0;
    proof {
        assert(all.skip(0) =~= all);
        assert(views(out@) + commas_stripped(all) =~= commas_stripped(all));
    }
    while i < tokens.len()
        invariant
            i <= tokens.len(),
            all == views(tokens@),
            views(out@) + commas_stripped(all.skip(i as int)) == commas_stripped(all),
        decreases tokens.len() - i,
    {
        let ghost rest = all.skip(i as int);
        let ghost before = views(out@);
        proof {
            assert(rest[0] == tokens@[i as int]@);
            if i + 1 < tokens.len() {
                assert(rest[1] == tokens@[i + 1]@);
            }
        }
        if text_is(&tokens[i].value, ",") && i + 1 < tokens.len() && tokens[i + 1].closes() {
            let closer = tokens[i + 1].clone();
            proof {
                lemma_views_push(out@, closer);
                assert(rest.skip(2) =~= all.skip(i + 2));
                assert(before.push(closer@) + commas_stripped(all.skip(i + 2)) =~= before
                    + commas_stripped(rest));
            }
            out.push(closer);
            i += 2;
        } else {
            let copy = tokens[i].clone();
            proof {
                lemma_views_push(out@, copy);
                assert(rest.skip(1) =~= all.skip(i + 1));
                assert(before.push(copy@) + commas_stripped(all.skip(i + 1)) =~= before
                    + commas_stripped(rest));
            }
            out.push(copy);
            i += 1;
        }
    }
    proof {
        assert(views(out@) + Seq::<TokenView>::empty() =~= views(out@));
    }
    out
}

} // verus!
