//! Scanners that find where a construct ends in a token stream: the body of
//! a definition, a nested conditional, a branch of a conditional.
//!
//! All of them count nesting, so that an inner construct is passed over
//! whole and left for a later expansion to look into.

use crate::token::{copy_range, views, Token, TokenKind, TokenView};
use vstd::prelude::*;

verus! {

/// Whether the kind opens a conditional.
pub open spec fn opens_conditional(kind: TokenKind) -> bool {
    kind == TokenKind::Ifdef || kind == TokenKind::Ifndef
}

/// The index of the `#end` that closes a macro body, scanning from `pos`
/// with `depth` inner definitions open; the length of the input if there is
/// none. Every `#define` on the way opens a definition and every `#end`
/// closes the innermost one.
pub open spec fn body_end(tokens: Seq<TokenView>, pos: int, depth: nat) -> int
    decreases tokens.len() - pos,
{
    if pos < 0 || pos >= tokens.len() {
        tokens.len() as int
    } else if tokens[pos].kind == TokenKind::Define {
        body_end(tokens, pos + 1, depth + 1)
    } else if tokens[pos].kind == TokenKind::EndDefine {
        if depth == 0 {
            pos
        } else {
            body_end(tokens, pos + 1, (depth - 1) as nat)
        }
    } else {
        body_end(tokens, pos + 1, depth)
    }
}

/// The body ends at or after the position the scan starts from.
pub proof fn lemma_body_end_bounds(tokens: Seq<TokenView>, pos: int, depth: nat)
    requires
        0 <= pos <= tokens.len(),
    ensures
        pos <= body_end(tokens, pos, depth) <= tokens.len(),
        body_end(tokens, pos, depth) < tokens.len() ==> tokens[body_end(tokens, pos, depth)].kind
            == TokenKind::EndDefine,
    decreases tokens.len() - pos,
{
    if pos < tokens.len() {
        if tokens[pos].kind == TokenKind::Define {
            lemma_body_end_bounds(tokens, pos + 1, depth + 1);
        } else if tokens[pos].kind == TokenKind::EndDefine {
            if depth > 0 {
                lemma_body_end_bounds(tokens, pos + 1, (depth - 1) as nat);
            }
        } else {
            lemma_body_end_bounds(tokens, pos + 1, depth);
        }
    }
}

/// Where the cursor stands after a body that ends at `end`: behind the
/// closing `#end`, or at the end of the input where the body is not closed.
pub open spec fn after_body(tokens: Seq<TokenView>, end: int) -> int {
    if end < tokens.len() {
        end + 1
    } else {
        tokens.len() as int
    }
}

/// Reads a macro body: the tokens from the cursor up to the `#end` that
/// closes it, inner definitions included whole. The cursor moves behind
/// that `#end`. A body that is never closed runs to the end of the input.
pub fn get_macro_body(tokens: &Vec<Token>, pos: &mut usize) -> (body: Vec<Token>)
    requires
        *old(pos) <= tokens.len(),
    ensures
        views(body@) == views(tokens@).subrange(
            *old(pos) as int,
            body_end(views(tokens@), *old(pos) as int, 0),
        ),
        *final(pos) == after_body(views(tokens@), body_end(views(tokens@), *old(pos) as int, 0)),
{
    let ghost all = views(tokens@);
    let start = *pos;
    let mut i: usize = start;
    let mut depth: usize = 0;
    loop
        invariant_except_break
            body_end(all, i as int, depth as nat) == body_end(all, start as int, 0),
        invariant
            start <= i <= tokens.len(),
            depth <= i - start,
            all == views(tokens@),
        ensures
            start <= i <= tokens.len(),
            i == body_end(all, start as int, 0),
        decreases tokens.len() - i,
    {
        if i >= tokens.len() {
            break;
        }
        assert(all[i as int] == tokens@[i as int]@);
        if tokens[i].kind == TokenKind::Define {
            depth += 1;
        } else if tokens[i].kind == TokenKind::EndDefine {
            if depth == 0 {
                break;
            }
            depth -= 1;
        }
        i += 1;
    }
    let body = copy_range(tokens, start, i);
    if i < tokens.len() {
        *pos = i + 1;
    } else {
        *pos = i;
    }
    body
}

/// The position behind the `#endif` that closes the conditional entered
/// before `pos`, with `depth` further conditionals open inside it; the
/// length of the input if there is none.
pub open spec fn conditional_end(tokens: Seq<TokenView>, pos: int, depth: nat) -> int
    decreases tokens.len() - pos,
{
    if pos < 0 || pos >= tokens.len() {
        tokens.len() as int
    } else if opens_conditional(tokens[pos].kind) {
        conditional_end(tokens, pos + 1, depth + 1)
    } else if tokens[pos].kind == TokenKind::Endif {
        if depth == 0 {
            pos + 1
        } else {
            conditional_end(tokens, pos + 1, (depth - 1) as nat)
        }
    } else {
        conditional_end(tokens, pos + 1, depth)
    }
}

/// A conditional ends behind the position the scan starts from, unless the
/// input ends first.
pub proof fn lemma_conditional_end_bounds(tokens: Seq<TokenView>, pos: int, depth: nat)
    requires
        0 <= pos <= tokens.len(),
    ensures
        pos <= conditional_end(tokens, pos, depth) <= tokens.len(),
        pos < tokens.len() ==> pos < conditional_end(tokens, pos, depth),
    decreases tokens.len() - pos,
{
    if pos < tokens.len() {
        if opens_conditional(tokens[pos].kind) {
            lemma_conditional_end_bounds(tokens, pos + 1, depth + 1);
        } else if tokens[pos].kind == TokenKind::Endif {
            if depth > 0 {
                lemma_conditional_end_bounds(tokens, pos + 1, (depth - 1) as nat);
            }
        } else {
            lemma_conditional_end_bounds(tokens, pos + 1, depth);
        }
    }
}

/// Passes over a nested conditional whose opening directive stands just
/// before the cursor: the cursor moves behind the `#endif` that closes it,
/// conditionals nested inside it passed over on the way, or to the end of
/// the input if it is never closed.
pub fn skip_nested_ifdefs(tokens: &Vec<Token>, pos: &mut usize)
    requires
        *old(pos) <= tokens.len(),
    ensures
        *final(pos) == conditional_end(views(tokens@), *old(pos) as int, 0),
        *old(pos) <= *final(pos) <= tokens.len(),
{
    let ghost all = views(tokens@);
    let start = *pos;
    let mut i: usize = start;
    let mut depth: usize = 0;
    proof {
        lemma_conditional_end_bounds(all, start as int, 0);
    }
    loop
        invariant_except_break
            conditional_end(all, i as int, depth as nat) == conditional_end(all, start as int, 0),
        invariant
            start <= i <= tokens.len(),
            depth <= i - start,
            all == views(tokens@),
        ensures
            start <= i <= tokens.len(),
            i == conditional_end(all, start as int, 0),
        decreases tokens.len() - i,
    {
        if i >= tokens.len() {
            break;
        }
        assert(all[i as int] == tokens@[i as int]@);
        let kind = tokens[i].kind;
        i += 1;
        if kind == TokenKind::Ifdef || kind == TokenKind::Ifndef {
            depth += 1;
        } else if kind == TokenKind::Endif {
            if depth == 0 {
                break;
            }
            depth -= 1;
        }
    }
    *pos = i;
}

/// The index of the token that ends the branch of a conditional, scanning
/// from `pos` with `depth` nested conditionals open: the first `#endif`
/// outside every nested conditional, or the first `#else` there if
/// `until_else` is set. The length of the input if the branch never ends.
pub open spec fn branch_end(tokens: Seq<TokenView>, pos: int, depth: nat, until_else: bool) -> int
    decreases tokens.len() - pos,
{
    if pos < 0 || pos >= tokens.len() {
        tokens.len() as int
    } else if opens_conditional(tokens[pos].kind) {
        branch_end(tokens, pos + 1, depth + 1, until_else)
    } else if tokens[pos].kind == TokenKind::Endif {
        if depth == 0 {
            pos
        } else {
            branch_end(tokens, pos + 1, (depth - 1) as nat, until_else)
        }
    } else if tokens[pos].kind == TokenKind::Else && depth == 0 && until_else {
        pos
    } else {
        branch_end(tokens, pos + 1, depth, until_else)
    }
}

/// Inside a nested conditional the scan for the end of a branch goes on
/// behind the `#endif` that closes the nested conditional.
pub proof fn lemma_branch_end_skips_nested(
    tokens: Seq<TokenView>,
    pos: int,
    depth: nat,
    until_else: bool,
)
    requires
        0 <= pos <= tokens.len(),
    ensures
        branch_end(tokens, pos, depth + 1, until_else) == branch_end(
            tokens,
            conditional_end(tokens, pos, depth),
            0,
            until_else,
        ),
    decreases tokens.len() - pos,
{
    if pos < tokens.len() {
        if opens_conditional(tokens[pos].kind) {
            lemma_branch_end_skips_nested(tokens, pos + 1, depth + 1, until_else);
        } else if tokens[pos].kind == TokenKind::Endif {
            if depth > 0 {
                lemma_branch_end_skips_nested(tokens, pos + 1, (depth - 1) as nat, until_else);
            }
        } else {
            lemma_branch_end_skips_nested(tokens, pos + 1, depth, until_else);
        }
    }
}

/// Finds the token that ends the branch starting at `pos`: the `#endif` of
/// the conditional, or its `#else` where `until_else` is set. Nested
/// conditionals are passed over whole. Returns the length of the input if
/// the branch never ends.
pub fn scan_branch(tokens: &Vec<Token>, pos: usize, until_else: bool) -> (end: usize)
    requires
        pos <= tokens.len(),
    ensures
        end == branch_end(views(tokens@), pos as int, 0, until_else),
        pos <= end <= tokens.len(),
{
    let ghost all = views(tokens@);
    let mut i: usize = pos;
    loop
        invariant_except_break
            branch_end(all, i as int, 0, until_else) == branch_end(all, pos as int, 0, until_else),
        invariant
            pos <= i <= tokens.len(),
            all == views(tokens@),
        ensures
            pos <= i <= tokens.len(),
            i == branch_end(all, pos as int, 0, until_else),
        decreases tokens.len() - i,
    {
        if i >= tokens.len() {
            break;
        }
        assert(all[i as int] == tokens@[i as int]@);
        let kind = tokens[i].kind;
        if kind == TokenKind::Ifdef || kind == TokenKind::Ifndef {
            proof {
                lemma_branch_end_skips_nested(all, i + 1, 0, until_else);
                lemma_conditional_end_bounds(all, i + 1, 0);
            }
            i += 1;
            skip_nested_ifdefs(tokens, &mut i);
        } else if kind == TokenKind::Endif || (kind == TokenKind::Else && until_else) {
            break;
        } else {
            i += 1;
        }
    }
    i
}

} // verus!
