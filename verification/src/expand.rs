//! The expander: the recursive interpreter of directives and call sites.
//!
//! Its input is read from left to right. Conditionals are resolved, the
//! bodies of invoked macros and the tokens of included files are expanded
//! in turn, against the one table that the whole run shares. Nothing stops
//! a macro from invoking itself, so every expansion inside another one
//! uses up one unit of a depth that the caller grants; when it is used up
//! the run fails.

use crate::error::{Error, ErrorView};
use crate::params::{lemma_args_rest_end, lemma_params_end, params};
use crate::scan::lemma_body_end_bounds;
use crate::step::{
    env_of, next_action, source_views, step, Action, Env, Source, SourceView, Step,
};
use crate::table::{FuncMacro, ValueMacro};
use crate::token::{append_tokens, lemma_views_push, views, Token, TokenView};
use vstd::prelude::*;

verus! {

/// How an expansion ends: with the tokens it produced or with the error
/// that stopped it, and with the table as it then stands.
pub ghost struct Expansion {
    pub result: Result<Seq<TokenView>, ErrorView>,
    pub env: Env,
}

/// The expansion `rest` after `out` has been emitted.
pub open spec fn prepend(out: Seq<TokenView>, rest: Expansion) -> Expansion {
    Expansion {
        result: match rest.result {
            Ok(more) => Ok(out + more),
            Err(error) => Err(error),
        },
        env: rest.env,
    }
}

/// The position at which expansion goes on after a step at `pos` that
/// names `next`. Every step names a position behind its own and within the
/// input ([`lemma_step_advances`]), so this is `next`.
pub open spec fn onward(tokens: Seq<TokenView>, pos: int, next: int) -> int {
    if pos < next <= tokens.len() {
        next
    } else {
        pos + 1
    }
}

/// The expansion of the tokens from `pos` on, with `fuel` levels of nested
/// expansion left.
pub open spec fn expand_from(
    tokens: Seq<TokenView>,
    pos: int,
    env: Env,
    sources: Seq<SourceView>,
    fuel: nat,
) -> Expansion
    decreases fuel, tokens.len() - pos,
{
    if pos < 0 || pos >= tokens.len() {
        Expansion { result: Ok(Seq::empty()), env }
    } else {
        match step(tokens, pos, env, sources) {
            Step::Emit => prepend(seq![tokens[pos]], expand_from(tokens, pos + 1, env, sources, fuel)),
            Step::Skip { next, env: changed } => expand_from(
                tokens,
                onward(tokens, pos, next),
                changed,
                sources,
                fuel,
            ),
            Step::Nest { tokens: inner, next } => {
                if fuel == 0 {
                    Expansion {
                        result: Err(ErrorView::ExpansionTooDeep { location: tokens[pos].location }),
                        env,
                    }
                } else {
                    let nested = expand_from(inner, 0, env, sources, (fuel - 1) as nat);
                    match nested.result {
                        Err(_) => nested,
                        Ok(out) => prepend(
                            out,
                            expand_from(tokens, onward(tokens, pos, next), nested.env, sources, fuel),
                        ),
                    }
                }
            },
            Step::Fail { error } => Expansion { result: Err(error), env },
        }
    }
}

/// The expansion of `tokens` against the table `env`, with the files in
/// `sources` to include and `fuel` levels of nested expansion allowed.
pub open spec fn expand(tokens: Seq<TokenView>, env: Env, sources: Seq<SourceView>, fuel: nat)
    -> Expansion {
    expand_from(tokens, 0, env, sources, fuel)
}

/// Every step goes on behind the position it was taken at, and within the
/// input.
pub proof fn lemma_step_advances(
    tokens: Seq<TokenView>,
    pos: int,
    env: Env,
    sources: Seq<SourceView>,
)
    requires
        0 <= pos < tokens.len(),
    ensures
        match step(tokens, pos, env, sources) {
            Step::Skip { next, .. } => pos < next <= tokens.len(),
            Step::Nest { next, .. } => pos < next <= tokens.len(),
            _ => true,
        },
{
    if pos + 3 <= tokens.len() {
        lemma_body_end_bounds(tokens, pos + 3, 0);
    }
    lemma_params_end(tokens, pos + 3);
    match params(tokens, pos + 3) {
        Some(list) => {
            if list.end + 1 <= tokens.len() {
                lemma_body_end_bounds(tokens, list.end + 1, 0);
            }
        },
        None => {},
    }
    lemma_args_rest_end(tokens, pos + 2, Seq::empty());
}

/// The depth of nested expansion that is enough for any sensible input and
/// still far from exhausting the stack.
pub const DEFAULT_DEPTH: usize = 200;

/// Expands a token stream: resolves its conditionals, enters and removes
/// the macros it defines and undefines, replaces each call site by the
/// expansion of the macro's body and each `#include` by the expansion of
/// the named source. `depth` is the number of expansions that may nest.
///
/// The table is left as the run left it, also where the run fails.
pub fn process_tokens(
    tokens: Vec<Token>,
    value_macros: &mut Vec<ValueMacro>,
    func_macros: &mut Vec<FuncMacro>,
    sources: &Vec<Source>,
    depth: usize,
) -> (r: Result<Vec<Token>, Error>)
    ensures
        ({
            let run = expand(
                views(tokens@),
                env_of(old(value_macros)@, old(func_macros)@),
                source_views(sources@),
                depth as nat,
            );
            &&& env_of(final(value_macros)@, final(func_macros)@) == run.env
            &&& match r {
                Ok(out) => run.result == Ok::<Seq<TokenView>, ErrorView>(views(out@)),
                Err(error) => run.result == Err::<Seq<TokenView>, ErrorView>(error@),
            }
        }),
    decreases depth,
{
    let ghost all = views(tokens@);
    let ghost files = source_views(sources@);
    let ghost goal = expand_from(
        all,
        0,
        env_of(value_macros@, func_macros@),
        files,
        depth as nat,
    );
    let mut out: Vec<Token> = Vec::new();
    let mut i: usize = 0;
    proof {
        let first = expand_from(all, 0, env_of(value_macros@, func_macros@), files, depth as nat);
        if first.result is Ok {
            assert(views(out@) + first.result->Ok_0 =~= first.result->Ok_0);
        }
    }
    while i < tokens.len()
        invariant
            i <= tokens.len(),
            all == views(tokens@),
            files == source_views(sources@),
            goal == expand(
                all,
                env_of(old(value_macros)@, old(func_macros)@),
                files,
                depth as nat,
            ),
            prepend(
                views(out@),
                expand_from(all, i as int, env_of(value_macros@, func_macros@), files, depth as nat),
            ) == goal,
        decreases tokens.len() - i,
    {
        let ghost env = env_of(value_macros@, func_macros@);
        let ghost before = views(out@);
        let ghost here = expand_from(all, i as int, env, files, depth as nat);
        proof {
            lemma_step_advances(all, i as int, env, files);
            assert(all[i as int] == tokens@[i as int]@);
        }
        match next_action(&tokens, i, value_macros, func_macros, sources) {
            Action::Emit => {
                let copy = tokens[i].clone();
                proof {
                    lemma_views_push(out@, copy);
                    let rest = expand_from(all, i + 1, env, files, depth as nat);
                    if rest.result is Ok {
                        assert(before.push(copy@) + rest.result->Ok_0 =~= before + (seq![
                            all[i as int],
                        ] + rest.result->Ok_0));
                    }
                }
                out.push(copy);
                i += 1;
            },
            Action::Skip { next } => {
                i = next;
            },
            Action::Nest { tokens: inner, next } => {
                if depth == 0 {
                    return Err(Error::ExpansionTooDeep { location: tokens[i].location.clone() });
                }
                match process_tokens(inner, value_macros, func_macros, sources, depth - 1) {
                    Err(error) => {
                        return Err(error);
                    },
                    Ok(nested) => {
                        proof {
                            let rest = expand_from(
                                all,
                                next as int,
                                env_of(value_macros@, func_macros@),
                                files,
                                depth as nat,
                            );
                            if rest.result is Ok {
                                assert((before + views(nested@)) + rest.result->Ok_0 =~= before + (
                                views(nested@) + rest.result->Ok_0));
                            }
                        }
                        append_tokens(&mut out, &nested);
                        i = next;
                    },
                }
            },
            Action::Fail { error } => {
                return Err(error);
            },
        }
    }
    proof {
        assert(views(out@) + Seq::<TokenView>::empty() =~= views(out@));
    }
    Ok(out)
}

} // verus!
