//! What holds of expansion and of the rewriting passes in general.

use crate::error::{syntax_error, ErrorView, SyntaxProblem};
use crate::expand::{expand, expand_from, lemma_step_advances, onward, Expansion};
use crate::guard::guarded;
use crate::rewrite::{bang_merged, pasted};
use crate::scan::{branch_end, opens_conditional};
use crate::step::{find_source, step, Env, SourceView, Step};
use crate::text::unquoted;
use crate::table::{find_value, lemma_undefine_func, lemma_undefine_value};
use crate::token::{TokenKind, TokenView};
use vstd::prelude::*;

verus! {

/// Whether the expander acts on a token of this kind rather than copying
/// it: the conditionals with their `#endif`, definitions and removals,
/// inclusions and call sites.
pub open spec fn is_active(kind: TokenKind) -> bool {
    kind == TokenKind::Ifdef || kind == TokenKind::Ifndef || kind == TokenKind::Endif || kind
        == TokenKind::Define || kind == TokenKind::Undef || kind == TokenKind::Include || kind
        == TokenKind::Macro
}

/// Whether the kind is that of a directive.
pub open spec fn is_directive(kind: TokenKind) -> bool {
    kind == TokenKind::Include || kind == TokenKind::Define || kind == TokenKind::EndDefine || kind
        == TokenKind::Undef || kind == TokenKind::Ifdef || kind == TokenKind::Ifndef || kind
        == TokenKind::Endif || kind == TokenKind::Else
}

/// Whether the kind is that of an operator of macro bodies.
pub open spec fn is_macro_operator(kind: TokenKind) -> bool {
    kind == TokenKind::Stringify || kind == TokenKind::Paste || kind == TokenKind::Vararg || kind
        == TokenKind::StringifyVararg
}

/// Whether the expander copies every token of the stream.
pub open spec fn inert(tokens: Seq<TokenView>) -> bool {
    forall|i: int| 0 <= i < tokens.len() ==> !is_active(#[trigger] tokens[i].kind)
}

/// From any position on, the expansion of an inert stream is the rest of
/// the stream, and the table stays as it is.
pub proof fn lemma_expand_from_inert(
    tokens: Seq<TokenView>,
    pos: int,
    env: Env,
    sources: Seq<SourceView>,
    fuel: nat,
)
    requires
        inert(tokens),
        0 <= pos <= tokens.len(),
    ensures
        expand_from(tokens, pos, env, sources, fuel) == (Expansion {
            result: Ok(tokens.skip(pos)),
            env,
        }),
    decreases tokens.len() - pos,
{
    if pos < tokens.len() {
        assert(!is_active(tokens[pos].kind));
        lemma_expand_from_inert(tokens, pos + 1, env, sources, fuel);
        assert(seq![tokens[pos]] + tokens.skip(pos + 1) =~= tokens.skip(pos));
    } else {
        assert(tokens.skip(pos) =~= Seq::<TokenView>::empty());
    }
}

/// Expansion is the identity on a stream that holds no conditional, no
/// `#endif`, no definition or removal, no inclusion and no call site,
/// whatever the table and the sources are and however little nesting is
/// allowed.
pub proof fn lemma_expand_inert_is_identity(
    tokens: Seq<TokenView>,
    env: Env,
    sources: Seq<SourceView>,
    fuel: nat,
)
    requires
        inert(tokens),
    ensures
        expand(tokens, env, sources, fuel) == (Expansion { result: Ok(tokens), env }),
{
    lemma_expand_from_inert(tokens, 0, env, sources, fuel);
    assert(tokens.skip(0) =~= tokens);
}

/// Expansion is the identity on a stream without directives, without
/// operators of macro bodies and without call sites.
pub proof fn lemma_expand_plain_is_identity(
    tokens: Seq<TokenView>,
    env: Env,
    sources: Seq<SourceView>,
    fuel: nat,
)
    requires
        forall|i: int|
            0 <= i < tokens.len() ==> !is_directive(#[trigger] tokens[i].kind)
                && !is_macro_operator(tokens[i].kind) && tokens[i].kind != TokenKind::Macro,
    ensures
        expand(tokens, env, sources, fuel) == (Expansion { result: Ok(tokens), env }),
{
    assert forall|i: int| 0 <= i < tokens.len() implies !is_active(#[trigger] tokens[i].kind) by {
        assert(!is_directive(tokens[i].kind));
    }
    lemma_expand_inert_is_identity(tokens, env, sources, fuel);
}

/// What expansion produces from any position on is inert.
pub proof fn lemma_expand_from_output_inert(
    tokens: Seq<TokenView>,
    pos: int,
    env: Env,
    sources: Seq<SourceView>,
    fuel: nat,
)
    requires
        0 <= pos <= tokens.len(),
    ensures
        expand_from(tokens, pos, env, sources, fuel).result matches Ok(out) ==> inert(out),
    decreases fuel, tokens.len() - pos,
{
    if pos < tokens.len() {
        lemma_step_advances(tokens, pos, env, sources);
        match step(tokens, pos, env, sources) {
            Step::Emit => {
                lemma_expand_from_output_inert(tokens, pos + 1, env, sources, fuel);
            },
            Step::Skip { next, env: changed } => {
                lemma_expand_from_output_inert(tokens, next, changed, sources, fuel);
            },
            Step::Nest { tokens: inner, next } => {
                if fuel > 0 {
                    lemma_expand_from_output_inert(inner, 0, env, sources, (fuel - 1) as nat);
                    let nested = expand_from(inner, 0, env, sources, (fuel - 1) as nat);
                    if nested.result is Ok {
                        lemma_expand_from_output_inert(tokens, next, nested.env, sources, fuel);
                    }
                }
            },
            Step::Fail { .. } => {},
        }
    }
}

/// The output of an expansion holds nothing that the expander would act
/// on: no conditional, no `#endif`, no definition or removal, no inclusion
/// and no call site.
pub proof fn lemma_expand_output_inert(
    tokens: Seq<TokenView>,
    env: Env,
    sources: Seq<SourceView>,
    fuel: nat,
)
    ensures
        expand(tokens, env, sources, fuel).result matches Ok(out) ==> inert(out),
{
    lemma_expand_from_output_inert(tokens, 0, env, sources, fuel);
}

/// Expansion is idempotent: expanding what an expansion produced gives it
/// back unchanged and changes no table, whatever table, sources and depth
/// the second run is given.
pub proof fn lemma_expand_idempotent(
    tokens: Seq<TokenView>,
    env: Env,
    sources: Seq<SourceView>,
    fuel: nat,
    again_env: Env,
    again_sources: Seq<SourceView>,
    again_fuel: nat,
)
    ensures
        expand(tokens, env, sources, fuel).result matches Ok(out) ==> expand(
            out,
            again_env,
            again_sources,
            again_fuel,
        ) == (Expansion { result: Ok(out), env: again_env }),
{
    lemma_expand_output_inert(tokens, env, sources, fuel);
    match expand(tokens, env, sources, fuel).result {
        Ok(out) => {
            lemma_expand_inert_is_identity(out, again_env, again_sources, again_fuel);
        },
        Err(_) => {},
    }
}

/// Whether the expansion ran out of depth.
pub open spec fn too_deep(run: Expansion) -> bool {
    run.result matches Err(ErrorView::ExpansionTooDeep { .. })
}

/// From any position on, more depth changes nothing of an expansion that
/// did not run out of depth.
pub proof fn lemma_expand_from_depth(
    tokens: Seq<TokenView>,
    pos: int,
    env: Env,
    sources: Seq<SourceView>,
    fuel: nat,
    more: nat,
)
    requires
        0 <= pos <= tokens.len(),
        fuel <= more,
        !too_deep(expand_from(tokens, pos, env, sources, fuel)),
    ensures
        expand_from(tokens, pos, env, sources, more) == expand_from(tokens, pos, env, sources, fuel),
    decreases fuel, tokens.len() - pos,
{
    if pos < tokens.len() {
        lemma_step_advances(tokens, pos, env, sources);
        match step(tokens, pos, env, sources) {
            Step::Emit => {
                lemma_expand_from_depth(tokens, pos + 1, env, sources, fuel, more);
            },
            Step::Skip { next, env: changed } => {
                lemma_expand_from_depth(tokens, next, changed, sources, fuel, more);
            },
            Step::Nest { tokens: inner, next } => {
                if fuel > 0 {
                    let nested = expand_from(inner, 0, env, sources, (fuel - 1) as nat);
                    if nested.result is Ok {
                        assert(!too_deep(nested));
                    }
                    lemma_expand_from_depth(
                        inner,
                        0,
                        env,
                        sources,
                        (fuel - 1) as nat,
                        (more - 1) as nat,
                    );
                    if nested.result is Ok {
                        lemma_expand_from_depth(tokens, next, nested.env, sources, fuel, more);
                    }
                }
            },
            Step::Fail { .. } => {},
        }
    }
}

/// The depth that a run is given does not matter once it is enough: a run
/// that did not run out of depth ends the same way with any greater depth.
pub proof fn lemma_expand_depth(
    tokens: Seq<TokenView>,
    env: Env,
    sources: Seq<SourceView>,
    fuel: nat,
    more: nat,
)
    requires
        fuel <= more,
        !too_deep(expand(tokens, env, sources, fuel)),
    ensures
        expand(tokens, env, sources, more) == expand(tokens, env, sources, fuel),
{
    lemma_expand_from_depth(tokens, 0, env, sources, fuel, more);
}

/// Whether the header guard of `path` around `body` is closed by its own
/// `#endif`: `body` neither closes a conditional it did not open nor holds
/// an `#else` outside its own conditionals.
pub open spec fn guard_closes(path: Seq<char>, body: Seq<TokenView>) -> bool {
    branch_end(guarded(path, body), 2, 0, true) == guarded(path, body).len() - 1
}

/// Whether the stream holds no conditional directive: no `#ifdef`, no
/// `#ifndef`, no `#else` and no `#endif`.
pub open spec fn unconditional(tokens: Seq<TokenView>) -> bool {
    forall|i: int|
        0 <= i < tokens.len() ==> !opens_conditional(#[trigger] tokens[i].kind) && tokens[i].kind
            != TokenKind::Endif && tokens[i].kind != TokenKind::Else
}

/// No branch ends inside a stretch of tokens that holds no conditional
/// directive: it ends at the `#endif` or, where asked for, the `#else`
/// behind the stretch.
pub proof fn lemma_branch_end_plain(tokens: Seq<TokenView>, pos: int, last: int, until_else: bool)
    requires
        0 <= pos <= last < tokens.len(),
        tokens[last].kind == TokenKind::Endif || (until_else && tokens[last].kind
            == TokenKind::Else),
        forall|i: int|
            pos <= i < last ==> !opens_conditional(#[trigger] tokens[i].kind) && tokens[i].kind
                != TokenKind::Endif && tokens[i].kind != TokenKind::Else,
    ensures
        branch_end(tokens, pos, 0, until_else) == last,
    decreases last - pos,
{
    if pos < last {
        assert(!opens_conditional(tokens[pos].kind));
        lemma_branch_end_plain(tokens, pos + 1, last, until_else);
    }
}

/// The header guard around a body without conditional directives is closed
/// by its own `#endif`.
pub proof fn lemma_guard_closes_plain(path: Seq<char>, body: Seq<TokenView>)
    requires
        unconditional(body),
    ensures
        guard_closes(path, body),
{
    let all = guarded(path, body);
    assert forall|i: int| 2 <= i < all.len() - 1 implies !opens_conditional(#[trigger] all[i].kind)
        && all[i].kind != TokenKind::Endif && all[i].kind != TokenKind::Else by {
        if i >= 5 {
            assert(all[i] == body[i - 5]);
        }
    }
    lemma_branch_end_plain(all, 2, all.len() - 1, true);
}

/// Including a file again is a no-op: once the guard macro of `path` is
/// defined, the guarded tokens of the file expand to nothing and leave the
/// table as it is.
pub proof fn lemma_reinclusion_is_noop(
    path: Seq<char>,
    body: Seq<TokenView>,
    env: Env,
    sources: Seq<SourceView>,
    fuel: nat,
)
    requires
        env.defines(path),
        guard_closes(path, body),
    ensures
        expand(guarded(path, body), env, sources, fuel) == (Expansion {
            result: Ok(Seq::empty()),
            env,
        }),
{
    let all = guarded(path, body);
    assert(all[0].kind == TokenKind::Ifndef);
    assert(all[1].kind == TokenKind::Macro && all[1].value == path);
    assert(all[all.len() - 1].kind == TokenKind::Endif);
    let end = all.len() as int;
    assert(crate::step::conditional_step(all, 0, env) == (Step::Skip { next: end, env }));
    assert(step(all, 0, env, sources) == (Step::Skip { next: end, env }));
    assert(onward(all, 0, end) == end);
    assert(expand_from(all, end, env, sources, fuel) == (Expansion {
        result: Ok(Seq::empty()),
        env,
    }));
}

/// An `#include` of a file whose guard macro is defined already emits
/// nothing and leaves the table as it is: a file is expanded once, however
/// often it is included.
pub proof fn lemma_include_again_is_noop(
    directive: TokenView,
    literal: TokenView,
    env: Env,
    sources: Seq<SourceView>,
    fuel: nat,
)
    requires
        directive.kind == TokenKind::Include,
        literal.kind == TokenKind::String,
        find_source(sources, unquoted(literal.value)) matches Some(source) && guard_closes(
            unquoted(literal.value),
            source.tokens,
        ),
        env.defines(unquoted(literal.value)),
        fuel > 0,
    ensures
        expand(seq![directive, literal], env, sources, fuel) == (Expansion {
            result: Ok(Seq::empty()),
            env,
        }),
{
    let tokens = seq![directive, literal];
    let path = unquoted(literal.value);
    let source = find_source(sources, path)->Some_0;
    lemma_reinclusion_is_noop(path, source.tokens, env, sources, (fuel - 1) as nat);
    assert(step(tokens, 0, env, sources) == (Step::Nest {
        tokens: guarded(path, source.tokens),
        next: 2,
    }));
    assert(onward(tokens, 0, 2) == 2);
    assert(expand_from(tokens, 2, env, sources, fuel) == (Expansion {
        result: Ok(Seq::empty()),
        env,
    }));
    assert(Seq::<TokenView>::empty() + Seq::<TokenView>::empty() =~= Seq::<TokenView>::empty());
}

/// Including a file twice gives what including it once gives: where the
/// first inclusion succeeds and leaves the guard macro of the file defined,
/// a second inclusion behind it adds nothing to the output and changes
/// nothing in the table.
pub proof fn lemma_including_twice_is_including_once(
    directive: TokenView,
    literal: TokenView,
    env: Env,
    sources: Seq<SourceView>,
    fuel: nat,
)
    requires
        directive.kind == TokenKind::Include,
        literal.kind == TokenKind::String,
        find_source(sources, unquoted(literal.value)) matches Some(source) && guard_closes(
            unquoted(literal.value),
            source.tokens,
        ),
        expand(seq![directive, literal], env, sources, fuel).result is Ok,
        expand(seq![directive, literal], env, sources, fuel).env.defines(unquoted(literal.value)),
    ensures
        expand(seq![directive, literal, directive, literal], env, sources, fuel) == expand(
            seq![directive, literal],
            env,
            sources,
            fuel,
        ),
{
    let once = seq![directive, literal];
    let twice = seq![directive, literal, directive, literal];
    let path = unquoted(literal.value);
    let source = find_source(sources, path)->Some_0;
    let inner = guarded(path, source.tokens);
    assert(step(once, 0, env, sources) == (Step::Nest { tokens: inner, next: 2 }));
    assert(step(twice, 0, env, sources) == (Step::Nest { tokens: inner, next: 2 }));
    assert(fuel > 0);
    let nested = expand_from(inner, 0, env, sources, (fuel - 1) as nat);
    assert(onward(once, 0, 2) == 2);
    assert(onward(twice, 0, 2) == 2);
    assert(expand_from(once, 2, nested.env, sources, fuel) == (Expansion {
        result: Ok(Seq::empty()),
        env: nested.env,
    }));
    let out = nested.result->Ok_0;
    assert(out + Seq::<TokenView>::empty() =~= out);
    assert(expand(once, env, sources, fuel) == nested);
    lemma_reinclusion_is_noop(path, source.tokens, nested.env, sources, (fuel - 1) as nat);
    assert(step(twice, 2, nested.env, sources) == (Step::Nest { tokens: inner, next: 4 }));
    assert(onward(twice, 2, 4) == 4);
    assert(expand_from(twice, 4, nested.env, sources, fuel) == (Expansion {
        result: Ok(Seq::empty()),
        env: nested.env,
    }));
    assert(Seq::<TokenView>::empty() + Seq::<TokenView>::empty() =~= Seq::<TokenView>::empty());
    assert(expand_from(twice, 2, nested.env, sources, fuel) == (Expansion {
        result: Ok(Seq::empty()),
        env: nested.env,
    }));
}

/// A conditional keeps one of its branches: the first if the test holds,
/// the second if it does not. The test of `#ifdef` holds if the name is
/// defined, that of `#ifndef` if it is not. What is kept is expanded one
/// level deeper, and nothing else of the conditional comes out.
pub proof fn lemma_conditional_selects(
    directive: TokenView,
    name: TokenView,
    first: Seq<TokenView>,
    otherwise: TokenView,
    second: Seq<TokenView>,
    close: TokenView,
    env: Env,
    sources: Seq<SourceView>,
    fuel: nat,
)
    requires
        opens_conditional(directive.kind),
        name.kind == TokenKind::Macro,
        otherwise.kind == TokenKind::Else,
        close.kind == TokenKind::Endif,
        unconditional(first),
        unconditional(second),
        fuel > 0,
    ensures
        expand(
            seq![directive, name] + first + seq![otherwise] + second + seq![close],
            env,
            sources,
            fuel,
        ) == expand(
            if (directive.kind == TokenKind::Ifdef) == env.defines(name.value) {
                first
            } else {
                second
            },
            env,
            sources,
            (fuel - 1) as nat,
        ),
{
    let tokens = seq![directive, name] + first + seq![otherwise] + second + seq![close];
    let then_end: int = first.len() as int + 2;
    let end: int = then_end + second.len() as int + 1;
    assert(tokens.len() == end + 1);
    assert(tokens[0] == directive && tokens[1] == name);
    assert(tokens[then_end] == otherwise);
    assert(tokens[end] == close);
    assert forall|i: int| 2 <= i < then_end implies !opens_conditional(#[trigger] tokens[i].kind)
        && tokens[i].kind != TokenKind::Endif && tokens[i].kind != TokenKind::Else by {
        assert(tokens[i] == first[i - 2]);
    }
    assert forall|i: int| then_end + 1 <= i < end implies !opens_conditional(
        #[trigger] tokens[i].kind,
    ) && tokens[i].kind != TokenKind::Endif && tokens[i].kind != TokenKind::Else by {
        assert(tokens[i] == second[i - then_end - 1]);
    }
    lemma_branch_end_plain(tokens, 2, then_end, true);
    lemma_branch_end_plain(tokens, then_end + 1, end, false);
    assert(tokens.subrange(2, then_end) =~= first);
    assert(tokens.subrange(then_end + 1, end) =~= second);
    let kept = if (directive.kind == TokenKind::Ifdef) == env.defines(name.value) {
        first
    } else {
        second
    };
    assert(step(tokens, 0, env, sources) == (Step::Nest { tokens: kept, next: end + 1 }));
    assert(onward(tokens, 0, end + 1) == end + 1);
    let nested = expand_from(kept, 0, env, sources, (fuel - 1) as nat);
    assert(expand_from(tokens, end + 1, nested.env, sources, fuel) == (Expansion {
        result: Ok(Seq::empty()),
        env: nested.env,
    }));
    if nested.result is Ok {
        let out = nested.result->Ok_0;
        assert(out + Seq::<TokenView>::empty() =~= out);
    }
}

/// A call site of a value macro gives the macro's body, where the body
/// holds nothing that is expanded in turn.
pub proof fn lemma_value_macro_gives_its_body(
    call: TokenView,
    env: Env,
    sources: Seq<SourceView>,
    fuel: nat,
)
    requires
        call.kind == TokenKind::Macro,
        find_value(env.values, call.value) matches Some(m) && inert(bang_merged(m.tokens)),
        fuel > 0,
    ensures
        expand(seq![call], env, sources, fuel) == (Expansion {
            result: Ok(bang_merged(find_value(env.values, call.value)->Some_0.tokens)),
            env,
        }),
{
    let tokens = seq![call];
    let body = bang_merged(find_value(env.values, call.value)->Some_0.tokens);
    lemma_expand_inert_is_identity(body, env, sources, (fuel - 1) as nat);
    assert(step(tokens, 0, env, sources) == (Step::Nest { tokens: body, next: 1 }));
    assert(onward(tokens, 0, 1) == 1);
    assert(expand_from(tokens, 1, env, sources, fuel) == (Expansion {
        result: Ok(Seq::empty()),
        env,
    }));
    assert(body + Seq::<TokenView>::empty() =~= body);
}

/// Where no `#endif` follows, no branch ends, unless at an `#else` that
/// is asked for.
pub proof fn lemma_branch_end_without_endif(
    tokens: Seq<TokenView>,
    pos: int,
    depth: nat,
    until_else: bool,
)
    requires
        0 <= pos <= tokens.len(),
        forall|i: int| pos <= i < tokens.len() ==> (#[trigger] tokens[i]).kind != TokenKind::Endif,
    ensures
        ({
            let end = branch_end(tokens, pos, depth, until_else);
            end == tokens.len() || (until_else && pos <= end < tokens.len() && tokens[end].kind
                == TokenKind::Else)
        }),
    decreases tokens.len() - pos,
{
    if pos < tokens.len() {
        assert(tokens[pos].kind != TokenKind::Endif);
        if opens_conditional(tokens[pos].kind) {
            lemma_branch_end_without_endif(tokens, pos + 1, depth + 1, until_else);
        } else if tokens[pos].kind == TokenKind::Else && depth == 0 && until_else {
        } else {
            lemma_branch_end_without_endif(tokens, pos + 1, depth, until_else);
        }
    }
}

/// A conditional that no `#endif` follows makes the run fail, whatever its
/// test says.
pub proof fn lemma_unterminated_conditional_fails(
    tokens: Seq<TokenView>,
    env: Env,
    sources: Seq<SourceView>,
    fuel: nat,
)
    requires
        tokens.len() >= 2,
        opens_conditional(tokens[0].kind),
        tokens[1].kind == TokenKind::Macro,
        forall|i: int| 2 <= i < tokens.len() ==> (#[trigger] tokens[i]).kind != TokenKind::Endif,
    ensures
        expand(tokens, env, sources, fuel) == (Expansion {
            result: Err(
                syntax_error(SyntaxProblem::UnterminatedConditional, tokens[0].location),
            ),
            env,
        }),
{
    lemma_branch_end_without_endif(tokens, 2, 0, true);
    let then_end = branch_end(tokens, 2, 0, true);
    if then_end < tokens.len() {
        lemma_branch_end_without_endif(tokens, then_end + 1, 0, false);
    }
}

/// A call site of a name that is not defined makes the run fail.
pub proof fn lemma_undefined_macro_fails(
    tokens: Seq<TokenView>,
    env: Env,
    sources: Seq<SourceView>,
    fuel: nat,
)
    requires
        tokens.len() >= 1,
        tokens[0].kind == TokenKind::Macro,
        !env.defines(tokens[0].value),
    ensures
        expand(tokens, env, sources, fuel) == (Expansion {
            result: Err(
                ErrorView::UndefinedMacroError {
                    name: tokens[0].value,
                    location: tokens[0].location,
                },
            ),
            env,
        }),
{
}

/// A macro that was undefined cannot be invoked: `#undef` of a name,
/// followed by a call site of that name, fails with the error for an
/// undefined macro, whatever the table held.
pub proof fn lemma_undef_then_invoke(
    undef: TokenView,
    name: TokenView,
    call: TokenView,
    env: Env,
    sources: Seq<SourceView>,
    fuel: nat,
)
    requires
        undef.kind == TokenKind::Undef,
        name.kind == TokenKind::Macro,
        call.kind == TokenKind::Macro,
        call.value == name.value,
    ensures
        expand(seq![undef, name, call], env, sources, fuel) == (Expansion {
            result: Err(
                ErrorView::UndefinedMacroError { name: call.value, location: call.location },
            ),
            env: env.without(name.value),
        }),
{
    let tokens = seq![undef, name, call];
    lemma_undefine_value(env.values, name.value, call.value);
    lemma_undefine_func(env.funcs, name.value, call.value);
    assert(step(tokens, 0, env, sources) == (Step::Skip { next: 2, env: env.without(name.value) }));
    assert(onward(tokens, 0, 2) == 2);
    assert(expand_from(tokens, 0, env, sources, fuel) == expand_from(
        tokens,
        2,
        env.without(name.value),
        sources,
        fuel,
    ));
}

/// Two names with the paste operator between them become one name that
/// reads the one after the other, at the position of the first.
pub proof fn lemma_paste_two_names(first: TokenView, paste: TokenView, second: TokenView)
    requires
        first.kind == TokenKind::Name,
        paste.kind == TokenKind::Paste,
        second.kind == TokenKind::Name,
    ensures
        pasted(seq![first, paste, second]) == seq![
            TokenView {
                kind: TokenKind::Name,
                value: first.value + second.value,
                location: first.location,
            },
        ],
{
    reveal_with_fuel(crate::rewrite::paste_chain_len, 3);
    reveal_with_fuel(crate::rewrite::paste_chain_text, 3);
    reveal_with_fuel(pasted, 3);
    let tokens = seq![first, paste, second];
    let rest = tokens.skip(1);
    assert(rest[0] == paste && rest[1] == second);
    assert(rest.skip(2) =~= Seq::<TokenView>::empty());
    assert(crate::rewrite::paste_chain_text(rest) =~= second.value);
    assert(crate::rewrite::paste_chain_len(rest) == 2);
    assert(first.value + crate::rewrite::paste_chain_text(rest) =~= first.value + second.value);
    assert(pasted(rest.skip(2)) =~= Seq::<TokenView>::empty());
}

} // verus!
