//! What the expander does at one position of its input: the directive or
//! call site there is read, and the outcome says what to emit, what to
//! expand in turn and where to go on.

use crate::error::{syntax_error, Error, ErrorView, SyntaxProblem};
use crate::guard::{add_header_guard, guarded, texts};
use crate::params::{call_args, params, parse_func_args, parse_func_params};
use crate::render::{debug_quote, debug_text, render_tokens, rendered};
use crate::rewrite::{
    apply_bang_pastes, bang_merged, comma_joined, join_by_commas, list_views, replace_tokens,
    replaced,
};
use crate::scan::{after_body, body_end, branch_end, get_macro_body, scan_branch};
use crate::table::{
    find_func, find_value, func_views, lookup_func, lookup_value, remove_func, remove_value,
    value_views, without_func, without_value, FuncMacro, FuncMacroView, ValueMacro,
    ValueMacroView,
};
use crate::text::{text_is, unquote, unquoted};
use crate::token::{
    copy_range, is_opener, views, Location, LocationView, Token, TokenKind, TokenView,
};
use vstd::prelude::*;

verus! {

/// The macro table as the expander sees it.
pub ghost struct Env {
    pub values: Seq<ValueMacroView>,
    pub funcs: Seq<FuncMacroView>,
}

impl Env {
    /// Whether a macro of either kind is defined under `name`.
    pub open spec fn defines(self, name: Seq<char>) -> bool {
        find_value(self.values, name) is Some || find_func(self.funcs, name) is Some
    }

    /// The table with one more value macro.
    pub open spec fn with_value(self, m: ValueMacroView) -> Env {
        Env { values: self.values.push(m), funcs: self.funcs }
    }

    /// The table with one more function macro.
    pub open spec fn with_func(self, m: FuncMacroView) -> Env {
        Env { values: self.values, funcs: self.funcs.push(m) }
    }

    /// The table without any macro named `name`.
    pub open spec fn without(self, name: Seq<char>) -> Env {
        Env { values: without_value(self.values, name), funcs: without_func(self.funcs, name) }
    }
}

/// The table that the two lists of macros make up.
pub open spec fn env_of(value_macros: Seq<ValueMacro>, func_macros: Seq<FuncMacro>) -> Env {
    Env { values: value_views(value_macros), funcs: func_views(func_macros) }
}

/// A file that `#include` can name: its path and its tokens.
#[derive(Debug)]
pub struct Source {
    pub path: String,
    pub tokens: Vec<Token>,
}

/// The value of a [`Source`].
pub ghost struct SourceView {
    pub path: Seq<char>,
    pub tokens: Seq<TokenView>,
}

impl View for Source {
    type V = SourceView;

    open spec fn view(&self) -> SourceView {
        SourceView { path: self.path@, tokens: views(self.tokens@) }
    }
}

/// The values of a list of sources.
pub open spec fn source_views(sources: Seq<Source>) -> Seq<SourceView> {
    sources.map_values(|s: Source| s@)
}

/// The first source at `path`.
pub open spec fn find_source(sources: Seq<SourceView>, path: Seq<char>) -> Option<SourceView>
    decreases sources.len(),
{
    if sources.len() == 0 {
        None
    } else if sources[0].path == path {
        Some(sources[0])
    } else {
        find_source(sources.skip(1), path)
    }
}

/// What happens at one position of the input.
pub ghost enum Step {
    /// The token is copied to the output; the next token is due.
    Emit,
    /// Nothing is emitted; the table is now `env`, and the token at `next`
    /// is due.
    Skip { next: int, env: Env },
    /// `tokens` are expanded in turn and their expansion is emitted; then
    /// the token at `next` is due.
    Nest { tokens: Seq<TokenView>, next: int },
    /// The run fails.
    Fail { error: ErrorView },
}

/// A conditional at `pos`. The directive must be followed by a macro name
/// and closed by an `#endif`; an `#else` outside nested conditionals parts
/// its two branches. The branch that the test selects is expanded, the
/// other one dropped.
pub open spec fn conditional_step(tokens: Seq<TokenView>, pos: int, env: Env) -> Step {
    let here = tokens[pos].location;
    if pos + 1 >= tokens.len() || tokens[pos + 1].kind != TokenKind::Macro {
        Step::Fail { error: syntax_error(SyntaxProblem::ConditionalName, here) }
    } else {
        let then_end = branch_end(tokens, pos + 2, 0, true);
        if !(pos + 2 <= then_end < tokens.len()) {
            Step::Fail { error: syntax_error(SyntaxProblem::UnterminatedConditional, here) }
        } else {
            let has_else = tokens[then_end].kind == TokenKind::Else;
            let end = if has_else {
                branch_end(tokens, then_end + 1, 0, false)
            } else {
                then_end
            };
            let taken = (tokens[pos].kind == TokenKind::Ifdef) == env.defines(
                tokens[pos + 1].value,
            );
            if !(then_end <= end < tokens.len()) {
                Step::Fail { error: syntax_error(SyntaxProblem::UnterminatedConditional, here) }
            } else if taken {
                Step::Nest { tokens: tokens.subrange(pos + 2, then_end), next: end + 1 }
            } else if has_else {
                Step::Nest { tokens: tokens.subrange(then_end + 1, end), next: end + 1 }
            } else {
                Step::Skip { next: end + 1, env }
            }
        }
    }
}

/// A function macro read from its parameter list on, and the position
/// behind its definition.
pub ghost struct FuncDefinition {
    pub defined: FuncMacroView,
    pub next: int,
}

/// The function macro `name` whose parameter list starts at `pos`, behind
/// the opening bracket: the list, then either `=` and a body or `#end` at
/// once. `None` where the tokens have no such shape.
pub open spec fn func_definition(tokens: Seq<TokenView>, pos: int, name: Seq<char>) -> Option<
    FuncDefinition,
> {
    match params(tokens, pos) {
        None => None,
        Some(list) => {
            if !(0 <= list.end < tokens.len()) {
                None
            } else if tokens[list.end].value == "="@ {
                let end = body_end(tokens, list.end + 1, 0);
                Some(
                    FuncDefinition {
                        defined: FuncMacroView {
                            name,
                            params: list.names,
                            vararg: list.vararg,
                            tokens: tokens.subrange(list.end + 1, end),
                        },
                        next: after_body(tokens, end),
                    },
                )
            } else if tokens[list.end].value == "#end"@ {
                Some(
                    FuncDefinition {
                        defined: FuncMacroView {
                            name,
                            params: list.names,
                            vararg: list.vararg,
                            tokens: Seq::empty(),
                        },
                        next: list.end + 1,
                    },
                )
            } else {
                None
            }
        },
    }
}

/// A definition at `pos`. The directive must be followed by a macro name.
/// What follows the name selects the form: `=` a value macro with a body,
/// an opening bracket a function macro, `#end` a value macro without body.
pub open spec fn define_step(tokens: Seq<TokenView>, pos: int, env: Env) -> Step {
    if pos + 1 >= tokens.len() || tokens[pos + 1].kind != TokenKind::Macro {
        Step::Fail { error: syntax_error(SyntaxProblem::DefinitionName, tokens[pos].location) }
    } else {
        let name = tokens[pos + 1];
        if pos + 2 >= tokens.len() {
            Step::Fail { error: syntax_error(SyntaxProblem::DefinitionForm, name.location) }
        } else if tokens[pos + 2].value == "="@ {
            let end = body_end(tokens, pos + 3, 0);
            Step::Skip {
                next: after_body(tokens, end),
                env: env.with_value(
                    ValueMacroView { name: name.value, tokens: tokens.subrange(pos + 3, end) },
                ),
            }
        } else if is_opener(tokens[pos + 2].value) {
            match func_definition(tokens, pos + 3, name.value) {
                Some(definition) => Step::Skip {
                    next: definition.next,
                    env: env.with_func(definition.defined),
                },
                None => Step::Fail {
                    error: syntax_error(SyntaxProblem::FunctionMacro, name.location),
                },
            }
        } else if tokens[pos + 2].value == "#end"@ {
            Step::Skip {
                next: pos + 3,
                env: env.with_value(ValueMacroView { name: name.value, tokens: Seq::empty() }),
            }
        } else {
            Step::Fail { error: syntax_error(SyntaxProblem::DefinitionShape, name.location) }
        }
    }
}

/// The name that stands for a parameter in a macro body.
pub open spec fn name_token(name: Seq<char>, location: LocationView) -> TokenView {
    TokenView { kind: TokenKind::Name, value: name, location }
}

/// The operator that stands for the surplus arguments in a macro body.
pub open spec fn vararg_token(location: LocationView) -> TokenView {
    TokenView { kind: TokenKind::Vararg, value: "#..."@, location }
}

/// The operator that stands for the stringified surplus arguments.
pub open spec fn stringify_vararg_token(location: LocationView) -> TokenView {
    TokenView { kind: TokenKind::StringifyVararg, value: "#...#"@, location }
}

/// The body with the first `n` parameters replaced by their arguments, one
/// after the other: what an earlier argument brought in, a later parameter
/// may replace.
pub open spec fn bound(
    body: Seq<TokenView>,
    names: Seq<Seq<char>>,
    args: Seq<Seq<TokenView>>,
    location: LocationView,
    n: nat,
) -> Seq<TokenView>
    decreases n,
{
    if n == 0 {
        body
    } else {
        replaced(
            bound(body, names, args, location, (n - 1) as nat),
            name_token(names[n - 1], location),
            args[n - 1],
        )
    }
}

/// Each argument as one string literal holding its quoted rendering.
pub open spec fn stringified_args(args: Seq<Seq<TokenView>>, location: LocationView) -> Seq<
    Seq<TokenView>,
> {
    args.map_values(
        |arg: Seq<TokenView>|
            seq![
                TokenView {
                    kind: TokenKind::String,
                    value: debug_text(rendered(arg)),
                    location,
                },
            ],
    )
}

/// How many parameters a call binds: as many as it has arguments for.
pub open spec fn bound_count(m: FuncMacroView, args: Seq<Seq<TokenView>>) -> nat {
    if args.len() <= m.params.len() {
        args.len()
    } else {
        m.params.len()
    }
}

/// The body of a function macro for one call: parameters bound by position,
/// the surplus arguments spliced in for the vararg operators if the macro
/// takes them, and names merged with a `!` that follows them. Parameters
/// without an argument stay as they are; surplus arguments of a macro
/// without vararg are dropped.
pub open spec fn instantiated(m: FuncMacroView, args: Seq<Seq<TokenView>>, location: LocationView)
    -> Seq<TokenView> {
    let n = bound_count(m, args);
    let body = bound(m.tokens, m.params, args, location, n);
    let surplus = args.skip(n as int);
    let filled = if m.vararg {
        replaced(
            replaced(body, vararg_token(location), comma_joined(surplus)),
            stringify_vararg_token(location),
            comma_joined(stringified_args(surplus, location)),
        )
    } else {
        body
    };
    bang_merged(filled)
}

/// A call site at `pos`. A value macro of that name goes first, then a
/// function macro, whose bracketed arguments follow the call site.
pub open spec fn invoke_step(tokens: Seq<TokenView>, pos: int, env: Env) -> Step {
    let call = tokens[pos];
    match find_value(env.values, call.value) {
        Some(m) => Step::Nest { tokens: bang_merged(m.tokens), next: pos + 1 },
        None => match find_func(env.funcs, call.value) {
            None => Step::Fail {
                error: ErrorView::UndefinedMacroError { name: call.value, location: call.location },
            },
            Some(m) => match call_args(tokens, pos + 1) {
                None => Step::Fail {
                    error: ErrorView::ArgumentParseError { location: call.location },
                },
                Some(list) => Step::Nest {
                    tokens: instantiated(m, list.args, call.location),
                    next: list.end,
                },
            },
        },
    }
}

/// An `#undef` at `pos`: the macro name behind it is removed from the
/// table, whether it was defined or not.
pub open spec fn undef_step(tokens: Seq<TokenView>, pos: int, env: Env) -> Step {
    if pos + 1 >= tokens.len() || tokens[pos + 1].kind != TokenKind::Macro {
        Step::Fail { error: syntax_error(SyntaxProblem::UndefName, tokens[pos].location) }
    } else {
        Step::Skip { next: pos + 2, env: env.without(tokens[pos + 1].value) }
    }
}

/// An `#include` at `pos`: the string literal behind it, without its
/// quotes, is the path of a source, whose tokens are expanded inside the
/// header guard of that path.
pub open spec fn include_step(tokens: Seq<TokenView>, pos: int, sources: Seq<SourceView>) -> Step {
    if pos + 1 >= tokens.len() || tokens[pos + 1].kind != TokenKind::String {
        Step::Fail { error: syntax_error(SyntaxProblem::IncludePath, tokens[pos].location) }
    } else {
        let path = unquoted(tokens[pos + 1].value);
        match find_source(sources, path) {
            Some(source) => Step::Nest { tokens: guarded(path, source.tokens), next: pos + 2 },
            None => Step::Fail {
                error: ErrorView::IncludeIOError { path, location: tokens[pos].location },
            },
        }
    }
}

/// What happens at `pos`, by the kind of the token there. A stray `#endif`
/// is dropped; every token that is neither a directive handled here nor a
/// call site is copied.
pub open spec fn step(tokens: Seq<TokenView>, pos: int, env: Env, sources: Seq<SourceView>) -> Step
    recommends
        0 <= pos < tokens.len(),
{
    match tokens[pos].kind {
        TokenKind::Ifdef | TokenKind::Ifndef => conditional_step(tokens, pos, env),
        TokenKind::Endif => Step::Skip { next: pos + 1, env },
        TokenKind::Define => define_step(tokens, pos, env),
        TokenKind::Macro => invoke_step(tokens, pos, env),
        TokenKind::Undef => undef_step(tokens, pos, env),
        TokenKind::Include => include_step(tokens, pos, sources),
        _ => Step::Emit,
    }
}

/// What the expander is to do at one position of its input.
#[derive(Debug)]
pub enum Action {
    /// Copy the token to the output and go on with the next.
    Emit,
    /// Emit nothing and go on at `next`.
    Skip { next: usize },
    /// Expand `tokens`, emit their expansion and go on at `next`.
    Nest { tokens: Vec<Token>, next: usize },
    /// Give up.
    Fail { error: Error },
}

impl Action {
    /// Whether the action carries out `step`.
    pub open spec fn carries_out(self, step: Step) -> bool {
        match self {
            Action::Emit => step is Emit,
            Action::Skip { next } => step is Skip && step->Skip_next == next,
            Action::Nest { tokens, next } => step == (Step::Nest {
                tokens: views(tokens@),
                next: next as int,
            }),
            Action::Fail { error } => step == (Step::Fail { error: error@ }),
        }
    }
}

/// The table after a step.
pub open spec fn env_after(step: Step, env: Env) -> Env {
    match step {
        Step::Skip { env: changed, .. } => changed,
        _ => env,
    }
}

/// Whether a macro of either kind is defined under `name`.
pub fn is_defined(value_macros: &Vec<ValueMacro>, func_macros: &Vec<FuncMacro>, name: &String) -> (r:
    bool)
    ensures
        r == env_of(value_macros@, func_macros@).defines(name@),
{
    lookup_value(value_macros, name).is_some() || lookup_func(func_macros, name).is_some()
}

/// Reads the conditional whose directive stands at `pos` and selects the
/// branch to expand.
pub fn process_conditional(
    tokens: &Vec<Token>,
    pos: usize,
    value_macros: &Vec<ValueMacro>,
    func_macros: &Vec<FuncMacro>,
) -> (r: Action)
    requires
        pos < tokens.len(),
    ensures
        r.carries_out(
            conditional_step(views(tokens@), pos as int, env_of(value_macros@, func_macros@)),
        ),
        !(r is Emit),
{
    let ghost all = views(tokens@);
    assert(all[pos as int] == tokens@[pos as int]@);
    if pos + 1 >= tokens.len() || tokens[pos + 1].kind != TokenKind::Macro {
        return Action::Fail {
            error: Error::SyntaxError {
                problem: SyntaxProblem::ConditionalName,
                location: tokens[pos].location.clone(),
            },
        };
    }
    assert(all[pos + 1] == tokens@[pos + 1]@);
    let then_end = scan_branch(tokens, pos + 2, true);
    if then_end >= tokens.len() {
        return Action::Fail {
            error: Error::SyntaxError {
                problem: SyntaxProblem::UnterminatedConditional,
                location: tokens[pos].location.clone(),
            },
        };
    }
    assert(all[then_end as int] == tokens@[then_end as int]@);
    let has_else = tokens[then_end].kind == TokenKind::Else;
    let end = if has_else {
        scan_branch(tokens, then_end + 1, false)
    } else {
        then_end
    };
    if end >= tokens.len() {
        return Action::Fail {
            error: Error::SyntaxError {
                problem: SyntaxProblem::UnterminatedConditional,
                location: tokens[pos].location.clone(),
            },
        };
    }
    let defined = is_defined(value_macros, func_macros, &tokens[pos + 1].value);
    let taken = (tokens[pos].kind == TokenKind::Ifdef) == defined;
    if taken {
        Action::Nest { tokens: copy_range(tokens, pos + 2, then_end), next: end + 1 }
    } else if has_else {
        Action::Nest { tokens: copy_range(tokens, then_end + 1, end), next: end + 1 }
    } else {
        Action::Skip { next: end + 1 }
    }
}

/// Defines the value macro `name` with the body that starts at the cursor,
/// and moves the cursor behind the body.
pub fn process_value_macro(
    tokens: &Vec<Token>,
    pos: &mut usize,
    value_macros: &mut Vec<ValueMacro>,
    name: Token,
) -> (r: Option<()>)
    requires
        *old(pos) <= tokens.len(),
    ensures
        r == Some(()),
        *final(pos) == after_body(views(tokens@), body_end(views(tokens@), *old(pos) as int, 0)),
        value_views(final(value_macros)@) == value_views(old(value_macros)@).push(
            ValueMacroView {
                name: name@.value,
                tokens: views(tokens@).subrange(
                    *old(pos) as int,
                    body_end(views(tokens@), *old(pos) as int, 0),
                ),
            },
        ),
{
    let body = get_macro_body(tokens, pos);
    let defined = ValueMacro { name: name.value, tokens: body };
    proof {
        assert(value_views(value_macros@.push(defined)) =~= value_views(value_macros@).push(
            defined@,
        ));
    }
    value_macros.push(defined);
    Some(())
}

/// Defines the function macro `name` whose parameter list starts at the
/// cursor, behind the opening bracket, and moves the cursor behind the
/// definition. Fails, changing nothing, if the parameter list is malformed
/// or neither `=` nor `#end` follows it.
pub fn process_func_macro(
    tokens: &Vec<Token>,
    pos: &mut usize,
    func_macros: &mut Vec<FuncMacro>,
    name: Token,
) -> (r: Option<()>)
    requires
        *old(pos) <= tokens.len(),
    ensures
        match func_definition(views(tokens@), *old(pos) as int, name@.value) {
            Some(definition) => r is Some && *final(pos) == definition.next && func_views(
                final(func_macros)@,
            ) == func_views(old(func_macros)@).push(definition.defined),
            None => r is None && *final(pos) == *old(pos) && func_views(final(func_macros)@)
                == func_views(old(func_macros)@),
        },
{
    let ghost all = views(tokens@);
    let mut cursor = *pos;
    let (names, vararg) = match parse_func_params(tokens, &mut cursor) {
        Some(found) => found,
        None => {
            return None;
        },
    };
    if cursor >= tokens.len() {
        return None;
    }
    assert(all[cursor as int] == tokens@[cursor as int]@);
    let body = if text_is(&tokens[cursor].value, "=") {
        cursor += 1;
        get_macro_body(tokens, &mut cursor)
    } else if text_is(&tokens[cursor].value, "#end") {
        cursor += 1;
        Vec::new()
    } else {
        return None;
    };
    let defined = FuncMacro { name: name.value, params: names, vararg, tokens: body };
    proof {
        assert(views(Seq::<Token>::empty()) =~= Seq::<TokenView>::empty());
        assert(func_views(func_macros@.push(defined)) =~= func_views(func_macros@).push(defined@));
    }
    func_macros.push(defined);
    *pos = cursor;
    Some(())
}

/// Reads the definition whose directive stands at `pos` and enters the
/// macro into the table.
pub fn process_define(
    tokens: &Vec<Token>,
    pos: usize,
    value_macros: &mut Vec<ValueMacro>,
    func_macros: &mut Vec<FuncMacro>,
) -> (r: Action)
    requires
        pos < tokens.len(),
    ensures
        r.carries_out(
            define_step(views(tokens@), pos as int, env_of(old(value_macros)@, old(func_macros)@)),
        ),
        env_of(final(value_macros)@, final(func_macros)@) == env_after(
            define_step(views(tokens@), pos as int, env_of(old(value_macros)@, old(func_macros)@)),
            env_of(old(value_macros)@, old(func_macros)@),
        ),
        !(r is Emit),
{
    let ghost all = views(tokens@);
    assert(all[pos as int] == tokens@[pos as int]@);
    if pos + 1 >= tokens.len() || tokens[pos + 1].kind != TokenKind::Macro {
        return Action::Fail {
            error: Error::SyntaxError {
                problem: SyntaxProblem::DefinitionName,
                location: tokens[pos].location.clone(),
            },
        };
    }
    assert(all[pos + 1] == tokens@[pos + 1]@);
    let name = tokens[pos + 1].clone();
    if pos + 2 >= tokens.len() {
        return Action::Fail {
            error: Error::SyntaxError {
                problem: SyntaxProblem::DefinitionForm,
                location: name.location,
            },
        };
    }
    assert(all[pos + 2] == tokens@[pos + 2]@);
    let form = &tokens[pos + 2];
    let mut cursor = pos + 3;
    if text_is(&form.value, "=") {
        process_value_macro(tokens, &mut cursor, value_macros, name);
        Action::Skip { next: cursor }
    } else if form.opens() {
        let location = name.location.clone();
        match process_func_macro(tokens, &mut cursor, func_macros, name) {
            Some(_) => Action::Skip { next: cursor },
            None => Action::Fail {
                error: Error::SyntaxError { problem: SyntaxProblem::FunctionMacro, location },
            },
        }
    } else if text_is(&form.value, "#end") {
        let defined = ValueMacro { name: name.value, tokens: Vec::new() };
        proof {
            assert(views(Seq::<Token>::empty()) =~= Seq::<TokenView>::empty());
            assert(value_views(value_macros@.push(defined)) =~= value_views(value_macros@).push(
                defined@,
            ));
        }
        value_macros.push(defined);
        Action::Skip { next: cursor }
    } else {
        Action::Fail {
            error: Error::SyntaxError {
                problem: SyntaxProblem::DefinitionShape,
                location: name.location,
            },
        }
    }
}

/// Reads the `#undef` at `pos` and removes the macro it names.
pub fn process_undef(
    tokens: &Vec<Token>,
    pos: usize,
    value_macros: &mut Vec<ValueMacro>,
    func_macros: &mut Vec<FuncMacro>,
) -> (r: Action)
    requires
        pos < tokens.len(),
    ensures
        r.carries_out(
            undef_step(views(tokens@), pos as int, env_of(old(value_macros)@, old(func_macros)@)),
        ),
        env_of(final(value_macros)@, final(func_macros)@) == env_after(
            undef_step(views(tokens@), pos as int, env_of(old(value_macros)@, old(func_macros)@)),
            env_of(old(value_macros)@, old(func_macros)@),
        ),
        !(r is Emit),
{
    let ghost all = views(tokens@);
    assert(all[pos as int] == tokens@[pos as int]@);
    if pos + 1 >= tokens.len() || tokens[pos + 1].kind != TokenKind::Macro {
        return Action::Fail {
            error: Error::SyntaxError {
                problem: SyntaxProblem::UndefName,
                location: tokens[pos].location.clone(),
            },
        };
    }
    assert(all[pos + 1] == tokens@[pos + 1]@);
    remove_value(value_macros, &tokens[pos + 1].value);
    remove_func(func_macros, &tokens[pos + 1].value);
    Action::Skip { next: pos + 2 }
}

/// Finds the first source at `path`.
pub fn lookup_source(sources: &Vec<Source>, path: &String) -> (r: Option<usize>)
    ensures
        match r {
            Some(i) => i < sources.len() && find_source(source_views(sources@), path@) == Some(
                sources[i as int]@,
            ),
            None => find_source(source_views(sources@), path@) is None,
        },
{
    let ghost all = source_views(sources@);
    let mut i: usize = 0;
    assert(all.skip(0) =~= all);
    while i < sources.len()
        invariant
            i <= sources.len(),
            all == source_views(sources@),
            find_source(all.skip(i as int), path@) == find_source(all, path@),
        decreases sources.len() - i,
    {
        proof {
            assert(all.skip(i as int)[0] == sources@[i as int]@);
            assert(all.skip(i as int).skip(1) =~= all.skip(i + 1));
        }
        if sources[i].path == *path {
            return Some(i);
        }
        i += 1;
    }
    None
}

/// Reads the `#include` at `pos` and hands out the tokens of the file it
/// names, inside the file's header guard.
pub fn process_include(tokens: &Vec<Token>, pos: usize, sources: &Vec<Source>) -> (r: Action)
    requires
        pos < tokens.len(),
    ensures
        r.carries_out(include_step(views(tokens@), pos as int, source_views(sources@))),
        !(r is Emit),
        !(r is Skip),
{
    let ghost all = views(tokens@);
    assert(all[pos as int] == tokens@[pos as int]@);
    if pos + 1 >= tokens.len() || tokens[pos + 1].kind != TokenKind::String {
        return Action::Fail {
            error: Error::SyntaxError {
                problem: SyntaxProblem::IncludePath,
                location: tokens[pos].location.clone(),
            },
        };
    }
    assert(all[pos + 1] == tokens@[pos + 1]@);
    let path = unquote(&tokens[pos + 1].value);
    match lookup_source(sources, &path) {
        Some(i) => {
            let body = copy_range(&sources[i].tokens, 0, sources[i].tokens.len());
            assert(views(sources[i as int].tokens@).subrange(0, sources[i as int].tokens.len() as int)
                =~= views(sources[i as int].tokens@));
            Action::Nest { tokens: add_header_guard(path, body), next: pos + 2 }
        },
        None => Action::Fail {
            error: Error::IncludeIOError { path, location: tokens[pos].location.clone() },
        },
    }
}

/// Copies of the token lists at positions `from` and after.
pub fn copy_lists_from(lists: &Vec<Vec<Token>>, from: usize) -> (r: Vec<Vec<Token>>)
    requires
        from <= lists.len(),
    ensures
        list_views(r@) == list_views(lists@).skip(from as int),
{
    let ghost all = list_views(lists@);
    let mut out: Vec<Vec<Token>> = Vec::new();
    let mut i: usize = from;
    assert(list_views(out@) =~= all.subrange(from as int, i as int));
    while i < lists.len()
        invariant
            from <= i <= lists.len(),
            all == list_views(lists@),
            list_views(out@) == all.subrange(from as int, i as int),
        decreases lists.len() - i,
    {
        let copy = copy_range(&lists[i], 0, lists[i].len());
        proof {
            assert(views(lists@[i as int]@).subrange(0, lists@[i as int]@.len() as int) =~= views(
                lists@[i as int]@,
            ));
            assert(list_views(out@.push(copy)) =~= list_views(out@).push(views(copy@)));
            assert(all[i as int] == views(lists@[i as int]@));
            assert(all.subrange(from as int, i + 1) =~= all.subrange(from as int, i as int).push(
                all[i as int],
            ));
        }
        out.push(copy);
        i += 1;
    }
    assert(all.subrange(from as int, lists.len() as int) =~= all.skip(from as int));
    out
}

/// Turns each argument into one string literal that holds its quoted
/// rendering.
pub fn stringify_args(args: &Vec<Vec<Token>>, location: &Location) -> (r: Vec<Vec<Token>>)
    ensures
        list_views(r@) == stringified_args(list_views(args@), location@),
{
    let ghost goal = stringified_args(list_views(args@), location@);
    let mut out: Vec<Vec<Token>> = Vec::new();
    let mut i: usize = 0;
    assert(list_views(out@) =~= goal.take(0));
    while i < args.len()
        invariant
            i <= args.len(),
            goal == stringified_args(list_views(args@), location@),
            list_views(out@) == goal.take(i as int),
        decreases args.len() - i,
    {
        let copy = copy_range(&args[i], 0, args[i].len());
        assert(views(args@[i as int]@).subrange(0, args@[i as int]@.len() as int) =~= views(
            args@[i as int]@,
        ));
        let text = render_tokens(copy);
        let literal = Token {
            kind: TokenKind::String,
            value: debug_quote(text.as_str()),
            location: location.clone(),
        };
        let mut one: Vec<Token> = Vec::new();
        one.push(literal);
        proof {
            assert(views(one@) =~= seq![literal@]);
            assert(list_views(out@.push(one)) =~= list_views(out@).push(views(one@)));
            assert(list_views(args@)[i as int] == views(args@[i as int]@));
            assert(goal.take(i + 1) =~= goal.take(i as int).push(goal[i as int]));
        }
        out.push(one);
        i += 1;
    }
    assert(goal.take(args.len() as int) =~= goal);
    out
}

/// Builds the body of the function macro `m` for a call with `args` at
/// `location`.
pub fn instantiate(m: &FuncMacro, args: &Vec<Vec<Token>>, location: &Location) -> (r: Vec<Token>)
    ensures
        views(r@) == instantiated(m@, list_views(args@), location@),
{
    let ghost names = texts(m.params@);
    let ghost lists = list_views(args@);
    let n = if args.len() <= m.params.len() {
        args.len()
    } else {
        m.params.len()
    };
    let mut body = copy_range(&m.tokens, 0, m.tokens.len());
    assert(views(m.tokens@).subrange(0, m.tokens.len() as int) =~= views(m.tokens@));
    let mut k: usize = 0;
    while k < n
        invariant
            k <= n,
            n <= args.len(),
            n <= m.params.len(),
            names == texts(m.params@),
            lists == list_views(args@),
            views(body@) == bound(views(m.tokens@), names, lists, location@, k as nat),
        decreases n - k,
    {
        let param = Token {
            kind: TokenKind::Name,
            value: m.params[k].clone(),
            location: location.clone(),
        };
        let arg = copy_range(&args[k], 0, args[k].len());
        proof {
            assert(views(args@[k as int]@).subrange(0, args@[k as int]@.len() as int) =~= views(
                args@[k as int]@,
            ));
            assert(names[k as int] == m.params@[k as int]@);
            assert(lists[k as int] == views(args@[k as int]@));
        }
        body = replace_tokens(body, param, arg);
        k += 1;
    }
    if m.vararg {
        let surplus = copy_lists_from(args, n);
        let literals = stringify_args(&surplus, location);
        let spliced = join_by_commas(surplus);
        body = replace_tokens(
            body,
            Token::new(TokenKind::Vararg, "#...", location.clone()),
            spliced,
        );
        body = replace_tokens(
            body,
            Token::new(TokenKind::StringifyVararg, "#...#", location.clone()),
            join_by_commas(literals),
        );
    }
    apply_bang_pastes(body)
}

/// Reads the call site at `pos`: finds the macro and, for a function
/// macro, its arguments, and hands out the body to expand.
pub fn process_invocation(
    tokens: &Vec<Token>,
    pos: usize,
    value_macros: &Vec<ValueMacro>,
    func_macros: &Vec<FuncMacro>,
) -> (r: Action)
    requires
        pos < tokens.len(),
    ensures
        r.carries_out(
            invoke_step(views(tokens@), pos as int, env_of(value_macros@, func_macros@)),
        ),
        !(r is Emit),
        !(r is Skip),
{
    let ghost all = views(tokens@);
    assert(all[pos as int] == tokens@[pos as int]@);
    let call = &tokens[pos];
    if let Some(i) = lookup_value(value_macros, &call.value) {
        let body = copy_range(&value_macros[i].tokens, 0, value_macros[i].tokens.len());
        assert(views(value_macros[i as int].tokens@).subrange(
            0,
            value_macros[i as int].tokens.len() as int,
        ) =~= views(value_macros[i as int].tokens@));
        return Action::Nest { tokens: apply_bang_pastes(body), next: pos + 1 };
    }
    match lookup_func(func_macros, &call.value) {
        None => Action::Fail {
            error: Error::UndefinedMacroError {
                name: call.value.clone(),
                location: call.location.clone(),
            },
        },
        Some(i) => {
            let mut cursor = pos + 1;
            match parse_func_args(tokens, &mut cursor) {
                None => Action::Fail {
                    error: Error::ArgumentParseError { location: call.location.clone() },
                },
                Some(args) => Action::Nest {
                    tokens: instantiate(&func_macros[i], &args, &call.location),
                    next: cursor,
                },
            }
        },
    }
}

/// Reads what stands at `pos` and says what the expander is to do there.
/// Definitions and removals are entered into the table at once.
pub fn next_action(
    tokens: &Vec<Token>,
    pos: usize,
    value_macros: &mut Vec<ValueMacro>,
    func_macros: &mut Vec<FuncMacro>,
    sources: &Vec<Source>,
) -> (r: Action)
    requires
        pos < tokens.len(),
    ensures
        r.carries_out(
            step(
                views(tokens@),
                pos as int,
                env_of(old(value_macros)@, old(func_macros)@),
                source_views(sources@),
            ),
        ),
        env_of(final(value_macros)@, final(func_macros)@) == env_after(
            step(
                views(tokens@),
                pos as int,
                env_of(old(value_macros)@, old(func_macros)@),
                source_views(sources@),
            ),
            env_of(old(value_macros)@, old(func_macros)@),
        ),
{
    assert(views(tokens@)[pos as int] == tokens@[pos as int]@);
    match tokens[pos].kind {
        TokenKind::Ifdef | TokenKind::Ifndef => process_conditional(
            tokens,
            pos,
            value_macros,
            func_macros,
        ),
        TokenKind::Endif => Action::Skip { next: pos + 1 },
        TokenKind::Define => process_define(tokens, pos, value_macros, func_macros),
        TokenKind::Macro => process_invocation(tokens, pos, value_macros, func_macros),
        TokenKind::Undef => process_undef(tokens, pos, value_macros, func_macros),
        TokenKind::Include => process_include(tokens, pos, sources),
        _ => Action::Emit,
    }
}

} // verus!
