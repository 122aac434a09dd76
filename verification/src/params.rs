//! The parameter list of a function macro's definition and the argument
//! list of its call sites.

use crate::guard::texts;
use crate::rewrite::list_views;
use crate::token::{copy_range, is_closer, is_opener, views, Token, TokenKind, TokenView};
use vstd::prelude::*;

verus! {

/// A parsed parameter list: the names in order, whether a vararg marker
/// closes the list, and the position behind the closing bracket.
pub ghost struct ParamList {
    pub names: Seq<Seq<char>>,
    pub vararg: bool,
    pub end: int,
}

/// The parameter list from `pos` on, where `names` have been read and a
/// closing bracket or a delimiter is due: `(delimiter name)*`, then either a
/// closing bracket or a delimiter, the vararg marker and a closing bracket.
/// `None` where the tokens have no such shape.
pub open spec fn params_rest(tokens: Seq<TokenView>, pos: int, names: Seq<Seq<char>>) -> Option<
    ParamList,
>
    decreases tokens.len() - pos,
{
    if pos < 0 || pos >= tokens.len() {
        None
    } else if is_closer(tokens[pos].value) {
        Some(ParamList { names, vararg: false, end: pos + 1 })
    } else if tokens[pos].kind != TokenKind::Delimiter || pos + 1 >= tokens.len() {
        None
    } else if tokens[pos + 1].kind == TokenKind::Vararg {
        if pos + 2 < tokens.len() && is_closer(tokens[pos + 2].value) {
            Some(ParamList { names, vararg: true, end: pos + 3 })
        } else {
            None
        }
    } else if tokens[pos + 1].kind == TokenKind::Name {
        params_rest(tokens, pos + 2, names.push(tokens[pos + 1].value))
    } else {
        None
    }
}

/// The parameter list that starts at `pos`, behind the opening bracket:
/// either the vararg marker alone or a name and the rest of the list, closed
/// by any closing bracket.
pub open spec fn params(tokens: Seq<TokenView>, pos: int) -> Option<ParamList> {
    if pos < 0 || pos >= tokens.len() {
        None
    } else if tokens[pos].kind == TokenKind::Vararg {
        if pos + 1 < tokens.len() && is_closer(tokens[pos + 1].value) {
            Some(ParamList { names: Seq::empty(), vararg: true, end: pos + 2 })
        } else {
            None
        }
    } else if tokens[pos].kind == TokenKind::Name {
        params_rest(tokens, pos + 1, seq![tokens[pos].value])
    } else {
        None
    }
}

/// A parameter list ends behind its start and within the input.
pub proof fn lemma_params_rest_end(tokens: Seq<TokenView>, pos: int, names: Seq<Seq<char>>)
    requires
        0 <= pos,
    ensures
        params_rest(tokens, pos, names) matches Some(list) ==> pos < list.end <= tokens.len(),
    decreases tokens.len() - pos,
{
    if pos < tokens.len() && !is_closer(tokens[pos].value) && tokens[pos].kind
        == TokenKind::Delimiter && pos + 1 < tokens.len() && tokens[pos + 1].kind
        == TokenKind::Name {
        lemma_params_rest_end(tokens, pos + 2, names.push(tokens[pos + 1].value));
    }
}

/// Reads the rest of a parameter list, behind its first name. On success
/// the names are appended to `args`, the cursor stands behind the closing
/// bracket, and the result tells whether the list ends in the vararg
/// marker. On failure neither `args` nor the cursor has changed.
pub fn parse_func_params_rest(tokens: &Vec<Token>, pos: &mut usize, args: &mut Vec<String>) -> (r:
    Option<bool>)
    requires
        *old(pos) <= tokens.len(),
    ensures
        match params_rest(views(tokens@), *old(pos) as int, texts(old(args)@)) {
            Some(list) => r == Some(list.vararg) && texts(final(args)@) == list.names && *final(pos)
                == list.end,
            None => r is None && texts(final(args)@) == texts(old(args)@) && *final(pos) == *old(
                pos,
            ),
        },
{
    let ghost all = views(tokens@);
    let ghost goal = params_rest(all, *old(pos) as int, texts(old(args)@));
    let kept = args.len();
    let mut i: usize = *pos;
    let mut outcome: Option<bool> = None;
    loop
        invariant_except_break
            params_rest(all, i as int, texts(args@)) == goal,
            outcome is None,
        invariant
            i <= tokens.len(),
            all == views(tokens@),
            goal == params_rest(all, *old(pos) as int, texts(old(args)@)),
            kept == old(args)@.len(),
            kept <= args@.len(),
            args@.take(kept as int) == old(args)@,
            *pos == *old(pos),
        ensures
            i <= tokens.len(),
            kept <= args@.len(),
            args@.take(kept as int) == old(args)@,
            *pos == *old(pos),
            match goal {
                Some(list) => outcome == Some(list.vararg) && texts(args@) == list.names && i
                    == list.end,
                None => outcome is None,
            },
        decreases tokens.len() - i,
    {
        if i >= tokens.len() {
            break;
        }
        assert(all[i as int] == tokens@[i as int]@);
        if tokens[i].closes() {
            i += 1;
            outcome = Some(false);
            break;
        }
        if tokens[i].kind != TokenKind::Delimiter || i + 1 >= tokens.len() {
            break;
        }
        assert(all[i + 1] == tokens@[i + 1]@);
        if tokens[i + 1].kind == TokenKind::Vararg {
            if i + 2 < tokens.len() {
                assert(all[i + 2] == tokens@[i + 2]@);
                if tokens[i + 2].closes() {
                    i += 3;
                    outcome = Some(true);
                }
            }
            break;
        }
        if tokens[i + 1].kind != TokenKind::Name {
            break;
        }
        let name = tokens[i + 1].value.clone();
        proof {
            assert(texts(args@.push(name)) =~= texts(args@).push(name@));
            assert(args@.push(name).take(kept as int) =~= args@.take(kept as int));
        }
        args.push(name);
        i += 2;
    }
    if outcome.is_some() {
        *pos = i;
    } else {
        args.truncate(kept);
        assert(args@ =~= old(args)@);
    }
    outcome
}

/// Reads a parameter list behind its opening bracket: one or more names
/// separated by delimiters, the last of which may be the vararg marker
/// instead, closed by any closing bracket. On success the cursor stands
/// behind the closing bracket; on failure it has not moved.
pub fn parse_func_params(tokens: &Vec<Token>, pos: &mut usize) -> (r: Option<(Vec<String>, bool)>)
    requires
        *old(pos) <= tokens.len(),
    ensures
        match params(views(tokens@), *old(pos) as int) {
            Some(list) => r matches Some(found) && texts(found.0@) == list.names && found.1
                == list.vararg && *final(pos) == list.end,
            None => r is None && *final(pos) == *old(pos),
        },
{
    let ghost all = views(tokens@);
    let i = *pos;
    let mut args: Vec<String> = Vec::new();
    if i >= tokens.len() {
        return None;
    }
    assert(all[i as int] == tokens@[i as int]@);
    if tokens[i].kind == TokenKind::Vararg {
        if i + 1 < tokens.len() {
            assert(all[i + 1] == tokens@[i + 1]@);
            if tokens[i + 1].closes() {
                *pos = i + 2;
                assert(texts(args@) =~= Seq::<Seq<char>>::empty());
                return Some((args, true));
            }
        }
        return None;
    }
    if tokens[i].kind != TokenKind::Name {
        return None;
    }
    args.push(tokens[i].value.clone());
    assert(texts(args@) =~= seq![all[i as int].value]);
    let mut next = i + 1;
    match parse_func_params_rest(tokens, &mut next, &mut args) {
        Some(vararg) => {
            *pos = next;
            Some((args, vararg))
        },
        None => None,
    }
}

/// The index at which the call argument that starts at `pos` ends, with
/// `level` brackets open inside it: the first delimiter outside every
/// bracket, or the closing bracket of the call itself. `None` if the input
/// ends first.
pub open spec fn arg_end(tokens: Seq<TokenView>, pos: int, level: nat) -> Option<int>
    decreases tokens.len() - pos,
{
    if pos < 0 || pos >= tokens.len() {
        None
    } else if level == 0 && tokens[pos].kind == TokenKind::Delimiter {
        Some(pos)
    } else if is_opener(tokens[pos].value) {
        arg_end(tokens, pos + 1, level + 1)
    } else if is_closer(tokens[pos].value) {
        if level == 0 {
            Some(pos)
        } else {
            arg_end(tokens, pos + 1, (level - 1) as nat)
        }
    } else {
        arg_end(tokens, pos + 1, level)
    }
}

/// An argument ends within the input, at or behind its start.
pub proof fn lemma_arg_end_bounds(tokens: Seq<TokenView>, pos: int, level: nat)
    requires
        0 <= pos,
    ensures
        arg_end(tokens, pos, level) matches Some(end) ==> pos <= end < tokens.len(),
        arg_end(tokens, pos, level) matches Some(end) ==> (end == pos <==> level == 0 && (
        tokens[pos].kind == TokenKind::Delimiter || (is_closer(tokens[pos].value) && !is_opener(
            tokens[pos].value,
        )))),
    decreases tokens.len() - pos,
{
    if pos < tokens.len() {
        if level == 0 && tokens[pos].kind == TokenKind::Delimiter {
        } else if is_opener(tokens[pos].value) {
            lemma_arg_end_bounds(tokens, pos + 1, level + 1);
        } else if is_closer(tokens[pos].value) {
            if level > 0 {
                lemma_arg_end_bounds(tokens, pos + 1, (level - 1) as nat);
            }
        } else {
            lemma_arg_end_bounds(tokens, pos + 1, level);
        }
    }
}

/// Reads one call argument: the tokens from the cursor up to the delimiter
/// or closing bracket that ends it, brackets inside it balanced. The cursor
/// stops at that token. Fails, leaving the cursor in place, if the input
/// ends first.
pub fn parse_func_arg(tokens: &Vec<Token>, pos: &mut usize) -> (r: Option<Vec<Token>>)
    requires
        *old(pos) <= tokens.len(),
    ensures
        match arg_end(views(tokens@), *old(pos) as int, 0) {
            Some(end) => r matches Some(arg) && views(arg@) == views(tokens@).subrange(
                *old(pos) as int,
                end,
            ) && *final(pos) == end,
            None => r is None && *final(pos) == *old(pos),
        },
{
    let ghost all = views(tokens@);
    let start = *pos;
    let mut i: usize = start;
    let mut level: usize = 0;
    let mut found = false;
    loop
        invariant_except_break
            arg_end(all, i as int, level as nat) == arg_end(all, start as int, 0),
            !found,
        invariant
            start <= i <= tokens.len(),
            level <= i - start,
            all == views(tokens@),
            *pos == start,
        ensures
            start <= i <= tokens.len(),
            *pos == start,
            found ==> arg_end(all, start as int, 0) == Some(i as int),
            !found ==> arg_end(all, start as int, 0) is None,
        decreases tokens.len() - i,
    {
        if i >= tokens.len() {
            break;
        }
        assert(all[i as int] == tokens@[i as int]@);
        if level == 0 && tokens[i].kind == TokenKind::Delimiter {
            found = true;
            break;
        }
        if tokens[i].opens() {
            level += 1;
        } else if tokens[i].closes() {
            if level == 0 {
                found = true;
                break;
            }
            level -= 1;
        }
        i += 1;
    }
    if found {
        *pos = i;
        Some(copy_range(tokens, start, i))
    } else {
        None
    }
}

/// A parsed argument list: the arguments in order and the position behind
/// the closing bracket of the call.
pub ghost struct ArgList {
    pub args: Seq<Seq<TokenView>>,
    pub end: int,
}

/// The arguments from `pos` on, where `args` have been read: a closing
/// bracket ends the list; otherwise one delimiter, if there is one, is
/// passed over and an argument is read. `None` if the input ends before the
/// closing bracket.
pub open spec fn args_rest(tokens: Seq<TokenView>, pos: int, args: Seq<Seq<TokenView>>) -> Option<
    ArgList,
>
    decreases tokens.len() - pos,
{
    if pos < 0 || pos >= tokens.len() {
        None
    } else if is_closer(tokens[pos].value) {
        Some(ArgList { args, end: pos + 1 })
    } else {
        let start = if tokens[pos].kind == TokenKind::Delimiter {
            pos + 1
        } else {
            pos
        };
        match arg_end(tokens, start, 0) {
            // An argument that starts at a token which neither separates
            // nor closes takes up at least that token.
            Some(end) if pos < end <= tokens.len() => args_rest(
                tokens,
                end,
                args.push(tokens.subrange(start, end)),
            ),
            _ => None,
        }
    }
}

/// The argument list of a call whose opening bracket stands at `pos`.
pub open spec fn call_args(tokens: Seq<TokenView>, pos: int) -> Option<ArgList> {
    if 0 <= pos < tokens.len() && is_opener(tokens[pos].value) {
        args_rest(tokens, pos + 1, Seq::empty())
    } else {
        None
    }
}

/// Reads the bracketed argument list of a call, the cursor at its opening
/// bracket. On success the cursor stands behind the closing bracket; on
/// failure (no opening bracket, or the input ends inside the list) it has
/// not moved.
pub fn parse_func_args(tokens: &Vec<Token>, pos: &mut usize) -> (r: Option<Vec<Vec<Token>>>)
    requires
        *old(pos) <= tokens.len(),
    ensures
        match call_args(views(tokens@), *old(pos) as int) {
            Some(list) => r matches Some(args) && list_views(args@) == list.args && *final(pos)
                == list.end,
            None => r is None && *final(pos) == *old(pos),
        },
{
    let ghost all = views(tokens@);
    let start = *pos;
    if start >= tokens.len() {
        return None;
    }
    assert(all[start as int] == tokens@[start as int]@);
    if !tokens[start].opens() {
        return None;
    }
    let ghost goal = call_args(all, start as int);
    let mut args: Vec<Vec<Token>> = Vec::new();
    let mut i: usize = start + 1;
    let mut found = false;
    assert(list_views(args@) =~= Seq::<Seq<TokenView>>::empty());
    loop
        invariant_except_break
            args_rest(all, i as int, list_views(args@)) == goal,
            !found,
        invariant
            i <= tokens.len(),
            all == views(tokens@),
            *pos == start,
        ensures
            i <= tokens.len(),
            *pos == start,
            found ==> goal == Some(ArgList { args: list_views(args@), end: i as int }),
            !found ==> goal is None,
        decreases tokens.len() - i,
    {
        if i >= tokens.len() {
            break;
        }
        assert(all[i as int] == tokens@[i as int]@);
        if tokens[i].closes() {
            i += 1;
            found = true;
            break;
        }
        let mut next = i;
        if tokens[i].kind == TokenKind::Delimiter {
            next = i + 1;
        }
        proof {
            lemma_arg_end_bounds(all, next as int, 0);
        }
        match parse_func_arg(tokens, &mut next) {
            Some(arg) => {
                proof {
                    assert(list_views(args@.push(arg)) =~= list_views(args@).push(views(arg@)));
                }
                args.push(arg);
                i = next;
            },
            None => {
                break;
            },
        }
    }
    if found {
        *pos = i;
        Some(args)
    } else {
        None
    }
}

/// An argument list ends behind its start and within the input.
pub proof fn lemma_args_rest_end(tokens: Seq<TokenView>, pos: int, args: Seq<Seq<TokenView>>)
    requires
        0 <= pos,
    ensures
        args_rest(tokens, pos, args) matches Some(list) ==> pos < list.end <= tokens.len(),
    decreases tokens.len() - pos,
{
    if pos < tokens.len() && !is_closer(tokens[pos].value) {
        let start = if tokens[pos].kind == TokenKind::Delimiter {
            pos + 1
        } else {
            pos
        };
        match arg_end(tokens, start, 0) {
            Some(end) => {
                if pos < end <= tokens.len() {
                    lemma_args_rest_end(tokens, end, args.push(tokens.subrange(start, end)));
                }
            },
            None => {},
        }
    }
}

/// A parameter list ends behind its start and within the input.
pub proof fn lemma_params_end(tokens: Seq<TokenView>, pos: int)
    requires
        0 <= pos,
    ensures
        params(tokens, pos) matches Some(list) ==> pos < list.end <= tokens.len(),
{
    if pos < tokens.len() && tokens[pos].kind == TokenKind::Name {
        lemma_params_rest_end(tokens, pos + 1, seq![tokens[pos].value]);
    }
}

} // verus!
