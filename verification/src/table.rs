//! The macro table: value macros and function macros, found by name.
//!
//! Each of the two kinds is kept as a list in the order of definition. The
//! latest definition of a name is the one in force, so defining a name again
//! overwrites it; undefining removes every definition of the name.

use crate::guard::texts;
use crate::token::{copy_range, views, Token, TokenView};
use vstd::prelude::*;

verus! {

/// A parameterless macro: a name and the tokens it stands for.
#[derive(Debug)]
pub struct ValueMacro {
    pub name: String,
    pub tokens: Vec<Token>,
}

/// A macro with parameters, the last of which may be a catch-all for surplus
/// arguments.
#[derive(Debug)]
pub struct FuncMacro {
    pub name: String,
    pub params: Vec<String>,
    pub vararg: bool,
    pub tokens: Vec<Token>,
}

/// The value of a [`ValueMacro`].
pub ghost struct ValueMacroView {
    pub name: Seq<char>,
    pub tokens: Seq<TokenView>,
}

/// The value of a [`FuncMacro`].
pub ghost struct FuncMacroView {
    pub name: Seq<char>,
    pub params: Seq<Seq<char>>,
    pub vararg: bool,
    pub tokens: Seq<TokenView>,
}

impl View for ValueMacro {
    type V = ValueMacroView;

    open spec fn view(&self) -> ValueMacroView {
        ValueMacroView { name: self.name@, tokens: views(self.tokens@) }
    }
}

impl View for FuncMacro {
    type V = FuncMacroView;

    open spec fn view(&self) -> FuncMacroView {
        FuncMacroView {
            name: self.name@,
            params: texts(self.params@),
            vararg: self.vararg,
            tokens: views(self.tokens@),
        }
    }
}

/// The values of a list of value macros.
pub open spec fn value_views(macros: Seq<ValueMacro>) -> Seq<ValueMacroView> {
    macros.map_values(|m: ValueMacro| m@)
}

/// The values of a list of function macros.
pub open spec fn func_views(macros: Seq<FuncMacro>) -> Seq<FuncMacroView> {
    macros.map_values(|m: FuncMacro| m@)
}

/// The value macro in force for `name`: its latest definition.
pub open spec fn find_value(macros: Seq<ValueMacroView>, name: Seq<char>) -> Option<ValueMacroView>
    decreases macros.len(),
{
    if macros.len() == 0 {
        None
    } else if macros.last().name == name {
        Some(macros.last())
    } else {
        find_value(macros.drop_last(), name)
    }
}

/// The function macro in force for `name`: its latest definition.
pub open spec fn find_func(macros: Seq<FuncMacroView>, name: Seq<char>) -> Option<FuncMacroView>
    decreases macros.len(),
{
    if macros.len() == 0 {
        None
    } else if macros.last().name == name {
        Some(macros.last())
    } else {
        find_func(macros.drop_last(), name)
    }
}

/// The value macros without any definition of `name`.
pub open spec fn without_value(macros: Seq<ValueMacroView>, name: Seq<char>) -> Seq<ValueMacroView>
    decreases macros.len(),
{
    if macros.len() == 0 {
        Seq::empty()
    } else if macros.last().name == name {
        without_value(macros.drop_last(), name)
    } else {
        without_value(macros.drop_last(), name).push(macros.last())
    }
}

/// The function macros without any definition of `name`.
pub open spec fn without_func(macros: Seq<FuncMacroView>, name: Seq<char>) -> Seq<FuncMacroView>
    decreases macros.len(),
{
    if macros.len() == 0 {
        Seq::empty()
    } else if macros.last().name == name {
        without_func(macros.drop_last(), name)
    } else {
        without_func(macros.drop_last(), name).push(macros.last())
    }
}

/// Copies of the strings.
pub fn copy_strings(strings: &Vec<String>) -> (r: Vec<String>)
    ensures
        texts(r@) == texts(strings@),
{
    let mut out: Vec<String> = Vec::new();
    let mut i: usize = 0;
    while i < strings.len()
        invariant
            i <= strings.len(),
            texts(out@) == texts(strings@).take(i as int),
        decreases strings.len() - i,
    {
        let s = strings[i].clone();
        proof {
            assert(texts(out@.push(s)) =~= texts(out@).push(s@));
            assert(texts(strings@).take(i + 1) =~= texts(strings@).take(i as int).push(
                strings@[i as int]@,
            ));
        }
        out.push(s);
        i += 1;
    }
    assert(texts(strings@).take(strings.len() as int) =~= texts(strings@));
    out
}

impl Clone for ValueMacro {
    fn clone(&self) -> (r: Self)
        ensures
            r@ == self@,
    {
        let tokens = copy_range(&self.tokens, 0, self.tokens.len());
        assert(views(self.tokens@).subrange(0, self.tokens.len() as int) =~= views(self.tokens@));
        ValueMacro { name: self.name.clone(), tokens }
    }
}

impl Clone for FuncMacro {
    fn clone(&self) -> (r: Self)
        ensures
            r@ == self@,
    {
        let tokens = copy_range(&self.tokens, 0, self.tokens.len());
        assert(views(self.tokens@).subrange(0, self.tokens.len() as int) =~= views(self.tokens@));
        FuncMacro {
            name: self.name.clone(),
            params: copy_strings(&self.params),
            vararg: self.vararg,
            tokens,
        }
    }
}

/// Finds the value macro in force for `name`: the index of its latest
/// definition.
pub fn lookup_value(macros: &Vec<ValueMacro>, name: &String) -> (r: Option<usize>)
    ensures
        match r {
            Some(i) => i < macros.len() && find_value(value_views(macros@), name@) == Some(
                macros[i as int]@,
            ),
            None => find_value(value_views(macros@), name@) is None,
        },
{
    let ghost all = value_views(macros@);
    let mut i: usize = macros.len();
    assert(all.take(i as int) =~= all);
    while i > 0
        invariant
            i <= macros.len(),
            all == value_views(macros@),
            find_value(all.take(i as int), name@) == find_value(all, name@),
        decreases i,
    {
        proof {
            assert(all.take(i as int).last() == macros@[i - 1]@);
            assert(all.take(i as int).drop_last() =~= all.take(i - 1));
        }
        if macros[i - 1].name == *name {
            return Some(i - 1);
        }
        i -= 1;
    }
    None
}

/// Finds the function macro in force for `name`: the index of its latest
/// definition.
pub fn lookup_func(macros: &Vec<FuncMacro>, name: &String) -> (r: Option<usize>)
    ensures
        match r {
            Some(i) => i < macros.len() && find_func(func_views(macros@), name@) == Some(
                macros[i as int]@,
            ),
            None => find_func(func_views(macros@), name@) is None,
        },
{
    let ghost all = func_views(macros@);
    let mut i: usize = macros.len();
    assert(all.take(i as int) =~= all);
    while i > 0
        invariant
            i <= macros.len(),
            all == func_views(macros@),
            find_func(all.take(i as int), name@) == find_func(all, name@),
        decreases i,
    {
        proof {
            assert(all.take(i as int).last() == macros@[i - 1]@);
            assert(all.take(i as int).drop_last() =~= all.take(i - 1));
        }
        if macros[i - 1].name == *name {
            return Some(i - 1);
        }
        i -= 1;
    }
    None
}

/// Removes every definition of `name` from the value macros.
pub fn remove_value(macros: &mut Vec<ValueMacro>, name: &String)
    ensures
        value_views(final(macros)@) == without_value(value_views(old(macros)@), name@),
{
    let ghost all = value_views(macros@);
    let mut kept: Vec<ValueMacro> = Vec::new();
    let mut i: usize = 0;
    assert(value_views(kept@) =~= without_value(all.take(0), name@));
    while i < macros.len()
        invariant
            i <= macros.len(),
            all == value_views(macros@),
            value_views(kept@) == without_value(all.take(i as int), name@),
        decreases macros.len() - i,
    {
        proof {
            assert(all.take(i + 1).last() == macros@[i as int]@);
            assert(all.take(i + 1).drop_last() =~= all.take(i as int));
        }
        if macros[i].name != *name {
            let copy = macros[i].clone();
            proof {
                assert(value_views(kept@.push(copy)) =~= value_views(kept@).push(copy@));
            }
            kept.push(copy);
        }
        i += 1;
    }
    assert(all.take(macros.len() as int) =~= all);
    *macros = kept;
}

/// Removes every definition of `name` from the function macros.
pub fn remove_func(macros: &mut Vec<FuncMacro>, name: &String)
    ensures
        func_views(final(macros)@) == without_func(func_views(old(macros)@), name@),
{
    let ghost all = func_views(macros@);
    let mut kept: Vec<FuncMacro> = Vec::new();
    let mut i: usize = 0;
    assert(func_views(kept@) =~= without_func(all.take(0), name@));
    while i < macros.len()
        invariant
            i <= macros.len(),
            all == func_views(macros@),
            func_views(kept@) == without_func(all.take(i as int), name@),
        decreases macros.len() - i,
    {
        proof {
            assert(all.take(i + 1).last() == macros@[i as int]@);
            assert(all.take(i + 1).drop_last() =~= all.take(i as int));
        }
        if macros[i].name != *name {
            let copy = macros[i].clone();
            proof {
                assert(func_views(kept@.push(copy)) =~= func_views(kept@).push(copy@));
            }
            kept.push(copy);
        }
        i += 1;
    }
    assert(all.take(macros.len() as int) =~= all);
    *macros = kept;
}

/// A definition is in force as soon as it is made, whatever was defined
/// under its name before, and leaves every other name as it was.
pub proof fn lemma_define_value(macros: Seq<ValueMacroView>, m: ValueMacroView, name: Seq<char>)
    ensures
        find_value(macros.push(m), name) == if name == m.name {
            Some(m)
        } else {
            find_value(macros, name)
        },
{
    assert(macros.push(m).drop_last() =~= macros);
}

/// A definition is in force as soon as it is made, whatever was defined
/// under its name before, and leaves every other name as it was.
pub proof fn lemma_define_func(macros: Seq<FuncMacroView>, m: FuncMacroView, name: Seq<char>)
    ensures
        find_func(macros.push(m), name) == if name == m.name {
            Some(m)
        } else {
            find_func(macros, name)
        },
{
    assert(macros.push(m).drop_last() =~= macros);
}

/// After a name is undefined no value macro is found under it, and every
/// other name is found as before.
pub proof fn lemma_undefine_value(macros: Seq<ValueMacroView>, removed: Seq<char>, name: Seq<char>)
    ensures
        find_value(without_value(macros, removed), name) == if name == removed {
            None
        } else {
            find_value(macros, name)
        },
    decreases macros.len(),
{
    if macros.len() > 0 {
        lemma_undefine_value(macros.drop_last(), removed, name);
        if macros.last().name != removed {
            let init = without_value(macros.drop_last(), removed);
            assert(init.push(macros.last()).drop_last() =~= init);
        }
    }
}

/// After a name is undefined no function macro is found under it, and every
/// other name is found as before.
pub proof fn lemma_undefine_func(macros: Seq<FuncMacroView>, removed: Seq<char>, name: Seq<char>)
    ensures
        find_func(without_func(macros, removed), name) == if name == removed {
            None
        } else {
            find_func(macros, name)
        },
    decreases macros.len(),
{
    if macros.len() > 0 {
        lemma_undefine_func(macros.drop_last(), removed, name);
        if macros.last().name != removed {
            let init = without_func(macros.drop_last(), removed);
            assert(init.push(macros.last()).drop_last() =~= init);
        }
    }
}

} // verus!
