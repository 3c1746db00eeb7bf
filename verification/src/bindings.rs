//! Lists of names bound to values: the frames of a stack, the default
//! variables of an overlay, the snapshot of a closure.

use vstd::prelude::*;
use crate::seq_find::first_index;
use crate::seq_find::index_view;
use crate::seq_find::lemma_first_index;
use crate::seq_find::lemma_first_index_end;
use crate::seq_find::lemma_first_index_step;
use crate::seq_find::lemma_first_index_unique;
use crate::text::str_eq;
use crate::value::bindings_view;
use crate::value::opt_value_view;
use crate::value::Value;
use crate::value::ValueView;

verus! {

/// The condition that a binding is one of the name `name`.
pub open spec fn binds(name: Seq<char>) -> spec_fn((Seq<char>, ValueView)) -> bool {
    |b: (Seq<char>, ValueView)| b.0 == name
}

/// The value that a list of bindings gives to `name`: that of the first
/// binding of that name.
pub open spec fn lookup(vars: Seq<(Seq<char>, ValueView)>, name: Seq<char>) -> Option<ValueView> {
    match first_index(vars, binds(name)) {
        Some(k) => Some(vars[k as int].1),
        None => None,
    }
}

/// The list of bindings after `name` is bound to `value`: the first binding
/// of that name is replaced, and where there is none a new one is added at
/// the end.
pub open spec fn with_binding(
    vars: Seq<(Seq<char>, ValueView)>,
    name: Seq<char>,
    value: ValueView,
) -> Seq<(Seq<char>, ValueView)> {
    match first_index(vars, binds(name)) {
        Some(k) => vars.update(k as int, (name, value)),
        None => vars.push((name, value)),
    }
}

/// A name that has just been bound has the value it was bound to, and every
/// other name has the value it had.
pub proof fn lemma_lookup_with_binding(
    vars: Seq<(Seq<char>, ValueView)>,
    name: Seq<char>,
    value: ValueView,
    other: Seq<char>,
)
    ensures
        lookup(with_binding(vars, name, value), name) == Some(value),
        other != name ==> lookup(with_binding(vars, name, value), other) == lookup(vars, other),
{
    let after = with_binding(vars, name, value);
    lemma_first_index(vars, binds(name));
    lemma_first_index(vars, binds(other));
    match first_index(vars, binds(name)) {
        Some(k) => {
            lemma_first_index_unique(after, k as int, binds(name));
        },
        None => {
            lemma_first_index_unique(after, vars.len() as int, binds(name));
        },
    }
    if other != name {
        lemma_first_index(after, binds(other));
        match first_index(vars, binds(other)) {
            Some(j) => {
                lemma_first_index_unique(after, j as int, binds(other));
            },
            None => {
                if first_index(after, binds(other)) is Some {
                    let j = first_index(after, binds(other))->Some_0;
                    assert(binds(other)(after[j as int]));
                    if j < vars.len() {
                        assert(!binds(other)(vars[j as int]));
                    }
                }
            },
        }
    }
}

/// The index of the first binding of `name`.
pub fn find_binding(vars: &Vec<(String, Value)>, name: &str) -> (index: Option<usize>)
    ensures
        index_view(index) == first_index(bindings_view(*vars), binds(name@)),
        index matches Some(k) ==> k < vars.len(),
{
    let ghost all = bindings_view(*vars);
    let ghost found = binds(name@);
    let mut i: usize = 0;
    while i < vars.len()
        invariant
            i <= vars.len(),
            all == bindings_view(*vars),
            found == binds(name@),
            first_index(all.subrange(0, i as int), found) is None,
        decreases vars.len() - i,
    {
        proof {
            lemma_first_index_step(all, i as int, found);
        }
        if str_eq(vars[i].0.as_str(), name) {
            return Some(i);
        }
        i = i + 1;
    }
    proof {
        lemma_first_index_end(all, found);
    }
    None
}

/// The value that a list of bindings gives to `name`.
pub fn lookup_value(vars: &Vec<(String, Value)>, name: &str) -> (value: Option<Value>)
    ensures
        opt_value_view(value) == lookup(bindings_view(*vars), name@),
{
    match find_binding(vars, name) {
        Some(k) => Some(vars[k].1.clone()),
        None => None,
    }
}

/// Binds `name` to `value`, in place of the first binding of that name if
/// there is one.
pub fn bind_value(vars: &mut Vec<(String, Value)>, name: &str, value: Value)
    ensures
        bindings_view(*final(vars)) == with_binding(bindings_view(*old(vars)), name@, value@),
{
    let entry = (String::from_str(name), value);
    match find_binding(vars, name) {
        Some(k) => {
            vars.set(k, entry);
        },
        None => {
            vars.push(entry);
        },
    }
    assert(bindings_view(*vars) =~= with_binding(bindings_view(*old(vars)), name@, value@));
}

} // verus!
