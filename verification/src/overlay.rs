//! Overlays: named layers of command and variable declarations that a
//! stack switches on and off.

use vstd::prelude::*;
use crate::bindings::bind_value;
use crate::bindings::lookup;
use crate::bindings::lookup_value;
use crate::bindings::with_binding;
use crate::seq_find::first_index;
use crate::seq_find::lemma_first_index_end;
use crate::seq_find::lemma_first_index_step;
use crate::text::str_eq;
use crate::value::bindings_view;
use crate::value::clone_bindings;
use crate::value::opt_value_view;
use crate::value::Value;
use crate::value::ValueView;

verus! {

/// A named layer of declarations: commands by name, each with the id under
/// which the engine holds it, and variables by name, each with its default
/// value.
#[derive(Debug)]
pub struct Overlay {
    pub name: String,
    pub generation: usize,
    pub decls: Vec<(String, usize)>,
    pub vars: Vec<(String, Value)>,
}

/// The mathematical content of an [`Overlay`].
pub struct OverlayView {
    pub name: Seq<char>,
    pub generation: usize,
    pub decls: Seq<(Seq<char>, usize)>,
    pub vars: Seq<(Seq<char>, ValueView)>,
}

/// The contents of a list of command declarations.
pub open spec fn decls_view(decls: Vec<(String, usize)>) -> Seq<(Seq<char>, usize)> {
    Seq::new(decls.len() as nat, |i: int| (decls[i].0@, decls[i].1))
}

impl View for Overlay {
    type V = OverlayView;

    open spec fn view(&self) -> OverlayView {
        OverlayView {
            name: self.name@,
            generation: self.generation,
            decls: decls_view(self.decls),
            vars: bindings_view(self.vars),
        }
    }
}

/// The condition that a declaration is one of the command `name`.
pub open spec fn declares(name: Seq<char>) -> spec_fn((Seq<char>, usize)) -> bool {
    |d: (Seq<char>, usize)| d.0 == name
}

/// The id that a list of declarations gives to the command `name`: that of
/// the last declaration of that name.
pub open spec fn lookup_decl(decls: Seq<(Seq<char>, usize)>, name: Seq<char>) -> Option<usize> {
    match first_index(decls.reverse(), declares(name)) {
        Some(k) => Some(decls.reverse()[k as int].1),
        None => None,
    }
}

impl OverlayView {
    /// The id of the command that the overlay declares under `name`.
    pub open spec fn get_decl(self, name: Seq<char>) -> Option<usize> {
        lookup_decl(self.decls, name)
    }

    /// The default value of the variable that the overlay declares under `name`.
    pub open spec fn get_var(self, name: Seq<char>) -> Option<ValueView> {
        lookup(self.vars, name)
    }
}

impl Clone for Overlay {
    fn clone(&self) -> (r: Self)
        ensures
            r@ == self@,
    {
        let mut decls: Vec<(String, usize)> = Vec::new();
        let mut i: usize = 0;
        while i < self.decls.len()
            invariant
                i <= self.decls.len(),
                decls.len() == i,
                forall|j: int|
                    0 <= j < i ==> decls[j].0@ == self.decls[j].0@ && decls[j].1
                        == self.decls[j].1,
            decreases self.decls.len() - i,
        {
            decls.push((self.decls[i].0.clone(), self.decls[i].1));
            i = i + 1;
        }
        assert(decls_view(decls) =~= decls_view(self.decls));
        Overlay {
            name: self.name.clone(),
            generation: self.generation,
            decls,
            vars: clone_bindings(&self.vars),
        }
    }
}

impl Overlay {
    /// An overlay that declares nothing.
    pub fn new(name: &str, generation: usize) -> (overlay: Overlay)
        ensures
            overlay@ == (OverlayView {
                name: name@,
                generation,
                decls: Seq::empty(),
                vars: Seq::empty(),
            }),
    {
        let overlay = Overlay {
            name: String::from_str(name),
            generation,
            decls: Vec::new(),
            vars: Vec::new(),
        };
        assert(overlay@.decls =~= Seq::empty());
        assert(overlay@.vars =~= Seq::empty());
        overlay
    }

    /// Declares the command `name` with the id `decl_id`; a later
    /// declaration of a name hides an earlier one.
    pub fn add_decl(&mut self, name: &str, decl_id: usize)
        ensures
            final(self)@ == (OverlayView {
                decls: old(self)@.decls.push((name@, decl_id)),
                ..old(self)@
            }),
    {
        self.decls.push((String::from_str(name), decl_id));
        assert(self@.decls =~= old(self)@.decls.push((name@, decl_id)));
    }

    /// Declares the variable `name` with the default value `value`, in
    /// place of an earlier declaration of that name.
    pub fn add_var(&mut self, name: &str, value: Value)
        ensures
            final(self)@ == (OverlayView {
                vars: with_binding(old(self)@.vars, name@, value@),
                ..old(self)@
            }),
    {
        bind_value(&mut self.vars, name, value);
    }

    /// The id of the command that the overlay declares under `name`.
    pub fn get_decl(&self, name: &str) -> (decl_id: Option<usize>)
        ensures
            decl_id == self@.get_decl(name@),
    {
        let ghost all = self@.decls.reverse();
        let ghost found = declares(name@);
        let n = self.decls.len();
        let mut i: usize = 0;
        while i < n
            invariant
                i <= n,
                n == self.decls.len(),
                all == self@.decls.reverse(),
                found == declares(name@),
                first_index(all.subrange(0, i as int), found) is None,
            decreases n - i,
        {
            proof {
                lemma_first_index_step(all, i as int, found);
            }
            if str_eq(self.decls[n - 1 - i].0.as_str(), name) {
                return Some(self.decls[n - 1 - i].1);
            }
            i = i + 1;
        }
        proof {
            lemma_first_index_end(all, found);
        }
        None
    }

    /// The default value of the variable that the overlay declares under `name`.
    pub fn get_var(&self, name: &str) -> (value: Option<Value>)
        ensures
            opt_value_view(value) == self@.get_var(name@),
    {
        lookup_value(&self.vars, name)
    }
}

} // verus!
