//! What a command accepts: its flags, its positional arguments and the shape
//! that each value must have.

use vstd::prelude::*;
use crate::seq_find::first_index;
use crate::seq_find::index_view;
use crate::seq_find::lemma_first_index_end;
use crate::seq_find::lemma_first_index_step;
use crate::text::str_eq;
use crate::value::Type;

verus! {

/// The shape that a signature expects of a value.
#[derive(Clone, Copy, Debug, PartialEq, Eq, Structural)]
pub enum SyntaxShape {
    Any,
    Nothing,
    Bool,
    Int,
    Float,
    String,
    List,
    Record,
    Closure,
}

impl SyntaxShape {
    /// The type of the values that have this shape.
    pub open spec fn spec_to_type(self) -> Type {
        match self {
            SyntaxShape::Any => Type::Any,
            SyntaxShape::Nothing => Type::Nothing,
            SyntaxShape::Bool => Type::Bool,
            SyntaxShape::Int => Type::Int,
            SyntaxShape::Float => Type::Float,
            SyntaxShape::String => Type::String,
            SyntaxShape::List => Type::List,
            SyntaxShape::Record => Type::Record,
            SyntaxShape::Closure => Type::Closure,
        }
    }

    /// The type of the values that have this shape.
    pub fn to_type(&self) -> (t: Type)
        ensures
            t == self.spec_to_type(),
    {
        match self {
            SyntaxShape::Any => Type::Any,
            SyntaxShape::Nothing => Type::Nothing,
            SyntaxShape::Bool => Type::Bool,
            SyntaxShape::Int => Type::Int,
            SyntaxShape::Float => Type::Float,
            SyntaxShape::String => Type::String,
            SyntaxShape::List => Type::List,
            SyntaxShape::Record => Type::Record,
            SyntaxShape::Closure => Type::Closure,
        }
    }
}

/// The group under which a command is documented. It has no effect on how
/// the command runs.
#[derive(Clone, Copy, Debug, PartialEq, Eq, Structural)]
pub enum Category {
    Default,
    Core,
    Filters,
    Strings,
    Network,
    FileSystem,
    System,
}

/// A positional argument that a signature declares.
#[derive(Debug)]
pub struct PositionalArg {
    pub name: String,
    pub desc: String,
    pub shape: SyntaxShape,
}

/// The mathematical content of a [`PositionalArg`].
pub struct PositionalArgView {
    pub name: Seq<char>,
    pub desc: Seq<char>,
    pub shape: SyntaxShape,
}

impl View for PositionalArg {
    type V = PositionalArgView;

    open spec fn view(&self) -> PositionalArgView {
        PositionalArgView { name: self.name@, desc: self.desc@, shape: self.shape }
    }
}

/// A flag that a signature declares. A flag without `arg` is a switch: it
/// is present or absent, and takes no value.
#[derive(Debug)]
pub struct Flag {
    pub long: String,
    pub short: Option<char>,
    pub arg: Option<SyntaxShape>,
    pub desc: String,
}

/// The mathematical content of a [`Flag`].
pub struct FlagView {
    pub long: Seq<char>,
    pub short: Option<char>,
    pub arg: Option<SyntaxShape>,
    pub desc: Seq<char>,
}

impl View for Flag {
    type V = FlagView;

    open spec fn view(&self) -> FlagView {
        FlagView { long: self.long@, short: self.short, arg: self.arg, desc: self.desc@ }
    }
}

/// The declaration of what a command accepts.
#[derive(Debug)]
pub struct Signature {
    pub name: String,
    pub usage: String,
    pub named: Vec<Flag>,
    pub required_positional: Vec<PositionalArg>,
    pub optional_positional: Vec<PositionalArg>,
    pub rest_positional: Option<PositionalArg>,
    pub input_output_types: Vec<(Type, Type)>,
    pub category: Category,
}

/// The mathematical content of a [`Signature`].
pub struct SignatureView {
    pub name: Seq<char>,
    pub usage: Seq<char>,
    pub named: Seq<FlagView>,
    pub required_positional: Seq<PositionalArgView>,
    pub optional_positional: Seq<PositionalArgView>,
    pub rest_positional: Option<PositionalArgView>,
    pub input_output_types: Seq<(Type, Type)>,
    pub category: Category,
}

/// The contents of a vector of flags.
pub open spec fn flags_view(flags: Vec<Flag>) -> Seq<FlagView> {
    Seq::new(flags.len() as nat, |i: int| flags[i]@)
}

/// The contents of a vector of positional arguments.
pub open spec fn positionals_view(args: Vec<PositionalArg>) -> Seq<PositionalArgView> {
    Seq::new(args.len() as nat, |i: int| args[i]@)
}

/// The content of an optional positional argument.
pub open spec fn opt_positional_view(arg: Option<PositionalArg>) -> Option<PositionalArgView> {
    match arg {
        Some(a) => Some(a@),
        None => None,
    }
}

impl View for Signature {
    type V = SignatureView;

    open spec fn view(&self) -> SignatureView {
        SignatureView {
            name: self.name@,
            usage: self.usage@,
            named: flags_view(self.named),
            required_positional: positionals_view(self.required_positional),
            optional_positional: positionals_view(self.optional_positional),
            rest_positional: opt_positional_view(self.rest_positional),
            input_output_types: self.input_output_types@,
            category: self.category,
        }
    }
}

impl Clone for PositionalArg {
    fn clone(&self) -> (r: Self)
        ensures
            r@ == self@,
    {
        PositionalArg { name: self.name.clone(), desc: self.desc.clone(), shape: self.shape }
    }
}

impl Clone for Flag {
    fn clone(&self) -> (r: Self)
        ensures
            r@ == self@,
    {
        Flag {
            long: self.long.clone(),
            short: self.short,
            arg: self.arg,
            desc: self.desc.clone(),
        }
    }
}

/// A copy of a vector of positional arguments.
fn clone_positionals(args: &Vec<PositionalArg>) -> (r: Vec<PositionalArg>)
    ensures
        positionals_view(r) == positionals_view(*args),
{
    let mut out: Vec<PositionalArg> = Vec::new();
    let mut i: usize = 0;
    while i < args.len()
        invariant
            i <= args.len(),
            out.len() == i,
            forall|j: int| 0 <= j < i ==> out[j]@ == args[j]@,
        decreases args.len() - i,
    {
        out.push(args[i].clone());
        i = i + 1;
    }
    assert(positionals_view(out) =~= positionals_view(*args));
    out
}

/// A copy of a vector of flags.
fn clone_flags(flags: &Vec<Flag>) -> (r: Vec<Flag>)
    ensures
        flags_view(r) == flags_view(*flags),
{
    let mut out: Vec<Flag> = Vec::new();
    let mut i: usize = 0;
    while i < flags.len()
        invariant
            i <= flags.len(),
            out.len() == i,
            forall|j: int| 0 <= j < i ==> out[j]@ == flags[j]@,
        decreases flags.len() - i,
    {
        out.push(flags[i].clone());
        i = i + 1;
    }
    assert(flags_view(out) =~= flags_view(*flags));
    out
}

/// A copy of a vector of pairs of types.
fn clone_types(types: &Vec<(Type, Type)>) -> (r: Vec<(Type, Type)>)
    ensures
        r@ == types@,
{
    let mut out: Vec<(Type, Type)> = Vec::new();
    let mut i: usize = 0;
    while i < types.len()
        invariant
            i <= types.len(),
            out.len() == i,
            forall|j: int| 0 <= j < i ==> out[j] == types[j],
        decreases types.len() - i,
    {
        out.push((types[i].0, types[i].1));
        i = i + 1;
    }
    assert(out@ =~= types@);
    out
}

impl Clone for Signature {
    fn clone(&self) -> (r: Self)
        ensures
            r@ == self@,
    {
        Signature {
            name: self.name.clone(),
            usage: self.usage.clone(),
            named: clone_flags(&self.named),
            required_positional: clone_positionals(&self.required_positional),
            optional_positional: clone_positionals(&self.optional_positional),
            rest_positional: match &self.rest_positional {
                Some(rest) => Some(rest.clone()),
                None => None,
            },
            input_output_types: clone_types(&self.input_output_types),
            category: self.category,
        }
    }
}

/// The condition that a flag has the long name `name`.
pub open spec fn has_long(name: Seq<char>) -> spec_fn(FlagView) -> bool {
    |f: FlagView| f.long == name
}

/// The condition that a flag has the short form `short`.
pub open spec fn has_short(short: char) -> spec_fn(FlagView) -> bool {
    |f: FlagView| f.short == Some(short)
}

impl SignatureView {
    /// No two flags share a long name or a short form.
    pub open spec fn wf(self) -> bool {
        &&& forall|i: int, j: int|
            0 <= i < j < self.named.len() ==> self.named[i].long != self.named[j].long
        &&& forall|i: int, j: int|
            0 <= i < j < self.named.len() && self.named[i].short is Some ==> self.named[i].short
                != self.named[j].short
    }

    /// The index of the flag with the long name `name`.
    pub open spec fn find_long(self, name: Seq<char>) -> Option<int> {
        first_index(self.named, has_long(name))
    }

    /// The index of the flag with the short form `short`.
    pub open spec fn find_short(self, short: char) -> Option<int> {
        first_index(self.named, has_short(short))
    }

    /// Whether a new flag with this long name and short form keeps the
    /// names of the flags unique.
    pub open spec fn can_declare(self, long: Seq<char>, short: Option<char>) -> bool {
        &&& forall|i: int| 0 <= i < self.named.len() ==> self.named[i].long != long
        &&& short is Some ==> forall|i: int|
            0 <= i < self.named.len() ==> self.named[i].short != short
    }

    /// The signature with one more flag.
    pub open spec fn with_flag(self, flag: FlagView) -> SignatureView {
        SignatureView { named: self.named.push(flag), ..self }
    }

    /// The number of positional arguments that have a slot of their own.
    pub open spec fn num_slots(self) -> nat {
        self.required_positional.len() + self.optional_positional.len()
    }

    /// The shape expected of the positional argument at index `i`: that of
    /// its slot among the required and then the optional arguments, and
    /// past them that of the rest argument.
    pub open spec fn shape_at(self, i: int) -> SyntaxShape {
        if 0 <= i < self.required_positional.len() {
            self.required_positional[i].shape
        } else if self.required_positional.len() <= i < self.num_slots() {
            self.optional_positional[i - self.required_positional.len()].shape
        } else {
            match self.rest_positional {
                Some(rest) => rest.shape,
                None => SyntaxShape::Any,
            }
        }
    }
}

impl Signature {
    /// A signature named `name` that accepts nothing yet.
    pub fn build(name: &str) -> (sig: Signature)
        ensures
            sig@ == (SignatureView {
                name: name@,
                usage: Seq::empty(),
                named: Seq::empty(),
                required_positional: Seq::empty(),
                optional_positional: Seq::empty(),
                rest_positional: None,
                input_output_types: Seq::empty(),
                category: Category::Default,
            }),
            sig@.wf(),
    {
        let sig = Signature {
            name: String::from_str(name),
            usage: String::new(),
            named: Vec::new(),
            required_positional: Vec::new(),
            optional_positional: Vec::new(),
            rest_positional: None,
            input_output_types: Vec::new(),
            category: Category::Default,
        };
        assert(sig@.named =~= Seq::empty());
        assert(sig@.required_positional =~= Seq::empty());
        assert(sig@.optional_positional =~= Seq::empty());
        assert(sig@.input_output_types =~= Seq::empty());
        sig
    }

    /// Sets the text that says what the command does.
    pub fn usage(self, text: &str) -> (sig: Signature)
        ensures
            sig@ == (SignatureView { usage: text@, ..self@ }),
    {
        let mut sig = self;
        sig.usage = String::from_str(text);
        sig
    }

    /// Sets the pairs of input and output types that the command declares.
    pub fn input_output_types(self, types: Vec<(Type, Type)>) -> (sig: Signature)
        ensures
            sig@ == (SignatureView { input_output_types: types@, ..self@ }),
    {
        let mut sig = self;
        sig.input_output_types = types;
        sig
    }

    /// Sets the group under which the command is documented.
    pub fn category(self, category: Category) -> (sig: Signature)
        ensures
            sig@ == (SignatureView { category, ..self@ }),
    {
        let mut sig = self;
        sig.category = category;
        sig
    }

    /// Whether a new flag with this long name and short form keeps the
    /// names of the flags unique.
    pub fn can_declare(&self, name: &str, short: Option<char>) -> (free: bool)
        ensures
            free == self@.can_declare(name@, short),
    {
        let mut i: usize = 0;
        while i < self.named.len()
            invariant
                i <= self.named.len(),
                forall|j: int| 0 <= j < i ==> self@.named[j].long != name@,
                short is Some ==> forall|j: int| 0 <= j < i ==> self@.named[j].short != short,
            decreases self.named.len() - i,
        {
            if str_eq(self.named[i].long.as_str(), name) {
                assert(self@.named[i as int].long == name@);
                return false;
            }
            let taken = match (self.named[i].short, short) {
                (Some(a), Some(b)) => a == b,
                _ => false,
            };
            if taken {
                assert(self@.named[i as int].short == short);
                return false;
            }
            i = i + 1;
        }
        true
    }

    /// Declares a switch: a flag that takes no value.
    pub fn switch(self, name: &str, desc: &str, short: Option<char>) -> (sig: Signature)
        requires
            self@.wf(),
            self@.can_declare(name@, short),
        ensures
            sig@ == self@.with_flag(
                FlagView { long: name@, short, arg: None, desc: desc@ },
            ),
            sig@.wf(),
    {
        self.with_flag(
            Flag { long: String::from_str(name), short, arg: None, desc: String::from_str(desc) },
        )
    }

    /// Declares a flag that takes a value of the given shape.
    pub fn named(self, name: &str, shape: SyntaxShape, desc: &str, short: Option<char>) -> (sig:
        Signature)
        requires
            self@.wf(),
            self@.can_declare(name@, short),
        ensures
            sig@ == self@.with_flag(
                FlagView { long: name@, short, arg: Some(shape), desc: desc@ },
            ),
            sig@.wf(),
    {
        self.with_flag(
            Flag {
                long: String::from_str(name),
                short,
                arg: Some(shape),
                desc: String::from_str(desc),
            },
        )
    }

    /// Adds a flag whose names no declared flag has.
    fn with_flag(self, flag: Flag) -> (sig: Signature)
        requires
            self@.wf(),
            self@.can_declare(flag@.long, flag@.short),
        ensures
            sig@ == self@.with_flag(flag@),
            sig@.wf(),
    {
        let mut sig = self;
        sig.named.push(flag);
        assert(sig@.named =~= self@.named.push(flag@));
        sig
    }

    /// Declares a positional argument that every call must supply.
    pub fn required(self, name: &str, shape: SyntaxShape, desc: &str) -> (sig: Signature)
        ensures
            sig@ == (SignatureView {
                required_positional: self@.required_positional.push(
                    PositionalArgView { name: name@, desc: desc@, shape },
                ),
                ..self@
            }),
    {
        let mut sig = self;
        let arg = PositionalArg { name: String::from_str(name), desc: String::from_str(desc), shape };
        sig.required_positional.push(arg);
        assert(sig@.required_positional =~= self@.required_positional.push(arg@));
        sig
    }

    /// Declares a positional argument that a call may leave out.
    pub fn optional(self, name: &str, shape: SyntaxShape, desc: &str) -> (sig: Signature)
        ensures
            sig@ == (SignatureView {
                optional_positional: self@.optional_positional.push(
                    PositionalArgView { name: name@, desc: desc@, shape },
                ),
                ..self@
            }),
    {
        let mut sig = self;
        let arg = PositionalArg { name: String::from_str(name), desc: String::from_str(desc), shape };
        sig.optional_positional.push(arg);
        assert(sig@.optional_positional =~= self@.optional_positional.push(arg@));
        sig
    }

    /// Declares the argument that takes every positional value past the
    /// declared slots. A signature has at most one: a second declaration
    /// replaces the first.
    pub fn rest(self, name: &str, shape: SyntaxShape, desc: &str) -> (sig: Signature)
        ensures
            sig@ == (SignatureView {
                rest_positional: Some(PositionalArgView { name: name@, desc: desc@, shape }),
                ..self@
            }),
    {
        let mut sig = self;
        sig.rest_positional = Some(
            PositionalArg { name: String::from_str(name), desc: String::from_str(desc), shape },
        );
        sig
    }

    /// The shape expected of the positional argument at index `i`.
    pub fn shape_at(&self, i: usize) -> (shape: SyntaxShape)
        ensures
            shape == self@.shape_at(i as int),
    {
        let required = self.required_positional.len();
        if i < required {
            self.required_positional[i].shape
        } else if i - required < self.optional_positional.len() {
            self.optional_positional[i - required].shape
        } else {
            match &self.rest_positional {
                Some(rest) => rest.shape,
                None => SyntaxShape::Any,
            }
        }
    }

    /// The index of the flag with the long name `name`.
    pub fn get_long_flag(&self, name: &str) -> (index: Option<usize>)
        ensures
            index_view(index) == self@.find_long(name@),
            index matches Some(k) ==> k < self.named.len(),
    {
        let ghost flags = self@.named;
        let ghost found = has_long(name@);
        let mut i: usize = 0;
        while i < self.named.len()
            invariant
                i <= self.named.len(),
                flags == self@.named,
                found == has_long(name@),
                first_index(flags.subrange(0, i as int), found) is None,
            decreases self.named.len() - i,
        {
            proof {
                lemma_first_index_step(flags, i as int, found);
            }
            if str_eq(self.named[i].long.as_str(), name) {
                return Some(i);
            }
            i = i + 1;
        }
        proof {
            lemma_first_index_end(flags, found);
        }
        None
    }

    /// The index of the flag with the short form `short`.
    pub fn get_short_flag(&self, short: char) -> (index: Option<usize>)
        ensures
            index_view(index) == self@.find_short(short),
            index matches Some(k) ==> k < self.named.len(),
    {
        let ghost flags = self@.named;
        let ghost found = has_short(short);
        let mut i: usize = 0;
        while i < self.named.len()
            invariant
                i <= self.named.len(),
                flags == self@.named,
                found == has_short(short),
                first_index(flags.subrange(0, i as int), found) is None,
            decreases self.named.len() - i,
        {
            proof {
                lemma_first_index_step(flags, i as int, found);
            }
            let hit = match self.named[i].short {
                Some(c) => c == short,
                None => false,
            };
            if hit {
                return Some(i);
            }
            i = i + 1;
        }
        proof {
            lemma_first_index_end(flags, found);
        }
        None
    }
}

} // verus!
