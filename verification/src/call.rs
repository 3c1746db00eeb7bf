//! A call: the arguments that a caller supplies, bound against the
//! signature of the command that is called.

use vstd::prelude::*;
use vstd::utf8::encode_utf8;
use crate::error::ErrorKind;
use crate::error::invalid_integer;
use crate::error::ShellError;
use crate::error::ShellErrorView;
use crate::int_parse::parse_int;
use crate::int_parse::parse_int_spec;
use crate::seq_find::first_index;
use crate::seq_find::index_view;
use crate::seq_find::lemma_first_index;
use crate::seq_find::lemma_first_index_end;
use crate::seq_find::lemma_first_index_step;
use crate::signature::has_long;
use crate::signature::has_short;
use crate::signature::Signature;
use crate::signature::SignatureView;
use crate::signature::SyntaxShape;
use crate::span::Span;
use crate::text::str_eq;
use crate::value::clone_opt_value;
use crate::value::clone_values;
use crate::value::opt_value_view;
use crate::value::Value;
use crate::value::values_view;
use crate::value::ValueView;

verus! {

/// One argument as the caller wrote it.
#[derive(Debug)]
pub enum Arg {
    /// A flag by its long name, with the value attached to it, if any.
    Long { name: String, value: Option<Value>, span: Span },
    /// A flag by its short form, with the value attached to it, if any.
    Short { short: char, value: Option<Value>, span: Span },
    /// A value that stands for itself.
    Positional { value: Value },
}

/// The mathematical content of an [`Arg`].
pub enum ArgView {
    Long { name: Seq<char>, value: Option<ValueView>, span: Span },
    Short { short: char, value: Option<ValueView>, span: Span },
    Positional { value: ValueView },
}

impl Clone for Arg {
    fn clone(&self) -> (r: Self)
        ensures
            r@ == self@,
    {
        match self {
            Arg::Long { name, value, span } => Arg::Long {
                name: name.clone(),
                value: clone_opt_value(value),
                span: *span,
            },
            Arg::Short { short, value, span } => Arg::Short {
                short: *short,
                value: clone_opt_value(value),
                span: *span,
            },
            Arg::Positional { value } => Arg::Positional { value: value.clone() },
        }
    }
}

impl View for Arg {
    type V = ArgView;

    open spec fn view(&self) -> ArgView {
        match self {
            Arg::Long { name, value, span } => ArgView::Long {
                name: name@,
                value: opt_value_view(*value),
                span: *span,
            },
            Arg::Short { short, value, span } => ArgView::Short {
                short: *short,
                value: opt_value_view(*value),
                span: *span,
            },
            Arg::Positional { value } => ArgView::Positional { value: value@ },
        }
    }
}

/// The contents of a vector of arguments.
pub open spec fn args_view(args: Vec<Arg>) -> Seq<ArgView> {
    Seq::new(args.len() as nat, |i: int| args[i]@)
}

impl ArgView {
    /// The name by which a flag argument was written.
    pub open spec fn written_name(self) -> Seq<char> {
        match self {
            ArgView::Long { name, .. } => name,
            ArgView::Short { short, .. } => seq![short],
            ArgView::Positional { .. } => Seq::empty(),
        }
    }

    /// The value attached to a flag argument.
    pub open spec fn attached(self) -> Option<ValueView> {
        match self {
            ArgView::Long { value, .. } => value,
            ArgView::Short { value, .. } => value,
            ArgView::Positional { .. } => None,
        }
    }

    /// The span of a flag argument.
    pub open spec fn flag_span(self) -> Span {
        match self {
            ArgView::Long { span, .. } => span,
            ArgView::Short { span, .. } => span,
            ArgView::Positional { value } => value.span(),
        }
    }
}

/// The value to which `v` converts where a signature expects `shape`. A
/// value of the expected type stands as it is, and a string that denotes an
/// integer converts to that integer; nothing else converts.
pub open spec fn coerce_spec(v: ValueView, shape: SyntaxShape) -> Result<ValueView, ShellErrorView> {
    if shape == SyntaxShape::Any || v.get_type() == shape.spec_to_type() {
        Ok(v)
    } else if shape == SyntaxShape::Int && v is String {
        match parse_int_spec(encode_utf8(v->String_val)) {
            Some(n) => Ok(ValueView::Int { val: n, span: v.span() }),
            None => Err(invalid_integer(v->String_val, v.span())),
        }
    } else {
        Err(v.cant_convert(shape.spec_to_type()))
    }
}

/// The content of the result of a conversion.
pub open spec fn value_result_view(r: Result<Value, ShellError>) -> Result<
    ValueView,
    ShellErrorView,
> {
    match r {
        Ok(v) => Ok(v@),
        Err(e) => Err(e@),
    }
}

/// Converts a value to the shape that a signature expects.
pub fn coerce(v: &Value, shape: SyntaxShape) -> (r: Result<Value, ShellError>)
    ensures
        value_result_view(r) == coerce_spec(v@, shape),
{
    if shape == SyntaxShape::Any || v.get_type() == shape.to_type() {
        return Ok(v.clone());
    }
    if shape == SyntaxShape::Int {
        if let Value::String { val, span } = v {
            return match parse_int(val.as_str()) {
                Some(n) => Ok(Value::Int { val: n, span: *span }),
                None => Err(ShellError::invalid_integer(val.as_str(), *span)),
            };
        }
    }
    Err(v.cant_convert(shape.to_type()))
}

/// What one step of the scan of the arguments finds.
pub enum Item<'a> {
    /// A value that stands for itself.
    Positional { value: &'a Value },
    /// A declared flag by its long name, with its value and the shape expected
    /// of it where the flag takes one.
    Flag { name: &'a String, value: Option<(&'a Value, SyntaxShape)> },
}

/// The mathematical content of an [`Item`].
pub enum ItemView {
    Positional { value: ValueView },
    Flag { name: Seq<char>, value: Option<(ValueView, SyntaxShape)> },
}

/// The content of the value of a flag with the shape expected of it.
pub open spec fn shaped_view(v: Option<(&Value, SyntaxShape)>) -> Option<(ValueView, SyntaxShape)> {
    match v {
        Some(p) => Some((p.0@, p.1)),
        None => None,
    }
}

impl<'a> View for Item<'a> {
    type V = ItemView;

    open spec fn view(&self) -> ItemView {
        match self {
            Item::Positional { value } => ItemView::Positional { value: value@ },
            Item::Flag { name, value } => ItemView::Flag { name: name@, value: shaped_view(*value) },
        }
    }
}

/// The index of the declared flag that an argument names.
pub open spec fn flag_of(sig: SignatureView, arg: ArgView) -> Option<int> {
    match arg {
        ArgView::Long { name, .. } => sig.find_long(name),
        ArgView::Short { short, .. } => sig.find_short(short),
        ArgView::Positional { .. } => None,
    }
}

/// What the argument at index `i` contributes, and the index at which the
/// scan goes on. A value stands for itself. A flag must be declared; a
/// switch takes no value, and a flag that takes one has it attached or
/// takes the value that follows it.
pub open spec fn scan_step(sig: SignatureView, args: Seq<ArgView>, i: int) -> Result<
    (ItemView, int),
    ShellErrorView,
> {
    let arg = args[i];
    match arg {
        ArgView::Positional { value } => Ok((ItemView::Positional { value }, i + 1)),
        _ => match flag_of(sig, arg) {
            None => Err(
                ShellErrorView::UnknownFlag { name: arg.written_name(), span: arg.flag_span() },
            ),
            Some(k) => {
                let flag = sig.named[k as int];
                match (flag.arg, arg.attached()) {
                    (None, None) => Ok((ItemView::Flag { name: flag.long, value: None }, i + 1)),
                    (None, Some(_)) => Err(
                        ShellErrorView::UnexpectedFlagValue {
                            name: flag.long,
                            span: arg.flag_span(),
                        },
                    ),
                    (Some(shape), Some(v)) => Ok(
                        (ItemView::Flag { name: flag.long, value: Some((v, shape)) }, i + 1),
                    ),
                    (Some(shape), None) => {
                        if i + 1 < args.len() && args[i + 1] is Positional {
                            Ok(
                                (
                                    ItemView::Flag {
                                        name: flag.long,
                                        value: Some((args[i + 1]->Positional_value, shape)),
                                    },
                                    i + 2,
                                ),
                            )
                        } else {
                            Err(
                                ShellErrorView::MissingFlagValue {
                                    name: flag.long,
                                    span: arg.flag_span(),
                                },
                            )
                        }
                    },
                }
            },
        },
    }
}

/// What a scan of arguments has collected: the values that stand for
/// themselves, and the flags by their long names, each with its value and
/// the shape expected of it where the flag takes one.
pub struct Scanned {
    pub values: Seq<ValueView>,
    pub flags: Seq<(Seq<char>, Option<(ValueView, SyntaxShape)>)>,
}

impl Scanned {
    /// Nothing collected yet.
    pub open spec fn empty() -> Scanned {
        Scanned { values: Seq::empty(), flags: Seq::empty() }
    }

    /// What is collected after one more item.
    pub open spec fn with(self, item: ItemView) -> Scanned {
        match item {
            ItemView::Positional { value } => Scanned { values: self.values.push(value), ..self },
            ItemView::Flag { name, value } => Scanned {
                flags: self.flags.push((name, value)),
                ..self
            },
        }
    }
}

/// What the arguments from index `i` on add to `done`, from left to right;
/// the failure of the first step that fails.
pub open spec fn scan(sig: SignatureView, args: Seq<ArgView>, i: int, done: Scanned) -> Result<
    Scanned,
    ShellErrorView,
>
    decreases args.len() - i,
{
    if i < 0 || i >= args.len() {
        Ok(done)
    } else {
        match scan_step(sig, args, i) {
            Err(e) => Err(e),
            Ok((item, next)) => scan(sig, args, next, done.with(item)),
        }
    }
}

/// The content of the result of one step of the scan.
pub open spec fn step_result_view(r: Result<(Item<'_>, usize), ShellError>) -> Result<
    (ItemView, int),
    ShellErrorView,
> {
    match r {
        Ok(p) => Ok((p.0@, p.1 as int)),
        Err(e) => Err(e@),
    }
}

/// The name by which a flag argument was written.
fn written_name(arg: &Arg) -> (name: String)
    ensures
        name@ == arg@.written_name(),
{
    match arg {
        Arg::Long { name, .. } => name.clone(),
        Arg::Short { short, .. } => {
            let mut name = String::new();
            push_char(&mut name, *short);
            assert(name@ =~= seq![*short]);
            name
        },
        Arg::Positional { .. } => String::new(),
    }
}

/// Adds one character at the end of a text.
///
/// Trusted: the body calls `String::push`, which appends the character.
#[verifier::external_body]
fn push_char(text: &mut String, c: char)
    ensures
        final(text)@ == old(text)@.push(c),
{
    text.push(c)
}

/// One step of the scan of the arguments: what the argument at index `i`
/// contributes, and the index at which the scan goes on.
pub fn scan_arg<'a>(sig: &'a Signature, args: &'a Vec<Arg>, i: usize) -> (r: Result<
    (Item<'a>, usize),
    ShellError,
>)
    requires
        i < args.len(),
    ensures
        step_result_view(r) == scan_step(sig@, args_view(*args), i as int),
        r matches Ok(p) ==> i < p.1 <= args.len(),
{
    let arg = &args[i];
    let (found, attached, span) = match arg {
        Arg::Positional { value } => {
            return Ok((Item::Positional { value }, i + 1));
        },
        Arg::Long { name, value, span } => (sig.get_long_flag(name.as_str()), value, *span),
        Arg::Short { short, value, span } => (sig.get_short_flag(*short), value, *span),
    };
    let k = match found {
        Some(k) => k,
        None => {
            return Err(ShellError::UnknownFlag { name: written_name(arg), span });
        },
    };
    let flag = &sig.named[k];
    match (flag.arg, attached) {
        (None, None) => Ok((Item::Flag { name: &flag.long, value: None }, i + 1)),
        (None, Some(_)) => Err(
            ShellError::UnexpectedFlagValue { name: flag.long.clone(), span },
        ),
        (Some(shape), Some(v)) => Ok(
            (Item::Flag { name: &flag.long, value: Some((v, shape)) }, i + 1),
        ),
        (Some(shape), None) => {
            if i + 1 < args.len() {
                if let Arg::Positional { value } = &args[i + 1] {
                    return Ok(
                        (
                            Item::Flag { name: &flag.long, value: Some((value, shape)) },
                            i + 2,
                        ),
                    );
                }
            }
            Err(ShellError::MissingFlagValue { name: flag.long.clone(), span })
        },
    }
}

/// The arguments of one call, bound against the signature of the command.
#[derive(Debug)]
pub struct Call {
    /// The span of the name by which the command was called.
    pub head: Span,
    /// One entry for each required and each optional slot of the signature,
    /// in order; `None` for an optional slot that the caller left out.
    pub positional: Vec<Option<Value>>,
    /// The values past the slots, which the rest argument takes.
    pub rest: Vec<Value>,
    /// The flags that the caller gave, by their long names and in the order
    /// given, each with its value where it takes one.
    pub named: Vec<(String, Option<Value>)>,
}

/// The mathematical content of a [`Call`].
pub struct CallView {
    pub head: Span,
    pub positional: Seq<Option<ValueView>>,
    pub rest: Seq<ValueView>,
    pub named: Seq<(Seq<char>, Option<ValueView>)>,
}

/// The contents of a vector of optional values.
pub open spec fn opt_values_view(vals: Vec<Option<Value>>) -> Seq<Option<ValueView>> {
    Seq::new(vals.len() as nat, |i: int| opt_value_view(vals[i]))
}

/// The contents of a vector of flags with their values.
pub open spec fn named_view(named: Vec<(String, Option<Value>)>) -> Seq<
    (Seq<char>, Option<ValueView>),
> {
    Seq::new(named.len() as nat, |i: int| (named[i].0@, opt_value_view(named[i].1)))
}

impl View for Call {
    type V = CallView;

    open spec fn view(&self) -> CallView {
        CallView {
            head: self.head,
            positional: opt_values_view(self.positional),
            rest: values_view(self.rest),
            named: named_view(self.named),
        }
    }
}

impl Clone for Call {
    fn clone(&self) -> (r: Self)
        ensures
            r@ == self@,
    {
        let mut positional: Vec<Option<Value>> = Vec::new();
        let mut i: usize = 0;
        while i < self.positional.len()
            invariant
                i <= self.positional.len(),
                positional.len() == i,
                forall|j: int|
                    0 <= j < i ==> opt_value_view(#[trigger] positional[j]) == opt_value_view(
                        self.positional[j],
                    ),
            decreases self.positional.len() - i,
        {
            positional.push(clone_opt_value(&self.positional[i]));
            i = i + 1;
        }
        let mut named: Vec<(String, Option<Value>)> = Vec::new();
        let mut k: usize = 0;
        while k < self.named.len()
            invariant
                k <= self.named.len(),
                named.len() == k,
                forall|j: int|
                    0 <= j < k ==> (#[trigger] named[j]).0@ == self.named[j].0@ && opt_value_view(
                        named[j].1,
                    ) == opt_value_view(self.named[j].1),
            decreases self.named.len() - k,
        {
            let name = self.named[k].0.clone();
            let value = clone_opt_value(&self.named[k].1);
            named.push((name, value));
            k = k + 1;
        }
        assert(opt_values_view(positional) =~= opt_values_view(self.positional));
        assert(named_view(named) =~= named_view(self.named));
        Call { head: self.head, positional, rest: clone_values(&self.rest), named }
    }
}

/// The condition that an entry of a call is the flag with the long name `name`.
pub open spec fn is_named(name: Seq<char>) -> spec_fn((Seq<char>, Option<ValueView>)) -> bool {
    |entry: (Seq<char>, Option<ValueView>)| entry.0 == name
}

impl CallView {
    /// Whether the caller gave the flag with the long name `name`.
    pub open spec fn has_flag(self, name: Seq<char>) -> bool {
        first_index(self.named, is_named(name)) is Some
    }

    /// The value of the flag with the long name `name`, as the caller gave
    /// it first; `None` for a switch and for a flag that was not given.
    pub open spec fn get_flag(self, name: Seq<char>) -> Option<ValueView> {
        match first_index(self.named, is_named(name)) {
            Some(k) => self.named[k as int].1,
            None => None,
        }
    }

    /// The positional value at index `pos`, counting the slots and then the
    /// values of the rest argument; `None` where the caller gave none.
    pub open spec fn nth(self, pos: int) -> Option<ValueView> {
        if 0 <= pos < self.positional.len() {
            self.positional[pos]
        } else if self.positional.len() <= pos < self.positional.len() + self.rest.len() {
            Some(self.rest[pos - self.positional.len()])
        } else {
            None
        }
    }
}

/// The conversion of the value of a flag to the shape expected of it; a
/// switch has no value to convert.
pub open spec fn coerce_flag(flag: (Seq<char>, Option<(ValueView, SyntaxShape)>)) -> Result<
    (Seq<char>, Option<ValueView>),
    ShellErrorView,
> {
    match flag.1 {
        None => Ok((flag.0, None)),
        Some((v, shape)) => match coerce_spec(v, shape) {
            Ok(c) => Ok((flag.0, Some(c))),
            Err(e) => Err(e),
        },
    }
}

/// The conversion of each positional value to the shape expected at its place.
pub open spec fn positional_results(sig: SignatureView, values: Seq<ValueView>) -> Seq<
    Result<ValueView, ShellErrorView>,
> {
    Seq::new(values.len(), |i: int| coerce_spec(values[i], sig.shape_at(i)))
}

/// The conversion of the value of each flag to the shape expected of it.
pub open spec fn flag_results(flags: Seq<(Seq<char>, Option<(ValueView, SyntaxShape)>)>) -> Seq<
    Result<(Seq<char>, Option<ValueView>), ShellErrorView>,
> {
    Seq::new(flags.len(), |j: int| coerce_flag(flags[j]))
}

/// The condition that a result is a failure.
pub open spec fn is_failure<T>() -> spec_fn(Result<T, ShellErrorView>) -> bool {
    |r: Result<T, ShellErrorView>| r is Err
}

/// All the values of a sequence of results, or the first failure among them.
pub open spec fn collect<T>(results: Seq<Result<T, ShellErrorView>>) -> Result<
    Seq<T>,
    ShellErrorView,
> {
    match first_index(results, is_failure::<T>()) {
        Some(k) => Err(results[k as int]->Err_0),
        None => Ok(Seq::new(results.len(), |i: int| results[i]->Ok_0)),
    }
}

/// The call that binds what a scan collected against the signature. Fewer
/// values than required slots is a failure, and so are more values than
/// slots where the signature declares no rest argument. Then each value is
/// converted to the shape expected at its place, the positional values
/// first and the values of the flags after them; the first that cannot be
/// converted is the failure of the call.
pub open spec fn bind_scanned(sig: SignatureView, head: Span, scanned: Scanned) -> Result<
    CallView,
    ShellErrorView,
> {
    let values = scanned.values;
    let flags = scanned.flags;
    let required = sig.required_positional.len();
    let slots = sig.num_slots();
    if values.len() < required {
        Err(
            ShellErrorView::MissingArgument {
                name: sig.required_positional[values.len() as int].name,
                span: head,
            },
        )
    } else if values.len() > slots && sig.rest_positional is None {
        Err(ShellErrorView::ExtraArgument { span: values[slots as int].span() })
    } else {
        match collect(positional_results(sig, values)) {
            Err(e) => Err(e),
            Ok(converted) => match collect(flag_results(flags)) {
                Err(e) => Err(e),
                Ok(named) => Ok(
                    CallView {
                        head,
                        positional: Seq::new(
                            slots,
                            |i: int|
                                if i < converted.len() {
                                    Some(converted[i])
                                } else {
                                    None
                                },
                        ),
                        rest: if converted.len() > slots {
                            converted.skip(slots as int)
                        } else {
                            Seq::empty()
                        },
                        named,
                    },
                ),
            },
        }
    }
}

/// The call that binds the arguments against the signature, or the failure
/// that says which argument cannot be bound.
pub open spec fn bind_spec(sig: SignatureView, head: Span, args: Seq<ArgView>) -> Result<
    CallView,
    ShellErrorView,
> {
    match scan(sig, args, 0, Scanned::empty()) {
        Err(e) => Err(e),
        Ok(scanned) => bind_scanned(sig, head, scanned),
    }
}

/// Every failure of a step of the scan is one of binding.
pub proof fn lemma_scan_step_failure(sig: SignatureView, args: Seq<ArgView>, i: int)
    requires
        0 <= i < args.len(),
    ensures
        scan_step(sig, args, i) matches Err(e) ==> e.kind() == ErrorKind::ArgumentBinding,
        scan_step(sig, args, i) matches Ok(p) ==> (p.1 == i + 1 || (p.1 == i + 2 && i + 1
            < args.len() && args[i + 1] is Positional)),
{
}

/// A switch that is written with a value attached to it makes the scan
/// fail, from wherever before it the scan starts and whatever it has
/// collected by then.
pub proof fn lemma_scan_switch_with_value(
    sig: SignatureView,
    args: Seq<ArgView>,
    at: int,
    from: int,
    done: Scanned,
)
    requires
        0 <= from <= at < args.len(),
        !(args[at] is Positional),
        args[at].attached() is Some,
        flag_of(sig, args[at]) matches Some(k) && sig.named[k].arg is None,
    ensures
        scan(sig, args, from, done) matches Err(e) && e.kind() == ErrorKind::ArgumentBinding,
    decreases at - from,
{
    lemma_scan_step_failure(sig, args, from);
    if from < at {
        match scan_step(sig, args, from) {
            Ok((item, next)) => {
                lemma_scan_switch_with_value(sig, args, at, next, done.with(item));
            },
            Err(_) => {},
        }
    }
}

/// A call that gives a value to a switch does not bind: it fails with a
/// failure of binding, whatever else it holds.
pub proof fn lemma_switch_with_value_fails(
    sig: SignatureView,
    head: Span,
    args: Seq<ArgView>,
    at: int,
)
    requires
        0 <= at < args.len(),
        !(args[at] is Positional),
        args[at].attached() is Some,
        flag_of(sig, args[at]) matches Some(k) && sig.named[k].arg is None,
    ensures
        bind_spec(sig, head, args) matches Err(e) && e.kind() == ErrorKind::ArgumentBinding,
{
    lemma_scan_switch_with_value(sig, args, at, 0, Scanned::empty());
}

/// All the values of results without a failure, and the first failure of
/// results of which the first fails.
pub proof fn lemma_collect_one<T>(first: Result<T, ShellErrorView>)
    ensures
        collect(seq![first]) == (match first {
            Ok(v) => Ok(seq![v]),
            Err(e) => Err(e),
        }),
        collect(Seq::<Result<T, ShellErrorView>>::empty()) == Ok::<Seq<T>, ShellErrorView>(
            Seq::empty(),
        ),
{
    let one = seq![first];
    assert(one.drop_last() =~= Seq::empty());
    assert(first_index(one.drop_last(), is_failure::<T>()) is None);
    match first {
        Ok(v) => {
            assert(Seq::new(one.len(), |i: int| one[i]->Ok_0) =~= seq![v]);
        },
        Err(e) => {},
    }
    let none = Seq::<Result<T, ShellErrorView>>::empty();
    assert(Seq::new(none.len(), |i: int| none[i]->Ok_0) =~= Seq::<T>::empty());
}

/// A call with only the required argument, of a command that has one
/// required and one optional positional argument: the value fills the
/// required slot, converted to the shape expected there, and the optional
/// slot stays empty.
pub proof fn lemma_bind_required_only(sig: SignatureView, head: Span, value: ValueView)
    requires
        sig.required_positional.len() == 1,
        sig.optional_positional.len() == 1,
    ensures
        bind_spec(sig, head, seq![ArgView::Positional { value }]) == (match coerce_spec(
            value,
            sig.required_positional[0].shape,
        ) {
            Ok(converted) => Ok(
                CallView {
                    head,
                    positional: seq![Some(converted), None],
                    rest: Seq::empty(),
                    named: Seq::empty(),
                },
            ),
            Err(e) => Err(e),
        }),
{
    let args = seq![ArgView::Positional { value }];
    let one = Scanned::empty().with(ItemView::Positional { value });
    assert(scan(sig, args, 1, one) == Ok::<Scanned, ShellErrorView>(one));
    assert(scan(sig, args, 0, Scanned::empty()) == Ok::<Scanned, ShellErrorView>(one));
    assert(one.values =~= seq![value]);
    assert(one.flags =~= Seq::empty());
    let first = coerce_spec(value, sig.required_positional[0].shape);
    assert(positional_results(sig, one.values) =~= seq![first]);
    assert(flag_results(one.flags) =~= Seq::empty());
    lemma_collect_one(first);
    lemma_collect_one::<(Seq<char>, Option<ValueView>)>(Ok((Seq::empty(), None)));
    if first is Ok {
        let got = bind_spec(sig, head, args)->Ok_0;
        assert(got.positional =~= seq![Some(first->Ok_0), None]);
        assert(got.rest =~= Seq::empty());
    }
}

/// All the values of two results without a failure, and else the first
/// failure among them.
pub proof fn lemma_collect_two<T>(first: Result<T, ShellErrorView>, second: Result<T, ShellErrorView>)
    ensures
        collect(seq![first, second]) == (match (first, second) {
            (Ok(v), Ok(w)) => Ok(seq![v, w]),
            (Err(e), _) => Err(e),
            (Ok(_), Err(e)) => Err(e),
        }),
{
    let two = seq![first, second];
    assert(two.drop_last() =~= seq![first]);
    lemma_collect_one(first);
    let one = seq![first];
    assert(one.drop_last() =~= Seq::empty());
    if first is Ok && second is Ok {
        assert(Seq::new(two.len(), |i: int| two[i]->Ok_0) =~= seq![first->Ok_0, second->Ok_0]);
    }
}

/// A call with both arguments, of a command that has one required and one
/// optional positional argument: the first value fills the required slot
/// and the second the optional one, each converted to the shape expected
/// at its place.
pub proof fn lemma_bind_required_and_optional(
    sig: SignatureView,
    head: Span,
    first: ValueView,
    second: ValueView,
)
    requires
        sig.required_positional.len() == 1,
        sig.optional_positional.len() == 1,
    ensures
        bind_spec(
            sig,
            head,
            seq![ArgView::Positional { value: first }, ArgView::Positional { value: second }],
        ) == (match (
            coerce_spec(first, sig.required_positional[0].shape),
            coerce_spec(second, sig.optional_positional[0].shape),
        ) {
            (Ok(a), Ok(b)) => Ok(
                CallView {
                    head,
                    positional: seq![Some(a), Some(b)],
                    rest: Seq::empty(),
                    named: Seq::empty(),
                },
            ),
            (Err(e), _) => Err(e),
            (Ok(_), Err(e)) => Err(e),
        }),
{
    let args = seq![ArgView::Positional { value: first }, ArgView::Positional { value: second }];
    let one = Scanned::empty().with(ItemView::Positional { value: first });
    let two = one.with(ItemView::Positional { value: second });
    assert(scan(sig, args, 2, two) == Ok::<Scanned, ShellErrorView>(two));
    assert(scan(sig, args, 1, one) == Ok::<Scanned, ShellErrorView>(two));
    assert(scan(sig, args, 0, Scanned::empty()) == Ok::<Scanned, ShellErrorView>(two));
    assert(two.values =~= seq![first, second]);
    assert(two.flags =~= Seq::empty());
    let a = coerce_spec(first, sig.required_positional[0].shape);
    let b = coerce_spec(second, sig.optional_positional[0].shape);
    assert(positional_results(sig, two.values) =~= seq![a, b]);
    assert(flag_results(two.flags) =~= Seq::empty());
    lemma_collect_two(a, b);
    lemma_collect_one::<(Seq<char>, Option<ValueView>)>(Ok((Seq::empty(), None)));
    if a is Ok && b is Ok {
        let got = bind_spec(sig, head, args)->Ok_0;
        assert(got.positional =~= seq![Some(a->Ok_0), Some(b->Ok_0)]);
        assert(got.rest =~= Seq::empty());
    }
}

/// Whether a value has the shape that a signature expects.
pub open spec fn conforms(v: ValueView, shape: SyntaxShape) -> bool {
    shape == SyntaxShape::Any || v.get_type() == shape.spec_to_type()
}

/// A converted value has the shape that was expected and the span that it
/// had; a failure of conversion is one of type conversion and points at
/// the value.
pub proof fn lemma_coerce_conforms(v: ValueView, shape: SyntaxShape)
    ensures
        match coerce_spec(v, shape) {
            Ok(c) => conforms(c, shape) && c.span() == v.span(),
            Err(e) => e.kind() == ErrorKind::TypeConversion && e.span() == v.span(),
        },
{
}

/// Whether every collected flag is a declared flag under its long name,
/// with a value just where the flag takes one, and with the shape that the
/// flag expects.
pub open spec fn flags_declared(
    sig: SignatureView,
    flags: Seq<(Seq<char>, Option<(ValueView, SyntaxShape)>)>,
) -> bool {
    forall|j: int|
        0 <= j < flags.len() ==> exists|k: int|
            0 <= k < sig.named.len() && sig.named[k].long == (#[trigger] flags[j]).0
                && sig.named[k].arg == (match flags[j].1 {
                Some((_, shape)) => Some(shape),
                None => None,
            })
}

/// A scan collects only declared flags.
pub proof fn lemma_scan_flags_declared(
    sig: SignatureView,
    args: Seq<ArgView>,
    i: int,
    done: Scanned,
)
    requires
        flags_declared(sig, done.flags),
    ensures
        scan(sig, args, i, done) matches Ok(scanned) ==> flags_declared(sig, scanned.flags),
    decreases args.len() - i,
{
    if 0 <= i < args.len() {
        match scan_step(sig, args, i) {
            Ok((item, next)) => {
                let more = done.with(item);
                assert forall|j: int| 0 <= j < more.flags.len() implies exists|k: int|
                    0 <= k < sig.named.len() && sig.named[k].long == (#[trigger] more.flags[j]).0
                        && sig.named[k].arg == (match more.flags[j].1 {
                        Some((_, shape)) => Some(shape),
                        None => None,
                    }) by {
                    if j < done.flags.len() {
                        assert(more.flags[j] == done.flags[j]);
                    } else {
                        lemma_first_index(sig.named, has_long(args[i].written_name()));
                        if args[i] is Short {
                            lemma_first_index(
                                sig.named,
                                has_short(args[i]->short),
                            );
                        }
                        let k = flag_of(sig, args[i])->Some_0;
                        assert(sig.named[k].long == more.flags[j].0);
                    }
                }
                lemma_scan_flags_declared(sig, args, next, more);
            },
            Err(_) => {},
        }
    }
}

/// Every failure of a scan is one of binding.
pub proof fn lemma_scan_failure(sig: SignatureView, args: Seq<ArgView>, i: int, done: Scanned)
    ensures
        scan(sig, args, i, done) matches Err(e) ==> e.kind() == ErrorKind::ArgumentBinding,
    decreases args.len() - i,
{
    if 0 <= i < args.len() {
        lemma_scan_step_failure(sig, args, i);
        match scan_step(sig, args, i) {
            Ok((item, next)) => {
                lemma_scan_failure(sig, args, next, done.with(item));
            },
            Err(_) => {},
        }
    }
}

/// A call that does not bind fails with a failure of binding or of type
/// conversion, and with no other.
pub proof fn lemma_bind_failure_kind(sig: SignatureView, head: Span, args: Seq<ArgView>)
    ensures
        bind_spec(sig, head, args) matches Err(e) ==> e.kind() == ErrorKind::ArgumentBinding
            || e.kind() == ErrorKind::TypeConversion,
{
    lemma_scan_failure(sig, args, 0, Scanned::empty());
    match scan(sig, args, 0, Scanned::empty()) {
        Ok(scanned) => {
            let results = positional_results(sig, scanned.values);
            let flag_res = flag_results(scanned.flags);
            lemma_first_index(results, is_failure());
            lemma_first_index(flag_res, is_failure());
            match first_index(results, is_failure()) {
                Some(k) => {
                    lemma_coerce_conforms(scanned.values[k], sig.shape_at(k));
                },
                None => {},
            }
            match first_index(flag_res, is_failure()) {
                Some(k) => {
                    let flag = scanned.flags[k];
                    lemma_coerce_conforms(flag.1->Some_0.0, flag.1->Some_0.1);
                },
                None => {},
            }
        },
        Err(_) => {},
    }
}

/// A call that binds corresponds to the signature: it has one entry for
/// each slot, a value in every required slot, values past the slots only
/// where the signature declares a rest argument, each value of the shape
/// expected at its place, and only declared flags, each with a value of
/// the expected shape just where the flag takes one.
pub proof fn lemma_bound_call_conforms(sig: SignatureView, head: Span, args: Seq<ArgView>)
    requires
        sig.wf(),
        bind_spec(sig, head, args) is Ok,
    ensures
        ({
            let call = bind_spec(sig, head, args)->Ok_0;
            &&& call.head == head
            &&& call.positional.len() == sig.num_slots()
            &&& forall|i: int|
                0 <= i < sig.required_positional.len() ==> (#[trigger] call.positional[i]) is Some
            &&& forall|i: int|
                0 <= i < call.positional.len() ==> ((#[trigger] call.positional[i]) matches Some(v)
                    ==> conforms(v, sig.shape_at(i)))
            &&& call.rest.len() > 0 ==> sig.rest_positional is Some
            &&& forall|i: int|
                0 <= i < call.rest.len() ==> conforms(
                    #[trigger] call.rest[i],
                    sig.shape_at(sig.num_slots() + i),
                )
            &&& forall|j: int|
                0 <= j < call.named.len() ==> (sig.find_long((#[trigger] call.named[j]).0) matches Some(
                    k,
                ) && match call.named[j].1 {
                    Some(v) => sig.named[k].arg matches Some(shape) && conforms(v, shape),
                    None => sig.named[k].arg is None,
                })
        }),
{
    let scanned = scan(sig, args, 0, Scanned::empty())->Ok_0;
    let call = bind_spec(sig, head, args)->Ok_0;
    let results = positional_results(sig, scanned.values);
    let flag_res = flag_results(scanned.flags);
    lemma_first_index(results, is_failure());
    lemma_first_index(flag_res, is_failure());
    lemma_scan_flags_declared(sig, args, 0, Scanned::empty());
    assert forall|i: int| 0 <= i < call.positional.len() implies ((
    #[trigger] call.positional[i]) matches Some(v) ==> conforms(v, sig.shape_at(i))) by {
        if i < scanned.values.len() {
            lemma_coerce_conforms(scanned.values[i], sig.shape_at(i));
            assert(!is_failure::<ValueView>()(results[i]));
        }
    }
    assert forall|i: int| 0 <= i < call.rest.len() implies conforms(
        #[trigger] call.rest[i],
        sig.shape_at(sig.num_slots() + i),
    ) by {
        let at = sig.num_slots() + i;
        lemma_coerce_conforms(scanned.values[at], sig.shape_at(at));
        assert(!is_failure::<ValueView>()(results[at]));
    }
    assert forall|j: int| 0 <= j < call.named.len() implies (sig.find_long(
        (#[trigger] call.named[j]).0,
    ) matches Some(k) && match call.named[j].1 {
        Some(v) => sig.named[k].arg matches Some(shape) && conforms(v, shape),
        None => sig.named[k].arg is None,
    }) by {
        let flag = scanned.flags[j];
        assert(!is_failure::<(Seq<char>, Option<ValueView>)>()(flag_res[j]));
        let declared = choose|k: int|
            0 <= k < sig.named.len() && sig.named[k].long == flag.0 && sig.named[k].arg == (
            match flag.1 {
                Some((_, shape)) => Some(shape),
                None => None,
            });
        lemma_first_index(sig.named, has_long(flag.0));
        assert(has_long(flag.0)(sig.named[declared]));
        let k = sig.find_long(flag.0)->Some_0;
        assert(k == declared);
        if flag.1 is Some {
            lemma_coerce_conforms(flag.1->Some_0.0, flag.1->Some_0.1);
        }
    }
}

/// The content of the result of a binding.
pub open spec fn call_result_view(r: Result<Call, ShellError>) -> Result<CallView, ShellErrorView> {
    match r {
        Ok(c) => Ok(c@),
        Err(e) => Err(e@),
    }
}

/// The contents of the values that a scan has collected.
pub open spec fn refs_view(values: Vec<&Value>) -> Seq<ValueView> {
    Seq::new(values.len() as nat, |i: int| values[i]@)
}

/// The contents of the flags that a scan has collected.
pub open spec fn shaped_flags_view(flags: Vec<(&String, Option<(&Value, SyntaxShape)>)>) -> Seq<
    (Seq<char>, Option<(ValueView, SyntaxShape)>),
> {
    Seq::new(flags.len() as nat, |i: int| (flags[i].0@, shaped_view(flags[i].1)))
}

impl Call {
    /// The index of the first entry for the flag with the long name `name`.
    fn find_flag(&self, name: &str) -> (index: Option<usize>)
        ensures
            index_view(index) == first_index(self@.named, is_named(name@)),
            index matches Some(k) ==> k < self.named.len(),
    {
        let ghost entries = self@.named;
        let ghost found = is_named(name@);
        let mut i: usize = 0;
        while i < self.named.len()
            invariant
                i <= self.named.len(),
                entries == self@.named,
                found == is_named(name@),
                first_index(entries.subrange(0, i as int), found) is None,
            decreases self.named.len() - i,
        {
            proof {
                lemma_first_index_step(entries, i as int, found);
            }
            if str_eq(self.named[i].0.as_str(), name) {
                return Some(i);
            }
            i = i + 1;
        }
        proof {
            lemma_first_index_end(entries, found);
        }
        None
    }

    /// Whether the caller gave the flag with the long name `name`.
    pub fn has_flag(&self, name: &str) -> (given: bool)
        ensures
            given == self@.has_flag(name@),
    {
        self.find_flag(name).is_some()
    }

    /// The value of the flag with the long name `name`.
    pub fn get_flag(&self, name: &str) -> (value: Option<Value>)
        ensures
            opt_value_view(value) == self@.get_flag(name@),
    {
        match self.find_flag(name) {
            Some(k) => clone_opt_value(&self.named[k].1),
            None => None,
        }
    }

    /// The positional value at index `pos`, if the caller gave one.
    pub fn opt(&self, pos: usize) -> (value: Option<Value>)
        ensures
            opt_value_view(value) == self@.nth(pos as int),
    {
        let slots = self.positional.len();
        if pos < slots {
            clone_opt_value(&self.positional[pos])
        } else if pos - slots < self.rest.len() {
            Some(self.rest[pos - slots].clone())
        } else {
            None
        }
    }

    /// Binds the arguments of a call against the signature of the command:
    /// the flags are matched by long name or short form, the values fill the
    /// required slots, then the optional ones, then the rest argument, and
    /// each value is converted to the shape expected at its place.
    pub fn bind(sig: &Signature, head: Span, args: &Vec<Arg>) -> (r: Result<Call, ShellError>)
        ensures
            call_result_view(r) == bind_spec(sig@, head, args_view(*args)),
    {
        let mut values: Vec<&Value> = Vec::new();
        let mut flags: Vec<(&String, Option<(&Value, SyntaxShape)>)> = Vec::new();
        let mut i: usize = 0;
        assert(refs_view(values) =~= Seq::empty());
        assert(shaped_flags_view(flags) =~= Seq::empty());
        while i < args.len()
            invariant
                i <= args.len(),
                scan(sig@, args_view(*args), 0, Scanned::empty()) == scan(
                    sig@,
                    args_view(*args),
                    i as int,
                    Scanned { values: refs_view(values), flags: shaped_flags_view(flags) },
                ),
            decreases args.len() - i,
        {
            let ghost done = Scanned {
                values: refs_view(values),
                flags: shaped_flags_view(flags),
            };
            match scan_arg(sig, args, i) {
                Err(e) => {
                    return Err(e);
                },
                Ok((item, next)) => {
                    match item {
                        Item::Positional { value } => {
                            values.push(value);
                        },
                        Item::Flag { name, value } => {
                            flags.push((name, value));
                        },
                    }
                    assert(refs_view(values) =~= done.with(item@).values);
                    assert(shaped_flags_view(flags) =~= done.with(item@).flags);
                    i = next;
                },
            }
        }
        let ghost scanned = Scanned { values: refs_view(values), flags: shaped_flags_view(flags) };
        let ghost results = positional_results(sig@, scanned.values);
        let required = sig.required_positional.len();
        let optional = sig.optional_positional.len();
        let n = values.len();
        if n < required {
            return Err(
                ShellError::MissingArgument {
                    name: sig.required_positional[n].name.clone(),
                    span: head,
                },
            );
        }
        if n - required > optional && sig.rest_positional.is_none() {
            return Err(ShellError::ExtraArgument { span: values[required + optional].span() });
        }
        let ghost goal = bind_spec(sig@, head, args_view(*args));
        let mut positional: Vec<Option<Value>> = Vec::new();
        let mut rest: Vec<Value> = Vec::new();
        let mut k: usize = 0;
        while k < n
            invariant
                k <= n,
                goal == bind_spec(sig@, head, args_view(*args)),
                goal == bind_scanned(sig@, head, scanned),
                !(n > required + optional && sig@.rest_positional is None),
                n == values.len(),
                required == sig@.required_positional.len(),
                optional == sig@.optional_positional.len(),
                required <= n,
                scanned.values == refs_view(values),
                results == positional_results(sig@, scanned.values),
                first_index(results.subrange(0, k as int), is_failure()) is None,
                positional.len() == (if k <= required + optional {
                    k as int
                } else {
                    required + optional
                }),
                rest.len() == (if k <= required + optional {
                    0
                } else {
                    k - (required + optional)
                }),
                forall|j: int|
                    0 <= j < positional.len() ==> opt_value_view(#[trigger] positional[j]) == Some(
                        results[j]->Ok_0,
                    ),
                forall|j: int|
                    0 <= j < rest.len() ==> (#[trigger] rest[j])@ == results[required + optional
                        + j]->Ok_0,
            decreases n - k,
        {
            proof {
                lemma_first_index_step(results, k as int, is_failure());
            }
            match coerce(values[k], sig.shape_at(k)) {
                Err(e) => {
                    return Err(e);
                },
                Ok(c) => {
                    if k < required || k - required < optional {
                        positional.push(Some(c));
                    } else {
                        rest.push(c);
                    }
                },
            }
            k = k + 1;
        }
        proof {
            lemma_first_index_end(results, is_failure());
        }
        let ghost converted = Seq::new(results.len(), |i: int| results[i]->Ok_0);
        let mut filled: usize = positional.len() - required;
        while filled < optional
            invariant
                n == results.len(),
                rest.len() == (if n <= required + optional {
                    0
                } else {
                    n - (required + optional)
                }),
                forall|j: int|
                    0 <= j < rest.len() ==> (#[trigger] rest[j])@ == results[required + optional
                        + j]->Ok_0,
                required <= positional.len(),
                filled == positional.len() - required,
                filled <= optional,
                n < required + optional ==> positional.len() >= n,
                n >= required + optional ==> positional.len() == required + optional,
                forall|j: int|
                    0 <= j < positional.len() ==> opt_value_view(#[trigger] positional[j]) == (if j
                        < n {
                        Some(results[j]->Ok_0)
                    } else {
                        None
                    }),
            decreases optional - filled,
        {
            positional.push(None);
            filled = filled + 1;
        }
        let ghost flag_res = flag_results(scanned.flags);
        let mut named: Vec<(String, Option<Value>)> = Vec::new();
        let mut f: usize = 0;
        while f < flags.len()
            invariant
                f <= flags.len(),
                goal == bind_spec(sig@, head, args_view(*args)),
                goal == bind_scanned(sig@, head, scanned),
                !(n > required + optional && sig@.rest_positional is None),
                required <= n,
                n == scanned.values.len(),
                required == sig@.required_positional.len(),
                optional == sig@.optional_positional.len(),
                first_index(positional_results(sig@, scanned.values), is_failure()) is None,
                results == positional_results(sig@, scanned.values),
                n == results.len(),
                rest.len() == (if n <= required + optional {
                    0
                } else {
                    n - (required + optional)
                }),
                forall|j: int|
                    0 <= j < rest.len() ==> (#[trigger] rest[j])@ == results[required + optional
                        + j]->Ok_0,
                positional.len() == required + optional,
                forall|j: int|
                    0 <= j < positional.len() ==> opt_value_view(#[trigger] positional[j]) == (if j
                        < n {
                        Some(results[j]->Ok_0)
                    } else {
                        None
                    }),
                scanned.flags == shaped_flags_view(flags),
                flag_res == flag_results(scanned.flags),
                first_index(flag_res.subrange(0, f as int), is_failure()) is None,
                named.len() == f,
                forall|j: int|
                    0 <= j < f ==> (named[j].0@, opt_value_view(named[j].1)) == flag_res[j]->Ok_0,
            decreases flags.len() - f,
        {
            proof {
                lemma_first_index_step(flag_res, f as int, is_failure());
            }
            let entry = match flags[f].1 {
                None => (flags[f].0.clone(), None),
                Some((v, shape)) => match coerce(v, shape) {
                    Err(e) => {
                        return Err(e);
                    },
                    Ok(c) => (flags[f].0.clone(), Some(c)),
                },
            };
            named.push(entry);
            f = f + 1;
        }
        proof {
            lemma_first_index_end(flag_res, is_failure());
        }
        let call = Call { head, positional, rest, named };
        proof {
            let slots = sig@.num_slots();
            let want = bind_spec(sig@, head, args_view(*args))->Ok_0;
            assert(call@.positional =~= want.positional);
            assert(call@.rest =~= want.rest);
            assert(call@.named =~= want.named);
        }
        Ok(call)
    }
}

} // verus!
