//! The runtime datum that commands exchange.

use vstd::prelude::*;
use crate::error::ShellError;
use crate::error::ShellErrorView;
use crate::span::Span;

verus! {

/// The type of a value, as a signature declares it and as a value reports it.
#[derive(Clone, Copy, Debug, PartialEq, Eq, Structural)]
pub enum Type {
    Any,
    Nothing,
    Bool,
    Int,
    Float,
    String,
    List,
    Record,
    Closure,
    Error,
    StreamHandle,
    /// Raw bytes: the type of a byte stream. No value has it.
    Binary,
}

/// A runtime datum. Every value carries the span of the source text that
/// produced it.
#[allow(inconsistent_fields)]
#[derive(Debug)]
pub enum Value {
    /// The absence of a value.
    Nothing { span: Span },
    Bool { val: bool, span: Span },
    Int { val: i64, span: Span },
    /// A floating-point number, held as its IEEE 754 bit pattern.
    Float { bits: u64, span: Span },
    String { val: String, span: Span },
    List { vals: Vec<Value>, span: Span },
    /// Columns in insertion order, with the value of each.
    Record { cols: Vec<String>, vals: Vec<Value>, span: Span },
    /// A block of code with the outer variables that it captured.
    Closure { val: CaptureBlock, span: Span },
    /// A failure that travels as a value.
    Error { error: Box<ShellError>, span: Span },
    /// A handle on a stream that lives elsewhere.
    StreamHandle { id: usize, span: Span },
}

/// The mathematical content of a [`Value`].
#[allow(inconsistent_fields)]
pub enum ValueView {
    Nothing { span: Span },
    Bool { val: bool, span: Span },
    Int { val: i64, span: Span },
    Float { bits: u64, span: Span },
    String { val: Seq<char>, span: Span },
    List { vals: Seq<ValueView>, span: Span },
    Record { cols: Seq<Seq<char>>, vals: Seq<ValueView>, span: Span },
    Closure { val: CaptureBlockView, span: Span },
    Error { error: ShellErrorView, span: Span },
    StreamHandle { id: usize, span: Span },
}

/// The contents of a vector of values.
pub open spec fn values_view(vals: Vec<Value>) -> Seq<ValueView>
    decreases vals,
{
    Seq::new(
        vals.len() as nat,
        |i: int|
            if 0 <= i < vals.len() {
                vals[i].view()
            } else {
                ValueView::Nothing { span: Span { start: 0, end: 0, source: 0 } }
            },
    )
}

/// The contents of a vector of strings.
pub open spec fn strings_view(names: Vec<String>) -> Seq<Seq<char>> {
    Seq::new(names.len() as nat, |i: int| names[i]@)
}

impl View for Value {
    type V = ValueView;

    open spec fn view(&self) -> ValueView
        decreases self,
    {
        match self {
            Value::Nothing { span } => ValueView::Nothing { span: *span },
            Value::Bool { val, span } => ValueView::Bool { val: *val, span: *span },
            Value::Int { val, span } => ValueView::Int { val: *val, span: *span },
            Value::Float { bits, span } => ValueView::Float { bits: *bits, span: *span },
            Value::String { val, span } => ValueView::String { val: val@, span: *span },
            Value::List { vals, span } => ValueView::List { vals: values_view(*vals), span: *span },
            Value::Record { cols, vals, span } => ValueView::Record {
                cols: strings_view(*cols),
                vals: values_view(*vals),
                span: *span,
            },
            Value::Closure { val, span } => ValueView::Closure {
                val: CaptureBlockView {
                    block_id: val.block_id,
                    captures: bindings_view(val.captures),
                },
                span: *span,
            },
            Value::Error { error, span } => ValueView::Error { error: error@, span: *span },
            Value::StreamHandle { id, span } => ValueView::StreamHandle { id: *id, span: *span },
        }
    }
}

/// A closure: the block it runs and the snapshot of the outer variables
/// that the block reads.
#[derive(Debug)]
pub struct CaptureBlock {
    pub block_id: usize,
    pub captures: Vec<(String, Value)>,
}

/// The mathematical content of a [`CaptureBlock`].
pub struct CaptureBlockView {
    pub block_id: usize,
    pub captures: Seq<(Seq<char>, ValueView)>,
}

/// The contents of a list of bindings.
pub open spec fn bindings_view(vars: Vec<(String, Value)>) -> Seq<(Seq<char>, ValueView)>
    decreases vars,
{
    Seq::new(
        vars.len() as nat,
        |i: int|
            if 0 <= i < vars.len() {
                (vars[i].0@, vars[i].1.view())
            } else {
                (Seq::empty(), ValueView::Nothing { span: Span { start: 0, end: 0, source: 0 } })
            },
    )
}

impl View for CaptureBlock {
    type V = CaptureBlockView;

    open spec fn view(&self) -> CaptureBlockView {
        CaptureBlockView { block_id: self.block_id, captures: bindings_view(self.captures) }
    }
}

/// A copy of a list of bindings.
pub fn clone_bindings(vars: &Vec<(String, Value)>) -> (r: Vec<(String, Value)>)
    ensures
        bindings_view(r) == bindings_view(*vars),
    decreases vars,
{
    let mut out: Vec<(String, Value)> = Vec::new();
    let mut i: usize = 0;
    while i < vars.len()
        invariant
            i <= vars.len(),
            out.len() == i,
            forall|j: int| 0 <= j < i ==> out[j].0@ == vars[j].0@ && out[j].1@ == vars[j].1@,
        decreases vars.len() - i,
    {
        let name = vars[i].0.clone();
        let value = vars[i].1.clone();
        out.push((name, value));
        i = i + 1;
    }
    assert(bindings_view(out) =~= bindings_view(*vars));
    out
}

/// Whether two lists of bindings hold the same names, in the same order,
/// with values equal in type and content.
pub fn bindings_content_eq(a: &Vec<(String, Value)>, b: &Vec<(String, Value)>) -> (r: bool)
    ensures
        r == same_bindings(bindings_view(*a), bindings_view(*b)),
    decreases a,
{
    if a.len() != b.len() {
        return false;
    }
    let mut i: usize = 0;
    while i < a.len()
        invariant
            i <= a.len(),
            a.len() == b.len(),
            forall|j: int|
                0 <= j < i ==> (#[trigger] bindings_view(*a)[j]).0 == bindings_view(*b)[j].0
                    && bindings_view(*a)[j].1.same_content(bindings_view(*b)[j].1),
        decreases a.len() - i,
    {
        if a[i].0 != b[i].0 || !a[i].1.content_eq(&b[i].1) {
            assert(!(bindings_view(*a)[i as int].0 == bindings_view(*b)[i as int].0
                && bindings_view(*a)[i as int].1.same_content(bindings_view(*b)[i as int].1)));
            return false;
        }
        i = i + 1;
    }
    true
}

impl Clone for CaptureBlock {
    fn clone(&self) -> (r: Self)
        ensures
            r@ == self@,
        decreases self,
    {
        CaptureBlock { block_id: self.block_id, captures: clone_bindings(&self.captures) }
    }
}

impl CaptureBlock {
    /// Whether two closures run the same block with snapshots equal in type and content.
    pub fn content_eq(&self, other: &CaptureBlock) -> (r: bool)
        ensures
            r == (self@.block_id == other@.block_id && same_bindings(
                self@.captures,
                other@.captures,
            )),
        decreases self,
    {
        self.block_id == other.block_id && bindings_content_eq(&self.captures, &other.captures)
    }
}

impl Type {
    /// The name under which this type appears in messages.
    pub open spec fn spec_name(self) -> Seq<char> {
        match self {
            Type::Any => "any"@,
            Type::Nothing => "nothing"@,
            Type::Bool => "bool"@,
            Type::Int => "int"@,
            Type::Float => "float"@,
            Type::String => "string"@,
            Type::List => "list"@,
            Type::Record => "record"@,
            Type::Closure => "closure"@,
            Type::Error => "error"@,
            Type::StreamHandle => "stream"@,
            Type::Binary => "binary"@,
        }
    }

    /// The name under which this type appears in messages.
    pub fn name(&self) -> (n: String)
        ensures
            n@ == self.spec_name(),
    {
        match self {
            Type::Any => String::from_str("any"),
            Type::Nothing => String::from_str("nothing"),
            Type::Bool => String::from_str("bool"),
            Type::Int => String::from_str("int"),
            Type::Float => String::from_str("float"),
            Type::String => String::from_str("string"),
            Type::List => String::from_str("list"),
            Type::Record => String::from_str("record"),
            Type::Closure => String::from_str("closure"),
            Type::Error => String::from_str("error"),
            Type::StreamHandle => String::from_str("stream"),
            Type::Binary => String::from_str("binary"),
        }
    }
}

impl ValueView {
    /// The span of the source text that produced the value.
    pub open spec fn span(self) -> Span {
        match self {
            ValueView::Nothing { span } => span,
            ValueView::Bool { span, .. } => span,
            ValueView::Int { span, .. } => span,
            ValueView::Float { span, .. } => span,
            ValueView::String { span, .. } => span,
            ValueView::List { span, .. } => span,
            ValueView::Record { span, .. } => span,
            ValueView::Closure { span, .. } => span,
            ValueView::Error { span, .. } => span,
            ValueView::StreamHandle { span, .. } => span,
        }
    }

    /// The type of the value.
    pub open spec fn get_type(self) -> Type {
        match self {
            ValueView::Nothing { .. } => Type::Nothing,
            ValueView::Bool { .. } => Type::Bool,
            ValueView::Int { .. } => Type::Int,
            ValueView::Float { .. } => Type::Float,
            ValueView::String { .. } => Type::String,
            ValueView::List { .. } => Type::List,
            ValueView::Record { .. } => Type::Record,
            ValueView::Closure { .. } => Type::Closure,
            ValueView::Error { .. } => Type::Error,
            ValueView::StreamHandle { .. } => Type::StreamHandle,
        }
    }

    /// The failure that a conversion of this value to `to` reports.
    pub open spec fn cant_convert(self, to: Type) -> ShellErrorView {
        ShellErrorView::CantConvert {
            to_type: to.spec_name(),
            from_type: self.get_type().spec_name(),
            span: self.span(),
            help: None,
        }
    }

    /// Equality of two values in type and content, whatever their spans.
    /// Two failures are never equal.
    pub open spec fn same_content(self, other: ValueView) -> bool
        decreases self,
    {
        match (self, other) {
            (ValueView::Nothing { .. }, ValueView::Nothing { .. }) => true,
            (ValueView::Bool { val: a, .. }, ValueView::Bool { val: b, .. }) => a == b,
            (ValueView::Int { val: a, .. }, ValueView::Int { val: b, .. }) => a == b,
            (ValueView::Float { bits: a, .. }, ValueView::Float { bits: b, .. }) => a == b,
            (ValueView::String { val: a, .. }, ValueView::String { val: b, .. }) => a == b,
            (ValueView::List { vals: a, .. }, ValueView::List { vals: b, .. }) => {
                same_contents(a, b)
            },
            (
                ValueView::Record { cols: ca, vals: a, .. },
                ValueView::Record { cols: cb, vals: b, .. },
            ) => ca == cb && same_contents(a, b),
            (ValueView::Closure { val: a, .. }, ValueView::Closure { val: b, .. }) => {
                a.block_id == b.block_id && same_bindings(a.captures, b.captures)
            },
            (ValueView::StreamHandle { id: a, .. }, ValueView::StreamHandle { id: b, .. }) => {
                a == b
            },
            _ => false,
        }
    }
}

/// Equality, element by element, of two sequences of values in type and content.
pub open spec fn same_contents(a: Seq<ValueView>, b: Seq<ValueView>) -> bool
    decreases a,
{
    a.len() == b.len() && forall|i: int| 0 <= i < a.len() ==> (#[trigger] a[i]).same_content(b[i])
}

/// Equality, binding by binding, of two lists of bindings: the same names,
/// and values equal in type and content.
pub open spec fn same_bindings(
    a: Seq<(Seq<char>, ValueView)>,
    b: Seq<(Seq<char>, ValueView)>,
) -> bool
    decreases a,
{
    a.len() == b.len() && forall|i: int|
        0 <= i < a.len() ==> (#[trigger] a[i]).0 == b[i].0 && a[i].1.same_content(b[i].1)
}

/// The content of an optional value.
pub open spec fn opt_value_view(v: Option<Value>) -> Option<ValueView> {
    match v {
        Some(x) => Some(x@),
        None => None,
    }
}

/// A copy of an optional value.
pub fn clone_opt_value(v: &Option<Value>) -> (r: Option<Value>)
    ensures
        opt_value_view(r) == opt_value_view(*v),
{
    match v {
        Some(x) => Some(x.clone()),
        None => None,
    }
}

/// A copy of a vector of strings.
pub fn clone_strings(names: &Vec<String>) -> (r: Vec<String>)
    ensures
        strings_view(r) == strings_view(*names),
{
    let mut out: Vec<String> = Vec::new();
    let mut i: usize = 0;
    while i < names.len()
        invariant
            i <= names.len(),
            out.len() == i,
            forall|j: int| 0 <= j < i ==> out[j]@ == names[j]@,
        decreases names.len() - i,
    {
        out.push(names[i].clone());
        i = i + 1;
    }
    assert(strings_view(out) =~= strings_view(*names));
    out
}

/// A copy of a vector of values.
pub fn clone_values(vals: &Vec<Value>) -> (r: Vec<Value>)
    ensures
        values_view(r) == values_view(*vals),
    decreases vals,
{
    let mut out: Vec<Value> = Vec::new();
    let mut i: usize = 0;
    while i < vals.len()
        invariant
            i <= vals.len(),
            out.len() == i,
            forall|j: int| 0 <= j < i ==> out[j]@ == vals[j]@,
        decreases vals.len() - i,
    {
        out.push(vals[i].clone());
        i = i + 1;
    }
    assert(values_view(out) =~= values_view(*vals));
    out
}

impl Clone for Value {
    fn clone(&self) -> (r: Self)
        ensures
            r@ == self@,
        decreases self,
    {
        match self {
            Value::Nothing { span } => Value::Nothing { span: *span },
            Value::Bool { val, span } => Value::Bool { val: *val, span: *span },
            Value::Int { val, span } => Value::Int { val: *val, span: *span },
            Value::Float { bits, span } => Value::Float { bits: *bits, span: *span },
            Value::String { val, span } => Value::String { val: val.clone(), span: *span },
            Value::List { vals, span } => Value::List { vals: clone_values(vals), span: *span },
            Value::Record { cols, vals, span } => Value::Record {
                cols: clone_strings(cols),
                vals: clone_values(vals),
                span: *span,
            },
            Value::Closure { val, span } => Value::Closure { val: val.clone(), span: *span },
            Value::Error { error, span } => Value::Error {
                error: Box::new((**error).clone()),
                span: *span,
            },
            Value::StreamHandle { id, span } => Value::StreamHandle { id: *id, span: *span },
        }
    }
}

/// Whether two vectors of strings hold the same strings in the same order.
pub fn strings_eq(a: &Vec<String>, b: &Vec<String>) -> (r: bool)
    ensures
        r == (strings_view(*a) == strings_view(*b)),
{
    if a.len() != b.len() {
        assert(strings_view(*a).len() != strings_view(*b).len());
        return false;
    }
    let mut i: usize = 0;
    while i < a.len()
        invariant
            i <= a.len(),
            a.len() == b.len(),
            forall|j: int| 0 <= j < i ==> a[j]@ == b[j]@,
        decreases a.len() - i,
    {
        if a[i] != b[i] {
            assert(strings_view(*a)[i as int] != strings_view(*b)[i as int]);
            return false;
        }
        i = i + 1;
    }
    assert(strings_view(*a) =~= strings_view(*b));
    true
}

/// Whether two vectors of values are equal, element by element, in type and content.
pub fn values_content_eq(a: &Vec<Value>, b: &Vec<Value>) -> (r: bool)
    ensures
        r == same_contents(values_view(*a), values_view(*b)),
    decreases a,
{
    if a.len() != b.len() {
        return false;
    }
    let mut i: usize = 0;
    while i < a.len()
        invariant
            i <= a.len(),
            a.len() == b.len(),
            forall|j: int| 0 <= j < i ==> (#[trigger] a[j])@.same_content(b[j]@),
        decreases a.len() - i,
    {
        if !a[i].content_eq(&b[i]) {
            assert(!values_view(*a)[i as int].same_content(values_view(*b)[i as int]));
            return false;
        }
        i = i + 1;
    }
    assert forall|j: int| 0 <= j < a.len() implies (#[trigger] values_view(*a)[j]).same_content(
        values_view(*b)[j],
    ) by {
        assert(a[j]@.same_content(b[j]@));
    }
    true
}

impl Value {
    /// The span of the source text that produced the value.
    pub fn span(&self) -> (s: Span)
        ensures
            s == self@.span(),
    {
        match self {
            Value::Nothing { span } => *span,
            Value::Bool { span, .. } => *span,
            Value::Int { span, .. } => *span,
            Value::Float { span, .. } => *span,
            Value::String { span, .. } => *span,
            Value::List { span, .. } => *span,
            Value::Record { span, .. } => *span,
            Value::Closure { span, .. } => *span,
            Value::Error { span, .. } => *span,
            Value::StreamHandle { span, .. } => *span,
        }
    }

    /// The type of the value.
    pub fn get_type(&self) -> (t: Type)
        ensures
            t == self@.get_type(),
    {
        match self {
            Value::Nothing { .. } => Type::Nothing,
            Value::Bool { .. } => Type::Bool,
            Value::Int { .. } => Type::Int,
            Value::Float { .. } => Type::Float,
            Value::String { .. } => Type::String,
            Value::List { .. } => Type::List,
            Value::Record { .. } => Type::Record,
            Value::Closure { .. } => Type::Closure,
            Value::Error { .. } => Type::Error,
            Value::StreamHandle { .. } => Type::StreamHandle,
        }
    }

    /// The failure that a conversion of this value to `to` reports.
    pub fn cant_convert(&self, to: Type) -> (e: ShellError)
        ensures
            e@ == self@.cant_convert(to),
    {
        ShellError::CantConvert {
            to_type: to.name(),
            from_type: self.get_type().name(),
            span: self.span(),
            help: None,
        }
    }

    /// The text of a string value; any other value cannot be converted.
    pub fn as_string(&self) -> (r: Result<String, ShellError>)
        ensures
            match r {
                Ok(s) => self@ matches ValueView::String { val, .. } && s@ == val,
                Err(e) => !(self@ is String) && e@ == self@.cant_convert(Type::String),
            },
    {
        match self {
            Value::String { val, .. } => Ok(val.clone()),
            _ => Err(self.cant_convert(Type::String)),
        }
    }

    /// The number of an integer value; any other value cannot be converted.
    pub fn as_int(&self) -> (r: Result<i64, ShellError>)
        ensures
            match r {
                Ok(n) => self@ matches ValueView::Int { val, .. } && n == val,
                Err(e) => !(self@ is Int) && e@ == self@.cant_convert(Type::Int),
            },
    {
        match self {
            Value::Int { val, .. } => Ok(*val),
            _ => Err(self.cant_convert(Type::Int)),
        }
    }

    /// The truth value of a boolean value; any other value cannot be converted.
    pub fn as_bool(&self) -> (r: Result<bool, ShellError>)
        ensures
            match r {
                Ok(b) => self@ matches ValueView::Bool { val, .. } && b == val,
                Err(e) => !(self@ is Bool) && e@ == self@.cant_convert(Type::Bool),
            },
    {
        match self {
            Value::Bool { val, .. } => Ok(*val),
            _ => Err(self.cant_convert(Type::Bool)),
        }
    }

    /// Whether two values are equal in type and content, whatever their spans.
    pub fn content_eq(&self, other: &Value) -> (r: bool)
        ensures
            r == self@.same_content(other@),
        decreases self,
    {
        match (self, other) {
            (Value::Nothing { .. }, Value::Nothing { .. }) => true,
            (Value::Bool { val: a, .. }, Value::Bool { val: b, .. }) => *a == *b,
            (Value::Int { val: a, .. }, Value::Int { val: b, .. }) => *a == *b,
            (Value::Float { bits: a, .. }, Value::Float { bits: b, .. }) => *a == *b,
            (Value::String { val: a, .. }, Value::String { val: b, .. }) => *a == *b,
            (Value::List { vals: a, .. }, Value::List { vals: b, .. }) => values_content_eq(a, b),
            (
                Value::Record { cols: ca, vals: a, .. },
                Value::Record { cols: cb, vals: b, .. },
            ) => strings_eq(ca, cb) && values_content_eq(a, b),
            (Value::Closure { val: a, .. }, Value::Closure { val: b, .. }) => a.content_eq(b),
            (Value::StreamHandle { id: a, .. }, Value::StreamHandle { id: b, .. }) => *a == *b,
            _ => false,
        }
    }
}

} // verus!
