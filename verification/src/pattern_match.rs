//! Structural matching of a value against a pattern: a match gives the
//! bindings of every part of the pattern, and a mismatch gives none.

use vstd::prelude::*;
use crate::error::opt_string_view;
use crate::record::find_column;
use crate::record::record_get;
use crate::seq_find::first_index;
use crate::seq_find::lemma_first_index_end;
use crate::seq_find::lemma_first_index_step;
use crate::span::Span;
use crate::text::str_eq;
use crate::value::bindings_view;
use crate::value::strings_view;
use crate::value::Value;
use crate::value::values_view;
use crate::value::ValueView;

verus! {

/// A pattern: the shape that a value must have, with the names to bind to
/// its parts.
#[derive(Debug)]
pub enum Pattern {
    /// Matches a value that is equal to `value` in type and content.
    Literal { value: Value },
    /// Matches every value, and binds it to `name`.
    Bind { name: String },
    /// Matches a list whose elements match `items` one by one. With `rest`
    /// the list may be longer, and the elements past `items` are bound to
    /// that name as a list; without it the list has as many elements as
    /// `items`.
    List { items: Vec<Pattern>, rest: Option<String> },
    /// Matches a record that has every field of `fields` with a value that
    /// matches the pattern of the field. An exhaustive pattern matches no
    /// record that has any other field.
    Record { fields: Vec<(String, Pattern)>, exhaustive: bool },
}

/// The mathematical content of a [`Pattern`].
pub enum PatternView {
    Literal { value: ValueView },
    Bind { name: Seq<char> },
    List { items: Seq<PatternView>, rest: Option<Seq<char>> },
    Record { fields: Seq<(Seq<char>, PatternView)>, exhaustive: bool },
}

/// The contents of a vector of patterns.
pub open spec fn patterns_view(items: Vec<Pattern>) -> Seq<PatternView>
    decreases items,
{
    Seq::new(
        items.len() as nat,
        |i: int|
            if 0 <= i < items.len() {
                items[i].view()
            } else {
                PatternView::Bind { name: Seq::empty() }
            },
    )
}

/// The contents of the fields of a record pattern.
pub open spec fn fields_view(fields: Vec<(String, Pattern)>) -> Seq<(Seq<char>, PatternView)>
    decreases fields,
{
    Seq::new(
        fields.len() as nat,
        |i: int|
            if 0 <= i < fields.len() {
                (fields[i].0@, fields[i].1.view())
            } else {
                (Seq::empty(), PatternView::Bind { name: Seq::empty() })
            },
    )
}

impl View for Pattern {
    type V = PatternView;

    open spec fn view(&self) -> PatternView
        decreases self,
    {
        match self {
            Pattern::Literal { value } => PatternView::Literal { value: value@ },
            Pattern::Bind { name } => PatternView::Bind { name: name@ },
            Pattern::List { items, rest } => PatternView::List {
                items: patterns_view(*items),
                rest: opt_string_view(*rest),
            },
            Pattern::Record { fields, exhaustive } => PatternView::Record {
                fields: fields_view(*fields),
                exhaustive: *exhaustive,
            },
        }
    }
}

/// The condition that a field of a record pattern is the field `name`.
pub open spec fn is_field(name: Seq<char>) -> spec_fn((Seq<char>, PatternView)) -> bool {
    |f: (Seq<char>, PatternView)| f.0 == name
}

/// Whether a record pattern names every one of the columns.
pub open spec fn names_all(fields: Seq<(Seq<char>, PatternView)>, cols: Seq<Seq<char>>) -> bool {
    forall|i: int| 0 <= i < cols.len() ==> first_index(fields, is_field(#[trigger] cols[i])) is Some
}

/// The bindings that a match of `value` against `pattern` gives; `None`
/// where the value does not match.
pub open spec fn match_spec(pattern: PatternView, value: ValueView) -> Option<
    Seq<(Seq<char>, ValueView)>,
>
    decreases pattern,
{
    match pattern {
        PatternView::Literal { value: literal } => if literal.same_content(value) {
            Some(Seq::empty())
        } else {
            None
        },
        PatternView::Bind { name } => Some(seq![(name, value)]),
        PatternView::List { items, rest } => match value {
            ValueView::List { vals, span } => if vals.len() < items.len() || (rest is None
                && vals.len() != items.len()) {
                None
            } else {
                match (match_items(items, vals, items.len()), rest) {
                    (Some(found), Some(name)) => Some(
                        found.push(
                            (name, ValueView::List { vals: vals.skip(items.len() as int), span }),
                        ),
                    ),
                    (Some(found), None) => Some(found),
                    (None, _) => None,
                }
            },
            _ => None,
        },
        PatternView::Record { fields, exhaustive } => match value {
            ValueView::Record { cols, vals, .. } => if exhaustive && !names_all(fields, cols) {
                None
            } else {
                match_fields(fields, cols, vals, fields.len())
            },
            _ => None,
        },
    }
}

/// The bindings that the first `n` patterns give against the values at
/// their places, in order; `None` where one of them does not match.
pub open spec fn match_items(items: Seq<PatternView>, vals: Seq<ValueView>, n: nat) -> Option<
    Seq<(Seq<char>, ValueView)>,
>
    decreases items, n,
{
    if n == 0 || n > items.len() {
        Some(Seq::empty())
    } else {
        match (match_items(items, vals, (n - 1) as nat), match_spec(items[n - 1], vals[n - 1])) {
            (Some(before), Some(here)) => Some(before + here),
            _ => None,
        }
    }
}

/// The bindings that the first `n` fields of a record pattern give against
/// the values of the columns they name, in order; `None` where the record
/// lacks one of the fields or has a value in it that does not match.
pub open spec fn match_fields(
    fields: Seq<(Seq<char>, PatternView)>,
    cols: Seq<Seq<char>>,
    vals: Seq<ValueView>,
    n: nat,
) -> Option<Seq<(Seq<char>, ValueView)>>
    decreases fields, n,
{
    if n == 0 || n > fields.len() {
        Some(Seq::empty())
    } else {
        match (match_fields(fields, cols, vals, (n - 1) as nat), record_get(
            cols,
            vals,
            fields[n - 1].0,
        )) {
            (Some(before), Some(v)) => match match_spec(fields[n - 1].1, v) {
                Some(here) => Some(before + here),
                None => None,
            },
            _ => None,
        }
    }
}

/// Whether a record pattern has a field with the name `name`.
fn names_field(fields: &Vec<(String, Pattern)>, name: &str) -> (named: bool)
    ensures
        named == (first_index(fields_view(*fields), is_field(name@)) is Some),
{
    let ghost all = fields_view(*fields);
    let ghost found = is_field(name@);
    let mut i: usize = 0;
    while i < fields.len()
        invariant
            i <= fields.len(),
            all == fields_view(*fields),
            found == is_field(name@),
            first_index(all.subrange(0, i as int), found) is None,
        decreases fields.len() - i,
    {
        proof {
            lemma_first_index_step(all, i as int, found);
        }
        if str_eq(fields[i].0.as_str(), name) {
            return true;
        }
        i = i + 1;
    }
    proof {
        lemma_first_index_end(all, found);
    }
    false
}

/// Whether a record pattern names every one of the columns.
fn names_every(fields: &Vec<(String, Pattern)>, cols: &Vec<String>) -> (all: bool)
    ensures
        all == names_all(fields_view(*fields), strings_view(*cols)),
{
    let mut i: usize = 0;
    while i < cols.len()
        invariant
            i <= cols.len(),
            forall|j: int|
                0 <= j < i ==> first_index(
                    fields_view(*fields),
                    is_field(#[trigger] strings_view(*cols)[j]),
                ) is Some,
        decreases cols.len() - i,
    {
        if !names_field(fields, cols[i].as_str()) {
            assert(strings_view(*cols)[i as int] == cols[i as int]@);
            return false;
        }
        i = i + 1;
    }
    true
}

/// The values of a vector from index `from` on.
fn values_from(vals: &Vec<Value>, from: usize) -> (tail: Vec<Value>)
    requires
        from <= vals.len(),
    ensures
        values_view(tail) == values_view(*vals).skip(from as int),
{
    let mut tail: Vec<Value> = Vec::new();
    let mut i: usize = from;
    while i < vals.len()
        invariant
            from <= i <= vals.len(),
            tail.len() == i - from,
            forall|j: int| 0 <= j < tail.len() ==> (#[trigger] tail[j])@ == vals[from + j]@,
        decreases vals.len() - i,
    {
        tail.push(vals[i].clone());
        i = i + 1;
    }
    assert(values_view(tail) =~= values_view(*vals).skip(from as int));
    tail
}

/// Matches `value` against `pattern` and adds the bindings of the match to
/// `out`. After a mismatch `out` holds what was added before the mismatch
/// was found: the caller throws it away.
#[verifier::loop_isolation(false)]
fn match_into(pattern: &Pattern, value: &Value, out: &mut Vec<(String, Value)>) -> (matched: bool)
    ensures
        match match_spec(pattern@, value@) {
            Some(found) => matched && bindings_view(*final(out)) == bindings_view(*old(out))
                + found,
            None => !matched,
        },
    decreases pattern,
{
    let ghost start = bindings_view(*out);
    match pattern {
        Pattern::Literal { value: literal } => {
            assert(start + Seq::empty() =~= start);
            literal.content_eq(value)
        },
        Pattern::Bind { name } => {
            out.push((name.clone(), value.clone()));
            assert(bindings_view(*out) =~= start + seq![(name@, value@)]);
            true
        },
        Pattern::List { items, rest } => {
            let (vals, span) = match value {
                Value::List { vals, span } => (vals, *span),
                _ => {
                    return false;
                },
            };
            let ghost item_views = patterns_view(*items);
            let ghost val_views = values_view(*vals);
            assert(pattern@->List_items == item_views);
            assert(value@->List_vals == val_views);
            assert(val_views.len() == vals.len());
            assert(item_views.len() == items.len());
            if vals.len() < items.len() || (rest.is_none() && vals.len() != items.len()) {
                return false;
            }
            let mut i: usize = 0;
            assert(start + Seq::empty() =~= start);
            while i < items.len()
                invariant
                    i <= items.len(),
                    match_items(item_views, val_views, i as nat) matches Some(found)
                        && bindings_view(*out) == start + found,
                decreases items.len() - i,
            {
                let ghost before = match_items(item_views, val_views, i as nat)->Some_0;
                if !match_into(&items[i], &vals[i], out) {
                    proof {
                        lemma_match_items_fails(item_views, val_views, i as nat, items.len() as nat);
                    }
                    return false;
                }
                proof {
                    let here = match_spec(item_views[i as int], val_views[i as int])->Some_0;
                    assert(start + (before + here) =~= (start + before) + here);
                }
                i = i + 1;
            }
            match rest {
                Some(name) => {
                    let ghost found = bindings_view(*out);
                    let tail = Value::List { vals: values_from(vals, items.len()), span };
                    out.push((name.clone(), tail));
                    proof {
                        let all = match_items(item_views, val_views, items.len() as nat)->Some_0;
                        assert(tail@->List_vals == val_views.skip(items.len() as int));
                        assert(bindings_view(*out) =~= found.push((name@, tail@)));
                        assert(found.push((name@, tail@)) =~= start + all.push((name@, tail@)));
                    }
                },
                None => {},
            }
            true
        },
        Pattern::Record { fields, exhaustive } => {
            let (cols, vals) = match value {
                Value::Record { cols, vals, .. } => (cols, vals),
                _ => {
                    return false;
                },
            };
            let ghost field_views = fields_view(*fields);
            let ghost col_views = strings_view(*cols);
            let ghost val_views = values_view(*vals);
            assert(pattern@->Record_fields == field_views);
            assert(value@->Record_vals == val_views);
            assert(value@->Record_cols == col_views);
            assert(val_views.len() == vals.len());
            assert(field_views.len() == fields.len());
            if *exhaustive && !names_every(fields, cols) {
                return false;
            }
            let mut i: usize = 0;
            assert(start + Seq::empty() =~= start);
            while i < fields.len()
                invariant
                    i <= fields.len(),
                    match_fields(field_views, col_views, val_views, i as nat) matches Some(found)
                        && bindings_view(*out) == start + found,
                decreases fields.len() - i,
            {
                let ghost before = match_fields(field_views, col_views, val_views, i as nat)->Some_0;
                let at = match find_column(cols, fields[i].0.as_str()) {
                    Some(k) => if k < vals.len() {
                        Some(k)
                    } else {
                        None
                    },
                    None => None,
                };
                let matched = match at {
                    Some(k) => match_into(&fields[i].1, &vals[k], out),
                    None => false,
                };
                if !matched {
                    proof {
                        lemma_match_fields_fails(
                            field_views,
                            col_views,
                            val_views,
                            i as nat,
                            fields.len() as nat,
                        );
                    }
                    return false;
                }
                proof {
                    let v = record_get(col_views, val_views, field_views[i as int].0)->Some_0;
                    let here = match_spec(field_views[i as int].1, v)->Some_0;
                    assert(start + (before + here) =~= (start + before) + here);
                }
                i = i + 1;
            }
            true
        },
    }
}

/// Once one pattern of a list does not match, no longer run of the
/// patterns does.
pub proof fn lemma_match_items_fails(
    items: Seq<PatternView>,
    vals: Seq<ValueView>,
    at: nat,
    n: nat,
)
    requires
        at < n <= items.len(),
        match_spec(items[at as int], vals[at as int]) is None,
    ensures
        match_items(items, vals, n) is None,
    decreases n,
{
    if n > at + 1 {
        lemma_match_items_fails(items, vals, at, (n - 1) as nat);
    }
}

/// Once one field of a record pattern does not match, no longer run of the
/// fields does.
pub proof fn lemma_match_fields_fails(
    fields: Seq<(Seq<char>, PatternView)>,
    cols: Seq<Seq<char>>,
    vals: Seq<ValueView>,
    at: nat,
    n: nat,
)
    requires
        at < n <= fields.len(),
        match record_get(cols, vals, fields[at as int].0) {
            Some(v) => match_spec(fields[at as int].1, v) is None,
            None => true,
        },
    ensures
        match_fields(fields, cols, vals, n) is None,
    decreases n,
{
    if n > at + 1 {
        lemma_match_fields_fails(fields, cols, vals, at, (n - 1) as nat);
    }
}

/// The names that a pattern binds, in the order of its parts.
pub open spec fn pattern_names(pattern: PatternView) -> Seq<Seq<char>>
    decreases pattern,
{
    match pattern {
        PatternView::Literal { .. } => Seq::empty(),
        PatternView::Bind { name } => seq![name],
        PatternView::List { items, rest } => match rest {
            Some(name) => items_names(items, items.len()).push(name),
            None => items_names(items, items.len()),
        },
        PatternView::Record { fields, .. } => fields_names(fields, fields.len()),
    }
}

/// The names that the first `n` patterns bind, in order.
pub open spec fn items_names(items: Seq<PatternView>, n: nat) -> Seq<Seq<char>>
    decreases items, n,
{
    if n == 0 || n > items.len() {
        Seq::empty()
    } else {
        items_names(items, (n - 1) as nat) + pattern_names(items[n - 1])
    }
}

/// The names that the patterns of the first `n` fields bind, in order.
pub open spec fn fields_names(fields: Seq<(Seq<char>, PatternView)>, n: nat) -> Seq<Seq<char>>
    decreases fields, n,
{
    if n == 0 || n > fields.len() {
        Seq::empty()
    } else {
        fields_names(fields, (n - 1) as nat) + pattern_names(fields[n - 1].1)
    }
}

/// The names of a list of bindings, in order.
pub open spec fn bound_names(bindings: Seq<(Seq<char>, ValueView)>) -> Seq<Seq<char>> {
    Seq::new(bindings.len(), |i: int| bindings[i].0)
}

/// A match binds every name of the pattern, once for each place where the
/// pattern has it and in the order of the pattern, and no other name.
pub proof fn lemma_match_binds_all(pattern: PatternView, value: ValueView)
    ensures
        match_spec(pattern, value) matches Some(found) ==> bound_names(found) == pattern_names(
            pattern,
        ),
    decreases pattern,
{
    match (pattern, value) {
        (PatternView::List { items, rest }, ValueView::List { vals, span }) => {
            lemma_items_bind_all(items, vals, items.len());
            if match_spec(pattern, value) is Some {
                let found = match_items(items, vals, items.len())->Some_0;
                match rest {
                    Some(name) => {
                        let tail = ValueView::List { vals: vals.skip(items.len() as int), span };
                        assert(bound_names(found.push((name, tail))) =~= bound_names(found).push(
                            name,
                        ));
                    },
                    None => {},
                }
            }
        },
        (PatternView::Record { fields, .. }, ValueView::Record { cols, vals, .. }) => {
            lemma_fields_bind_all(fields, cols, vals, fields.len());
        },
        (PatternView::Bind { name }, _) => {
            assert(bound_names(seq![(name, value)]) =~= seq![name]);
        },
        (PatternView::Literal { .. }, _) => {
            assert(bound_names(Seq::empty()) =~= Seq::<Seq<char>>::empty());
        },
        _ => {},
    }
}

/// A match of the first `n` patterns of a list binds every name of them.
pub proof fn lemma_items_bind_all(items: Seq<PatternView>, vals: Seq<ValueView>, n: nat)
    ensures
        match_items(items, vals, n) matches Some(found) ==> bound_names(found) == items_names(
            items,
            n,
        ),
    decreases items, n,
{
    if n == 0 || n > items.len() {
        assert(bound_names(Seq::empty()) =~= Seq::<Seq<char>>::empty());
    } else {
        lemma_items_bind_all(items, vals, (n - 1) as nat);
        lemma_match_binds_all(items[n - 1], vals[n - 1]);
        if match_items(items, vals, n) is Some {
            let before = match_items(items, vals, (n - 1) as nat)->Some_0;
            let here = match_spec(items[n - 1], vals[n - 1])->Some_0;
            assert(bound_names(before + here) =~= bound_names(before) + bound_names(here));
        }
    }
}

/// A match of the first `n` fields of a record pattern binds every name
/// of their patterns.
pub proof fn lemma_fields_bind_all(
    fields: Seq<(Seq<char>, PatternView)>,
    cols: Seq<Seq<char>>,
    vals: Seq<ValueView>,
    n: nat,
)
    ensures
        match_fields(fields, cols, vals, n) matches Some(found) ==> bound_names(found)
            == fields_names(fields, n),
    decreases fields, n,
{
    if n == 0 || n > fields.len() {
        assert(bound_names(Seq::empty()) =~= Seq::<Seq<char>>::empty());
    } else {
        lemma_fields_bind_all(fields, cols, vals, (n - 1) as nat);
        if match_fields(fields, cols, vals, n) is Some {
            let v = record_get(cols, vals, fields[n - 1].0)->Some_0;
            lemma_match_binds_all(fields[n - 1].1, v);
            let before = match_fields(fields, cols, vals, (n - 1) as nat)->Some_0;
            let here = match_spec(fields[n - 1].1, v)->Some_0;
            assert(bound_names(before + here) =~= bound_names(before) + bound_names(here));
        }
    }
}

/// A list pattern of one binding and a rest binding matches every list
/// that is not empty: it binds the first element to the one name and the
/// list of the others to the other. It matches no empty list.
pub proof fn lemma_head_and_rest(
    head: Seq<char>,
    rest: Seq<char>,
    vals: Seq<ValueView>,
    span: Span,
)
    ensures
        match_spec(
            PatternView::List { items: seq![PatternView::Bind { name: head }], rest: Some(rest) },
            ValueView::List { vals, span },
        ) == (if vals.len() >= 1 {
            Some(
                seq![(head, vals[0]), (rest, ValueView::List { vals: vals.skip(1), span })],
            )
        } else {
            None
        }),
{
    let items = seq![PatternView::Bind { name: head }];
    if vals.len() >= 1 {
        assert(match_items(items, vals, 0) == Some(Seq::<(Seq<char>, ValueView)>::empty()));
        assert(match_spec(items[0], vals[0]) == Some(seq![(head, vals[0])]));
        let found = match_items(items, vals, 1)->Some_0;
        assert(found =~= seq![(head, vals[0])]);
        assert(found.push((rest, ValueView::List { vals: vals.skip(1), span })) =~= seq![
            (head, vals[0]),
            (rest, ValueView::List { vals: vals.skip(1), span }),
        ]);
    }
}

/// A pattern that only binds matches every value, and a literal pattern
/// matches no value of another type.
pub proof fn lemma_bind_and_literal(name: Seq<char>, literal: ValueView, value: ValueView)
    ensures
        match_spec(PatternView::Bind { name }, value) == Some(seq![(name, value)]),
        literal.get_type() != value.get_type() ==> match_spec(
            PatternView::Literal { value: literal },
            value,
        ) is None,
{
}

/// Matches `value` against `pattern`. A match gives the bindings of every
/// part of the pattern, in the order of the parts; a mismatch at any depth
/// gives `None`, and no binding of any part.
pub fn match_pattern(pattern: &Pattern, value: &Value) -> (r: Option<Vec<(String, Value)>>)
    ensures
        match match_spec(pattern@, value@) {
            Some(found) => r matches Some(bindings) && bindings_view(bindings) == found,
            None => r is None,
        },
{
    let mut out: Vec<(String, Value)> = Vec::new();
    assert(bindings_view(out) =~= Seq::empty());
    if match_into(pattern, value, &mut out) {
        assert(Seq::<(Seq<char>, ValueView)>::empty() + match_spec(pattern@, value@)->Some_0
            =~= match_spec(pattern@, value@)->Some_0);
        Some(out)
    } else {
        None
    }
}

} // verus!
