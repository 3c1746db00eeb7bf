//! Records: columns in the order in which they were inserted, no two with
//! the same name.

use vstd::prelude::*;
use crate::seq_find::first_index;
use crate::seq_find::index_view;
use crate::seq_find::lemma_first_index;
use crate::seq_find::lemma_first_index_end;
use crate::seq_find::lemma_first_index_step;
use crate::seq_find::lemma_first_index_unique;
use crate::span::Span;
use crate::text::str_eq;
use crate::value::opt_value_view;
use crate::value::strings_view;
use crate::value::Value;
use crate::value::values_view;
use crate::value::ValueView;

verus! {

/// The condition that a text is `name`.
pub open spec fn is_text(name: Seq<char>) -> spec_fn(Seq<char>) -> bool {
    |t: Seq<char>| t == name
}

/// The value that a record has in its column `name`.
pub open spec fn record_get(cols: Seq<Seq<char>>, vals: Seq<ValueView>, name: Seq<char>) -> Option<
    ValueView,
> {
    match first_index(cols, is_text(name)) {
        Some(k) => if k < vals.len() {
            Some(vals[k])
        } else {
            None
        },
        None => None,
    }
}

/// Whether every value of a sequence is well formed.
pub open spec fn all_wf(vals: Seq<ValueView>) -> bool
    decreases vals,
{
    forall|i: int| 0 <= i < vals.len() ==> (#[trigger] vals[i]).wf()
}

/// Whether the value of every binding is well formed.
pub open spec fn all_bound_wf(vars: Seq<(Seq<char>, ValueView)>) -> bool
    decreases vars,
{
    forall|i: int| 0 <= i < vars.len() ==> (#[trigger] vars[i]).1.wf()
}

impl ValueView {
    /// A value is well formed where every record in it has one value for
    /// each of its columns and no two columns of the same name.
    pub open spec fn wf(self) -> bool
        decreases self,
    {
        match self {
            ValueView::List { vals, .. } => all_wf(vals),
            ValueView::Record { cols, vals, .. } => cols.len() == vals.len()
                && cols.no_duplicates() && all_wf(vals),
            ValueView::Closure { val, .. } => all_bound_wf(val.captures),
            _ => true,
        }
    }

    /// The record with `value` in its column `name`: in place of the value
    /// that the column had, or in a new last column. Any other value stays
    /// as it is, and so does a record that lacks the value of that column.
    pub open spec fn with_column(self, name: Seq<char>, value: ValueView) -> ValueView {
        match self {
            ValueView::Record { cols, vals, span } => match first_index(cols, is_text(name)) {
                Some(k) => if k < vals.len() {
                    ValueView::Record { cols, vals: vals.update(k, value), span }
                } else {
                    self
                },
                None => ValueView::Record { cols: cols.push(name), vals: vals.push(value), span },
            },
            other => other,
        }
    }

    /// The value of the column `name` of a record.
    pub open spec fn column(self, name: Seq<char>) -> Option<ValueView> {
        match self {
            ValueView::Record { cols, vals, .. } => record_get(cols, vals, name),
            _ => None,
        }
    }
}

/// A record with one more column is well formed, has the new value in that
/// column, and has in every other column what it had; the columns that
/// were there are where they were.
pub proof fn lemma_with_column(
    record: ValueView,
    name: Seq<char>,
    value: ValueView,
    other: Seq<char>,
)
    requires
        record is Record,
        record.wf(),
        value.wf(),
    ensures
        record.with_column(name, value).wf(),
        record.with_column(name, value).column(name) == Some(value),
        other != name ==> record.with_column(name, value).column(other) == record.column(other),
        forall|i: int|
            0 <= i < record->cols.len() ==> record.with_column(name, value)->cols[i]
                == record->cols[i],
{
    let cols = record->cols;
    let vals = record->Record_vals;
    let after = record.with_column(name, value);
    lemma_first_index(cols, is_text(name));
    lemma_first_index(cols, is_text(other));
    lemma_first_index(after->cols, is_text(name));
    lemma_first_index(after->cols, is_text(other));
    match first_index(cols, is_text(name)) {
        Some(k) => {
            assert forall|i: int| 0 <= i < after->Record_vals.len() implies (
            #[trigger] after->Record_vals[i]).wf() by {
                if i != k {
                    assert(vals[i].wf());
                }
            }
        },
        None => {
            assert forall|i: int| 0 <= i < after->Record_vals.len() implies (
            #[trigger] after->Record_vals[i]).wf() by {
                if i < vals.len() {
                    assert(vals[i].wf());
                }
            }
            assert forall|i: int, j: int|
                0 <= i < j < after->cols.len() implies after->cols[i] != after->cols[j] by {
                if j < cols.len() {
                    assert(cols[i] != cols[j]);
                } else {
                    assert(!is_text(name)(cols[i]));
                }
            }
            lemma_first_index_unique(after->cols, cols.len() as int, is_text(name));
            if other != name {
                match first_index(cols, is_text(other)) {
                    Some(j) => {
                        lemma_first_index_unique(after->cols, j, is_text(other));
                    },
                    None => {
                        if first_index(after->cols, is_text(other)) is Some {
                            let j = first_index(after->cols, is_text(other))->Some_0;
                            if j < cols.len() {
                                assert(!is_text(other)(cols[j]));
                            }
                        }
                    },
                }
            }
        },
    }
}

/// The index of the first column with the name `name`.
pub fn find_column(cols: &Vec<String>, name: &str) -> (index: Option<usize>)
    ensures
        index_view(index) == first_index(strings_view(*cols), is_text(name@)),
        index matches Some(k) ==> k < cols.len(),
{
    let ghost all = strings_view(*cols);
    let ghost found = is_text(name@);
    let mut i: usize = 0;
    while i < cols.len()
        invariant
            i <= cols.len(),
            all == strings_view(*cols),
            found == is_text(name@),
            first_index(all.subrange(0, i as int), found) is None,
        decreases cols.len() - i,
    {
        proof {
            lemma_first_index_step(all, i as int, found);
        }
        if str_eq(cols[i].as_str(), name) {
            return Some(i);
        }
        i = i + 1;
    }
    proof {
        lemma_first_index_end(all, found);
    }
    None
}

impl Value {
    /// A record without columns.
    pub fn new_record(span: Span) -> (record: Value)
        ensures
            record@ == (ValueView::Record { cols: Seq::empty(), vals: Seq::empty(), span }),
            record@.wf(),
    {
        let record = Value::Record { cols: Vec::new(), vals: Vec::new(), span };
        assert(record@->cols =~= Seq::empty());
        assert(record@->Record_vals =~= Seq::empty());
        record
    }

    /// Puts `value` into the column `name` of a record: in place of the
    /// value that the column had, or in a new last column. The result says
    /// whether this is a record; any other value stays as it is.
    pub fn insert_column(&mut self, name: &str, value: Value) -> (done: bool)
        ensures
            done == (old(self)@ is Record),
            final(self)@ == old(self)@.with_column(name@, value@),
            old(self)@.wf() && value@.wf() ==> final(self)@.wf(),
    {
        proof {
            if old(self)@ is Record && old(self)@.wf() && value@.wf() {
                lemma_with_column(old(self)@, name@, value@, name@);
            }
        }
        match self {
            Value::Record { cols, vals, .. } => {
                let ghost old_cols = strings_view(*cols);
                let ghost old_vals = values_view(*vals);
                assert(old(self)@->cols == old_cols);
                assert(old(self)@->Record_vals == old_vals);
                match find_column(cols, name) {
                    Some(k) => {
                        if k < vals.len() {
                            vals.set(k, value);
                            assert(values_view(*vals) =~= old_vals.update(k as int, value@));
                        }
                    },
                    None => {
                        cols.push(String::from_str(name));
                        vals.push(value);
                        assert(strings_view(*cols) =~= old_cols.push(name@));
                        assert(values_view(*vals) =~= old_vals.push(value@));
                    },
                }
                true
            },
            _ => false,
        }
    }

    /// The value of the column `name` of a record.
    pub fn get_column(&self, name: &str) -> (value: Option<Value>)
        ensures
            opt_value_view(value) == self@.column(name@),
    {
        match self {
            Value::Record { cols, vals, .. } => {
                assert(self@->cols == strings_view(*cols));
                assert(self@->Record_vals == values_view(*vals));
                match find_column(cols, name) {
                    Some(k) => if k < vals.len() {
                        Some(vals[k].clone())
                    } else {
                        None
                    },
                    None => None,
                }
            },
            _ => None,
        }
    }
}

} // verus!
