//! Lazy sequences of values: a consumer pulls one value at a time, and
//! every pull looks at the cancellation signal first.

use vstd::prelude::*;
use crate::error::ShellError;
use crate::error::ShellErrorView;
use crate::signals::Signals;
use crate::span::Span;
use crate::value::values_view;
use crate::value::Value;
use crate::value::ValueView;

verus! {

/// Where the values of a stream come from.
enum Source {
    /// The values of a vector from index `next` on.
    Items { items: Vec<Value>, next: usize },
    /// The integers from `next` on in steps of `step`, wrapping at the ends
    /// of the 64-bit range: a sequence without end.
    Counter { next: i64, step: i64, span: Span },
    /// One value again and again: a sequence without end.
    Repeat { value: Value },
}

/// The integer that a counter yields after `k` steps.
pub open spec fn counter_at(start: i64, step: i64, k: nat) -> i64
    decreases k,
{
    if k == 0 {
        start
    } else {
        counter_at(start.wrapping_add(step), step, (k - 1) as nat)
    }
}

/// A lazy, single-pass sequence of values.
pub struct ListStream {
    source: Source,
    signals: Signals,
    span: Span,
}

/// What one pull on a stream gives.
#[derive(Debug)]
pub enum Pull {
    /// The next value of the stream.
    Item(Value),
    /// The stream has no more values.
    Done,
    /// Cancellation was signalled: no value was taken from the stream.
    Cancelled,
}

impl ListStream {
    /// The value that the pull after `k` more pulls will give, if the
    /// stream has so many values.
    pub closed spec fn peek(&self, k: nat) -> Option<ValueView> {
        match self.source {
            Source::Items { items, next } => if next + k < items.len() {
                Some(items[next + k]@)
            } else {
                None
            },
            Source::Counter { next, step, span } => Some(
                ValueView::Int { val: counter_at(next, step, k), span },
            ),
            Source::Repeat { value } => Some(value@),
        }
    }

    /// The number of values that the stream still has; `None` for a stream
    /// without end.
    pub closed spec fn remaining(&self) -> Option<nat> {
        match self.source {
            Source::Items { items, next } => Some(
                if next <= items.len() {
                    (items.len() - next) as nat
                } else {
                    0
                },
            ),
            Source::Counter { .. } => None,
            Source::Repeat { .. } => None,
        }
    }

    /// Whether cancellation can reach the stream.
    pub closed spec fn can_cancel(&self) -> bool {
        self.signals.can_cancel()
    }

    /// The span of the source text that made the stream.
    pub closed spec fn spec_span(&self) -> Span {
        self.span
    }

    /// The stream has exactly the values that it says it has.
    pub open spec fn consistent(&self) -> bool {
        &&& forall|k: nat|
            (#[trigger] self.peek(k) is Some) <==> (self.remaining() matches Some(n) ==> k < n)
        &&& self.remaining() matches Some(n) ==> n <= usize::MAX
    }

    /// The two streams have the same values to come.
    pub open spec fn same_values(&self, other: &ListStream) -> bool {
        &&& self.remaining() == other.remaining()
        &&& forall|k: nat| #[trigger] self.peek(k) == other.peek(k)
    }

    /// This stream has the values of `before` but for the first `n`.
    pub open spec fn advanced_from(&self, before: &ListStream, n: nat) -> bool {
        &&& match before.remaining() {
            Some(m) => n <= m && self.remaining() == Some((m - n) as nat),
            None => self.remaining() is None,
        }
        &&& forall|k: nat| #[trigger] self.peek(k) == before.peek(k + n)
    }

    /// What every stream keeps over its life: where its values are reported
    /// from and whether cancellation can reach it.
    pub open spec fn same_origin(&self, other: &ListStream) -> bool {
        self.spec_span() == other.spec_span() && self.can_cancel() == other.can_cancel()
    }

    /// Every stream has exactly the values that it says it has.
    pub proof fn lemma_consistent(&self)
        ensures
            self.consistent(),
    {
    }

    /// A stream over the values of a vector, in order.
    pub fn from_vec(items: Vec<Value>, signals: Signals, span: Span) -> (stream: ListStream)
        ensures
            stream.remaining() == Some(items.len() as nat),
            stream.remaining() == Some(values_view(items).len()),
            forall|k: nat|
                #[trigger] stream.peek(k) == (if k < items.len() {
                    Some(values_view(items)[k as int])
                } else {
                    None
                }),
            stream.can_cancel() == signals.can_cancel(),
            stream.spec_span() == span,
    {
        ListStream { source: Source::Items { items, next: 0 }, signals, span }
    }

    /// A stream without end over the integers from `start` on in steps of
    /// `step`, wrapping at the ends of the 64-bit range.
    pub fn counter(start: i64, step: i64, signals: Signals, span: Span) -> (stream: ListStream)
        ensures
            stream.remaining() is None,
            forall|k: nat|
                #[trigger] stream.peek(k) == Some(
                    ValueView::Int { val: counter_at(start, step, k), span },
                ),
            stream.can_cancel() == signals.can_cancel(),
            stream.spec_span() == span,
    {
        ListStream { source: Source::Counter { next: start, step, span }, signals, span }
    }

    /// A stream without end that gives `value` again and again.
    pub fn repeat(value: Value, signals: Signals, span: Span) -> (stream: ListStream)
        ensures
            stream.remaining() is None,
            forall|k: nat| #[trigger] stream.peek(k) == Some(value@),
            stream.can_cancel() == signals.can_cancel(),
            stream.spec_span() == span,
    {
        ListStream { source: Source::Repeat { value }, signals, span }
    }

    /// Whether the stream ends.
    pub fn is_bounded(&self) -> (bounded: bool)
        ensures
            bounded == (self.remaining() is Some),
    {
        match &self.source {
            Source::Items { .. } => true,
            Source::Counter { .. } => false,
            Source::Repeat { .. } => false,
        }
    }

    /// The span of the source text that made the stream.
    pub fn span(&self) -> (span: Span)
        ensures
            span == self.spec_span(),
    {
        self.span
    }

    /// The failure that a cancelled pull on this stream reports.
    pub open spec fn cancelled_error(&self) -> ShellErrorView {
        ShellErrorView::Cancelled { span: self.spec_span() }
    }

    /// One pull on the stream, given what the cancellation signal read. A
    /// pull that sees the signal set takes nothing from the stream;
    /// otherwise it gives the next value, and the values after it move up.
    pub fn pull(&mut self, cancelled: bool) -> (r: Pull)
        ensures
            final(self).same_origin(old(self)),
            cancelled ==> r is Cancelled && final(self).same_values(old(self)),
            !cancelled ==> match old(self).peek(0) {
                Some(v) => r matches Pull::Item(x) && x@ == v && final(self).advanced_from(
                    old(self),
                    1,
                ),
                None => r is Done && final(self).same_values(old(self)),
            },
    {
        if cancelled {
            return Pull::Cancelled;
        }
        match &mut self.source {
            Source::Items { items, next } => {
                if *next < items.len() {
                    let v = items[*next].clone();
                    *next = *next + 1;
                    Pull::Item(v)
                } else {
                    Pull::Done
                }
            },
            Source::Counter { next, step, span } => {
                let v = Value::Int { val: *next, span: *span };
                *next = next.wrapping_add(*step);
                assert forall|k: nat| #[trigger]
                    counter_at(old(self).source->Counter_next, *step, k + 1) == counter_at(
                        *next,
                        *step,
                        k,
                    ) by {};
                Pull::Item(v)
            },
            Source::Repeat { value } => Pull::Item(value.clone()),
        }
    }

    /// The number of values that a consumer who asks for `limit` gets.
    pub open spec fn available(&self, limit: nat) -> nat {
        match self.remaining() {
            Some(n) => if n < limit {
                n
            } else {
                limit
            },
            None => limit,
        }
    }

    /// Pulls values until the stream ends or `limit` values are there. A
    /// pull that sees cancellation signalled ends the work with that
    /// failure: what was pulled before it is gone from the stream and is
    /// not handed out.
    pub fn collect(&mut self, limit: usize) -> (r: Result<Vec<Value>, ShellError>)
        ensures
            final(self).same_origin(old(self)),
            match r {
                Ok(vals) => vals.len() == old(self).available(limit as nat) && (forall|k: int|
                    0 <= k < vals.len() ==> Some(#[trigger] vals[k]@) == old(self).peek(k as nat))
                    && final(self).advanced_from(old(self), vals.len() as nat),
                Err(e) => e@ == old(self).cancelled_error() && old(self).can_cancel()
                    && exists|n: nat|
                    n <= old(self).available(limit as nat) && #[trigger] final(self).advanced_from(
                        old(self),
                        n,
                    ),
            },
    {
        let mut out: Vec<Value> = Vec::new();
        while out.len() < limit
            invariant
                out.len() <= limit,
                self.same_origin(old(self)),
                self.advanced_from(old(self), out.len() as nat),
                forall|k: int|
                    0 <= k < out.len() ==> Some(#[trigger] out[k]@) == old(self).peek(k as nat),
            decreases limit - out.len(),
        {
            let ghost before = *self;
            proof {
                self.lemma_consistent();
            }
            match self.next() {
                Pull::Item(v) => {
                    out.push(v);
                    assert forall|k: nat| #[trigger] self.peek(k) == old(self).peek(
                        k + out.len() as nat,
                    ) by {
                        assert(self.peek(k) == before.peek(k + 1));
                    }
                },
                Pull::Done => {
                    return Ok(out);
                },
                Pull::Cancelled => {
                    assert(self.advanced_from(old(self), out.len() as nat));
                    return Err(ShellError::Cancelled { span: self.span });
                },
            }
        }
        Ok(out)
    }

    /// One pull on the stream: reads the cancellation signal and pulls.
    /// What the signal reads is not known beforehand; a stream that
    /// cancellation cannot reach is never cancelled.
    pub fn next(&mut self) -> (r: Pull)
        ensures
            final(self).same_origin(old(self)),
            r is Cancelled ==> old(self).can_cancel() && final(self).same_values(old(self)),
            !(r is Cancelled) ==> match old(self).peek(0) {
                Some(v) => r matches Pull::Item(x) && x@ == v && final(self).advanced_from(
                    old(self),
                    1,
                ),
                None => r is Done && final(self).same_values(old(self)),
            },
    {
        let cancelled = self.signals.cancelled();
        self.pull(cancelled)
    }
}

} // verus!
