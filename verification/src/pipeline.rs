//! What flows from one command of a pipeline to the next.

use vstd::prelude::*;
use vstd::string::StrSliceExecFns;
use vstd::utf8::encode_utf8;
use crate::error::clone_opt_string;
use crate::error::opt_string_view;
use crate::error::ShellError;
use crate::error::ShellErrorView;
use crate::list_stream::ListStream;
use crate::signals::Signals;
use crate::span::Span;
use crate::value::Type;
use crate::value::Value;
use crate::value::values_view;
use crate::value::ValueView;

verus! {

/// The bytes of a sequence of chunks, one after the other.
pub open spec fn concat_chunks(chunks: Seq<Seq<u8>>) -> Seq<u8>
    decreases chunks.len(),
{
    if chunks.len() == 0 {
        Seq::empty()
    } else {
        concat_chunks(chunks.drop_last()) + chunks.last()
    }
}

/// The contents of a vector of chunks.
pub open spec fn chunks_view(chunks: Vec<Vec<u8>>) -> Seq<Seq<u8>> {
    Seq::new(chunks.len() as nat, |i: int| chunks[i]@)
}

/// The values that stand for bytes: one integer for each byte, in order.
pub open spec fn bytes_as_values(bytes: Seq<u8>, span: Span) -> Seq<ValueView> {
    Seq::new(bytes.len(), |i: int| ValueView::Int { val: bytes[i] as i64, span })
}

/// A stream of raw bytes that arrive in chunks.
pub struct ByteStream {
    chunks: Vec<Vec<u8>>,
    known_len: Option<u64>,
    content_type: Option<String>,
    signals: Signals,
    span: Span,
}

impl ByteStream {
    /// The bytes of the stream.
    pub closed spec fn bytes(&self) -> Seq<u8> {
        concat_chunks(chunks_view(self.chunks))
    }

    /// The length that the producer declared, if it declared one.
    pub closed spec fn spec_known_len(&self) -> Option<u64> {
        self.known_len
    }

    /// The content type that the producer declared, if it declared one.
    pub closed spec fn spec_content_type(&self) -> Option<Seq<char>> {
        opt_string_view(self.content_type)
    }

    /// Whether cancellation can reach the stream.
    pub closed spec fn can_cancel(&self) -> bool {
        self.signals.can_cancel()
    }

    /// The span of the source text that made the stream.
    pub closed spec fn spec_span(&self) -> Span {
        self.span
    }

    /// A stream over the given chunks, with what the producer declares of it.
    pub fn new(
        chunks: Vec<Vec<u8>>,
        known_len: Option<u64>,
        content_type: Option<String>,
        signals: Signals,
        span: Span,
    ) -> (stream: ByteStream)
        ensures
            stream.bytes() == concat_chunks(chunks_view(chunks)),
            stream.spec_known_len() == known_len,
            stream.spec_content_type() == opt_string_view(content_type),
            stream.can_cancel() == signals.can_cancel(),
            stream.spec_span() == span,
    {
        ByteStream { chunks, known_len, content_type, signals, span }
    }

    /// The length that the producer declared, if it declared one.
    pub fn known_len(&self) -> (len: Option<u64>)
        ensures
            len == self.spec_known_len(),
    {
        self.known_len
    }

    /// The content type that the producer declared, if it declared one.
    pub fn content_type(&self) -> (content_type: Option<String>)
        ensures
            opt_string_view(content_type) == self.spec_content_type(),
    {
        clone_opt_string(&self.content_type)
    }

    /// The span of the source text that made the stream.
    pub fn span(&self) -> (span: Span)
        ensures
            span == self.spec_span(),
    {
        self.span
    }

    /// Reads the stream to its end. With `poll` the cancellation signal is
    /// read before each chunk, and the work ends once it reads as set.
    fn read(&self, poll: bool) -> (r: Result<Vec<u8>, ShellError>)
        ensures
            match r {
                Ok(bytes) => bytes@ == self.bytes(),
                Err(e) => poll && self.can_cancel() && e@ == (ShellErrorView::Cancelled {
                    span: self.spec_span(),
                }),
            },
    {
        let ghost chunks = chunks_view(self.chunks);
        let mut out: Vec<u8> = Vec::new();
        let mut i: usize = 0;
        while i < self.chunks.len()
            invariant
                i <= self.chunks.len(),
                chunks == chunks_view(self.chunks),
                out@ == concat_chunks(chunks.subrange(0, i as int)),
            decreases self.chunks.len() - i,
        {
            if poll && self.signals.cancelled() {
                return Err(ShellError::Cancelled { span: self.span });
            }
            let chunk = &self.chunks[i];
            let ghost before = out@;
            let mut j: usize = 0;
            while j < chunk.len()
                invariant
                    j <= chunk.len(),
                    out@ == before + chunk@.subrange(0, j as int),
                decreases chunk.len() - j,
            {
                out.push(chunk[j]);
                j = j + 1;
            }
            proof {
                assert(chunk@.subrange(0, chunk.len() as int) =~= chunk@);
                assert(chunks.subrange(0, i + 1).drop_last() =~= chunks.subrange(0, i as int));
                assert(chunks.subrange(0, i + 1).last() == chunk@);
            }
            i = i + 1;
        }
        proof {
            assert(chunks.subrange(0, i as int) =~= chunks);
        }
        Ok(out)
    }

    /// Reads the stream to its end. The cancellation signal is read before
    /// each chunk; once it reads as set, the work ends with that failure.
    pub fn into_bytes(self) -> (r: Result<Vec<u8>, ShellError>)
        ensures
            match r {
                Ok(bytes) => bytes@ == self.bytes(),
                Err(e) => self.can_cancel() && e@ == (ShellErrorView::Cancelled {
                    span: self.spec_span(),
                }),
            },
    {
        self.read(true)
    }
}

/// What one command of a pipeline hands to the next.
pub enum PipelineData {
    /// Nothing.
    Empty,
    /// One value.
    Value(Value),
    /// A lazy sequence of values.
    ListStream(ListStream),
    /// A stream of raw bytes.
    ByteStream(ByteStream),
}

/// The failure that says that a sequence of values is no sequence of bytes.
pub open spec fn list_not_binary(span: Span) -> ShellErrorView {
    ShellErrorView::CantConvert {
        to_type: Type::Binary.spec_name(),
        from_type: Type::List.spec_name(),
        span,
        help: None,
    }
}

/// The integers that stand for bytes.
fn values_of_bytes(bytes: &Vec<u8>, span: Span) -> (vals: Vec<Value>)
    ensures
        values_view(vals) == bytes_as_values(bytes@, span),
{
    let mut vals: Vec<Value> = Vec::new();
    let mut i: usize = 0;
    while i < bytes.len()
        invariant
            i <= bytes.len(),
            vals.len() == i,
            forall|j: int|
                0 <= j < i ==> (#[trigger] vals[j])@ == (ValueView::Int {
                    val: bytes[j] as i64,
                    span,
                }),
        decreases bytes.len() - i,
    {
        vals.push(Value::Int { val: bytes[i] as i64, span });
        i = i + 1;
    }
    assert(values_view(vals) =~= bytes_as_values(bytes@, span));
    vals
}

impl PipelineData {
    /// Whether the data can be materialized: a sequence of values without
    /// end cannot.
    pub open spec fn bounded(&self) -> bool {
        self matches PipelineData::ListStream(stream) ==> stream.remaining() is Some
    }

    /// Whether the data can be materialized.
    pub fn is_bounded(&self) -> (bounded: bool)
        ensures
            bounded == self.bounded(),
    {
        match self {
            PipelineData::ListStream(stream) => stream.is_bounded(),
            _ => true,
        }
    }

    /// The data as one value. Nothing becomes the nothing value at `span`, a
    /// sequence of values the list of them, and a stream of bytes the list
    /// of the integers that stand for its bytes. A stream is read to its
    /// end, so the caller has to know that it ends; where cancellation is
    /// signalled meanwhile, that is the failure.
    pub fn into_value(self, span: Span) -> (r: Result<Value, ShellError>)
        requires
            self.bounded(),
        ensures
            match self {
                PipelineData::Empty => r matches Ok(v) && v@ == (ValueView::Nothing { span }),
                PipelineData::Value(value) => r matches Ok(v) && v@ == value@,
                PipelineData::ListStream(stream) => match r {
                    Ok(v) => v@ matches ValueView::List { vals, span: at } && at
                        == stream.spec_span() && stream.remaining() == Some(vals.len())
                        && forall|k: int|
                        0 <= k < vals.len() ==> Some(#[trigger] vals[k]) == stream.peek(k as nat),
                    Err(e) => stream.can_cancel() && e@ == stream.cancelled_error(),
                },
                PipelineData::ByteStream(stream) => match r {
                    Ok(v) => v@ == (ValueView::List {
                        vals: bytes_as_values(stream.bytes(), stream.spec_span()),
                        span: stream.spec_span(),
                    }),
                    Err(e) => stream.can_cancel() && e@ == (ShellErrorView::Cancelled {
                        span: stream.spec_span(),
                    }),
                },
            },
    {
        match self {
            PipelineData::Empty => Ok(Value::Nothing { span }),
            PipelineData::Value(value) => Ok(value),
            PipelineData::ListStream(stream) => {
                let mut stream = stream;
                let at = stream.span();
                proof {
                    stream.lemma_consistent();
                }
                match stream.collect(usize::MAX) {
                    Ok(vals) => {
                        let v = Value::List { vals, span: at };
                        assert(v@->List_vals =~= values_view(vals));
                        assert forall|k: int| 0 <= k < vals.len() implies Some(
                            #[trigger] values_view(vals)[k],
                        ) == self->ListStream_0.peek(k as nat) by {
                            assert(values_view(vals)[k] == vals[k]@);
                        }
                        Ok(v)
                    },
                    Err(e) => Err(e),
                }
            },
            PipelineData::ByteStream(stream) => {
                let at = stream.span();
                match stream.into_bytes() {
                    Ok(bytes) => Ok(Value::List { vals: values_of_bytes(&bytes, at), span: at }),
                    Err(e) => Err(e),
                }
            },
        }
    }

    /// The data as a lazy sequence of values. Nothing is the empty
    /// sequence, a list the sequence of its elements, any other value the
    /// sequence of that one value, and a stream of bytes the sequence of the
    /// integers that stand for its bytes.
    pub fn into_iter(self) -> (stream: ListStream)
        ensures
            match self {
                PipelineData::Empty => stream.remaining() == Some(0nat),
                PipelineData::Value(value) => match value@ {
                    ValueView::List { vals, span } => stream.remaining() == Some(vals.len())
                        && stream.spec_span() == span && forall|k: nat|
                        #[trigger] stream.peek(k) == (if k < vals.len() {
                            Some(vals[k as int])
                        } else {
                            None
                        }),
                    other => stream.remaining() == Some(1nat) && stream.spec_span()
                        == other.span() && stream.peek(0) == Some(other),
                },
                PipelineData::ListStream(inner) => stream.same_values(&inner)
                    && stream.same_origin(&inner),
                PipelineData::ByteStream(inner) => stream.remaining() == Some(
                    inner.bytes().len(),
                ) && stream.spec_span() == inner.spec_span() && stream.can_cancel()
                    == inner.can_cancel() && forall|k: nat|
                    #[trigger] stream.peek(k) == (if k < inner.bytes().len() {
                        Some(bytes_as_values(inner.bytes(), inner.spec_span())[k as int])
                    } else {
                        None
                    }),
            },
            stream.consistent(),
    {
        let stream = match self {
            PipelineData::Empty => ListStream::from_vec(
                Vec::new(),
                Signals::empty(),
                Span::unknown(),
            ),
            PipelineData::Value(value) => match value {
                Value::List { vals, span } => ListStream::from_vec(vals, Signals::empty(), span),
                other => {
                    let at = other.span();
                    let mut items: Vec<Value> = Vec::new();
                    items.push(other);
                    ListStream::from_vec(items, Signals::empty(), at)
                },
            },
            PipelineData::ListStream(inner) => inner,
            PipelineData::ByteStream(inner) => {
                let at = inner.span();
                let signals = inner.signals.share();
                match inner.read(false) {
                    Ok(bytes) => ListStream::from_vec(values_of_bytes(&bytes, at), signals, at),
                    Err(_) => ListStream::from_vec(Vec::new(), signals, at),
                }
            },
        };
        proof {
            stream.lemma_consistent();
        }
        stream
    }

    /// The data as bytes. Nothing has no bytes, a string has the bytes of
    /// its text, and a stream of bytes is read to its end; no other value
    /// and no sequence of values converts.
    pub fn into_bytes(self) -> (r: Result<Vec<u8>, ShellError>)
        ensures
            match self {
                PipelineData::Empty => r matches Ok(bytes) && bytes@ == Seq::<u8>::empty(),
                PipelineData::Value(value) => match value@ {
                    ValueView::String { val, .. } => r matches Ok(bytes) && bytes@ == encode_utf8(
                        val,
                    ),
                    other => r matches Err(e) && e@ == other.cant_convert(Type::Binary),
                },
                PipelineData::ListStream(stream) => r matches Err(e) && e@ == list_not_binary(
                    stream.spec_span(),
                ),
                PipelineData::ByteStream(stream) => match r {
                    Ok(bytes) => bytes@ == stream.bytes(),
                    Err(e) => stream.can_cancel() && e@ == (ShellErrorView::Cancelled {
                        span: stream.spec_span(),
                    }),
                },
            },
    {
        match self {
            PipelineData::Empty => Ok(Vec::new()),
            PipelineData::Value(value) => match &value {
                Value::String { val, .. } => Ok(val.as_str().as_bytes_vec()),
                _ => Err(value.cant_convert(Type::Binary)),
            },
            PipelineData::ListStream(stream) => Err(
                ShellError::CantConvert {
                    to_type: Type::Binary.name(),
                    from_type: Type::List.name(),
                    span: stream.span(),
                    help: None,
                },
            ),
            PipelineData::ByteStream(stream) => stream.into_bytes(),
        }
    }
}

} // verus!
