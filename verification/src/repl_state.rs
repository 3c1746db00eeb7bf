//! The line buffer that the line editor and commands share: the text being
//! edited and the cursor in it.

use vstd::prelude::*;
use vstd::utf8::decode_utf8;
use vstd::utf8::encode_utf8;
use vstd::utf8::is_char_boundary;
use vstd::utf8::valid_utf8;
use crate::error::invalid_integer;
use crate::error::ShellError;
use crate::graphemes::clamp_position;
use crate::graphemes::grapheme_offsets;
use crate::graphemes::grapheme_starts;
use crate::graphemes::lemma_position_of_end;
use crate::graphemes::lemma_position_of_offset_at;
use crate::graphemes::offset_at;
use crate::graphemes::offset_of_position;
use crate::graphemes::position_at;
use crate::graphemes::position_of_offset;
use crate::graphemes::well_segmented;
use crate::int_parse::parse_int;
use crate::int_parse::parse_int_spec;
use crate::seq_find::index_view;
use crate::span::Span;

verus! {

/// The text being edited and the byte offset of the cursor in it.
pub struct ReplState {
    buffer: String,
    cursor_pos: usize,
}

/// The mathematical content of a [`ReplState`].
pub struct ReplStateView {
    pub buffer: Seq<char>,
    /// The byte offset of the cursor in the UTF-8 encoding of the buffer.
    pub cursor_pos: usize,
}

impl ReplStateView {
    /// The UTF-8 encoding of the buffer.
    pub open spec fn bytes(self) -> Seq<u8> {
        encode_utf8(self.buffer)
    }

    /// The cursor stands inside the buffer or at its end, between two characters.
    pub open spec fn wf(self) -> bool {
        &&& self.cursor_pos <= self.bytes().len() <= usize::MAX
        &&& is_char_boundary(self.bytes(), self.cursor_pos as int)
    }

    /// The state after the whole buffer is replaced: the cursor stands at the end.
    pub open spec fn replace(self, text: Seq<char>) -> ReplStateView {
        ReplStateView { buffer: text, cursor_pos: encode_utf8(text).len() as usize }
    }

    /// The state after text is added at the end: the cursor stays.
    pub open spec fn append(self, text: Seq<char>) -> ReplStateView {
        ReplStateView { buffer: self.buffer + text, cursor_pos: self.cursor_pos }
    }

    /// The state after text is inserted at the cursor: the cursor moves past
    /// what was inserted.
    pub open spec fn insert(self, text: Seq<char>) -> ReplStateView {
        let at = self.cursor_pos as int;
        ReplStateView {
            buffer: decode_utf8(
                self.bytes().subrange(0, at) + encode_utf8(text) + self.bytes().subrange(
                    at,
                    self.bytes().len() as int,
                ),
            ),
            cursor_pos: (self.cursor_pos + encode_utf8(text).len()) as usize,
        }
    }

    /// The state after the cursor is set to visual position `n`, clamped to
    /// the positions of the buffer.
    pub open spec fn set_cursor(self, n: int) -> ReplStateView {
        ReplStateView {
            buffer: self.buffer,
            cursor_pos: offset_at(
                grapheme_starts(self.buffer),
                self.bytes().len() as usize,
                n,
            ),
        }
    }

    /// The visual position of the cursor: the number of grapheme clusters
    /// before it; `None` where it stands inside a cluster.
    pub open spec fn position(self) -> Option<int> {
        position_at(grapheme_starts(self.buffer), self.bytes().len() as usize, self.cursor_pos)
    }

    /// What is known of the cluster offsets of the buffer.
    pub open spec fn segmented(self) -> bool {
        well_segmented(self.bytes(), grapheme_starts(self.buffer))
    }
}

impl View for ReplState {
    type V = ReplStateView;

    closed spec fn view(&self) -> ReplStateView {
        ReplStateView { buffer: self.buffer@, cursor_pos: self.cursor_pos }
    }
}

/// The encoding of two texts joined is the two encodings joined.
pub proof fn lemma_encode_concat(a: Seq<char>, b: Seq<char>)
    ensures
        encode_utf8(a + b) == encode_utf8(a) + encode_utf8(b),
    decreases a.len(),
{
    if a.len() == 0 {
        assert(a + b =~= b);
        assert(encode_utf8(a) + encode_utf8(b) =~= encode_utf8(b));
    } else {
        lemma_encode_concat(a.drop_first(), b);
        assert((a + b).drop_first() =~= a.drop_first() + b);
        assert((a + b)[0] == a[0]);
        assert(encode_utf8(a + b) =~= encode_utf8(a) + encode_utf8(b));
    }
}

/// A boundary between two characters of a text is still one after more valid
/// text is added at the end.
pub proof fn lemma_boundary_kept_by_suffix(a: Seq<u8>, b: Seq<u8>, at: int)
    requires
        valid_utf8(a),
        valid_utf8(b),
        0 <= at <= a.len(),
        is_char_boundary(a, at),
    ensures
        valid_utf8(a + b),
        is_char_boundary(a + b, at),
{
    vstd::utf8::valid_utf8_concat(a, b);
    if at < a.len() {
        vstd::utf8::is_char_boundary_iff_not_is_continuation_byte(a, at);
        vstd::utf8::is_char_boundary_iff_not_is_continuation_byte(a + b, at);
    } else if b.len() == 0 {
        assert(a + b =~= a);
    } else {
        vstd::utf8::is_char_boundary_start_end_of_seq(b);
        vstd::utf8::is_char_boundary_iff_not_is_continuation_byte(b, 0);
        vstd::utf8::is_char_boundary_iff_not_is_continuation_byte(a + b, at);
    }
}

/// After valid text is inserted at a boundary between two characters, the
/// whole is valid and the end of what was inserted is such a boundary.
pub proof fn lemma_boundary_after_insert(a: Seq<u8>, t: Seq<u8>, at: int)
    requires
        valid_utf8(a),
        valid_utf8(t),
        0 <= at <= a.len(),
        is_char_boundary(a, at),
    ensures
        valid_utf8(a.subrange(0, at) + t + a.subrange(at, a.len() as int)),
        is_char_boundary(
            a.subrange(0, at) + t + a.subrange(at, a.len() as int),
            at + t.len(),
        ),
{
    let head = a.subrange(0, at);
    let tail = a.subrange(at, a.len() as int);
    let all = head + t + tail;
    vstd::utf8::valid_utf8_split(a, at);
    vstd::utf8::valid_utf8_concat(head, t);
    vstd::utf8::valid_utf8_concat(head + t, tail);
    if at == a.len() {
        vstd::utf8::is_char_boundary_start_end_of_seq(all);
    } else {
        vstd::utf8::is_char_boundary_iff_not_is_continuation_byte(a, at);
        vstd::utf8::is_char_boundary_iff_not_is_continuation_byte(all, at + t.len());
        assert(all[at + t.len()] == a[at]);
    }
}

/// After the whole buffer is replaced it holds exactly the new text, and
/// the cursor stands at the last visual position: the number of grapheme
/// clusters of the text.
pub proof fn lemma_replace_then_read(repl: ReplStateView, text: Seq<char>)
    requires
        encode_utf8(text).len() <= usize::MAX,
    ensures
        repl.replace(text).buffer == text,
        repl.replace(text).wf(),
        repl.replace(text).segmented() ==> repl.replace(text).position() == Some(
            grapheme_starts(text).len() as int,
        ),
{
    let after = repl.replace(text);
    vstd::utf8::encode_utf8_valid_utf8(text);
    vstd::utf8::is_char_boundary_start_end_of_seq(encode_utf8(text));
    if after.segmented() {
        lemma_position_of_end(
            after.bytes(),
            grapheme_starts(text),
            after.bytes().len() as usize,
        );
    }
}

/// After the cursor is set to visual position `n` it stands at that
/// position, clamped to the positions of the buffer: at the start for
/// every `n` at or below zero, and at the end of the buffer for every `n`
/// at or above the number of its grapheme clusters.
pub proof fn lemma_set_cursor_then_read(repl: ReplStateView, n: int)
    requires
        repl.wf(),
    ensures
        repl.set_cursor(n).buffer == repl.buffer,
        n <= 0 ==> repl.set_cursor(n).cursor_pos == 0,
        n > 0 && n >= grapheme_starts(repl.buffer).len() ==> repl.set_cursor(n).cursor_pos
            == repl.bytes().len(),
        repl.segmented() ==> repl.set_cursor(n).position() == Some(
            clamp_position(n, grapheme_starts(repl.buffer).len()),
        ),
{
    if repl.segmented() {
        lemma_position_of_offset_at(
            repl.bytes(),
            grapheme_starts(repl.buffer),
            repl.bytes().len() as usize,
            n,
        );
    }
}

/// Inserts `text` into `buffer` at byte offset `at`.
///
/// Trusted: the body calls `String::insert_str`, which panics unless `at`
/// lies on a character boundary of the buffer. The contract claims what its
/// documentation says: the bytes of the text stand at `at`, between the
/// bytes that were before it and those that were after it.
#[verifier::external_body]
fn insert_text(buffer: &mut String, at: usize, text: &str)
    requires
        at <= encode_utf8(old(buffer)@).len(),
        is_char_boundary(encode_utf8(old(buffer)@), at as int),
    ensures
        encode_utf8(final(buffer)@) == encode_utf8(old(buffer)@).subrange(0, at as int)
            + encode_utf8(text@) + encode_utf8(old(buffer)@).subrange(
            at as int,
            encode_utf8(old(buffer)@).len() as int,
        ),
{
    buffer.insert_str(at, text)
}

impl ReplState {
    /// An empty buffer with the cursor at its start.
    pub fn new() -> (r: ReplState)
        ensures
            r@ == (ReplStateView { buffer: Seq::empty(), cursor_pos: 0 }),
            r@.wf(),
    {
        let r = ReplState { buffer: String::new(), cursor_pos: 0 };
        proof {
            vstd::utf8::encode_utf8_valid_utf8(r@.buffer);
            vstd::utf8::is_char_boundary_start_end_of_seq(r@.bytes());
        }
        r
    }

    /// The whole buffer.
    pub fn buffer(&self) -> (text: String)
        ensures
            text@ == self@.buffer,
    {
        self.buffer.clone()
    }

    /// The byte offset of the cursor.
    pub fn cursor_offset(&self) -> (offset: usize)
        ensures
            offset == self@.cursor_pos,
    {
        self.cursor_pos
    }

    /// The visual position of the cursor, in grapheme clusters from the
    /// start of the buffer; `None` where the cursor stands inside a cluster.
    pub fn cursor_position(&self) -> (position: Option<usize>)
        requires
            self@.wf(),
        ensures
            index_view(position) == self@.position(),
            self@.segmented(),
    {
        let text = self.buffer.as_str();
        let starts = grapheme_offsets(text);
        let len = text.as_bytes().len();
        position_of_offset(&starts, len, self.cursor_pos)
    }

    /// Replaces the whole buffer; the cursor moves to the end.
    pub fn replace(&mut self, text: String)
        ensures
            final(self)@ == old(self)@.replace(text@),
            final(self)@.wf(),
    {
        let len = text.as_str().as_bytes().len();
        proof {
            vstd::utf8::encode_utf8_valid_utf8(text@);
            vstd::utf8::is_char_boundary_start_end_of_seq(encode_utf8(text@));
        }
        self.buffer = text;
        self.cursor_pos = len;
    }

    /// Adds text at the end of the buffer; the cursor stays.
    pub fn append(&mut self, text: &str)
        requires
            old(self)@.wf(),
        ensures
            final(self)@ == old(self)@.append(text@),
            final(self)@.wf(),
    {
        self.buffer.append(text);
        // Measuring the new text shows that its length fits a machine word.
        let _ = self.buffer.as_str().as_bytes().len();
        proof {
            lemma_encode_concat(old(self)@.buffer, text@);
            vstd::utf8::encode_utf8_valid_utf8(old(self)@.buffer);
            vstd::utf8::encode_utf8_valid_utf8(text@);
            lemma_boundary_kept_by_suffix(
                old(self)@.bytes(),
                encode_utf8(text@),
                self.cursor_pos as int,
            );
        }
    }

    /// Inserts text at the cursor; the cursor moves past what was inserted.
    pub fn insert(&mut self, text: &str)
        requires
            old(self)@.wf(),
        ensures
            final(self)@ == old(self)@.insert(text@),
            final(self)@.wf(),
    {
        let at = self.cursor_pos;
        let added = text.as_bytes().len();
        insert_text(&mut self.buffer, at, text);
        // Measuring the new text shows that its length fits a machine word,
        // and so does the new offset of the cursor.
        let _ = self.buffer.as_str().as_bytes().len();
        proof {
            vstd::utf8::encode_utf8_valid_utf8(old(self)@.buffer);
            vstd::utf8::encode_utf8_valid_utf8(text@);
            vstd::utf8::encode_utf8_decode_utf8(self.buffer@);
            lemma_boundary_after_insert(old(self)@.bytes(), encode_utf8(text@), at as int);
        }
        self.cursor_pos = at + added;
    }

    /// Sets the cursor to visual position `n`: to the start for `n` at or
    /// below zero, to the end for `n` at or past the number of clusters.
    pub fn set_cursor(&mut self, n: i64)
        requires
            old(self)@.wf(),
        ensures
            final(self)@ == old(self)@.set_cursor(n as int),
            final(self)@.wf(),
            final(self)@.segmented(),
    {
        let text = self.buffer.as_str();
        let starts = grapheme_offsets(text);
        let len = text.as_bytes().len();
        let offset = offset_of_position(&starts, len, n);
        proof {
            vstd::utf8::encode_utf8_valid_utf8(self@.buffer);
            vstd::utf8::is_char_boundary_start_end_of_seq(self@.bytes());
        }
        self.cursor_pos = offset;
    }

    /// Sets the cursor to the visual position that `text` names in decimal;
    /// a text that is no integer leaves the buffer as it was.
    pub fn set_cursor_from_str(&mut self, text: &str, span: Span) -> (r: Result<(), ShellError>)
        requires
            old(self)@.wf(),
        ensures
            final(self)@.wf(),
            match parse_int_spec(encode_utf8(text@)) {
                Some(n) => r is Ok && final(self)@ == old(self)@.set_cursor(n as int)
                    && final(self)@.segmented(),
                None => r matches Err(e) && e@ == invalid_integer(text@, span) && final(self)@
                    == old(self)@,
            },
    {
        match parse_int(text) {
            Some(n) => {
                self.set_cursor(n);
                Ok(())
            },
            None => Err(ShellError::invalid_integer(text, span)),
        }
    }
}

} // verus!
