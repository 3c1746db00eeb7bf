//! Grapheme clusters: the units in which a user perceives text and in which
//! the cursor of the line buffer is addressed.

use vstd::prelude::*;
use vstd::string::StringSliceAdditionalSpecFns;
use vstd::utf8::is_char_boundary;
use unicode_segmentation::UnicodeSegmentation;
use crate::seq_find::first_index;
use crate::seq_find::index_view;
use crate::seq_find::lemma_first_index_end;
use crate::seq_find::lemma_first_index_step;
use crate::seq_find::lemma_first_index_unique;

verus! {

/// The byte offsets at which the extended grapheme clusters of a text
/// begin, in order, as `unicode_segmentation` finds them.
pub uninterp spec fn grapheme_starts(text: Seq<char>) -> Seq<usize>;

/// What holds of the cluster offsets of any text of the given bytes: they
/// rise strictly, each lies inside the text on a character boundary, and a
/// text that is not empty has a first cluster at offset 0.
pub open spec fn well_segmented(bytes: Seq<u8>, starts: Seq<usize>) -> bool {
    &&& forall|i: int, j: int| 0 <= i < j < starts.len() ==> starts[i] < starts[j]
    &&& forall|i: int|
        0 <= i < starts.len() ==> (#[trigger] starts[i]) < bytes.len() && is_char_boundary(
            bytes,
            starts[i] as int,
        )
    &&& bytes.len() > 0 ==> starts.len() > 0 && starts[0] == 0
}

/// The offsets at which the grapheme clusters of `text` begin.
///
/// Trusted: the body calls `UnicodeSegmentation::grapheme_indices` with
/// extended clusters and keeps the offset of each item. The contract names
/// the result and claims of it what the iterator's source shows: every item
/// is a non-empty slice of the text that begins where the one before it
/// ended, the first at offset 0.
#[verifier::external_body]
pub(crate) fn grapheme_offsets(text: &str) -> (starts: Vec<usize>)
    ensures
        starts@ == grapheme_starts(text@),
        well_segmented(text.spec_bytes(), starts@),
{
    text.grapheme_indices(true).map(|(i, _)| i).collect()
}

/// The byte offset of visual position `n` in a text of `len` bytes whose
/// clusters begin at `starts`: positions at or below zero stand at the
/// start, positions past the last cluster at the end.
pub open spec fn offset_at(starts: Seq<usize>, len: usize, n: int) -> usize {
    if n <= 0 {
        0
    } else if n < starts.len() {
        starts[n]
    } else {
        len
    }
}

/// The condition that a byte offset is `offset`.
pub open spec fn holds_offset(offset: usize) -> spec_fn(usize) -> bool {
    |b: usize| b == offset
}

/// The visual position of byte offset `offset` in a text of `len` bytes
/// whose clusters begin at `starts`: the index of the cluster that begins
/// there, the number of clusters for the end of the text, and `None` for an
/// offset inside a cluster.
pub open spec fn position_at(starts: Seq<usize>, len: usize, offset: usize) -> Option<int> {
    first_index(starts.push(len), holds_offset(offset))
}

/// The byte offset of visual position `n`.
pub fn offset_of_position(starts: &Vec<usize>, len: usize, n: i64) -> (offset: usize)
    ensures
        offset == offset_at(starts@, len, n as int),
{
    if n <= 0 {
        0
    } else if (n as u64) < (starts.len() as u64) {
        starts[n as usize]
    } else {
        len
    }
}

/// The visual position of byte offset `offset`, if a cluster begins there
/// or the text ends there.
pub fn position_of_offset(starts: &Vec<usize>, len: usize, offset: usize) -> (position: Option<
    usize,
>)
    ensures
        index_view(position) == position_at(starts@, len, offset),
{
    let ghost bounds = starts@.push(len);
    let ghost found = holds_offset(offset);
    let mut i: usize = 0;
    while i < starts.len()
        invariant
            i <= starts.len(),
            bounds == starts@.push(len),
            found == holds_offset(offset),
            first_index(bounds.subrange(0, i as int), found) is None,
        decreases starts.len() - i,
    {
        proof {
            lemma_first_index_step(bounds, i as int, found);
        }
        if starts[i] == offset {
            return Some(i);
        }
        i = i + 1;
    }
    proof {
        lemma_first_index_step(bounds, i as int, found);
        if offset != len {
            lemma_first_index_end(bounds, found);
        }
    }
    if offset == len {
        Some(i)
    } else {
        None
    }
}

/// Cluster offsets that rise strictly lie at or above their index, so a
/// text has no more clusters than bytes.
pub proof fn lemma_starts_above_index(bytes: Seq<u8>, starts: Seq<usize>, i: int)
    requires
        well_segmented(bytes, starts),
        0 <= i < starts.len(),
    ensures
        i <= starts[i],
        starts.len() <= bytes.len(),
    decreases starts.len() - i,
{
    if i > 0 {
        lemma_starts_above_index_step(bytes, starts, i);
    }
    if i + 1 < starts.len() {
        lemma_starts_above_index(bytes, starts, i + 1);
    }
}

proof fn lemma_starts_above_index_step(bytes: Seq<u8>, starts: Seq<usize>, i: int)
    requires
        well_segmented(bytes, starts),
        0 <= i < starts.len(),
    ensures
        i <= starts[i],
    decreases i,
{
    if i > 0 {
        lemma_starts_above_index_step(bytes, starts, i - 1);
        assert(starts[i - 1] < starts[i]);
    }
}

/// The visual position that an integer asks for, clamped to the positions
/// that a text of `count` clusters has.
pub open spec fn clamp_position(n: int, count: nat) -> int {
    if n <= 0 {
        0
    } else if n < count {
        n
    } else {
        count as int
    }
}

/// Setting the cursor to visual position `n` and reading its position back
/// gives `n`, clamped to the positions of the text: 0 for every `n` at or
/// below zero, the number of clusters for every `n` at or above it.
pub proof fn lemma_position_of_offset_at(bytes: Seq<u8>, starts: Seq<usize>, len: usize, n: int)
    requires
        well_segmented(bytes, starts),
        len == bytes.len(),
    ensures
        position_at(starts, len, offset_at(starts, len, n)) == Some(
            clamp_position(n, starts.len()),
        ),
{
    let bounds = starts.push(len);
    let p = clamp_position(n, starts.len());
    let x = offset_at(starts, len, n);
    if starts.len() > 0 {
        lemma_starts_above_index(bytes, starts, 0);
    }
    assert(bounds[p] == x);
    assert forall|i: int, j: int| 0 <= i < j < bounds.len() implies bounds[i] < bounds[j] by {
        if j < starts.len() {
            assert(starts[i] < starts[j]);
        } else {
            assert(starts[i] < bytes.len());
        }
    }
    assert forall|j: int| 0 <= j < p implies bounds[j] != x by {
        assert(bounds[j] < bounds[p]);
    }
    lemma_first_index_unique(bounds, p, holds_offset(x));
}

/// The end of a text is its last visual position: the number of its clusters.
pub proof fn lemma_position_of_end(bytes: Seq<u8>, starts: Seq<usize>, len: usize)
    requires
        well_segmented(bytes, starts),
        len == bytes.len(),
    ensures
        position_at(starts, len, len) == Some(starts.len() as int),
{
    lemma_position_of_offset_at(bytes, starts, len, starts.len() as int);
}

} // verus!
