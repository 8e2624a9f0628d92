//! Segmentation of a rendered text into bounded chunks.
//!
//! A text is cut only at offsets that immediately follow an occurrence of the
//! separator. The occurrences are those found from left to right, each search
//! beginning where the last occurrence ended, so that no two of them overlap.
//! Each chunk ends at the last such offset that keeps it within the size
//! limit. Where the text that remains has no such offset within the limit, it
//! is emitted whole and ends the sequence. Sizes and offsets count
//! characters.

use crate::text::to_chars;
use vstd::prelude::*;

verus! {

/// Whether `sep` stands in `text` from offset `at` on.
pub open spec fn occurs_at(text: Seq<char>, sep: Seq<char>, at: int) -> bool {
    &&& 0 <= at
    &&& at + sep.len() <= text.len()
    &&& text.subrange(at, at + sep.len()) == sep
}

/// How far the search moves on from the offset at which it found `sep`: by
/// the length of `sep`, and by one character where `sep` is empty.
pub open spec fn stride(sep: Seq<char>) -> int {
    if sep.len() == 0 {
        1
    } else {
        sep.len() as int
    }
}

/// Whether an occurrence of `sep` that the search finds in `text` ends at
/// `at`, where the search begins at `from`, goes from left to right, and
/// goes on behind each occurrence that it finds.
pub open spec fn is_match_end(text: Seq<char>, sep: Seq<char>, from: int, at: int) -> bool
    decreases text.len() + 1 - from,
{
    if from < 0 || from > text.len() {
        false
    } else if occurs_at(text, sep, from) {
        at == from + sep.len() || is_match_end(text, sep, from + stride(sep), at)
    } else {
        is_match_end(text, sep, from + 1, at)
    }
}

/// Whether `at` is an offset of `text` that immediately follows an occurrence
/// of `sep`, of those found from the start of `text` without overlap.
pub open spec fn is_cut(text: Seq<char>, sep: Seq<char>, at: int) -> bool {
    is_match_end(text, sep, 0, at)
}

/// The offsets at which the occurrences of `sep` end that the search finds
/// in `text` from `from` on, in the order in which it finds them.
pub open spec fn match_ends(text: Seq<char>, sep: Seq<char>, from: int) -> Seq<int>
    decreases text.len() + 1 - from,
{
    if from < 0 || from > text.len() {
        Seq::empty()
    } else if occurs_at(text, sep, from) {
        seq![from + sep.len()] + match_ends(text, sep, from + stride(sep))
    } else {
        match_ends(text, sep, from + 1)
    }
}

/// The cut offsets of `text`, in ascending order: one for each occurrence of
/// `sep` that is found from the start of `text` without overlap.
pub open spec fn cut_sequence(text: Seq<char>, sep: Seq<char>) -> Seq<int> {
    match_ends(text, sep, 0)
}

/// The offsets that `match_ends` lists are those of which `is_match_end` holds.
pub proof fn lemma_match_ends(text: Seq<char>, sep: Seq<char>, from: int, at: int)
    ensures
        is_match_end(text, sep, from, at) <==> match_ends(text, sep, from).contains(at),
    decreases text.len() + 1 - from,
{
    if 0 <= from <= text.len() {
        let all = match_ends(text, sep, from);
        if occurs_at(text, sep, from) {
            let rest = match_ends(text, sep, from + stride(sep));
            lemma_match_ends(text, sep, from + stride(sep), at);
            assert(all[0] == from + sep.len());
            if rest.contains(at) {
                let i = choose|i: int| 0 <= i < rest.len() && rest[i] == at;
                assert(all[i + 1] == at);
            }
            if all.contains(at) {
                let i = choose|i: int| 0 <= i < all.len() && all[i] == at;
                if i > 0 {
                    assert(rest[i - 1] == at);
                }
            }
        } else {
            lemma_match_ends(text, sep, from + 1, at);
        }
    }
}

/// The offsets that `match_ends` lists lie behind the offset at which the
/// search began, and each lies behind the one before it by at least the
/// stride of the search.
proof fn lemma_ascending(text: Seq<char>, sep: Seq<char>, from: int, i: int, j: int)
    requires
        0 <= from,
        0 <= i < j < match_ends(text, sep, from).len(),
    ensures
        from + sep.len() <= match_ends(text, sep, from)[i],
        match_ends(text, sep, from)[i] + stride(sep) <= match_ends(text, sep, from)[j],
    decreases text.len() + 1 - from,
{
    let all = match_ends(text, sep, from);
    if occurs_at(text, sep, from) {
        let next = from + stride(sep);
        let rest = match_ends(text, sep, next);
        assert(all[j] == rest[j - 1]);
        if i == 0 {
            if j == 1 {
                if rest.len() > 1 {
                    lemma_ascending(text, sep, next, 0, 1);
                } else {
                    lemma_first_end(text, sep, next);
                }
            } else {
                lemma_ascending(text, sep, next, 0, j - 1);
            }
        } else {
            assert(all[i] == rest[i - 1]);
            lemma_ascending(text, sep, next, i - 1, j - 1);
        }
    } else {
        lemma_ascending(text, sep, from + 1, i, j);
    }
}

/// The first offset that `match_ends` lists lies behind the offset at which
/// the search began, by the length of `sep` at least.
proof fn lemma_first_end(text: Seq<char>, sep: Seq<char>, from: int)
    requires
        0 <= from,
        match_ends(text, sep, from).len() > 0,
    ensures
        from + sep.len() <= match_ends(text, sep, from)[0],
    decreases text.len() + 1 - from,
{
    if !occurs_at(text, sep, from) {
        lemma_first_end(text, sep, from + 1);
    }
}

/// The cut offsets are the offsets that the cut sequence holds.
pub proof fn lemma_cut_sequence(text: Seq<char>, sep: Seq<char>, at: int)
    ensures
        is_cut(text, sep, at) <==> cut_sequence(text, sep).contains(at),
{
    lemma_match_ends(text, sep, 0, at);
}

/// Where the search finds an occurrence that ends at `at`, `sep` stands
/// immediately before `at`, at or behind the offset at which the search
/// began.
pub proof fn lemma_match_end(text: Seq<char>, sep: Seq<char>, from: int, at: int)
    requires
        is_match_end(text, sep, from, at),
    ensures
        0 <= from,
        from + sep.len() <= at <= text.len(),
        occurs_at(text, sep, at - sep.len()),
    decreases text.len() + 1 - from,
{
    if occurs_at(text, sep, from) {
        if at != from + sep.len() {
            lemma_match_end(text, sep, from + stride(sep), at);
        }
    } else {
        lemma_match_end(text, sep, from + 1, at);
    }
}

/// The separator stands immediately before every cut offset.
pub proof fn lemma_cut_follows_occurrence(text: Seq<char>, sep: Seq<char>, at: int)
    requires
        is_cut(text, sep, at),
    ensures
        sep.len() <= at <= text.len(),
        text.subrange(at - sep.len(), at) == sep,
{
    lemma_match_end(text, sep, 0, at);
}

/// What the search finds behind an occurrence that it found, it finds from
/// where it began.
proof fn lemma_resume(text: Seq<char>, sep: Seq<char>, from: int, cut: int, at: int)
    requires
        is_match_end(text, sep, from, cut),
        is_match_end(text, sep, cut - sep.len() + stride(sep), at),
    ensures
        is_match_end(text, sep, from, at),
    decreases text.len() + 1 - from,
{
    if occurs_at(text, sep, from) {
        if cut != from + sep.len() {
            lemma_resume(text, sep, from + stride(sep), cut, at);
        }
    } else {
        lemma_resume(text, sep, from + 1, cut, at);
    }
}

/// No two occurrences that the search finds overlap: the later one begins at
/// or behind the offset at which the search went on after the earlier one.
proof fn lemma_apart(text: Seq<char>, sep: Seq<char>, from: int, first: int, second: int)
    requires
        is_match_end(text, sep, from, first),
        is_match_end(text, sep, from, second),
        first < second,
    ensures
        first + stride(sep) <= second,
    decreases text.len() + 1 - from,
{
    if occurs_at(text, sep, from) {
        if first == from + sep.len() {
            lemma_match_end(text, sep, from + stride(sep), second);
        } else {
            lemma_match_end(text, sep, from + stride(sep), first);
            lemma_apart(text, sep, from + stride(sep), first, second);
        }
    } else {
        lemma_apart(text, sep, from + 1, first, second);
    }
}

/// The search in a tail of `text` finds what the search in `text` finds from
/// the offset at which the tail begins.
proof fn lemma_shift(text: Seq<char>, sep: Seq<char>, start: int, from: int, at: int)
    requires
        0 <= start <= text.len(),
        0 <= from,
    ensures
        is_match_end(text.subrange(start, text.len() as int), sep, from, at) == is_match_end(
            text,
            sep,
            start + from,
            start + at,
        ),
    decreases text.len() + 1 - start - from,
{
    let tail = text.subrange(start, text.len() as int);
    if from <= tail.len() {
        assert(occurs_at(tail, sep, from) == occurs_at(text, sep, start + from)) by {
            if from + sep.len() <= tail.len() {
                assert(tail.subrange(from, from + sep.len()) =~= text.subrange(
                    start + from,
                    start + from + sep.len(),
                ));
            }
        }
        if occurs_at(tail, sep, from) {
            lemma_shift(text, sep, start, from + stride(sep), at);
        } else {
            lemma_shift(text, sep, start, from + 1, at);
        }
    }
}

/// For a separator of one character, the cut offsets are the offsets behind
/// each character that is the separator.
pub proof fn lemma_single_character(text: Seq<char>, sep: Seq<char>, from: int, at: int)
    requires
        sep.len() == 1,
        0 <= from,
    ensures
        is_match_end(text, sep, from, at) <==> (from < at <= text.len() && text[at - 1] == sep[0]),
    decreases text.len() + 1 - from,
{
    if from <= text.len() {
        assert(occurs_at(text, sep, from) <==> (from < text.len() && text[from] == sep[0])) by {
            if from < text.len() {
                let piece = text.subrange(from, from + 1);
                assert(piece[0] == text[from]);
                if text[from] == sep[0] {
                    assert(piece =~= sep);
                }
            }
        }
        lemma_single_character(text, sep, from + 1, at);
    }
}

/// Whether a chunk of `text` can begin at `start`: at the start of `text`, or
/// at a cut offset.
pub open spec fn is_chunk_start(text: Seq<char>, sep: Seq<char>, start: int) -> bool {
    start == 0 || is_cut(text, sep, start)
}

/// The greatest cut offset of `text` that is above `low` and at most `high`,
/// if there is one.
pub open spec fn last_cut(text: Seq<char>, sep: Seq<char>, low: int, high: int) -> Option<int>
    decreases high - low,
{
    if high <= low {
        None
    } else if is_cut(text, sep, high) {
        Some(high)
    } else {
        last_cut(text, sep, low, high - 1)
    }
}

/// What `last_cut` finds is a cut offset within its bounds with no cut offset
/// between it and the upper bound; where it finds nothing, there is no cut
/// offset within the bounds.
pub proof fn lemma_last_cut(text: Seq<char>, sep: Seq<char>, low: int, high: int)
    ensures
        match last_cut(text, sep, low, high) {
            Some(cut) => {
                &&& low < cut <= high
                &&& is_cut(text, sep, cut)
                &&& forall|at: int| cut < at <= high ==> !is_cut(text, sep, at)
            },
            None => forall|at: int| low < at <= high ==> !is_cut(text, sep, at),
        },
    decreases high - low,
{
    if high > low && !is_cut(text, sep, high) {
        lemma_last_cut(text, sep, low, high - 1);
    }
}

/// A cut offset within the bounds with none above it up to the upper bound is
/// the one that `last_cut` finds.
pub proof fn lemma_last_cut_unique(text: Seq<char>, sep: Seq<char>, low: int, high: int, cut: int)
    requires
        low < cut <= high,
        is_cut(text, sep, cut),
        forall|at: int| cut < at <= high ==> !is_cut(text, sep, at),
    ensures
        last_cut(text, sep, low, high) == Some(cut),
{
    lemma_last_cut(text, sep, low, high);
}

/// The chunks of the part of `text` that begins at `start`.
pub open spec fn split_from(text: Seq<char>, sep: Seq<char>, max: int, start: int) -> Seq<
    Seq<char>,
>
    decreases text.len() - start,
    via split_from_decreases
{
    if start < 0 || start >= text.len() {
        Seq::empty()
    } else if text.len() - start <= max {
        seq![text.subrange(start, text.len() as int)]
    } else {
        match last_cut(text, sep, start, start + max) {
            Some(cut) => seq![text.subrange(start, cut)] + split_from(text, sep, max, cut),
            None => seq![text.subrange(start, text.len() as int)],
        }
    }
}

#[via_fn]
proof fn split_from_decreases(text: Seq<char>, sep: Seq<char>, max: int, start: int) {
    lemma_last_cut(text, sep, start, start + max);
}

/// The chunks of `text`: in order, each one as long as the size limit allows
/// and ending immediately after a separator, but for the last one, which takes
/// what remains.
pub open spec fn split_spec(text: Seq<char>, sep: Seq<char>, max: int) -> Seq<Seq<char>> {
    split_from(text, sep, max, 0)
}

/// `indices` as offsets.
pub open spec fn offsets(indices: Seq<usize>) -> Seq<int> {
    Seq::new(indices.len(), |i: int| indices[i] as int)
}

/// Whether `indices` lists the cut offsets of `text`, each once and in
/// ascending order: it is the cut sequence of `text`. Each of them
/// immediately follows an occurrence of `sep`, and no two of these
/// occurrences overlap.
pub open spec fn lists_cuts(indices: Seq<usize>, text: Seq<char>, sep: Seq<char>) -> bool {
    &&& offsets(indices) == cut_sequence(text, sep)
    &&& forall|i: int|
        0 <= i < indices.len() ==> occurs_at(text, sep, #[trigger] indices[i] - sep.len())
    &&& forall|i: int, j: int|
        0 <= i < j < indices.len() ==> #[trigger] indices[i] + stride(sep) <= #[trigger] indices[j]
    &&& strictly_ascending(indices)
    &&& forall|i: int| 0 <= i < indices.len() ==> is_cut(text, sep, #[trigger] indices[i] as int)
    &&& forall|at: int| #[trigger] is_cut(text, sep, at) ==> listed(indices, at)
}

/// Whether each element of `indices` is below the next.
pub open spec fn strictly_ascending(indices: Seq<usize>) -> bool {
    forall|i: int, j: int| 0 <= i < j < indices.len() ==> indices[i] < indices[j]
}

/// One piece of a segmented text, with its place in the sequence.
#[derive(Clone, Debug, PartialEq, Eq)]
pub struct MessageChunk {
    pub sequence_index: usize,
    pub text: String,
}

/// A chunk as a mathematical value.
pub struct MessageChunkView {
    pub sequence_index: nat,
    pub text: Seq<char>,
}

impl View for MessageChunk {
    type V = MessageChunkView;

    open spec fn view(&self) -> MessageChunkView {
        MessageChunkView { sequence_index: self.sequence_index as nat, text: self.text@ }
    }
}

/// `chunks` as mathematical values, in order.
pub open spec fn chunk_views(chunks: Seq<MessageChunk>) -> Seq<MessageChunkView> {
    Seq::new(chunks.len(), |i: int| chunks[i]@)
}

/// The chunks with the texts `texts`, numbered from zero in their order.
pub open spec fn numbered(texts: Seq<Seq<char>>) -> Seq<MessageChunkView> {
    Seq::new(texts.len(), |i: int| MessageChunkView { sequence_index: i as nat, text: texts[i] })
}

/// The texts of `chunks`, in order.
pub open spec fn chunk_texts(chunks: Seq<MessageChunk>) -> Seq<Seq<char>> {
    Seq::new(chunks.len(), |i: int| chunks[i].text@)
}

/// Whether `cut` is one of `indices`.
pub open spec fn listed(indices: Seq<usize>, cut: int) -> bool {
    exists|i: int| 0 <= i < indices.len() && indices[i] == cut
}

/// Whether `sep` stands in `text` from offset `at` on.
fn occurs(text: &Vec<char>, sep: &Vec<char>, at: usize) -> (found: bool)
    requires
        at <= text.len(),
    ensures
        found == occurs_at(text@, sep@, at as int),
{
    let width: usize = sep.len();
    if text.len() - at < width {
        return false;
    }
    let mut k: usize = 0;
    while k < width
        invariant
            k <= width,
            width == sep.len(),
            at + width <= text.len(),
            forall|j: int| 0 <= j < k ==> text@[at + j] == sep@[j],
        decreases width - k,
    {
        if text[at + k] != sep[k] {
            proof {
                assert(text@.subrange(at as int, at + width)[k as int] == text@[at + k]);
            }
            return false;
        }
        k = k + 1;
    }
    proof {
        assert(text@.subrange(at as int, at + width) =~= sep@);
    }
    true
}

/// The cut offsets of `text`, in ascending order.
fn cut_offsets(text: &Vec<char>, sep: &Vec<char>) -> (indices: Vec<usize>)
    ensures
        lists_cuts(indices@, text@, sep@),
{
    let len: usize = text.len();
    let width: usize = sep.len();
    let mut indices: Vec<usize> = Vec::new();
    let mut at: usize = 0;
    loop
        invariant_except_break
            offsets(indices@) + match_ends(text@, sep@, at as int) == cut_sequence(text@, sep@),
        invariant
            at <= len,
            len == text.len(),
            width == sep.len(),
        ensures
            offsets(indices@) == cut_sequence(text@, sep@),
        decreases len - at,
    {
        let ghost before = indices@;
        let ghost here = at as int;
        let found: bool = occurs(text, sep, at);
        if found {
            indices.push(at + width);
            proof {
                assert(offsets(indices@) =~= offsets(before).push(here + width));
                assert(offsets(indices@) + match_ends(text@, sep@, here + stride(sep@))
                    =~= offsets(before) + match_ends(text@, sep@, here));
            }
        }
        if at == len && (width == 0 || !found) {
            proof {
                let beyond = here + 1;
                assert(match_ends(text@, sep@, beyond) =~= Seq::<int>::empty());
                assert(offsets(indices@) + match_ends(text@, sep@, beyond) =~= offsets(indices@));
            }
            break;
        }
        if found && width > 0 {
            at = at + width;
        } else {
            at = at + 1;
        }
    }
    proof {
        let cuts = cut_sequence(text@, sep@);
        assert forall|i: int| 0 <= i < indices.len() implies is_cut(
            text@,
            sep@,
            #[trigger] indices[i] as int,
        ) by {
            assert(cuts[i] == indices[i]);
            lemma_cut_sequence(text@, sep@, indices[i] as int);
        }
        assert forall|at: int| #[trigger] is_cut(text@, sep@, at) implies listed(indices@, at) by {
            lemma_cut_sequence(text@, sep@, at);
            let i = choose|i: int| 0 <= i < cuts.len() && cuts[i] == at;
            assert(offsets(indices@)[i] == indices@[i]);
        }
        assert forall|i: int| 0 <= i < indices.len() implies occurs_at(
            text@,
            sep@,
            #[trigger] indices[i] - sep@.len(),
        ) by {
            lemma_cut_follows_occurrence(text@, sep@, indices[i] as int);
        }
        assert forall|i: int, j: int| 0 <= i < j < indices.len() implies #[trigger] indices[i]
            + stride(sep@) <= #[trigger] indices[j] by {
            lemma_ascending(text@, sep@, 0, i, j);
            assert(cuts[i] == indices[i] && cuts[j] == indices[j]);
        }
    }
    indices
}

/// The offsets of `message` at which it may be cut, in ascending order:
/// those that immediately follow an occurrence of `split_pattern`, of the
/// occurrences found from left to right, each search beginning where the
/// last occurrence ended.
pub fn get_possible_split_indices(message: &str, split_pattern: &str) -> (indices: Vec<usize>)
    ensures
        lists_cuts(indices@, message@, split_pattern@),
{
    let text: Vec<char> = to_chars(message);
    let sep: Vec<char> = to_chars(split_pattern);
    cut_offsets(&text, &sep)
}

/// The greatest of `indices` that does not exceed `value`, if there is one.
pub fn find_closest_index_split_in_string(indices: &Vec<usize>, value: usize) -> (closest: Option<
    usize,
>)
    requires
        strictly_ascending(indices@),
    ensures
        match closest {
            Some(index) => {
                &&& indices@.contains(index)
                &&& index <= value
                &&& forall|i: int|
                    0 <= i < indices.len() && indices[i] <= value ==> #[trigger] indices[i] <= index
            },
            None => forall|i: int| 0 <= i < indices.len() ==> #[trigger] indices[i] > value,
        },
{
    let mut below: usize = 0;
    let mut above: usize = indices.len();
    while below < above
        invariant
            below <= above <= indices.len(),
            strictly_ascending(indices@),
            forall|i: int| 0 <= i < below ==> #[trigger] indices[i] <= value,
            forall|i: int| above <= i < indices.len() ==> #[trigger] indices[i] > value,
        decreases above - below,
    {
        let mid: usize = below + (above - below) / 2;
        if indices[mid] <= value {
            below = mid + 1;
        } else {
            above = mid;
        }
    }
    if below == 0 {
        None
    } else {
        Some(indices[below - 1])
    }
}

/// Splits `message` into chunks of at most `max_size` characters, cutting
/// only immediately after an occurrence of `split_pattern`, of those found
/// from left to right without overlap. Each chunk is the longest that the
/// limit allows, and each but the last ends with the pattern. Where the text
/// that remains is longer than the limit and no occurrence of the pattern
/// ends within the limit, it becomes the last chunk whole, whatever its
/// length. An empty message has no chunks. The chunks, joined in order, are
/// the message.
pub fn split_message(message: &str, split_pattern: &str, max_size: usize) -> (chunks: Vec<
    MessageChunk,
>)
    ensures
        chunk_views(chunks@) == numbered(split_spec(message@, split_pattern@, max_size as int)),
        chunk_texts(chunks@).flatten() == message@,
        message@.len() == 0 <==> chunks@.len() == 0,
        forall|i: int|
            0 <= i < chunks.len() && (#[trigger] chunks[i]).text@.len() > max_size ==> i
                == chunks.len() - 1,
        forall|i: int|
            0 <= i < chunks.len() - 1 ==> ends_with((#[trigger] chunks[i]).text@, split_pattern@),
{
    let text: Vec<char> = to_chars(message);
    let sep: Vec<char> = to_chars(split_pattern);
    let indices: Vec<usize> = cut_offsets(&text, &sep);
    let len: usize = text.len();
    let mut chunks: Vec<MessageChunk> = Vec::new();
    let mut start: usize = 0;
    while start < len
        invariant
            start <= len,
            len == text.len(),
            text@ == message@,
            sep@ == split_pattern@,
            lists_cuts(indices@, text@, sep@),
            split_spec(text@, sep@, max_size as int) == chunk_texts(chunks@) + split_from(
                text@,
                sep@,
                max_size as int,
                start as int,
            ),
            forall|i: int| 0 <= i < chunks.len() ==> (#[trigger] chunks[i]).sequence_index == i,
        decreases len - start,
    {
        let ghost before = chunks@;
        let mut end: usize = len;
        if len - start > max_size {
            let high: usize = start + max_size;
            let closest: Option<usize> = find_closest_index_split_in_string(&indices, high);
            let within: Option<usize> = match closest {
                Some(index) => if index > start {
                    Some(index)
                } else {
                    None
                },
                None => None,
            };
            proof {
                lemma_last_cut(text@, sep@, start as int, high as int);
                match within {
                    Some(index) => {
                        assert forall|at: int| index < at <= high implies !is_cut(
                            text@,
                            sep@,
                            at,
                        ) by {
                            if is_cut(text@, sep@, at) {
                                let i = choose|i: int| 0 <= i < indices.len() && indices[i] == at;
                                assert(indices[i] <= index);
                            }
                        }
                        let i = choose|i: int| 0 <= i < indices.len() && indices[i] == index;
                        assert(is_cut(text@, sep@, indices[i] as int));
                        lemma_last_cut_unique(
                            text@,
                            sep@,
                            start as int,
                            high as int,
                            index as int,
                        );
                    },
                    None => {
                        if let Some(cut) = last_cut(text@, sep@, start as int, high as int) {
                            let i = choose|i: int| 0 <= i < indices.len() && indices[i] == cut;
                            assert(indices[i] <= high);
                            if let Some(index) = closest {
                                assert(indices[i] <= index);
                            }
                        }
                    },
                }
            }
            if let Some(index) = within {
                end = index;
            }
        }
        let piece: String = message.substring_char(start, end).to_owned();
        let chunk = MessageChunk { sequence_index: chunks.len(), text: piece };
        chunks.push(chunk);
        proof {
            assert(chunk_texts(chunks@) =~= chunk_texts(before).push(
                text@.subrange(start as int, end as int),
            ));
            assert(split_from(text@, sep@, max_size as int, start as int) =~= seq![
                text@.subrange(start as int, end as int),
            ] + split_from(text@, sep@, max_size as int, end as int));
            assert(chunk_texts(before) + (seq![text@.subrange(start as int, end as int)]
                + split_from(text@, sep@, max_size as int, end as int)) =~= chunk_texts(chunks@)
                + split_from(text@, sep@, max_size as int, end as int));
        }
        start = end;
    }
    proof {
        let texts = split_spec(text@, sep@, max_size as int);
        assert(chunk_texts(chunks@) + split_from(
            text@,
            sep@,
            max_size as int,
            start as int,
        ) =~= chunk_texts(chunks@));
        assert forall|i: int| 0 <= i < chunks.len() implies (#[trigger] chunks@[i])@
            == numbered(texts)[i] by {
            assert(chunk_texts(chunks@)[i] == texts[i]);
        }
        assert(chunk_views(chunks@) =~= numbered(texts));
        lemma_split_empty(text@, sep@, max_size as int);
        lemma_split_lossless(text@, sep@, max_size as int);
        lemma_split_size_bound(text@, sep@, max_size as int);
        assert forall|i: int|
            0 <= i < chunks.len() && (#[trigger] chunks[i]).text@.len() > max_size implies i
            == chunks.len() - 1 by {
            assert(chunk_texts(chunks@)[i] == texts[i]);
            assert(keeps_bound(texts[i], sep@, max_size as int, i, texts.len() as int));
        }
        assert forall|i: int| 0 <= i < chunks.len() - 1 implies ends_with(
            (#[trigger] chunks[i]).text@,
            split_pattern@,
        ) by {
            assert(chunk_texts(chunks@)[i] == texts[i]);
            lemma_split_chunks_end_with_separator(text@, sep@, max_size as int, i);
        }
    }
    chunks
}

/// A cut offset of a tail of `text` that begins where a chunk can begin is a
/// cut offset of `text`, moved by the offset at which the tail begins.
proof fn lemma_cut_of_tail(text: Seq<char>, sep: Seq<char>, start: int, at: int)
    requires
        0 <= start <= text.len(),
        is_chunk_start(text, sep, start),
        0 < at,
        is_cut(text.subrange(start, text.len() as int), sep, at),
    ensures
        is_cut(text, sep, start + at),
{
    lemma_shift(text, sep, start, 0, at);
    if start > 0 {
        if sep.len() > 0 {
            lemma_resume(text, sep, 0, start, start + at);
        } else {
            assert(occurs_at(text, sep, start)) by {
                assert(text.subrange(start, start) =~= sep);
            }
            lemma_resume(text, sep, 0, start, start + at);
        }
    }
}

/// A tail of `text` that begins where a chunk can begin, and in which `text`
/// has no cut offset within `max` characters, has none of its own there.
proof fn lemma_no_cut_in_tail(text: Seq<char>, sep: Seq<char>, max: int, start: int)
    requires
        0 <= start <= text.len(),
        is_chunk_start(text, sep, start),
        last_cut(text, sep, start, start + max) is None,
    ensures
        last_cut(text.subrange(start, text.len() as int), sep, 0, max) is None,
{
    let tail = text.subrange(start, text.len() as int);
    lemma_last_cut(text, sep, start, start + max);
    lemma_last_cut(tail, sep, 0, max);
    if let Some(cut) = last_cut(tail, sep, 0, max) {
        lemma_cut_of_tail(text, sep, start, cut);
    }
}

/// The first chunk and the chunks after it, where the text that remains is
/// longer than the limit and a cut offset lies within it.
proof fn lemma_split_from_step(text: Seq<char>, sep: Seq<char>, max: int, start: int)
    requires
        0 <= start < text.len(),
        text.len() - start > max,
        last_cut(text, sep, start, start + max) is Some,
    ensures
        ({
            let cut = last_cut(text, sep, start, start + max)->0;
            let chunks = split_from(text, sep, max, start);
            let rest = split_from(text, sep, max, cut);
            &&& start < cut <= start + max
            &&& cut < text.len()
            &&& is_cut(text, sep, cut)
            &&& chunks == seq![text.subrange(start, cut)] + rest
            &&& chunks.len() == rest.len() + 1
            &&& chunks[0] == text.subrange(start, cut)
            &&& rest.len() >= 1
            &&& forall|i: int| 0 < i < chunks.len() ==> chunks[i] == rest[i - 1]
        }),
{
    lemma_last_cut(text, sep, start, start + max);
}

/// Lossless segmentation, from any offset: the chunks of a tail of `text`,
/// joined in order, are that tail.
pub proof fn lemma_split_from_lossless(text: Seq<char>, sep: Seq<char>, max: int, start: int)
    requires
        0 <= start <= text.len(),
    ensures
        split_from(text, sep, max, start).flatten() == text.subrange(start, text.len() as int),
    decreases text.len() - start,
{
    let len = text.len() as int;
    let chunks = split_from(text, sep, max, start);
    if start >= len {
        assert(chunks.flatten() =~= text.subrange(start, len));
    } else if len - start > max && last_cut(text, sep, start, start + max) is Some {
        let cut = last_cut(text, sep, start, start + max)->0;
        lemma_split_from_step(text, sep, max, start);
        lemma_split_from_lossless(text, sep, max, cut);
        let rest = split_from(text, sep, max, cut);
        assert(chunks.drop_first() =~= rest);
        assert(chunks.flatten() =~= text.subrange(start, cut) + rest.flatten());
        assert(text.subrange(start, cut) + text.subrange(cut, len) =~= text.subrange(start, len));
    } else {
        let whole = text.subrange(start, len);
        assert(chunks =~= seq![whole]);
        assert(chunks.drop_first() =~= Seq::<Seq<char>>::empty());
        assert(chunks.drop_first().flatten() =~= Seq::<char>::empty());
        assert(chunks.flatten() =~= whole);
    }
}

/// Lossless segmentation: the chunks of `text`, joined in order, are `text`.
pub proof fn lemma_split_lossless(text: Seq<char>, sep: Seq<char>, max: int)
    ensures
        split_spec(text, sep, max).flatten() == text,
{
    lemma_split_from_lossless(text, sep, max, 0);
    assert(text.subrange(0, text.len() as int) =~= text);
}

/// Whether `chunk`, taken as the `i`-th of `count` chunks, keeps the size
/// bound: it is within the limit, or it is the last chunk and no occurrence
/// of the separator ends within its first `max` characters.
pub open spec fn keeps_bound(
    chunk: Seq<char>,
    sep: Seq<char>,
    max: int,
    i: int,
    count: int,
) -> bool {
    chunk.len() <= max || (i == count - 1 && last_cut(chunk, sep, 0, max) is None)
}

/// The size bound, from any offset at which a chunk can begin.
pub proof fn lemma_split_from_size_bound(text: Seq<char>, sep: Seq<char>, max: int, start: int)
    requires
        0 <= start <= text.len(),
        is_chunk_start(text, sep, start),
    ensures
        forall|i: int|
            0 <= i < split_from(text, sep, max, start).len() ==> {
                &&& (#[trigger] split_from(text, sep, max, start)[i]).len() > 0
                &&& keeps_bound(
                    split_from(text, sep, max, start)[i],
                    sep,
                    max,
                    i,
                    split_from(text, sep, max, start).len() as int,
                )
            },
    decreases text.len() - start,
{
    let len = text.len() as int;
    let chunks = split_from(text, sep, max, start);
    if start >= len {
    } else if len - start > max && last_cut(text, sep, start, start + max) is Some {
        let cut = last_cut(text, sep, start, start + max)->0;
        lemma_split_from_step(text, sep, max, start);
        lemma_split_from_size_bound(text, sep, max, cut);
        let rest = split_from(text, sep, max, cut);
        assert forall|i: int| 0 <= i < chunks.len() implies (#[trigger] chunks[i]).len() > 0
            && keeps_bound(chunks[i], sep, max, i, chunks.len() as int) by {
            if i > 0 {
                assert(chunks[i] == rest[i - 1]);
                assert(keeps_bound(rest[i - 1], sep, max, i - 1, rest.len() as int));
            }
        }
    } else {
        assert(chunks =~= seq![text.subrange(start, len)]);
        if len - start > max {
            lemma_no_cut_in_tail(text, sep, max, start);
        }
    }
}

/// The size bound: a chunk that is longer than the limit is the last one, and
/// no occurrence of the separator ends within its first `max` characters. So
/// at most one chunk is over the limit. No chunk is empty.
pub proof fn lemma_split_size_bound(text: Seq<char>, sep: Seq<char>, max: int)
    ensures
        forall|i: int|
            0 <= i < split_spec(text, sep, max).len() ==> {
                &&& (#[trigger] split_spec(text, sep, max)[i]).len() > 0
                &&& keeps_bound(
                    split_spec(text, sep, max)[i],
                    sep,
                    max,
                    i,
                    split_spec(text, sep, max).len() as int,
                )
            },
{
    lemma_split_from_size_bound(text, sep, max, 0);
}

/// An empty text has no chunks, and a text that is not empty has at least
/// one.
pub proof fn lemma_split_empty(text: Seq<char>, sep: Seq<char>, max: int)
    ensures
        text.len() == 0 <==> split_spec(text, sep, max).len() == 0,
{
    if text.len() > 0 && text.len() > max && last_cut(text, sep, 0, max) is Some {
        lemma_split_from_step(text, sep, max, 0);
    }
}

/// A text that is within the limit and not empty is its own single chunk.
pub proof fn lemma_split_short(text: Seq<char>, sep: Seq<char>, max: int)
    requires
        0 < text.len() <= max,
    ensures
        split_spec(text, sep, max) == seq![text],
{
    assert(text.subrange(0, text.len() as int) =~= text);
}

/// Splitting a chunk again, with the same separator and limit, gives that
/// chunk alone.
pub proof fn lemma_resplit_unchanged(text: Seq<char>, sep: Seq<char>, max: int, i: int)
    requires
        0 <= i < split_spec(text, sep, max).len(),
    ensures
        split_spec(split_spec(text, sep, max)[i], sep, max) == seq![split_spec(text, sep, max)[i]],
{
    let chunk = split_spec(text, sep, max)[i];
    lemma_split_size_bound(text, sep, max);
    assert(chunk.len() > 0);
    assert(keeps_bound(chunk, sep, max, i, split_spec(text, sep, max).len() as int));
    if chunk.len() <= max {
        lemma_split_short(chunk, sep, max);
    } else {
        assert(chunk.subrange(0, chunk.len() as int) =~= chunk);
    }
}

/// The offset of `text` at which the `i`-th of `chunks` ends, where `chunks`
/// begin at `start`.
pub open spec fn chunk_end(chunks: Seq<Seq<char>>, start: int, i: int) -> int {
    start + chunks.take(i + 1).flatten().len()
}

/// Every chunk but the last ends at a cut offset, within as many windows of
/// `max` characters as there are chunks up to it, from any offset.
pub proof fn lemma_split_from_ends(text: Seq<char>, sep: Seq<char>, max: int, start: int, i: int)
    requires
        0 <= start <= text.len(),
        0 <= i < split_from(text, sep, max, start).len() - 1,
    ensures
        is_cut(text, sep, chunk_end(split_from(text, sep, max, start), start, i)),
        chunk_end(split_from(text, sep, max, start), start, i) <= start + (i + 1) * max,
    decreases i,
{
    let len = text.len() as int;
    let chunks = split_from(text, sep, max, start);
    if start < len && len - start > max && last_cut(text, sep, start, start + max) is Some {
        let cut = last_cut(text, sep, start, start + max)->0;
        lemma_split_from_step(text, sep, max, start);
        let rest = split_from(text, sep, max, cut);
        let first = text.subrange(start, cut);
        let taken = chunks.take(i + 1);
        assert(taken.first() == first);
        if i == 0 {
            assert(taken.drop_first() =~= Seq::<Seq<char>>::empty());
            assert(taken.drop_first().flatten() =~= Seq::<char>::empty());
            assert(taken.flatten() =~= first);
        } else {
            assert(taken.drop_first() =~= rest.take(i));
            assert(taken.flatten() =~= first + rest.take(i).flatten());
            lemma_split_from_ends(text, sep, max, cut, i - 1);
            assert((i + 1) * max == i * max + max) by (nonlinear_arith);
        }
    } else {
        assert(chunks.len() <= 1);
    }
}

/// Every chunk but the last ends immediately after an occurrence of the
/// separator in `text`, and the `k`-th of them ends within the first `k`
/// windows of `max` characters of `text`.
pub proof fn lemma_split_ends_follow_separator(text: Seq<char>, sep: Seq<char>, max: int, i: int)
    requires
        0 <= i < split_spec(text, sep, max).len() - 1,
    ensures
        is_cut(text, sep, chunk_end(split_spec(text, sep, max), 0, i)),
        chunk_end(split_spec(text, sep, max), 0, i) <= (i + 1) * max,
{
    lemma_split_from_ends(text, sep, max, 0, i);
}

/// Whether, wherever more than `max` characters of `text` remain, a cut
/// offset lies within the next `max` characters.
pub open spec fn cuts_within_reach(text: Seq<char>, sep: Seq<char>, max: int) -> bool {
    forall|start: int|
        0 <= start < text.len() && start + max < text.len() ==> (#[trigger] last_cut(
            text,
            sep,
            start,
            start + max,
        )) is Some
}

/// Where a cut offset is always within reach, every chunk is within the
/// limit, from any offset.
pub proof fn lemma_split_from_within_bound(text: Seq<char>, sep: Seq<char>, max: int, start: int)
    requires
        0 <= start <= text.len(),
        cuts_within_reach(text, sep, max),
    ensures
        forall|i: int|
            0 <= i < split_from(text, sep, max, start).len() ==> (#[trigger] split_from(
                text,
                sep,
                max,
                start,
            )[i]).len() <= max,
    decreases text.len() - start,
{
    let len = text.len() as int;
    let chunks = split_from(text, sep, max, start);
    if start < len && len - start > max {
        assert(last_cut(text, sep, start, start + max) is Some);
        let cut = last_cut(text, sep, start, start + max)->0;
        lemma_split_from_step(text, sep, max, start);
        lemma_split_from_within_bound(text, sep, max, cut);
        let rest = split_from(text, sep, max, cut);
        assert forall|i: int| 0 <= i < chunks.len() implies (#[trigger] chunks[i]).len() <= max by {
            if i > 0 {
                assert(chunks[i] == rest[i - 1]);
            }
        }
    }
}

/// Where a cut offset is always within reach, every chunk is within the
/// limit.
pub proof fn lemma_split_within_bound(text: Seq<char>, sep: Seq<char>, max: int)
    requires
        cuts_within_reach(text, sep, max),
    ensures
        forall|i: int|
            0 <= i < split_spec(text, sep, max).len() ==> (#[trigger] split_spec(
                text,
                sep,
                max,
            )[i]).len() <= max,
{
    lemma_split_from_within_bound(text, sep, max, 0);
}

/// Whether, after every cut offset of `text` behind which more than `max`
/// characters remain, another cut offset lies within the next `max`
/// characters: no record but the first is longer than the limit.
pub open spec fn later_cuts_within_reach(text: Seq<char>, sep: Seq<char>, max: int) -> bool {
    forall|start: int|
        0 < start < text.len() && start + max < text.len() && is_cut(text, sep, start) ==> (
        #[trigger] last_cut(text, sep, start, start + max)) is Some
}

/// Where no record but the first is longer than the limit, every chunk from
/// a cut offset on is within the limit.
proof fn lemma_split_from_cut_within_bound(text: Seq<char>, sep: Seq<char>, max: int, start: int)
    requires
        0 < start <= text.len(),
        is_cut(text, sep, start),
        later_cuts_within_reach(text, sep, max),
    ensures
        forall|i: int|
            0 <= i < split_from(text, sep, max, start).len() ==> (#[trigger] split_from(
                text,
                sep,
                max,
                start,
            )[i]).len() <= max,
    decreases text.len() - start,
{
    let len = text.len() as int;
    let chunks = split_from(text, sep, max, start);
    if start < len && len - start > max {
        assert(last_cut(text, sep, start, start + max) is Some);
        let cut = last_cut(text, sep, start, start + max)->0;
        lemma_split_from_step(text, sep, max, start);
        lemma_split_from_cut_within_bound(text, sep, max, cut);
        let rest = split_from(text, sep, max, cut);
        assert forall|i: int| 0 <= i < chunks.len() implies (#[trigger] chunks[i]).len() <= max by {
            if i > 0 {
                assert(chunks[i] == rest[i - 1]);
            }
        }
    }
}

/// Where no record but the first is longer than the limit, no chunk but the
/// first is; and where the first chunk is, it is the whole text.
pub proof fn lemma_split_only_first_over(text: Seq<char>, sep: Seq<char>, max: int)
    requires
        later_cuts_within_reach(text, sep, max),
    ensures
        forall|i: int|
            0 < i < split_spec(text, sep, max).len() ==> (#[trigger] split_spec(
                text,
                sep,
                max,
            )[i]).len() <= max,
        split_spec(text, sep, max).len() > 0 && split_spec(text, sep, max)[0].len() > max
            ==> split_spec(text, sep, max) == seq![text],
{
    let len = text.len() as int;
    let chunks = split_spec(text, sep, max);
    if 0 < len && len > max {
        if last_cut(text, sep, 0, max) is Some {
            let cut = last_cut(text, sep, 0, max)->0;
            lemma_split_from_step(text, sep, max, 0);
            lemma_split_from_cut_within_bound(text, sep, max, cut);
            let rest = split_from(text, sep, max, cut);
            assert forall|i: int| 0 < i < chunks.len() implies (#[trigger] chunks[i]).len()
                <= max by {
                assert(chunks[i] == rest[i - 1]);
            }
        } else {
            assert(text.subrange(0, len) =~= text);
        }
    }
}

/// Whether `text` ends with `sep`.
pub open spec fn ends_with(text: Seq<char>, sep: Seq<char>) -> bool {
    sep.len() <= text.len() && text.subrange(text.len() - sep.len(), text.len() as int) == sep
}

/// Every chunk but the last ends with the separator, from any offset at
/// which a chunk can begin.
pub proof fn lemma_split_from_ends_with_separator(
    text: Seq<char>,
    sep: Seq<char>,
    max: int,
    start: int,
    i: int,
)
    requires
        0 <= start <= text.len(),
        is_chunk_start(text, sep, start),
        0 <= i < split_from(text, sep, max, start).len() - 1,
    ensures
        ends_with(split_from(text, sep, max, start)[i], sep),
    decreases i,
{
    let len = text.len() as int;
    let chunks = split_from(text, sep, max, start);
    if start < len && len - start > max && last_cut(text, sep, start, start + max) is Some {
        let cut = last_cut(text, sep, start, start + max)->0;
        lemma_split_from_step(text, sep, max, start);
        if i == 0 {
            let chunk = text.subrange(start, cut);
            lemma_match_end(text, sep, 0, cut);
            if start > 0 {
                lemma_apart(text, sep, 0, start, cut);
            }
            assert(chunk.subrange(chunk.len() - sep.len(), chunk.len() as int) =~= text.subrange(
                cut - sep.len(),
                cut,
            ));
        } else {
            lemma_split_from_ends_with_separator(text, sep, max, cut, i - 1);
        }
    } else {
        assert(chunks.len() <= 1);
    }
}

/// Every chunk but the last ends with the separator: no cut falls inside a
/// record.
pub proof fn lemma_split_chunks_end_with_separator(
    text: Seq<char>,
    sep: Seq<char>,
    max: int,
    i: int,
)
    requires
        0 <= i < split_spec(text, sep, max).len() - 1,
    ensures
        ends_with(split_spec(text, sep, max)[i], sep),
{
    lemma_split_from_ends_with_separator(text, sep, max, 0, i);
}

} // verus!
