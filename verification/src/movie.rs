//! The records of the catalog: queue references, items, and the outcomes of
//! resolving a queue.

use crate::api::ApiError;
use crate::numeral::{decimal, decimal_string};
use crate::segment::{
    chunk_views, is_cut, last_cut, lemma_last_cut, lemma_single_character,
    lemma_split_within_bound, numbered, split_message, split_spec, MessageChunk,
};
use crate::status::MovieStatus;
use crate::text::str_eq;
use vstd::prelude::*;
use vstd::seq_lib::lemma_flatten_concat;

verus! {

/// A pointer into the catalog, as the queue listing returns it. It has to be
/// resolved into a [`Movie`] before it can be shown.
#[derive(Clone, Debug, PartialEq, Eq)]
pub struct QueueMovie {
    pub id: String,
}

impl View for QueueMovie {
    type V = Seq<char>;

    /// The identifier that the reference points to.
    open spec fn view(&self) -> Seq<char> {
        self.id@
    }
}

/// The current membership of the queue, in queue order.
#[derive(Clone, Debug, PartialEq, Eq)]
pub struct Queue {
    pub queue: Vec<QueueMovie>,
}

/// The identifiers to which `refs` point, in order.
pub open spec fn identifiers(refs: Seq<QueueMovie>) -> Seq<Seq<char>> {
    Seq::new(refs.len(), |i: int| refs[i]@)
}

impl View for Queue {
    type V = Seq<Seq<char>>;

    /// The identifiers of the queue, in queue order.
    open spec fn view(&self) -> Seq<Seq<char>> {
        identifiers(self.queue@)
    }
}

/// The cover image of an item. The aspect ratio is kept as the bit pattern of
/// the single-precision number that the catalog sends.
#[derive(Clone, Debug, PartialEq, Eq)]
pub struct ImdbCover {
    pub url: String,
    pub ratio_bits: u32,
}

/// What the catalog knows of an item from its source.
#[derive(Clone, Debug, PartialEq, Eq)]
pub struct ImdbMovie {
    pub id: String,
    pub title: String,
    pub year: u32,
    pub rating: String,
    pub cover: ImdbCover,
}

/// An item of the catalog.
#[derive(Clone, Debug, PartialEq, Eq)]
pub struct Movie {
    pub id: String,
    pub imdb: ImdbMovie,
    pub status: MovieStatus,
}

/// An item of the catalog as a mathematical value: what is shown of it and
/// what identifies it.
pub struct MovieView {
    pub id: Seq<char>,
    pub title: Seq<char>,
    pub year: nat,
    pub rating: Seq<char>,
    pub status: MovieStatus,
}

impl View for Movie {
    type V = MovieView;

    open spec fn view(&self) -> MovieView {
        MovieView {
            id: self.id@,
            title: self.imdb.title@,
            year: self.imdb.year as nat,
            rating: self.imdb.rating@,
            status: self.status,
        }
    }
}

/// The outcomes of resolving a queue: one per queue reference, in queue
/// order.
#[derive(Debug, PartialEq, Eq)]
pub struct Movies {
    pub movies: Vec<Result<Movie, ApiError>>,
}

/// The token that ends every rendered line: a star, one character long.
pub open spec fn separator() -> Seq<char> {
    "\u{2b50}"@
}

/// The line of an item: its title, its year in brackets, its rating, and the
/// separator.
pub open spec fn movie_line(movie: MovieView) -> Seq<char> {
    movie.title + " ("@ + decimal(movie.year) + ") "@ + movie.rating + separator()
}

/// The line that stands for an item that could not be retrieved.
pub open spec fn failure_line() -> Seq<char> {
    "failed to retrieve movie: 0"@ + separator()
}

/// The line of one outcome.
pub open spec fn outcome_line(outcome: Result<Movie, ApiError>) -> Seq<char> {
    match outcome {
        Ok(movie) => movie_line(movie@),
        Err(_) => failure_line(),
    }
}

/// The lines of `outcomes`: one per outcome, in their order.
pub open spec fn render_lines(outcomes: Seq<Result<Movie, ApiError>>) -> Seq<Seq<char>> {
    Seq::new(outcomes.len(), |i: int| outcome_line(outcomes[i]))
}

/// The text of `outcomes`: their lines, joined in order with nothing between
/// them.
pub open spec fn render_spec(outcomes: Seq<Result<Movie, ApiError>>) -> Seq<char> {
    render_lines(outcomes).flatten()
}

/// Whether `outcome` is an item with the title `title`.
pub open spec fn has_title(outcome: Result<Movie, ApiError>, title: Seq<char>) -> bool {
    outcome is Ok && outcome->Ok_0@.title == title
}

/// The first item with the title `title` among `outcomes` from the `from`-th
/// on, if there is one.
pub open spec fn first_titled(
    outcomes: Seq<Result<Movie, ApiError>>,
    title: Seq<char>,
    from: int,
) -> Option<Movie>
    decreases outcomes.len() - from,
{
    if from < 0 || from >= outcomes.len() {
        None
    } else if has_title(outcomes[from], title) {
        Some(outcomes[from]->Ok_0)
    } else {
        first_titled(outcomes, title, from + 1)
    }
}

/// The separator token.
pub fn separator_token() -> (token: String)
    ensures
        token@ == separator(),
{
    "\u{2b50}".to_owned()
}

/// The line that stands for an item that could not be retrieved.
pub fn failure_placeholder() -> (line: String)
    ensures
        line@ == failure_line(),
{
    let mut line: String = "failed to retrieve movie: 0".to_owned();
    line.append("\u{2b50}");
    line
}

impl Movie {
    /// The line of this item.
    pub fn to_string(&self) -> (line: String)
        ensures
            line@ == movie_line(self@),
    {
        let year: String = decimal_string(self.imdb.year as u64);
        let mut line: String = self.imdb.title.clone();
        line.append(" (");
        line.append(year.as_str());
        line.append(") ");
        line.append(self.imdb.rating.as_str());
        line.append("\u{2b50}");
        line
    }
}

impl Movies {
    /// The text of these outcomes: for each one its line, for a failed one
    /// the placeholder, in order.
    pub fn render(&self) -> (text: String)
        ensures
            text@ == render_spec(self.movies@),
    {
        let mut text: String = String::new();
        let count: usize = self.movies.len();
        let mut i: usize = 0;
        proof {
            assert(render_lines(self.movies@.take(0)) =~= Seq::<Seq<char>>::empty());
        }
        while i < count
            invariant
                i <= count,
                count == self.movies.len(),
                text@ == render_spec(self.movies@.take(i as int)),
            decreases count - i,
        {
            let line: String = match &self.movies[i] {
                Ok(movie) => movie.to_string(),
                Err(_) => failure_placeholder(),
            };
            proof {
                let before = self.movies@.take(i as int);
                let after = self.movies@.take(i + 1);
                assert(render_lines(after) =~= render_lines(before).push(line@));
                render_lines(before).lemma_flatten_push(line@);
            }
            text.append(line.as_str());
            i = i + 1;
        }
        proof {
            assert(self.movies@.take(count as int) =~= self.movies@);
        }
        text
    }

    /// The first item with the title `title`, if there is one.
    pub open spec fn spec_find(&self, title: Seq<char>) -> Option<Movie> {
        first_titled(self.movies@, title, 0)
    }

    /// The first item with the title `title`, which has to be exact.
    pub fn find_by_title(&self, title: &str) -> (found: Option<&Movie>)
        ensures
            match found {
                Some(movie) => self.spec_find(title@) == Some(*movie),
                None => self.spec_find(title@) is None,
            },
    {
        let count: usize = self.movies.len();
        let mut i: usize = 0;
        while i < count
            invariant
                i <= count,
                count == self.movies.len(),
                self.spec_find(title@) == first_titled(self.movies@, title@, i as int),
            decreases count - i,
        {
            match &self.movies[i] {
                Ok(movie) => {
                    if str_eq(movie.imdb.title.as_str(), title) {
                        return Some(movie);
                    }
                },
                Err(_) => {},
            }
            i = i + 1;
        }
        None
    }

    /// The messages of these outcomes: their text, split after separators
    /// into chunks of at most `max_size` characters. Where a line is longer
    /// than that, the text from that line on is one message.
    pub fn to_messages(&self, max_size: usize) -> (chunks: Vec<MessageChunk>)
        ensures
            chunk_views(chunks@) == numbered(
                split_spec(render_spec(self.movies@), separator(), max_size as int),
            ),
    {
        let text: String = self.render();
        split_message(text.as_str(), "\u{2b50}", max_size)
    }
}

/// The offset of the text of `lines` at which the `i`-th line begins.
pub open spec fn line_start(lines: Seq<Seq<char>>, i: int) -> int {
    lines.take(i).flatten().len() as int
}

/// Every line ends with the separator.
pub proof fn lemma_line_ends_with_separator(outcome: Result<Movie, ApiError>)
    ensures
        outcome_line(outcome).len() >= separator().len(),
        outcome_line(outcome).subrange(
            outcome_line(outcome).len() - separator().len(),
            outcome_line(outcome).len() as int,
        ) == separator(),
{
    let line = outcome_line(outcome);
    let width = separator().len();
    match outcome {
        Ok(movie) => {
            let head = movie@.title + " ("@ + decimal(movie@.year) + ") "@ + movie@.rating;
            assert(line =~= head + separator());
            assert(line.subrange(line.len() - width, line.len() as int) =~= separator());
        },
        Err(_) => {
            assert(line.subrange(line.len() - width, line.len() as int) =~= separator());
        },
    }
}

/// The text up to the end of a line is the text up to its beginning and the
/// line; the whole text begins with it.
proof fn lemma_line_prefix(lines: Seq<Seq<char>>, i: int)
    requires
        0 <= i < lines.len(),
    ensures
        lines.take(i + 1).flatten() == lines.take(i).flatten() + lines[i],
        line_start(lines, i + 1) == line_start(lines, i) + lines[i].len(),
        line_start(lines, i + 1) <= lines.flatten().len(),
        lines.flatten().subrange(0, line_start(lines, i + 1)) == lines.take(i + 1).flatten(),
{
    assert(lines.take(i + 1) =~= lines.take(i).push(lines[i]));
    lines.take(i).lemma_flatten_push(lines[i]);
    assert(lines =~= lines.take(i + 1) + lines.skip(i + 1));
    lemma_flatten_concat(lines.take(i + 1), lines.skip(i + 1));
    assert(lines.flatten().subrange(0, line_start(lines, i + 1)) =~= lines.take(i + 1).flatten());
}

/// The end of every line is a cut offset of the rendered text: the lines of
/// failed items bound the segments as the lines of items do.
pub proof fn lemma_line_ends_are_cuts(outcomes: Seq<Result<Movie, ApiError>>, i: int)
    requires
        0 <= i < outcomes.len(),
    ensures
        is_cut(
            render_spec(outcomes),
            separator(),
            line_start(render_lines(outcomes), i + 1),
        ),
{
    let lines = render_lines(outcomes);
    let text = render_spec(outcomes);
    let end = line_start(lines, i + 1);
    let width = separator().len();
    lemma_line_prefix(lines, i);
    lemma_line_ends_with_separator(outcomes[i]);
    let upto = lines.take(i + 1).flatten();
    assert(upto.subrange(end - width, end) =~= lines[i].subrange(
        lines[i].len() - width,
        lines[i].len() as int,
    ));
    assert(text.subrange(end - width, end) =~= upto.subrange(end - width, end));
    reveal_strlit("\u{2b50}");
    assert(width == 1);
    assert(text.subrange(end - 1, end)[0] == text[end - 1]);
    lemma_single_character(text, separator(), 0, end);
}

/// The line in which offset `at` of the text of `lines` lies.
proof fn lemma_line_of_offset(lines: Seq<Seq<char>>, at: int) -> (i: int)
    requires
        0 <= at < lines.flatten().len(),
    ensures
        0 <= i < lines.len(),
        line_start(lines, i) <= at < line_start(lines, i + 1),
    decreases lines.len(),
{
    let count = lines.len() as int;
    if count == 0 {
        assert(lines.flatten() =~= Seq::<char>::empty());
        0
    } else {
        lemma_line_prefix(lines, count - 1);
        assert(lines.take(count) =~= lines);
        if at >= line_start(lines, count - 1) {
            count - 1
        } else {
            let earlier = lines.drop_last();
            assert(earlier =~= lines.take(count - 1));
            let i = lemma_line_of_offset(earlier, at);
            assert(earlier.take(i) =~= lines.take(i));
            assert(earlier.take(i + 1) =~= lines.take(i + 1));
            i
        }
    }
}

/// Where no line is longer than the limit, no message is: every chunk of the
/// rendered text is within the limit.
pub proof fn lemma_messages_within_bound(outcomes: Seq<Result<Movie, ApiError>>, max: int)
    requires
        forall|i: int|
            0 <= i < outcomes.len() ==> (#[trigger] outcome_line(outcomes[i])).len() <= max,
    ensures
        forall|k: int|
            0 <= k < split_spec(render_spec(outcomes), separator(), max).len() ==> (
            #[trigger] split_spec(render_spec(outcomes), separator(), max)[k]).len() <= max,
{
    let lines = render_lines(outcomes);
    let text = render_spec(outcomes);
    let sep = separator();
    assert forall|start: int|
        0 <= start < text.len() && start + max < text.len() implies (#[trigger] last_cut(
        text,
        sep,
        start,
        start + max,
    )) is Some by {
        let i = lemma_line_of_offset(lines, start);
        lemma_line_prefix(lines, i);
        lemma_line_ends_are_cuts(outcomes, i);
        let end = line_start(lines, i + 1);
        assert(lines[i] == outcome_line(outcomes[i]));
        assert(start < end <= start + max);
        lemma_last_cut(text, sep, start, start + max);
    }
    lemma_split_within_bound(text, sep, max);
}

} // verus!
