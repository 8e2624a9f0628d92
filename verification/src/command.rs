//! The chat commands: how an argument is read, what a command does next,
//! and which text answers which outcome.
//!
//! A command alternates between deciding and waiting: it decides on a step,
//! its caller carries the step out and hands back what came, and the command
//! says what to answer.

use crate::address::{url_parse, Address, InvalidAddress};
use crate::api::{
    endpoint_request, Api, ApiEndpoints, ApiError, FailureKind, Request, RequestBodyView,
    RequestView,
};
use crate::movie::{movie_line, render_spec, separator, Movie, Movies};
use crate::resolver::StreamingproviderResolverResponse;
use crate::segment::{chunk_views, numbered, split_spec, MessageChunk};
use crate::numeral::{parse_u8, parse_u8_spec};
use crate::status::MovieStatus;
use crate::text::{all_trimmed, find_char, index_of_char, pieces, split_trimmed, texts, to_chars};
use vstd::prelude::*;

verus! {

/// The argument of the rating command: an item and its rating.
#[derive(Clone, Debug, PartialEq, Eq)]
pub struct CommandTypeMovieRating {
    pub movie_id: String,
    pub rating: u8,
}

/// A rating that could not be read, with the text that was given for it.
#[derive(Clone, Debug, PartialEq, Eq)]
pub struct InvalidRating {
    pub text: String,
}

/// The commands that the bot takes.
#[derive(Clone, Debug, PartialEq, Eq)]
pub enum Command {
    /// Show the commands.
    Help,
    /// Say who has the hand on the mouse.
    WerHatDieHandAnDerMaus,
    /// Add the item whose source is given to the queue.
    Add(String),
    /// Remove the item with the given title from the queue.
    Delete(String),
    /// List the queue.
    Queue,
    /// Rate an item.
    Rate(CommandTypeMovieRating),
    /// Take the rating of an item back.
    Unrate(String),
    /// Mark the item with the given title as watched, which removes it from
    /// the queue.
    Watch(String),
    /// Show the item with the given title.
    Get(String),
    /// Ask which item to watch.
    Poll,
    /// Do nothing.
    Noop,
    /// Ask where the given title is streamed.
    WoStream(String),
}

/// The two parts of the argument `text`: what stands before its first space
/// and what stands after it. A text without a space is both parts.
pub open spec fn rating_parts(text: Seq<char>) -> (Seq<char>, Seq<char>) {
    let at = find_char(text, ' ', 0);
    if at < text.len() {
        (text.take(at), text.skip(at + 1))
    } else {
        (text, text)
    }
}

impl CommandTypeMovieRating {
    /// Reads the argument from its parts: the first names the item, the last
    /// is the rating, a number below 256.
    pub fn try_from(value: Vec<&str>) -> (read: Result<CommandTypeMovieRating, InvalidRating>)
        requires
            value.len() > 0,
        ensures
            match read {
                Ok(argument) => {
                    &&& argument.movie_id@ == value[0]@
                    &&& parse_u8_spec(value[value.len() - 1]@) == Some(argument.rating)
                },
                Err(invalid) => {
                    &&& parse_u8_spec(value[value.len() - 1]@) is None
                    &&& invalid.text@ == value[value.len() - 1]@
                },
            },
    {
        let last: &str = value[value.len() - 1];
        match parse_u8(last) {
            Some(rating) => Ok(CommandTypeMovieRating { movie_id: value[0].to_owned(), rating }),
            None => Err(InvalidRating { text: last.to_owned() }),
        }
    }

    /// Reads the argument from `s`: the item, a space, and the rating.
    pub fn from_str(s: &str) -> (read: Result<CommandTypeMovieRating, InvalidRating>)
        ensures
            match read {
                Ok(argument) => {
                    &&& argument.movie_id@ == rating_parts(s@).0
                    &&& parse_u8_spec(rating_parts(s@).1) == Some(argument.rating)
                },
                Err(invalid) => {
                    &&& parse_u8_spec(rating_parts(s@).1) is None
                    &&& invalid.text@ == rating_parts(s@).1
                },
            },
    {
        let chars: Vec<char> = to_chars(s);
        let at: usize = index_of_char(&chars, ' ');
        let mut parts: Vec<&str> = Vec::new();
        if at < chars.len() {
            parts.push(s.substring_char(0, at));
            parts.push(s.substring_char(at + 1, chars.len()));
        } else {
            parts.push(s);
        }
        proof {
            assert(s@.take(at as int) =~= s@.subrange(0, at as int));
            if at < chars.len() {
                assert(s@.skip(at + 1) =~= s@.subrange(at + 1, chars.len() as int));
            }
        }
        CommandTypeMovieRating::try_from(parts)
    }
}

/// The text that reports a failed step of the command `label`.
pub open spec fn report(label: Seq<char>, step: Seq<char>, detail: Seq<char>) -> Seq<char> {
    "[ "@ + label + step + detail + " ]"@
}

/// What is said of the outcome of the command `label`: the line of the item,
/// or a report of the failure. A body that did not decode and a request that
/// failed are reported differently.
pub open spec fn waded(label: Seq<char>, outcome: Result<Movie, ApiError>) -> Result<
    Seq<char>,
    Seq<char>,
> {
    match outcome {
        Ok(movie) => Ok(movie_line(movie@)),
        Err(error) => if error.spec_kind() == FailureKind::Decode {
            Err(report(label, "[0]: failed decoding body: "@, error.description()))
        } else {
            Err(report(label, "[1]: failed making api request: "@, error.description()))
        },
    }
}

/// The reply to a command `label` whose outcome is `outcome`: the line of the
/// item, or what is said of its failure, reported as the last step.
pub open spec fn outcome_reply(label: Seq<char>, outcome: Result<Movie, ApiError>) -> Seq<char> {
    match waded(label, outcome) {
        Ok(line) => line,
        Err(failure) => report(label, "[2]: "@, failure),
    }
}

/// The text that reports a failed step of the command `label`.
fn report_text(label: &str, step: &str, detail: &str) -> (text: String)
    ensures
        text@ == report(label@, step@, detail@),
{
    let mut text: String = "[ ".to_owned();
    text.append(label);
    text.append(step);
    text.append(detail);
    text.append(" ]");
    text
}

impl Command {
    /// The title of the item that this command takes out of the queue, and
    /// the status with which the item leaves, if the command is one that
    /// does: deleting and watching differ in nothing but the status.
    pub open spec fn spec_removal(&self) -> Option<(Seq<char>, MovieStatus)> {
        match *self {
            Command::Delete(title) => Some((title@, MovieStatus::Deleted)),
            Command::Watch(title) => Some((title@, MovieStatus::Watched)),
            _ => None,
        }
    }

    /// The title of the item that this command takes out of the queue, and
    /// the status with which the item leaves, if the command is one that
    /// does.
    pub fn removal(&self) -> (removal: Option<(String, MovieStatus)>)
        ensures
            match removal {
                Some((title, status)) => self.spec_removal() == Some((title@, status)),
                None => self.spec_removal() is None,
            },
    {
        match self {
            Command::Delete(title) => Some((title.clone(), MovieStatus::Deleted)),
            Command::Watch(title) => Some((title.clone(), MovieStatus::Watched)),
            _ => None,
        }
    }

    /// What is said of the outcome of the command `s`.
    pub fn wade_through(s: &str, r: Result<Movie, ApiError>) -> (said: Result<String, String>)
        ensures
            match said {
                Ok(line) => waded(s@, r) == Ok::<Seq<char>, Seq<char>>(line@),
                Err(failure) => waded(s@, r) == Err::<Seq<char>, Seq<char>>(failure@),
            },
    {
        match r {
            Ok(movie) => Ok(movie.to_string()),
            Err(error) => {
                let detail: String = error.to_string();
                match error.kind() {
                    FailureKind::Decode => Err(
                        report_text(s, "[0]: failed decoding body: ", detail.as_str()),
                    ),
                    _ => Err(report_text(s, "[1]: failed making api request: ", detail.as_str())),
                }
            },
        }
    }

    /// The first step of the command that adds the item whose source is
    /// `imdb_url`. Without a source it answers how the command is used. A
    /// source that is no URL is refused. Else the request that creates the
    /// item is sent; `add_movie_reply` says what to answer then.
    pub fn add_movie(api: &Api, imdb_url: &str) -> (step: Result<Step, InvalidAddress>)
        ensures
            match step {
                Err(_) => imdb_url@.len() > 0 && url_parse(imdb_url@) is None,
                Ok(step) => if imdb_url@.len() == 0 {
                    replies(step, add_usage())
                } else {
                    &&& url_parse(imdb_url@) is Some
                    &&& sends(
                        step,
                        endpoint_request(
                            api.base(),
                            ApiEndpoints::AddMovie,
                            RequestBodyView::AddMovie { imdb_url: url_parse(imdb_url@)->0 },
                        ),
                        "add_movie"@,
                    )
                },
            },
    {
        if imdb_url.unicode_len() == 0 {
            return Ok(Step::Reply(add_movie_usage()));
        }
        match Address::parse(imdb_url) {
            Err(invalid) => Err(invalid),
            Ok(address) => Ok(step_for("add_movie", api.add_movie(address))),
        }
    }

    /// The step of the command that takes the item with the title `title`
    /// out of the queue, where `movies` is the resolved queue: the item
    /// leaves with the status `status`. Without a title the step answers how
    /// the command is used, whatever the queue holds, and nothing is sent.
    /// Where no item has the title, the step answers so. Else the request
    /// that changes the status of the first such item is sent;
    /// `delete_movie_reply` says what to answer then.
    pub fn delete_movie(api: &Api, title: &str, movies: &Movies, status: MovieStatus) -> (step:
        Step)
        ensures
            title@.len() == 0 ==> replies(step, delete_usage()),
            title@.len() > 0 ==> match movies.spec_find(title@) {
                None => replies(step, not_queued(title@)),
                Some(movie) => sends(
                    step,
                    endpoint_request(
                        api.base(),
                        ApiEndpoints::DeleteMovie(&movie.id, status),
                        RequestBodyView::Empty,
                    ),
                    "delete_movie"@,
                ),
            },
    {
        if let Some(usage) = delete_movie_usage(title) {
            return Step::Reply(usage);
        }
        match movies.find_by_title(title) {
            None => Step::Reply(delete_movie_reply(title, None)),
            Some(movie) => step_for("delete_movie", api.delete_movie(movie.id.clone(), status)),
        }
    }

    /// The messages that answer the command that lists the queue, once the
    /// queue is resolved into `movies`: the text of the outcomes, split after
    /// separators into chunks of at most `max_size` characters.
    pub fn queue(movies: &Movies, max_size: usize) -> (messages: Vec<MessageChunk>)
        ensures
            chunk_views(messages@) == numbered(
                split_spec(render_spec(movies.movies@), separator(), max_size as int),
            ),
    {
        movies.to_messages(max_size)
    }

    /// The reply to the command that shows the item with the title `title`,
    /// once the queue is resolved: the line of the first such item, or that
    /// no such item is queued, or a report of the failure to resolve the
    /// queue.
    pub fn get(title: &str, resolved: &Result<Movies, ApiError>) -> (reply: String)
        ensures
            reply@ == match *resolved {
                Ok(movies) => match movies.spec_find(title@) {
                    Some(movie) => movie_line(movie@),
                    None => title@ + " couldn't be found in queue"@,
                },
                Err(error) => report("get"@, "[2]: "@, error.description()),
            },
    {
        match resolved {
            Ok(movies) => match movies.find_by_title(title) {
                Some(movie) => movie.to_string(),
                None => {
                    let mut reply: String = title.to_owned();
                    reply.append(" couldn't be found in queue");
                    reply
                },
            },
            Err(error) => {
                let detail: String = error.to_string();
                report_text("get", "[2]: ", detail.as_str())
            },
        }
    }

    /// The reply to the command that asks where a title is streamed, once
    /// the lookup has answered: the text of the answer.
    pub fn wo_stream(response: &StreamingproviderResolverResponse) -> (reply: String)
        ensures
            reply@ == response.text(),
    {
        response.to_string()
    }
}

/// The reply to a command `label` whose outcome is `outcome`.
fn reply_to(label: &str, outcome: Result<Movie, ApiError>) -> (reply: String)
    ensures
        reply@ == outcome_reply(label@, outcome),
{
    match Command::wade_through(label, outcome) {
        Ok(line) => line,
        Err(failure) => report_text(label, "[2]: ", failure.as_str()),
    }
}

/// What a command does next: it answers the chat, or it sends a request to
/// the catalog and answers with what comes of it.
#[derive(Clone, Debug, PartialEq, Eq)]
pub enum Step {
    Reply(String),
    Send(Request),
}

/// Whether `step` answers the chat with `text`.
pub open spec fn replies(step: Step, text: Seq<char>) -> bool {
    step matches Step::Reply(said) && said@ == text
}

/// Whether `step` answers the chat with what is said of a request that could
/// not be built for the command `label`.
pub open spec fn replies_failure(step: Step, label: Seq<char>) -> bool {
    step matches Step::Reply(text) && exists|error: ApiError|
        error.spec_kind() == FailureKind::Transport && text@ == #[trigger] outcome_reply(
            label,
            Err(error),
        )
}

/// Whether `step` is the step for `wanted`: to send that request, or, where
/// there is none, to answer with what is said of the failure to build it.
pub open spec fn sends(step: Step, wanted: Option<RequestView>, label: Seq<char>) -> bool {
    match wanted {
        Some(request) => step matches Step::Send(sent) && sent@ == request,
        None => replies_failure(step, label),
    }
}

/// The step that follows from `built`.
fn step_for(label: &str, built: Result<Request, ApiError>) -> (step: Step)
    requires
        built is Err ==> built->Err_0.spec_kind() == FailureKind::Transport,
    ensures
        match built {
            Ok(request) => step == Step::Send(request),
            Err(_) => replies_failure(step, label@),
        },
{
    match built {
        Ok(request) => Step::Send(request),
        Err(error) => {
            let ghost failed = error;
            let text: String = reply_to(label, Err(error));
            proof {
                assert(text@ == outcome_reply(label@, Err(failed)));
            }
            Step::Reply(text)
        },
    }
}

/// The answer to a chat that may not use the bot.
pub open spec fn not_admitted() -> Seq<char> {
    "You're not allowed to use this bot"@
}

/// How the command that adds an item is used.
pub open spec fn add_usage() -> Seq<char> {
    "`/add` must be followed by an imdb URL you idiot"@
}

/// How the commands that take an item out of the queue are used.
pub open spec fn delete_usage() -> Seq<char> {
    "`/(delete|watch)` must be followed by a movie title you idiot"@
}

/// The answer where no item with the title `title` is queued.
pub open spec fn not_queued(title: Seq<char>) -> Seq<char> {
    "couldn't find '"@ + title + "' in queue"@
}

/// The answer to a chat that may not use the bot: only the chat `admitted`
/// may.
pub fn admission(chat_id: i64, admitted: i64) -> (refusal: Option<String>)
    ensures
        match refusal {
            Some(text) => chat_id != admitted && text@ == not_admitted(),
            None => chat_id == admitted,
        },
{
    if chat_id != admitted {
        Some("You're not allowed to use this bot".to_owned())
    } else {
        None
    }
}

/// The reply to the command that adds an item without naming its source.
pub fn add_movie_usage() -> (reply: String)
    ensures
        reply@ == add_usage(),
{
    "`/add` must be followed by an imdb URL you idiot".to_owned()
}

/// The reply to the command that added an item, with the outcome `outcome`.
pub fn add_movie_reply(outcome: Result<Movie, ApiError>) -> (reply: String)
    ensures
        reply@ == outcome_reply("add_movie"@, outcome),
{
    reply_to("add_movie", outcome)
}

/// The reply to a command that takes an item out of the queue without
/// naming its title, if `title` is empty. A caller asks this before it
/// resolves the queue, so that nothing is fetched for a command that names no
/// title; `Command::delete_movie` answers the same way.
pub fn delete_movie_usage(title: &str) -> (reply: Option<String>)
    ensures
        match reply {
            Some(text) => title@.len() == 0 && text@ == delete_usage(),
            None => title@.len() > 0,
        },
{
    if title.unicode_len() == 0 {
        Some("`/(delete|watch)` must be followed by a movie title you idiot".to_owned())
    } else {
        None
    }
}

/// The reply to the command that takes the item with the title `title` out
/// of the queue: that no such item is queued, where `outcome` is `None`, or
/// else what is said of the outcome of the removal.
pub fn delete_movie_reply(title: &str, outcome: Option<Result<Movie, ApiError>>) -> (reply: String)
    ensures
        reply@ == match outcome {
            None => not_queued(title@),
            Some(outcome) => outcome_reply("delete_movie"@, outcome),
        },
{
    match outcome {
        None => {
            let mut reply: String = "couldn't find '".to_owned();
            reply.append(title);
            reply.append("' in queue");
            reply
        },
        Some(outcome) => reply_to("delete_movie", outcome),
    }
}

/// The lines of the items among `outcomes`, in order; failed items have
/// none.
pub open spec fn item_lines(outcomes: Seq<Result<Movie, ApiError>>) -> Seq<Seq<char>>
    decreases outcomes.len(),
{
    if outcomes.len() == 0 {
        Seq::empty()
    } else {
        match outcomes.last() {
            Ok(movie) => item_lines(outcomes.drop_last()).push(movie_line(movie@)),
            Err(_) => item_lines(outcomes.drop_last()),
        }
    }
}

/// The first `room` of `lines`, or all of them where they are fewer.
pub open spec fn at_most(lines: Seq<Seq<char>>, room: int) -> Seq<Seq<char>> {
    if lines.len() <= room {
        lines
    } else {
        lines.take(room)
    }
}

/// The options of the poll on which item to watch: the lines of the first
/// items, as many as leave room for `defaults` within `limit` options, and
/// then `defaults`.
pub open spec fn poll_options(
    outcomes: Seq<Result<Movie, ApiError>>,
    defaults: Seq<Seq<char>>,
    limit: int,
) -> Seq<Seq<char>> {
    at_most(item_lines(outcomes), limit - defaults.len()) + defaults
}

/// The options of the poll on which item to watch. Failed items are passed
/// over.
pub fn movie_poll_options(
    movies: &Movies,
    default_options: Vec<String>,
    limit: usize,
) -> (options: Vec<String>)
    requires
        default_options.len() <= limit,
    ensures
        texts(options@) == poll_options(movies.movies@, texts(default_options@), limit as int),
{
    let room: usize = limit - default_options.len();
    let count: usize = movies.movies.len();
    let mut options: Vec<String> = Vec::new();
    let mut i: usize = 0;
    proof {
        assert(movies.movies@.take(0) =~= Seq::<Result<Movie, ApiError>>::empty());
        assert(texts(options@) =~= Seq::<Seq<char>>::empty());
    }
    while i < count
        invariant
            i <= count,
            count == movies.movies.len(),
            options.len() <= room,
            texts(options@) == at_most(item_lines(movies.movies@.take(i as int)), room as int),
        decreases count - i,
    {
        let ghost before = movies.movies@.take(i as int);
        let ghost after = movies.movies@.take(i + 1);
        proof {
            assert(after.drop_last() =~= before);
            assert(after.last() == movies.movies@[i as int]);
        }
        match &movies.movies[i] {
            Ok(movie) => {
                if options.len() < room {
                    let line: String = movie.to_string();
                    proof {
                        assert(texts(options@.push(line)) =~= texts(options@).push(line@));
                    }
                    options.push(line);
                } else {
                    proof {
                        assert(at_most(item_lines(after), room as int) =~= at_most(
                            item_lines(before),
                            room as int,
                        ));
                    }
                }
            },
            Err(_) => {},
        }
        i = i + 1;
    }
    let ghost chosen = options@;
    let mut defaults: Vec<String> = default_options;
    options.append(&mut defaults);
    proof {
        assert(movies.movies@.take(count as int) =~= movies.movies@);
        assert(texts(options@) =~= texts(chosen) + texts(default_options@));
    }
    options
}

/// The options that `raw` lists: its parts between commas, each without the
/// white space at its ends.
pub fn poll_default_options(raw: &str) -> (options: Vec<String>)
    ensures
        texts(options@) == all_trimmed(pieces(raw@, ',')),
{
    split_trimmed(raw, ',')
}

/// What is said where a poll on which item to watch would have no options.
pub open spec fn no_poll_options() -> Seq<char> {
    "poll: no movies in queue (or error decoding individual ones)"@
}

/// The options of the poll on which item to watch, once the queue is
/// resolved, or what is said where there are none: the queue could not be
/// resolved, or it holds no item and there are no default options.
pub fn movie_poll(
    resolved: &Result<Movies, ApiError>,
    default_options: Vec<String>,
    limit: usize,
) -> (poll: Result<Vec<String>, String>)
    requires
        default_options.len() <= limit,
    ensures
        match poll {
            Ok(options) => {
                &&& options.len() > 0
                &&& *resolved matches Ok(movies)
                &&& texts(options@) == poll_options(
                    movies.movies@,
                    texts(default_options@),
                    limit as int,
                )
            },
            Err(said) => {
                &&& said@ == no_poll_options()
                &&& *resolved matches Ok(movies) ==> poll_options(
                    movies.movies@,
                    texts(default_options@),
                    limit as int,
                ).len() == 0
            },
        },
{
    match resolved {
        Ok(movies) => {
            let options: Vec<String> = movie_poll_options(movies, default_options, limit);
            if options.len() > 0 {
                return Ok(options);
            }
        },
        Err(_) => {},
    }
    Err("poll: no movies in queue (or error decoding individual ones)".to_owned())
}

} // verus!
