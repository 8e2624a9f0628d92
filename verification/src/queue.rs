//! The resolution of the queue into per-item outcomes, as a state machine.
//!
//! The machine decides what is fetched next; its caller does the fetching
//! and hands each answer back as an event. A failed listing fails the whole
//! resolution. A failed item becomes an outcome like any other, at the place
//! of its reference in the queue.

use crate::api::ApiError;
use crate::movie::{identifiers, render_lines, Movie, Movies, Queue, QueueMovie};
use vstd::prelude::*;

verus! {

/// How far the resolution of the queue has come.
#[derive(Debug, PartialEq, Eq)]
pub enum QueueResolver {
    /// The queue listing has not arrived yet.
    AwaitingQueue,
    /// The listing has arrived; `outcomes` holds the answers for the first
    /// references of `refs`. The resolution is complete once there is an
    /// outcome for every reference.
    Resolving { refs: Vec<QueueMovie>, outcomes: Vec<Result<Movie, ApiError>> },
    /// The listing could not be fetched.
    Failed(ApiError),
}

/// An answer that the caller hands to the machine.
#[derive(Debug, PartialEq, Eq)]
pub enum FetchEvent {
    /// The answer to the request for the queue listing.
    QueueListed(Result<Queue, ApiError>),
    /// The answer to the request for the item that was asked for last.
    ItemFetched(Result<Movie, ApiError>),
}

/// What the caller is to do next.
#[derive(Debug, PartialEq, Eq)]
pub enum FetchAction {
    /// Fetch the queue listing.
    FetchQueue,
    /// Fetch the item with this identifier.
    FetchItem(String),
    /// Nothing is left to fetch: take the result.
    Finish,
}

/// The state of a resolution as a mathematical value: the queue is the
/// sequence of its identifiers.
pub enum ResolverView {
    AwaitingQueue,
    Resolving { refs: Seq<Seq<char>>, outcomes: Seq<Result<Movie, ApiError>> },
    Failed(ApiError),
}

/// An event as a mathematical value.
pub enum FetchEventView {
    QueueListed(Result<Seq<Seq<char>>, ApiError>),
    ItemFetched(Result<Movie, ApiError>),
}

/// An action as a mathematical value.
pub enum FetchActionView {
    FetchQueue,
    FetchItem(Seq<char>),
    Finish,
}

impl View for QueueResolver {
    type V = ResolverView;

    open spec fn view(&self) -> ResolverView {
        match *self {
            QueueResolver::AwaitingQueue => ResolverView::AwaitingQueue,
            QueueResolver::Resolving { refs, outcomes } => ResolverView::Resolving {
                refs: identifiers(refs@),
                outcomes: outcomes@,
            },
            QueueResolver::Failed(error) => ResolverView::Failed(error),
        }
    }
}

impl View for FetchEvent {
    type V = FetchEventView;

    open spec fn view(&self) -> FetchEventView {
        match *self {
            FetchEvent::QueueListed(Ok(queue)) => FetchEventView::QueueListed(Ok(queue@)),
            FetchEvent::QueueListed(Err(error)) => FetchEventView::QueueListed(Err(error)),
            FetchEvent::ItemFetched(outcome) => FetchEventView::ItemFetched(outcome),
        }
    }
}

impl View for FetchAction {
    type V = FetchActionView;

    open spec fn view(&self) -> FetchActionView {
        match *self {
            FetchAction::FetchQueue => FetchActionView::FetchQueue,
            FetchAction::FetchItem(id) => FetchActionView::FetchItem(id@),
            FetchAction::Finish => FetchActionView::Finish,
        }
    }
}

impl ResolverView {
    /// The state after `event`. The listing is taken only while it is
    /// awaited, and an item only while a reference is without an outcome: the
    /// item becomes the outcome of the first such reference. Any other event
    /// changes nothing.
    pub open spec fn step(self, event: FetchEventView) -> ResolverView {
        match (self, event) {
            (ResolverView::AwaitingQueue, FetchEventView::QueueListed(Ok(refs))) => {
                ResolverView::Resolving { refs, outcomes: Seq::empty() }
            },
            (ResolverView::AwaitingQueue, FetchEventView::QueueListed(Err(error))) => {
                ResolverView::Failed(error)
            },
            (ResolverView::Resolving { refs, outcomes }, FetchEventView::ItemFetched(outcome)) => {
                if outcomes.len() < refs.len() {
                    ResolverView::Resolving { refs, outcomes: outcomes.push(outcome) }
                } else {
                    self
                }
            },
            _ => self,
        }
    }

    /// What is to be done in this state: fetch the listing, fetch the item of
    /// the first reference without an outcome, or finish.
    pub open spec fn action(self) -> FetchActionView {
        match self {
            ResolverView::AwaitingQueue => FetchActionView::FetchQueue,
            ResolverView::Resolving { refs, outcomes } => {
                if outcomes.len() < refs.len() {
                    FetchActionView::FetchItem(refs[outcomes.len() as int])
                } else {
                    FetchActionView::Finish
                }
            },
            ResolverView::Failed(_) => FetchActionView::Finish,
        }
    }

    /// The result of the resolution, once nothing is left to fetch: the
    /// outcomes, or the failure of the listing.
    pub open spec fn result(self) -> Option<Result<Seq<Result<Movie, ApiError>>, ApiError>> {
        match self {
            ResolverView::AwaitingQueue => None,
            ResolverView::Resolving { refs, outcomes } => {
                if outcomes.len() < refs.len() {
                    None
                } else {
                    Some(Ok(outcomes))
                }
            },
            ResolverView::Failed(error) => Some(Err(error)),
        }
    }

    /// The state after `events`, taken in order.
    pub open spec fn run(self, events: Seq<FetchEventView>) -> ResolverView
        decreases events.len(),
    {
        if events.len() == 0 {
            self
        } else {
            self.run(events.drop_last()).step(events.last())
        }
    }
}

impl QueueResolver {
    /// A resolution at its beginning, and its first action: to fetch the
    /// queue listing.
    pub fn start() -> (begun: (QueueResolver, FetchAction))
        ensures
            begun.0@ == ResolverView::AwaitingQueue,
            begun.1@ == begun.0@.action(),
    {
        (QueueResolver::AwaitingQueue, FetchAction::FetchQueue)
    }

    /// What is to be done in this state.
    pub fn next_action(&self) -> (action: FetchAction)
        ensures
            action@ == self@.action(),
    {
        match self {
            QueueResolver::AwaitingQueue => FetchAction::FetchQueue,
            QueueResolver::Resolving { refs, outcomes } => {
                if outcomes.len() < refs.len() {
                    FetchAction::FetchItem(refs[outcomes.len()].id.clone())
                } else {
                    FetchAction::Finish
                }
            },
            QueueResolver::Failed(_) => FetchAction::Finish,
        }
    }

    /// Takes `event` and says what is to be done next.
    pub fn step(self, event: FetchEvent) -> (next: (QueueResolver, FetchAction))
        ensures
            next.0@ == self@.step(event@),
            next.1@ == next.0@.action(),
    {
        let state: QueueResolver = match (self, event) {
            (QueueResolver::AwaitingQueue, FetchEvent::QueueListed(Ok(queue))) => {
                QueueResolver::Resolving { refs: queue.queue, outcomes: Vec::new() }
            },
            (QueueResolver::AwaitingQueue, FetchEvent::QueueListed(Err(error))) => {
                QueueResolver::Failed(error)
            },
            (QueueResolver::Resolving { refs, outcomes }, FetchEvent::ItemFetched(outcome)) => {
                let mut outcomes = outcomes;
                if outcomes.len() < refs.len() {
                    outcomes.push(outcome);
                }
                QueueResolver::Resolving { refs, outcomes }
            },
            (state, _) => state,
        };
        let action: FetchAction = state.next_action();
        (state, action)
    }

    /// The result of the resolution, once nothing is left to fetch.
    pub fn into_result(self) -> (result: Option<Result<Movies, ApiError>>)
        ensures
            match result {
                Some(Ok(movies)) => self@.result() == Some(
                    Ok::<Seq<Result<Movie, ApiError>>, ApiError>(movies.movies@),
                ),
                Some(Err(error)) => self@.result() == Some(
                    Err::<Seq<Result<Movie, ApiError>>, ApiError>(error),
                ),
                None => self@.result() is None,
            },
    {
        match self {
            QueueResolver::AwaitingQueue => None,
            QueueResolver::Resolving { refs, outcomes } => {
                if outcomes.len() < refs.len() {
                    None
                } else {
                    Some(Ok(Movies { movies: outcomes }))
                }
            },
            QueueResolver::Failed(error) => Some(Err(error)),
        }
    }
}

/// The events of a resolution in which the listing gives `refs` and the
/// requests for items are answered by `answers`, in order.
pub open spec fn resolution_events(
    refs: Seq<Seq<char>>,
    answers: Seq<Result<Movie, ApiError>>,
) -> Seq<FetchEventView> {
    seq![FetchEventView::QueueListed(Ok(refs))] + Seq::new(
        answers.len(),
        |i: int| FetchEventView::ItemFetched(answers[i]),
    )
}

/// Order preservation. After the listing and the answers to the first
/// requests for items, whichever of them failed, the outcomes are those
/// answers in the order of the references. While a reference is without an
/// outcome, the next request is for the first such reference; once every
/// reference has one, the result is the sequence of all answers, as long as
/// the queue, the answer to the request for the `i`-th reference at place `i`.
pub proof fn lemma_resolution_preserves_order(
    refs: Seq<Seq<char>>,
    answers: Seq<Result<Movie, ApiError>>,
)
    requires
        answers.len() <= refs.len(),
    ensures
        ({
            let state = ResolverView::AwaitingQueue.run(resolution_events(refs, answers));
            &&& state == ResolverView::Resolving { refs, outcomes: answers }
            &&& answers.len() < refs.len() ==> state.action() == FetchActionView::FetchItem(
                refs[answers.len() as int],
            ) && state.result() is None
            &&& answers.len() == refs.len() ==> state.action() == FetchActionView::Finish
                && state.result() == Some(Ok::<Seq<Result<Movie, ApiError>>, ApiError>(answers))
        }),
    decreases answers.len(),
{
    let events = resolution_events(refs, answers);
    let begin = ResolverView::AwaitingQueue;
    if answers.len() == 0 {
        assert(events.drop_last() =~= Seq::<FetchEventView>::empty());
        assert(begin.run(events.drop_last()) == begin);
        assert(answers =~= Seq::<Result<Movie, ApiError>>::empty());
    } else {
        let earlier = answers.drop_last();
        lemma_resolution_preserves_order(refs, earlier);
        assert(events.drop_last() =~= resolution_events(refs, earlier));
        assert(events.last() == FetchEventView::ItemFetched(answers.last()));
        assert(earlier.push(answers.last()) =~= answers);
    }
}

/// A listing that fails ends the resolution with that failure, and nothing
/// else is fetched.
pub proof fn lemma_failed_listing_fails(error: ApiError)
    ensures
        ({
            let state = ResolverView::AwaitingQueue.step(FetchEventView::QueueListed(Err(error)));
            &&& state.action() == FetchActionView::Finish
            &&& state.result() == Some(Err::<Seq<Result<Movie, ApiError>>, ApiError>(error))
        }),
{
}

/// No line is dropped: the outcomes of a resolved queue are shown in as many
/// lines as the queue has references, failed items included.
pub proof fn lemma_one_line_per_reference(
    refs: Seq<Seq<char>>,
    answers: Seq<Result<Movie, ApiError>>,
)
    requires
        answers.len() == refs.len(),
    ensures
        ResolverView::AwaitingQueue.run(resolution_events(refs, answers)).result() matches Some(
            Ok(outcomes),
        ) && render_lines(outcomes).len() == refs.len(),
{
    lemma_resolution_preserves_order(refs, answers);
}

} // verus!
