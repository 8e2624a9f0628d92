//! The client of the provider lookup service, and how its answer is shown.

use crate::address::Address;
use crate::api::{
    builds, read, reads, reply_outcome, request_to, ApiError, Method, Reply, Request, RequestBody,
    RequestBodyView,
};
use crate::numeral::{decimal, decimal_string};
use crate::text::{join, joined, texts};
use vstd::prelude::*;

verus! {

/// The operations of the provider lookup service.
pub enum ResolverApiEndpoints {
    /// Look a title up.
    Search,
}

impl ResolverApiEndpoints {
    /// The path of this operation, relative to the base address of the
    /// service.
    pub open spec fn path(&self) -> Seq<char> {
        match *self {
            ResolverApiEndpoints::Search => "search"@,
        }
    }

    /// The path of this operation.
    pub fn to_string(&self) -> (path: String)
        ensures
            path@ == self.path(),
    {
        match self {
            ResolverApiEndpoints::Search => "search".to_owned(),
        }
    }
}

/// A title that a provider offers.
#[derive(Clone, Debug, PartialEq, Eq)]
pub struct SearchItem {
    pub title: String,
    pub id: Option<String>,
    pub _type: Option<String>,
    pub year: Option<u16>,
}

impl SearchItem {
    /// The line of this title: the title, and the year in brackets where it
    /// is known.
    pub open spec fn line(&self) -> Seq<char> {
        match self.year {
            Some(year) => self.title@ + " ("@ + decimal(year as nat) + ")"@,
            None => self.title@,
        }
    }

    /// The line of this title.
    pub fn to_string(&self) -> (line: String)
        ensures
            line@ == self.line(),
    {
        let mut line: String = self.title.clone();
        match self.year {
            Some(year) => {
                let digits: String = decimal_string(year as u64);
                line.append(" (");
                line.append(digits.as_str());
                line.append(")");
            },
            None => {},
        }
        line
    }
}

/// The lines of `items`, in order.
pub open spec fn item_lines(items: Seq<SearchItem>) -> Seq<Seq<char>> {
    Seq::new(items.len(), |i: int| items[i].line())
}

/// A provider and the titles that it offers.
#[derive(Clone, Debug, PartialEq, Eq)]
pub struct StreamingproviderResolverResponseItem {
    pub name: String,
    pub movies: Vec<SearchItem>,
}

impl StreamingproviderResolverResponseItem {
    /// The block of this provider: its name and a colon, then one line for
    /// each title, indented by two spaces.
    pub open spec fn block(&self) -> Seq<char> {
        self.name@ + ":\n"@ + "  "@ + joined(item_lines(self.movies@), "\n  "@)
    }

    /// The block of this provider.
    pub fn to_string(&self) -> (block: String)
        ensures
            block@ == self.block(),
    {
        let mut lines: Vec<String> = Vec::new();
        let count: usize = self.movies.len();
        let mut i: usize = 0;
        while i < count
            invariant
                i <= count,
                count == self.movies.len(),
                texts(lines@) == item_lines(self.movies@.take(i as int)),
            decreases count - i,
        {
            let line: String = self.movies[i].to_string();
            proof {
                let before = texts(lines@);
                let after = texts(lines@.push(line));
                let wanted = item_lines(self.movies@.take(i + 1));
                assert(before.len() == i);
                assert forall|j: int| 0 <= j < after.len() implies after[j] == wanted[j] by {
                    if j < i {
                        assert(after[j] == before[j]);
                        assert(item_lines(self.movies@.take(i as int))[j] == wanted[j]);
                    }
                }
                assert(after =~= wanted);
            }
            lines.push(line);
            i = i + 1;
        }
        proof {
            assert(self.movies@.take(count as int) =~= self.movies@);
        }
        let body: String = join(&lines, "\n  ");
        let mut block: String = self.name.clone();
        block.append(":\n");
        block.append("  ");
        block.append(body.as_str());
        block
    }
}

/// The blocks of `items`, in order.
pub open spec fn item_blocks(items: Seq<StreamingproviderResolverResponseItem>) -> Seq<Seq<char>> {
    Seq::new(items.len(), |i: int| items[i].block())
}

/// The answer of the provider lookup service: the providers that offer the
/// title.
#[derive(Clone, Debug, PartialEq, Eq)]
pub struct StreamingproviderResolverResponse {
    pub results: Vec<StreamingproviderResolverResponseItem>,
}

impl StreamingproviderResolverResponse {
    /// The text of this answer: the blocks of its providers, with an empty
    /// line between each two.
    pub open spec fn text(&self) -> Seq<char> {
        joined(item_blocks(self.results@), "\n\n"@)
    }

    /// The text of this answer.
    pub fn to_string(&self) -> (text: String)
        ensures
            text@ == self.text(),
    {
        let mut blocks: Vec<String> = Vec::new();
        let count: usize = self.results.len();
        let mut i: usize = 0;
        while i < count
            invariant
                i <= count,
                count == self.results.len(),
                texts(blocks@) == item_blocks(self.results@.take(i as int)),
            decreases count - i,
        {
            let block: String = self.results[i].to_string();
            proof {
                let before = texts(blocks@);
                let after = texts(blocks@.push(block));
                let wanted = item_blocks(self.results@.take(i + 1));
                assert(before.len() == i);
                assert forall|j: int| 0 <= j < after.len() implies after[j] == wanted[j] by {
                    if j < i {
                        assert(after[j] == before[j]);
                        assert(item_blocks(self.results@.take(i as int))[j] == wanted[j]);
                    }
                }
                assert(after =~= wanted);
            }
            blocks.push(block);
            i = i + 1;
        }
        proof {
            assert(self.results@.take(count as int) =~= self.results@);
        }
        join(&blocks, "\n\n")
    }
}

/// The client of the provider lookup service at one base address.
#[derive(Clone, Debug, PartialEq, Eq)]
pub struct ResolverApi {
    base_url: Address,
}

impl ResolverApi {
    /// The base address of the service.
    pub closed spec fn base(&self) -> Seq<char> {
        self.base_url@
    }

    /// A client of the service at `base_url`.
    pub fn new(base_url: Address) -> (api: ResolverApi)
        ensures
            api.base() == base_url@,
    {
        ResolverApi { base_url }
    }

    /// The request that posts `body` to `path`. A path that cannot be read
    /// relative to the base address is a transport failure.
    pub fn post(&self, path: String, body: RequestBody) -> (built: Result<Request, ApiError>)
        ensures
            builds(built, request_to(self.base(), Method::Post, path@, body@)),
    {
        match self.base_url.join(path.as_str()) {
            Ok(url) => Ok(Request { method: Method::Post, url, body }),
            Err(invalid) => Err(ApiError::Transport(invalid.reason)),
        }
    }

    /// The request that looks `title` up, of whatever year.
    pub fn search(&self, title: String) -> (built: Result<Request, ApiError>)
        ensures
            builds(
                built,
                request_to(
                    self.base(),
                    Method::Post,
                    ResolverApiEndpoints::Search.path(),
                    RequestBodyView::SearchTitle { title: title@, year: None },
                ),
            ),
    {
        let body = RequestBody::SearchTitle { title, year: None };
        self.post(ResolverApiEndpoints::Search.to_string(), body)
    }

    /// The outcome of a lookup, from the answer to its request. The body is
    /// decoded once, by `decode`, and only where the answer is a success.
    pub fn read_reply<R, F: FnOnce(String) -> Result<R, String>>(
        reply: Result<Reply, String>,
        decode: F,
    ) -> (outcome: Result<R, ApiError>)
        requires
            forall|body: String| decode.requires((body,)),
        ensures
            reads(outcome, reply_outcome(false, reply), decode),
    {
        read(false, reply, decode)
    }
}

} // verus!
