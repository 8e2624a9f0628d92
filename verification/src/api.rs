//! The client of the remote catalog: which request each operation makes, and
//! what each reply means.
//!
//! An operation is one round trip. The client builds its request; the caller
//! sends it and hands back what came: the reply, or the reason for which none
//! came. The client then says what that means: the body to decode, and, once
//! it is decoded, the item; or the failure. Nothing is tried twice.

use crate::address::{url_join, Address};
use crate::status::MovieStatus;
use crate::numeral::{decimal, decimal_string};
use crate::text::chain;
use vstd::prelude::*;

verus! {

/// The kinds of failure that a catalog operation can end in.
#[derive(Clone, Copy, Debug, PartialEq, Eq, Structural)]
pub enum FailureKind {
    /// The service could not be reached, or the request address was malformed.
    Transport,
    /// The reply did not have the expected shape.
    Decode,
    /// The service answered with a status that is no success.
    Service,
    /// The item to create exists already.
    Conflict,
}

/// A failed catalog operation. Beyond its kind, what a failure holds is only
/// there to be shown.
#[derive(Clone, Debug, PartialEq, Eq)]
pub enum ApiError {
    /// The service could not be reached, or the request address was
    /// malformed; with the reason.
    Transport(String),
    /// The body of the reply did not have the expected shape; with the
    /// reason.
    Decode(String),
    /// The service answered with a status that is no success; with the
    /// status and the body of the reply.
    Service { status: u16, message: String },
    /// The item to create exists already.
    Conflict,
}

impl ApiError {
    /// The kind of this failure.
    pub open spec fn spec_kind(&self) -> FailureKind {
        match *self {
            ApiError::Transport(_) => FailureKind::Transport,
            ApiError::Decode(_) => FailureKind::Decode,
            ApiError::Service { .. } => FailureKind::Service,
            ApiError::Conflict => FailureKind::Conflict,
        }
    }

    /// What is said of this failure to a reader.
    pub open spec fn description(&self) -> Seq<char> {
        match *self {
            ApiError::Transport(reason) => "transport failure: "@ + reason@,
            ApiError::Decode(reason) => "decode failure: "@ + reason@,
            ApiError::Service { status, message } => "service failure ("@ + decimal(status as nat)
                + "): "@ + message@,
            ApiError::Conflict => "movie already exists"@,
        }
    }

    /// The kind of this failure.
    #[verifier::when_used_as_spec(spec_kind)]
    pub fn kind(&self) -> (kind: FailureKind)
        ensures
            kind == self.spec_kind(),
    {
        match self {
            ApiError::Transport(_) => FailureKind::Transport,
            ApiError::Decode(_) => FailureKind::Decode,
            ApiError::Service { .. } => FailureKind::Service,
            ApiError::Conflict => FailureKind::Conflict,
        }
    }

    /// What is said of this failure to a reader.
    pub fn to_string(&self) -> (text: String)
        ensures
            text@ == self.description(),
    {
        match self {
            ApiError::Transport(reason) => chain("transport failure: ", reason.as_str()),
            ApiError::Decode(reason) => chain("decode failure: ", reason.as_str()),
            ApiError::Service { status, message } => {
                let code: String = decimal_string(*status as u64);
                let mut text: String = "service failure (".to_owned();
                text.append(code.as_str());
                text.append("): ");
                text.append(message.as_str());
                text
            },
            ApiError::Conflict => "movie already exists".to_owned(),
        }
    }
}

/// The operations of the catalog service.
pub enum ApiEndpoints<'a> {
    /// Create an item.
    AddMovie,
    /// Give the item with this identifier this status.
    DeleteMovie(&'a String, MovieStatus),
    /// Fetch the item with this identifier.
    GetMovie(&'a String),
    /// Fetch the queue listing.
    Queue,
}

impl<'a> ApiEndpoints<'a> {
    /// The path of this operation, relative to the base address of the
    /// service.
    pub open spec fn path(&self) -> Seq<char> {
        match *self {
            ApiEndpoints::AddMovie => "movie"@,
            ApiEndpoints::DeleteMovie(id, status) => "queue/"@ + id@ + "?status="@ + status.name(),
            ApiEndpoints::GetMovie(id) => "movie/"@ + id@,
            ApiEndpoints::Queue => "queue"@,
        }
    }

    /// The request method of this operation.
    pub open spec fn spec_method(&self) -> Method {
        match *self {
            ApiEndpoints::AddMovie => Method::Put,
            ApiEndpoints::DeleteMovie(_, _) => Method::Delete,
            ApiEndpoints::GetMovie(_) => Method::Get,
            ApiEndpoints::Queue => Method::Get,
        }
    }

    /// Whether this operation creates an item.
    pub open spec fn creates(&self) -> bool {
        *self is AddMovie
    }

    /// Whether this operation creates an item.
    pub fn is_creation(&self) -> (creates: bool)
        ensures
            creates == self.creates(),
    {
        match self {
            ApiEndpoints::AddMovie => true,
            _ => false,
        }
    }

    /// The path of this operation.
    pub fn to_string(&self) -> (path: String)
        ensures
            path@ == self.path(),
    {
        match self {
            ApiEndpoints::AddMovie => "movie".to_owned(),
            ApiEndpoints::DeleteMovie(id, status) => {
                let status: String = status.to_string();
                let mut path: String = "queue/".to_owned();
                path.append(id.as_str());
                path.append("?status=");
                path.append(status.as_str());
                path
            },
            ApiEndpoints::GetMovie(id) => chain("movie/", id.as_str()),
            ApiEndpoints::Queue => "queue".to_owned(),
        }
    }

    /// The request method of this operation.
    #[verifier::when_used_as_spec(spec_method)]
    pub fn method(&self) -> (method: Method)
        ensures
            method == self.spec_method(),
    {
        match self {
            ApiEndpoints::AddMovie => Method::Put,
            ApiEndpoints::DeleteMovie(_, _) => Method::Delete,
            ApiEndpoints::GetMovie(_) => Method::Get,
            ApiEndpoints::Queue => Method::Get,
        }
    }
}

/// The method of a request.
#[derive(Clone, Copy, Debug, PartialEq, Eq, Structural)]
pub enum Method {
    Get,
    Put,
    Delete,
    Post,
}

/// What a request carries.
#[derive(Clone, Debug, PartialEq, Eq)]
pub enum RequestBody {
    /// Nothing.
    Empty,
    /// The source of the item to create.
    AddMovie { imdb_url: String },
    /// The title to look up, and the year where it is known.
    SearchTitle { title: String, year: Option<u16> },
}

/// One request to a service: the caller sends it and hands back the reply.
#[derive(Clone, Debug, PartialEq, Eq)]
pub struct Request {
    pub method: Method,
    pub url: Address,
    pub body: RequestBody,
}

/// What a request carries, as a mathematical value.
pub enum RequestBodyView {
    Empty,
    AddMovie { imdb_url: Seq<char> },
    SearchTitle { title: Seq<char>, year: Option<u16> },
}

/// A request as a mathematical value.
pub struct RequestView {
    pub method: Method,
    pub url: Seq<char>,
    pub body: RequestBodyView,
}

impl View for RequestBody {
    type V = RequestBodyView;

    open spec fn view(&self) -> RequestBodyView {
        match *self {
            RequestBody::Empty => RequestBodyView::Empty,
            RequestBody::AddMovie { imdb_url } => RequestBodyView::AddMovie { imdb_url: imdb_url@ },
            RequestBody::SearchTitle { title, year } => RequestBodyView::SearchTitle {
                title: title@,
                year,
            },
        }
    }
}

impl View for Request {
    type V = RequestView;

    open spec fn view(&self) -> RequestView {
        RequestView { method: self.method, url: self.url@, body: self.body@ }
    }
}

impl RequestView {
    /// Whether this request creates an item: it carries the source of one.
    pub open spec fn creates(self) -> bool {
        self.body is AddMovie
    }
}

impl Request {
    /// Whether this request creates an item.
    pub fn is_creation(&self) -> (creates: bool)
        ensures
            creates == self@.creates(),
    {
        match &self.body {
            RequestBody::AddMovie { .. } => true,
            _ => false,
        }
    }
}

/// The request with `method` and `body` for `path` at the service at `base`,
/// where `path` can be read relative to `base`.
pub open spec fn request_to(
    base: Seq<char>,
    method: Method,
    path: Seq<char>,
    body: RequestBodyView,
) -> Option<RequestView> {
    match url_join(base, path) {
        Some(url) => Some(RequestView { method, url, body }),
        None => None,
    }
}

/// The request of the operation `endpoint` with `body` at the service at
/// `base`, where the path of the operation can be read relative to `base`.
pub open spec fn endpoint_request(
    base: Seq<char>,
    endpoint: ApiEndpoints,
    body: RequestBodyView,
) -> Option<RequestView> {
    request_to(base, endpoint.spec_method(), endpoint.path(), body)
}

/// Whether `built` is the request `wanted`, or, where there is none, a
/// transport failure.
pub open spec fn builds(built: Result<Request, ApiError>, wanted: Option<RequestView>) -> bool {
    match built {
        Ok(request) => wanted == Some(request@),
        Err(error) => wanted is None && error.spec_kind() == FailureKind::Transport,
    }
}

/// Whether `built`, where it is a request, creates an item exactly if
/// `creates` says so.
pub open spec fn creation_is(built: Result<Request, ApiError>, creates: bool) -> bool {
    built matches Ok(request) ==> request@.creates() == creates
}

/// What a service answered: the status code and the text of the body.
#[derive(Clone, Debug, PartialEq, Eq)]
pub struct Reply {
    pub status: u16,
    pub body: String,
}

/// The status code with which the service refuses to create an item that
/// exists already.
pub const STATUS_CONFLICT: u16 = 409;

/// Whether `status` is a success.
pub open spec fn is_success(status: u16) -> bool {
    200 <= status < 300
}

/// What the answer to a request means; `creates` says whether the request
/// creates an item. A request that got no answer is a transport failure. On
/// the creation of an item, the conflict status is a conflict. Any other
/// status that is no success is a service failure with the body as its
/// message. A success hands on the body.
pub open spec fn reply_outcome(creates: bool, reply: Result<Reply, String>) -> Result<
    String,
    ApiError,
> {
    match reply {
        Err(reason) => Err(ApiError::Transport(reason)),
        Ok(reply) => {
            if creates && reply.status == STATUS_CONFLICT {
                Err(ApiError::Conflict)
            } else if !is_success(reply.status) {
                Err(ApiError::Service { status: reply.status, message: reply.body })
            } else {
                Ok(reply.body)
            }
        },
    }
}

/// What the answer to a request means: the body to decode, or the failure.
pub fn accept(creates: bool, reply: Result<Reply, String>) -> (outcome: Result<String, ApiError>)
    ensures
        outcome == reply_outcome(creates, reply),
{
    match reply {
        Err(reason) => Err(ApiError::Transport(reason)),
        Ok(reply) => {
            if creates && reply.status == STATUS_CONFLICT {
                Err(ApiError::Conflict)
            } else if reply.status < 200 || reply.status >= 300 {
                Err(ApiError::Service { status: reply.status, message: reply.body })
            } else {
                Ok(reply.body)
            }
        },
    }
}

/// The outcome of an operation, from the answer to its request. The body is
/// decoded once, by `decode`, and only where the answer is a success; what
/// `decode` refuses is a decode failure.
pub fn read<R, F: FnOnce(String) -> Result<R, String>>(
    creates: bool,
    reply: Result<Reply, String>,
    decode: F,
) -> (outcome: Result<R, ApiError>)
    requires
        forall|body: String| decode.requires((body,)),
    ensures
        reads(outcome, reply_outcome(creates, reply), decode),
{
    match accept(creates, reply) {
        Err(error) => Err(error),
        Ok(body) => Api::decode_body(decode(body)),
    }
}

/// Whether `outcome` is what comes of `accepted`: its failure, or what
/// `decode` makes of its body.
pub open spec fn reads<R, F: FnOnce(String) -> Result<R, String>>(
    outcome: Result<R, ApiError>,
    accepted: Result<String, ApiError>,
    decode: F,
) -> bool {
    match accepted {
        Err(error) => outcome == Err::<R, ApiError>(error),
        Ok(body) => exists|decoded: Result<R, String>|
            decode.ensures((body,), decoded) && outcome == decoded_outcome(decoded),
    }
}

/// What a decoded body means: the value, or a decode failure with the reason
/// for which the body was refused.
pub open spec fn decoded_outcome<R>(decoded: Result<R, String>) -> Result<R, ApiError> {
    match decoded {
        Ok(value) => Ok(value),
        Err(reason) => Err(ApiError::Decode(reason)),
    }
}

/// The client of the catalog service at one base address.
#[derive(Clone, Debug, PartialEq, Eq)]
pub struct Api {
    base_url: Address,
}

impl Api {
    /// The base address of the service.
    pub closed spec fn base(&self) -> Seq<char> {
        self.base_url@
    }

    /// A client of the service at `base_url`.
    pub fn new(base_url: Address) -> (api: Api)
        ensures
            api.base() == base_url@,
    {
        Api { base_url }
    }

    /// The address of `endpoint` at this service. A path that cannot be read
    /// relative to the base address is a transport failure.
    pub fn join_on_base_url(&self, endpoint: &String) -> (joined: Result<Address, ApiError>)
        ensures
            match joined {
                Ok(url) => url_join(self.base(), endpoint@) == Some(url@),
                Err(error) => url_join(self.base(), endpoint@) is None && error.spec_kind()
                    == FailureKind::Transport,
            },
    {
        match self.base_url.join(endpoint.as_str()) {
            Ok(url) => Ok(url),
            Err(invalid) => Err(ApiError::Transport(invalid.reason)),
        }
    }

    /// The request that reads `path`.
    pub fn get(&self, path: String) -> (built: Result<Request, ApiError>)
        ensures
            builds(built, request_to(self.base(), Method::Get, path@, RequestBodyView::Empty)),
    {
        let url: Address = self.join_on_base_url(&path)?;
        Ok(Request { method: Method::Get, url, body: RequestBody::Empty })
    }

    /// The request that puts `body` at `path`.
    pub fn put(&self, path: String, body: RequestBody) -> (built: Result<Request, ApiError>)
        ensures
            builds(built, request_to(self.base(), Method::Put, path@, body@)),
    {
        let url: Address = self.join_on_base_url(&path)?;
        Ok(Request { method: Method::Put, url, body })
    }

    /// The request that deletes `path`.
    pub fn delete(&self, path: String) -> (built: Result<Request, ApiError>)
        ensures
            builds(built, request_to(self.base(), Method::Delete, path@, RequestBodyView::Empty)),
    {
        let url: Address = self.join_on_base_url(&path)?;
        Ok(Request { method: Method::Delete, url, body: RequestBody::Empty })
    }

    /// The request that creates the item whose source is `imdb_url`.
    pub fn add_movie(&self, imdb_url: Address) -> (built: Result<Request, ApiError>)
        ensures
            builds(
                built,
                endpoint_request(
                    self.base(),
                    ApiEndpoints::AddMovie,
                    RequestBodyView::AddMovie { imdb_url: imdb_url@ },
                ),
            ),
            creation_is(built, ApiEndpoints::AddMovie.creates()),
    {
        let body = RequestBody::AddMovie { imdb_url: imdb_url.into_string() };
        self.put(ApiEndpoints::AddMovie.to_string(), body)
    }

    /// The request that gives the item `id` the status `status`: it leaves
    /// the queue as deleted or as watched.
    pub fn delete_movie(&self, id: String, status: MovieStatus) -> (built: Result<
        Request,
        ApiError,
    >)
        ensures
            builds(
                built,
                endpoint_request(
                    self.base(),
                    ApiEndpoints::DeleteMovie(&id, status),
                    RequestBodyView::Empty,
                ),
            ),
            creation_is(built, ApiEndpoints::DeleteMovie(&id, status).creates()),
    {
        self.delete(ApiEndpoints::DeleteMovie(&id, status).to_string())
    }

    /// The request that fetches the item `id`.
    pub fn get_movie(&self, id: &String) -> (built: Result<Request, ApiError>)
        ensures
            builds(
                built,
                endpoint_request(self.base(), ApiEndpoints::GetMovie(id), RequestBodyView::Empty),
            ),
            creation_is(built, ApiEndpoints::GetMovie(id).creates()),
    {
        self.get(ApiEndpoints::GetMovie(id).to_string())
    }

    /// The request that fetches the queue listing.
    pub fn queue(&self) -> (built: Result<Request, ApiError>)
        ensures
            builds(
                built,
                endpoint_request(self.base(), ApiEndpoints::Queue, RequestBodyView::Empty),
            ),
            creation_is(built, ApiEndpoints::Queue.creates()),
    {
        self.get(ApiEndpoints::Queue.to_string())
    }

    /// What the answer to the request of `endpoint` means: the body to
    /// decode, or the failure.
    pub fn accept_reply(endpoint: &ApiEndpoints, reply: Result<Reply, String>) -> (outcome: Result<
        String,
        ApiError,
    >)
        ensures
            outcome == reply_outcome(endpoint.creates(), reply),
    {
        accept(endpoint.is_creation(), reply)
    }

    /// What a decoded body means: the value, or a decode failure with the
    /// reason for which the body was refused.
    pub fn decode_body<R>(decoded: Result<R, String>) -> (outcome: Result<R, ApiError>)
        ensures
            outcome == decoded_outcome(decoded),
    {
        match decoded {
            Ok(value) => Ok(value),
            Err(reason) => Err(ApiError::Decode(reason)),
        }
    }

    /// The outcome of the operation `endpoint`, from the answer to its
    /// request. The body is decoded once, by `decode`, and only where the
    /// answer is a success; what `decode` refuses is a decode failure.
    pub fn read_reply<R, F: FnOnce(String) -> Result<R, String>>(
        endpoint: &ApiEndpoints,
        reply: Result<Reply, String>,
        decode: F,
    ) -> (outcome: Result<R, ApiError>)
        requires
            forall|body: String| decode.requires((body,)),
        ensures
            reads(outcome, reply_outcome(endpoint.creates(), reply), decode),
    {
        read(endpoint.is_creation(), reply, decode)
    }
}

/// The kind of the failure in which `outcome` ends, if it ends in one.
pub open spec fn failure_kind<T>(outcome: Result<T, ApiError>) -> Option<FailureKind> {
    match outcome {
        Ok(_) => None,
        Err(error) => Some(error.spec_kind()),
    }
}

/// Conflict surfaced distinctly. The answer to a request is a conflict
/// exactly when the request creates an item and the service answers with the
/// conflict status. It is a transport failure exactly when there was no
/// answer, and a service failure exactly when any other status is no success.
/// No answer is judged a decode failure before its body was decoded. So a
/// conflict is never taken for a failure of another kind.
pub proof fn lemma_conflict_is_distinct(creates: bool, reply: Result<Reply, String>)
    ensures
        failure_kind(reply_outcome(creates, reply)) == Some(FailureKind::Conflict) <==> (creates
            && reply is Ok && reply->Ok_0.status == STATUS_CONFLICT),
        failure_kind(reply_outcome(creates, reply)) == Some(FailureKind::Transport)
            <==> reply is Err,
        failure_kind(reply_outcome(creates, reply)) == Some(FailureKind::Service) <==> (reply is Ok
            && !is_success(reply->Ok_0.status) && !(creates && reply->Ok_0.status
            == STATUS_CONFLICT)),
        failure_kind(reply_outcome(creates, reply)) != Some(FailureKind::Decode),
        reply_outcome(creates, reply) is Ok <==> (reply is Ok && is_success(reply->Ok_0.status)),
{
}

/// Creating an item that exists already ends in a conflict, whatever would
/// have been made of the body.
pub proof fn lemma_creation_conflict<R, F: FnOnce(String) -> Result<R, String>>(
    outcome: Result<R, ApiError>,
    reply: Reply,
    decode: F,
)
    requires
        reply.status == STATUS_CONFLICT,
        reads(
            outcome,
            reply_outcome(ApiEndpoints::AddMovie.creates(), Ok::<Reply, String>(reply)),
            decode,
        ),
    ensures
        outcome == Err::<R, ApiError>(ApiError::Conflict),
        failure_kind(outcome) == Some(FailureKind::Conflict),
        failure_kind(outcome) != Some(FailureKind::Transport),
        failure_kind(outcome) != Some(FailureKind::Decode),
{
}

} // verus!
