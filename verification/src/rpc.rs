//! The messages that the server and its clients exchange over the relay socket, and how the
//! server answers a request.
use crate::config::str_eq;
use vstd::prelude::*;

verus! {

/// The namespaces that requests are sorted into.
#[derive(Debug, Clone, Copy, PartialEq, Eq, Structural)]
pub enum Namespace {
    Health,
    Lsp,
    Agents,
    Documents,
}

/// A request that asks whether the other side is alive.
#[derive(Debug, Clone, Copy, PartialEq, Eq, Structural)]
pub struct HealthRequest {}

/// The answer to a `HealthRequest`.
#[derive(Debug, Clone, Copy, PartialEq, Eq, Structural)]
pub struct HealthResponse {}

/// A language-server message relayed to the server, as JSON text.
#[derive(Debug, PartialEq, Eq)]
pub struct LspRelayRequest {
    pub payload: String,
}

/// The server's language-server answer to a relayed message, as JSON text, if it has one.
#[derive(Debug, PartialEq, Eq)]
pub struct LspRelayResponse {
    pub payload: Option<String>,
}

/// A request to the server.
#[derive(Debug, PartialEq, Eq)]
pub enum Request {
    Lsp(LspRelayRequest),
    Health(HealthRequest),
}

/// A response from the server.
#[derive(Debug, PartialEq, Eq)]
pub enum Response {
    Lsp(LspRelayResponse),
    Health(HealthResponse),
}

/// A message on the relay socket: a request with its id, or the response to the request with
/// that id.
#[derive(Debug, PartialEq, Eq)]
pub enum RpcMessage {
    Req { id: String, req: Request },
    Res { id: String, res: Response },
}

impl HealthRequest {
    /// The namespace a health request belongs to.
    pub fn namespace(&self) -> (r: Namespace)
        ensures
            r == Namespace::Health,
    {
        Namespace::Health
    }
}

impl LspRelayRequest {
    /// The namespace a relayed language-server message belongs to.
    pub fn namespace(&self) -> (r: Namespace)
        ensures
            r == Namespace::Lsp,
    {
        Namespace::Lsp
    }
}

/// How the server deals with a request.
#[derive(Debug, PartialEq, Eq)]
pub enum RequestHandling {
    /// Answer at once with this response.
    Reply(Response),
    /// Hand the relayed message to the language-server handlers.
    Lsp(LspRelayRequest),
}

/// The server's handling of a request: a health request is answered with a health response,
/// a relayed message goes to the language-server handlers.
pub fn handle_rpc_request(req: Request) -> (r: RequestHandling)
    ensures
        match req {
            Request::Health(_) => r == RequestHandling::Reply(Response::Health(HealthResponse {})),
            Request::Lsp(l) => r == RequestHandling::Lsp(l),
        },
{
    match req {
        Request::Health(_) => RequestHandling::Reply(Response::Health(HealthResponse {})),
        Request::Lsp(l) => RequestHandling::Lsp(l),
    }
}

/// The response to a relayed message, given the language-server handlers' answer: the answer
/// relayed back, or no response when they had none.
pub fn lsp_response(answer: Option<String>) -> (r: Option<Response>)
    ensures
        match answer {
            Some(a) => r == Some(Response::Lsp(LspRelayResponse { payload: Some(a) })),
            None => r is None,
        },
{
    match answer {
        Some(a) => Some(Response::Lsp(LspRelayResponse { payload: Some(a) })),
        None => None,
    }
}

/// The kind of a language-server message, as far as the relay tells them apart.
#[derive(Debug, PartialEq, Eq)]
pub enum LspMessageKind {
    Notification,
    Request { method: String },
    Response,
}

/// Where a language-server message goes.
#[derive(Debug, Clone, Copy, PartialEq, Eq, Structural)]
pub enum LspDispatch {
    /// To the notification handlers.
    Notification,
    /// To the request handlers.
    Request,
    /// A `shutdown` request: stop serving.
    Shutdown,
    /// Responses have no handler: an error.
    NoHandler,
}

/// The dispatch of a language-server message: notifications and requests to their handlers,
/// except a `shutdown` request, which stops the server; responses have no handler.
pub fn dispatch_lsp(kind: &LspMessageKind) -> (r: LspDispatch)
    ensures
        r == match kind {
            LspMessageKind::Notification => LspDispatch::Notification,
            LspMessageKind::Request { method } => if method@ == "shutdown"@ {
                LspDispatch::Shutdown
            } else {
                LspDispatch::Request
            },
            LspMessageKind::Response => LspDispatch::NoHandler,
        },
{
    match kind {
        LspMessageKind::Notification => LspDispatch::Notification,
        LspMessageKind::Request { method } => if str_eq(method.as_str(), "shutdown") {
            LspDispatch::Shutdown
        } else {
            LspDispatch::Request
        },
        LspMessageKind::Response => LspDispatch::NoHandler,
    }
}

} // verus!
