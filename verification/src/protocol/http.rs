//! The HTTP server: where its endpoints are mounted, what the endpoints
//! without a service behind them answer, and the life of the server from
//! binding its listener to the end of the last connection.

use crate::utils::text::push_text;
use crate::utils::text::str_eq;
use crate::utils::text::utf8;
use vstd::prelude::*;
use vstd::string::StringExecFns;

verus! {

/// An HTTP MCP server that supports both SSE and streamable HTTP.
pub struct HttpProtocol {}

/// What a client can reach on the one listener of the server.
#[derive(Clone, Copy, PartialEq, Eq, Structural, Debug)]
pub enum Endpoint {
    /// A banner with the version and the paths of the two transports.
    Banner,
    /// A probe that answers as long as the server runs.
    Ping,
    /// The liveness probe.
    Live,
    /// The readiness probe.
    Ready,
    /// The buffered transport: one request, one answer.
    StreamableHttp,
    /// The event stream of the streaming transport.
    Sse,
    /// Where a client of the streaming transport posts its messages.
    SseMessage,
}

/// The request methods that the server tells apart.
#[derive(Clone, Copy, PartialEq, Eq, Structural, Debug)]
pub enum Method {
    Get,
    /// Like `Get`, for the headers of the answer alone.
    Head,
    Post,
    Delete,
    Other,
}

/// Where a request goes.
#[derive(Clone, Copy, PartialEq, Eq, Structural, Debug)]
pub enum Routed {
    To(Endpoint),
    /// The path is that of an endpoint, which does not take the method.
    MethodNotAllowed,
    /// No endpoint has the path.
    NotFound,
}

impl Endpoint {
    /// The one path at which the endpoint is mounted.
    pub open spec fn path(self) -> Seq<char> {
        match self {
            Endpoint::Banner => "/"@,
            Endpoint::Ping => "/ping"@,
            Endpoint::Live => "/_health/live"@,
            Endpoint::Ready => "/_health/ready"@,
            Endpoint::StreamableHttp => "/mcp"@,
            Endpoint::Sse => "/mcp/sse"@,
            Endpoint::SseMessage => "/mcp/sse/message"@,
        }
    }

    /// The methods that the endpoint takes.
    pub open spec fn allows(self, method: Method) -> bool {
        match self {
            Endpoint::StreamableHttp => method == Method::Get || method == Method::Post || method
                == Method::Delete,
            Endpoint::SseMessage => method == Method::Post,
            _ => method == Method::Get || method == Method::Head,
        }
    }

    pub fn mount_path(self) -> (path: &'static str)
        ensures
            path@ == self.path(),
    {
        match self {
            Endpoint::Banner => "/",
            Endpoint::Ping => "/ping",
            Endpoint::Live => "/_health/live",
            Endpoint::Ready => "/_health/ready",
            Endpoint::StreamableHttp => "/mcp",
            Endpoint::Sse => "/mcp/sse",
            Endpoint::SseMessage => "/mcp/sse/message",
        }
    }

    pub fn takes(self, method: Method) -> (r: bool)
        ensures
            r == self.allows(method),
    {
        match self {
            Endpoint::StreamableHttp => method == Method::Get || method == Method::Post || method
                == Method::Delete,
            Endpoint::SseMessage => method == Method::Post,
            _ => method == Method::Get || method == Method::Head,
        }
    }

    /// The status and the body that a probe answers with; nothing for the
    /// endpoints that are no probes.
    pub open spec fn probe(self) -> Option<(u16, Seq<char>)> {
        match self {
            Endpoint::Ping => Some((200u16, "Ready\n"@)),
            Endpoint::Ready => Some((200u16, "Ready\n"@)),
            Endpoint::Live => Some((200u16, "Alive\n"@)),
            _ => None,
        }
    }

    pub fn probe_answer(self) -> (answer: Option<(u16, &'static str)>)
        ensures
            match answer {
                Some(a) => self.probe() == Some((a.0, a.1@)),
                None => self.probe() is None,
            },
    {
        match self {
            Endpoint::Ping => Some((200, "Ready\n")),
            Endpoint::Ready => Some((200, "Ready\n")),
            Endpoint::Live => Some((200, "Alive\n")),
            _ => None,
        }
    }
}

/// Two endpoints are never mounted at the same path.
pub proof fn lemma_paths_are_distinct(a: Endpoint, b: Endpoint)
    requires
        a.path() == b.path(),
    ensures
        a == b,
{
    reveal_strlit("/");
    reveal_strlit("/ping");
    reveal_strlit("/_health/live");
    reveal_strlit("/_health/ready");
    reveal_strlit("/mcp");
    reveal_strlit("/mcp/sse");
    reveal_strlit("/mcp/sse/message");
    assert(Endpoint::Banner.path().len() == 1);
    assert(Endpoint::Ping.path().len() == 5);
    assert(Endpoint::Live.path().len() == 13);
    assert(Endpoint::Ready.path().len() == 14);
    assert(Endpoint::StreamableHttp.path().len() == 4);
    assert(Endpoint::Sse.path().len() == 8);
    assert(Endpoint::SseMessage.path().len() == 16);
}

/// The endpoint that is mounted at `path`.
pub open spec fn endpoint_at(path: Seq<char>) -> Option<Endpoint> {
    if exists|e: Endpoint| e.path() == path {
        Some(choose|e: Endpoint| e.path() == path)
    } else {
        None
    }
}

/// Where a request with `method` for `path` goes.
pub open spec fn routed(method: Method, path: Seq<char>) -> Routed {
    match endpoint_at(path) {
        Some(endpoint) => if endpoint.allows(method) {
            Routed::To(endpoint)
        } else {
            Routed::MethodNotAllowed
        },
        None => Routed::NotFound,
    }
}

/// Each endpoint is found at its path.
pub proof fn lemma_endpoint_at_path(e: Endpoint)
    ensures
        endpoint_at(e.path()) == Some(e),
{
    let found = choose|x: Endpoint| x.path() == e.path();
    lemma_paths_are_distinct(found, e);
}

/// The text of the banner.
pub open spec fn banner(version: Seq<u8>) -> Seq<u8> {
    utf8("Elasticsearch MCP server. Version "@) + version + utf8(
        "\n\nEndpoints:\n- streamable-http: /mcp\n- sse: /mcp/sse\n"@,
    )
}

impl HttpProtocol {
    /// Finds the endpoint for a request.
    pub fn route(method: Method, path: &str) -> (r: Routed)
        ensures
            r == routed(method, path@),
    {
        let endpoint = if str_eq(path, "/") {
            Endpoint::Banner
        } else if str_eq(path, "/ping") {
            Endpoint::Ping
        } else if str_eq(path, "/_health/live") {
            Endpoint::Live
        } else if str_eq(path, "/_health/ready") {
            Endpoint::Ready
        } else if str_eq(path, "/mcp") {
            Endpoint::StreamableHttp
        } else if str_eq(path, "/mcp/sse") {
            Endpoint::Sse
        } else if str_eq(path, "/mcp/sse/message") {
            Endpoint::SseMessage
        } else {
            assert(forall|e: Endpoint| e.path() != path@);
            return Routed::NotFound;
        };
        proof {
            lemma_endpoint_at_path(endpoint);
        }
        if endpoint.takes(method) {
            Routed::To(endpoint)
        } else {
            Routed::MethodNotAllowed
        }
    }

    /// What the banner endpoint answers.
    pub fn hello(version: &str) -> (text: String)
        ensures
            utf8(text@) == banner(utf8(version@)),
    {
        let mut text = String::from_str("Elasticsearch MCP server. Version ");
        push_text(&mut text, version);
        push_text(&mut text, "\n\nEndpoints:\n- streamable-http: /mcp\n- sse: /mcp/sse\n");
        text
    }
}

} // verus!
