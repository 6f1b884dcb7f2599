use elasticsearch_core_mcp_server::protocol::http::Endpoint;
use elasticsearch_core_mcp_server::protocol::http::HttpProtocol;
use elasticsearch_core_mcp_server::protocol::http::Method;
use elasticsearch_core_mcp_server::protocol::http::Routed;
use elasticsearch_core_mcp_server::protocol::lifecycle::ServerAction;
use elasticsearch_core_mcp_server::protocol::lifecycle::ServerEvent;
use elasticsearch_core_mcp_server::protocol::lifecycle::ServerState;
use elasticsearch_core_mcp_server::servers::elasticsearch::ClientSettings;
use elasticsearch_core_mcp_server::servers::elasticsearch::Credentials;
use elasticsearch_core_mcp_server::servers::elasticsearch::EsClientProvider;
use elasticsearch_core_mcp_server::servers::elasticsearch::RequestContext;
use std::borrow::Cow;

fn shared() -> ClientSettings {
    ClientSettings {
        url: "http://localhost:9200/".to_string(),
        credentials: Some(Credentials::EncodedApiKey("shared-key".to_string())),
        skip_certificate_validation: false,
        user_agent: "elastic-mcp/0.1.0".to_string(),
    }
}

/// The authorization of an HTTP request reaches the client that serves it.
#[test]
fn test_parts_in_extensions() {
    let provider = EsClientProvider::new(shared());
    let over_http = RequestContext { authorization: Some(b"ApiKey value-from-the-test".to_vec()) };
    let client = provider.get(over_http);
    assert!(matches!(
        &client.credentials,
        Some(Credentials::AuthorizationHeader(v)) if v == "ApiKey value-from-the-test"
    ));
    let over_the_pipe = RequestContext { authorization: None };
    assert!(matches!(provider.get(over_the_pipe), Cow::Borrowed(_)));
}

#[test]
fn every_endpoint_is_found_at_its_path() {
    let all = [
        (Endpoint::Banner, "/", Method::Get),
        (Endpoint::Ping, "/ping", Method::Get),
        (Endpoint::Live, "/_health/live", Method::Get),
        (Endpoint::Ready, "/_health/ready", Method::Get),
        (Endpoint::StreamableHttp, "/mcp", Method::Post),
        (Endpoint::Sse, "/mcp/sse", Method::Get),
        (Endpoint::SseMessage, "/mcp/sse/message", Method::Post),
    ];
    for (endpoint, path, method) in all {
        assert_eq!(endpoint.mount_path(), path);
        assert_eq!(HttpProtocol::route(method, path), Routed::To(endpoint));
    }
}

#[test]
fn both_transports_are_reached_on_one_listener() {
    assert_eq!(HttpProtocol::route(Method::Post, "/mcp"), Routed::To(Endpoint::StreamableHttp));
    assert_eq!(HttpProtocol::route(Method::Get, "/mcp"), Routed::To(Endpoint::StreamableHttp));
    assert_eq!(HttpProtocol::route(Method::Delete, "/mcp"), Routed::To(Endpoint::StreamableHttp));
    assert_eq!(HttpProtocol::route(Method::Get, "/mcp/sse"), Routed::To(Endpoint::Sse));
    assert_eq!(
        HttpProtocol::route(Method::Post, "/mcp/sse/message"),
        Routed::To(Endpoint::SseMessage)
    );
}

#[test]
fn methods_and_paths_that_nothing_takes() {
    assert_eq!(HttpProtocol::route(Method::Other, "/mcp"), Routed::MethodNotAllowed);
    assert_eq!(HttpProtocol::route(Method::Head, "/mcp"), Routed::MethodNotAllowed);
    assert_eq!(HttpProtocol::route(Method::Head, "/mcp/sse/message"), Routed::MethodNotAllowed);
    assert_eq!(HttpProtocol::route(Method::Head, "/ping"), Routed::To(Endpoint::Ping));
    assert_eq!(HttpProtocol::route(Method::Head, "/"), Routed::To(Endpoint::Banner));
    assert_eq!(HttpProtocol::route(Method::Head, "/mcp/sse"), Routed::To(Endpoint::Sse));
    assert_eq!(HttpProtocol::route(Method::Post, "/mcp/sse"), Routed::MethodNotAllowed);
    assert_eq!(HttpProtocol::route(Method::Get, "/mcp/sse/message"), Routed::MethodNotAllowed);
    assert_eq!(HttpProtocol::route(Method::Post, "/ping"), Routed::MethodNotAllowed);
    assert_eq!(HttpProtocol::route(Method::Delete, "/"), Routed::MethodNotAllowed);
    assert_eq!(HttpProtocol::route(Method::Get, "/mcp/other"), Routed::NotFound);
    assert_eq!(HttpProtocol::route(Method::Get, "/_health"), Routed::NotFound);
    assert_eq!(HttpProtocol::route(Method::Get, ""), Routed::NotFound);
    assert_eq!(HttpProtocol::route(Method::Get, "/PING"), Routed::NotFound);
}

#[test]
fn probes_answer_without_a_service() {
    assert_eq!(Endpoint::Ping.probe_answer(), Some((200, "Ready\n")));
    assert_eq!(Endpoint::Ready.probe_answer(), Some((200, "Ready\n")));
    assert_eq!(Endpoint::Live.probe_answer(), Some((200, "Alive\n")));
    assert_eq!(Endpoint::Banner.probe_answer(), None);
    assert_eq!(Endpoint::StreamableHttp.probe_answer(), None);
    assert_eq!(Endpoint::Sse.probe_answer(), None);
    assert_eq!(Endpoint::SseMessage.probe_answer(), None);
}

#[test]
fn the_banner_names_version_and_paths() {
    assert_eq!(
        HttpProtocol::hello("1.2.3"),
        "Elasticsearch MCP server. Version 1.2.3\n\nEndpoints:\n- streamable-http: /mcp\n- sse: /mcp/sse\n"
    );
}

fn run(mut state: ServerState, events: &[ServerEvent]) -> (ServerState, Vec<ServerAction>) {
    let mut actions = Vec::new();
    for event in events {
        let (next, action) = state.step(*event);
        state = next;
        actions.push(action);
    }
    (state, actions)
}

#[test]
fn a_server_comes_up() {
    let (state, actions) =
        run(ServerState::new(), &[ServerEvent::BindSucceeded, ServerEvent::Mounted]);
    assert_eq!(state, ServerState::Serving { open: 0 });
    assert_eq!(actions, vec![ServerAction::Mount, ServerAction::Listen]);
}

#[test]
fn a_bind_failure_is_fatal() {
    let (state, actions) = run(
        ServerState::new(),
        &[ServerEvent::BindFailed, ServerEvent::BindSucceeded, ServerEvent::Mounted, ServerEvent::Offered],
    );
    assert_eq!(state, ServerState::Stopped);
    assert_eq!(
        actions,
        vec![ServerAction::Fail, ServerAction::Nothing, ServerAction::Nothing, ServerAction::Refuse]
    );
}

#[test]
fn shutdown_waits_for_what_is_open() {
    let (state, actions) = run(
        ServerState::Serving { open: 0 },
        &[
            ServerEvent::Offered,
            ServerEvent::Offered,
            ServerEvent::Cancelled,
            ServerEvent::Offered,
            ServerEvent::Closed,
            ServerEvent::Cancelled,
            ServerEvent::Offered,
        ],
    );
    assert_eq!(state, ServerState::ShuttingDown { open: 1 });
    assert_eq!(
        actions,
        vec![
            ServerAction::Accept,
            ServerAction::Accept,
            ServerAction::Nothing,
            ServerAction::Refuse,
            ServerAction::Nothing,
            ServerAction::Nothing,
            ServerAction::Refuse,
        ]
    );
    let (state, actions) = run(state, &[ServerEvent::Closed, ServerEvent::Offered, ServerEvent::Closed]);
    assert_eq!(state, ServerState::Stopped);
    assert_eq!(actions, vec![ServerAction::Exit, ServerAction::Refuse, ServerAction::Nothing]);
}

#[test]
fn shutdown_of_an_idle_server_is_at_once() {
    assert_eq!(
        ServerState::Serving { open: 0 }.step(ServerEvent::Cancelled),
        (ServerState::Stopped, ServerAction::Exit)
    );
    assert_eq!(
        ServerState::Stopped.step(ServerEvent::Cancelled),
        (ServerState::Stopped, ServerAction::Nothing)
    );
    assert_eq!(
        ServerState::Unbound.step(ServerEvent::Cancelled),
        (ServerState::Stopped, ServerAction::Exit)
    );
    assert_eq!(
        ServerState::Bound.step(ServerEvent::Cancelled),
        (ServerState::Stopped, ServerAction::Exit)
    );
}

#[test]
fn connections_are_counted() {
    assert_eq!(
        ServerState::Serving { open: 3 }.step(ServerEvent::Closed),
        (ServerState::Serving { open: 2 }, ServerAction::Nothing)
    );
    assert_eq!(
        ServerState::Serving { open: 0 }.step(ServerEvent::Closed),
        (ServerState::Serving { open: 0 }, ServerAction::Nothing)
    );
    assert_eq!(
        ServerState::Serving { open: u64::MAX }.step(ServerEvent::Offered),
        (ServerState::Serving { open: u64::MAX }, ServerAction::Refuse)
    );
    assert_eq!(
        ServerState::Bound.step(ServerEvent::Offered),
        (ServerState::Bound, ServerAction::Refuse)
    );
}

#[test]
fn a_state_tells_what_goes_on() {
    assert!(!ServerState::Unbound.closing());
    assert!(!ServerState::Bound.closing());
    assert!(!ServerState::Serving { open: 2 }.closing());
    assert!(ServerState::ShuttingDown { open: 2 }.closing());
    assert!(ServerState::Stopped.closing());
    assert_eq!(ServerState::Serving { open: 2 }.open(), 2);
    assert_eq!(ServerState::ShuttingDown { open: 5 }.open(), 5);
    assert_eq!(ServerState::Stopped.open(), 0);
    assert_eq!(ServerState::Bound.open(), 0);
}
