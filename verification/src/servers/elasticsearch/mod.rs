//! The Elasticsearch backend as this server sees it: its configuration, the
//! settings of the client that is shared by all calls, the client of a single
//! call, and what a backend answer means for the caller.

pub mod base_tools;
pub mod custom;

pub use crate::servers::elasticsearch::custom::CustomTool;
pub use crate::servers::elasticsearch::custom::EsqlResultFormat;
pub use crate::servers::elasticsearch::custom::EsqlTool;
pub use crate::servers::elasticsearch::custom::SearchTemplate;
pub use crate::servers::elasticsearch::custom::SearchTemplateTool;
pub use crate::servers::elasticsearch::custom::ToolBase;
use crate::servers::IncludeExclude;
use crate::servers::NamedTool;
use crate::utils::text::bytes_start_with;
use crate::utils::text::decimal;
use crate::utils::text::decimal_string;
use crate::utils::text::lemma_ascii_is_utf8;
use crate::utils::text::lemma_text_of_utf8;
use crate::utils::text::push_text;
use crate::utils::text::split_before_ascii;
use crate::utils::text::str_eq;
use crate::utils::text::str_from_utf8;
use crate::utils::text::text_of;
use crate::utils::text::utf8;
use std::borrow::Cow;
use std::collections::HashMap;
use vstd::prelude::*;
use vstd::string::StringExecFns;
use vstd::string::StringSliceAdditionalSpecFns;

verus! {

/// How a client proves to the backend who it is.
#[derive(Clone)]
pub enum Credentials {
    /// An API key, encoded as the backend hands it out.
    EncodedApiKey(String),
    /// A user name and a password.
    Basic(String, String),
    /// The value of an `Authorization` header, sent as it stands.
    AuthorizationHeader(String),
}

pub enum CredentialsView {
    EncodedApiKey(Seq<char>),
    Basic(Seq<char>, Seq<char>),
    AuthorizationHeader(Seq<char>),
}

impl View for Credentials {
    type V = CredentialsView;

    open spec fn view(&self) -> CredentialsView {
        match self {
            Credentials::EncodedApiKey(key) => CredentialsView::EncodedApiKey(key@),
            Credentials::Basic(login, password) => CredentialsView::Basic(login@, password@),
            Credentials::AuthorizationHeader(value) => CredentialsView::AuthorizationHeader(
                value@,
            ),
        }
    }
}

/// What a client of the backend is made of.
#[derive(Clone)]
pub struct ClientSettings {
    /// Where the backend listens.
    pub url: String,
    pub credentials: Option<Credentials>,
    /// Whether the backend's certificate is accepted unchecked.
    pub skip_certificate_validation: bool,
    pub user_agent: String,
}

pub struct ClientSettingsView {
    pub url: Seq<char>,
    pub credentials: Option<CredentialsView>,
    pub skip_certificate_validation: bool,
    pub user_agent: Seq<char>,
}

impl View for ClientSettings {
    type V = ClientSettingsView;

    open spec fn view(&self) -> ClientSettingsView {
        ClientSettingsView {
            url: self.url@,
            credentials: match self.credentials {
                Some(c) => Some(c@),
                None => None,
            },
            skip_certificate_validation: self.skip_certificate_validation,
            user_agent: self.user_agent@,
        }
    }
}

/// What the server reads of one inbound call: the raw value of its
/// `Authorization` header, where the call came over HTTP and carried one.
pub struct RequestContext {
    pub authorization: Option<Vec<u8>>,
}

/// A byte that may stand in a header value that is read as text: visible
/// ASCII, a space or a tab.
pub open spec fn is_visible_ascii(b: u8) -> bool {
    (32 <= b && b < 127) || b == 9
}

/// A header value can be read as text where all its bytes can.
pub open spec fn is_readable(value: Seq<u8>) -> bool {
    forall|i: int| 0 <= i < value.len() ==> is_visible_ascii(#[trigger] value[i])
}

/// The word that some clients put before the scheme that the caller gave.
pub open spec fn bearer() -> Seq<u8> {
    utf8("Bearer "@)
}

pub open spec fn bearer_api_key() -> Seq<u8> {
    utf8("Bearer ApiKey "@)
}

pub open spec fn bearer_basic() -> Seq<u8> {
    utf8("Bearer Basic "@)
}

/// An authorization value without the `Bearer ` that was put before an
/// `ApiKey ` or a `Basic ` value; any other value as it stands.
pub open spec fn normalized(value: Seq<u8>) -> Seq<u8> {
    if bearer_api_key().is_prefix_of(value) || bearer_basic().is_prefix_of(value) {
        value.skip(bearer().len() as int)
    } else {
        value
    }
}

impl RequestContext {
    /// The credential that the caller supplied: the authorization value,
    /// normalized, where there is one that can be read as text.
    pub open spec fn credential(&self) -> Option<Seq<char>> {
        match self.authorization {
            Some(value) => if is_readable(value@) {
                Some(text_of(normalized(value@)))
            } else {
                None
            },
            None => None,
        }
    }
}

/// Reads a header value as text.
pub fn header_text(value: &[u8]) -> (text: Option<&str>)
    ensures
        text is Some <==> is_readable(value@),
        text matches Some(s) ==> s.spec_bytes() == value@,
{
    let mut i: usize = 0;
    while i < value.len()
        invariant
            i <= value.len(),
            forall|j: int| 0 <= j < i ==> is_visible_ascii(#[trigger] value@[j]),
        decreases value.len() - i,
    {
        let b = value[i];
        if !((32 <= b && b < 127) || b == 9) {
            return None;
        }
        i += 1;
    }
    proof {
        lemma_ascii_is_utf8(value@);
    }
    str_from_utf8(value)
}

/// Takes away the `Bearer ` that some clients put before an `ApiKey ` or a
/// `Basic ` value.
pub fn normalize_authorization<'a>(auth: &'a str) -> (r: &'a str)
    ensures
        r.spec_bytes() == normalized(auth.spec_bytes()),
{
    let bytes = auth.as_bytes();
    if bytes_start_with(bytes, "Bearer ApiKey ".as_bytes()) || bytes_start_with(
        bytes,
        "Bearer Basic ".as_bytes(),
    ) {
        proof {
            reveal_strlit("Bearer ");
            reveal_strlit("Bearer ApiKey ");
            reveal_strlit("Bearer Basic ");
            vstd::utf8::is_ascii_chars_encode_utf8("Bearer "@);
            vstd::utf8::is_ascii_chars_encode_utf8("Bearer ApiKey "@);
            vstd::utf8::is_ascii_chars_encode_utf8("Bearer Basic "@);
        }
        let n = "Bearer ".as_bytes().len();
        proof {
            let bytes = auth.spec_bytes();
            if bearer_api_key().is_prefix_of(bytes) {
                assert(bytes[7] == bytes.subrange(0, bearer_api_key().len() as int)[7]);
            } else {
                assert(bytes[7] == bytes.subrange(0, bearer_basic().len() as int)[7]);
            }
        }
        let (_, rest) = split_before_ascii(auth, n);
        rest
    } else {
        auth
    }
}

/// A wrapper around the shared client that provides the client for a given
/// request context: the shared one, or one with the caller's credential.
#[derive(Clone)]
pub struct EsClientProvider(ClientSettings);

impl EsClientProvider {
    /// The shared client.
    pub closed spec fn shared(&self) -> ClientSettings {
        self.0
    }

    /// The settings of the client that serves a call: those of the shared
    /// client, with the caller's credential in place of its own where the
    /// caller supplied one.
    pub open spec fn client_for(&self, context: RequestContext) -> ClientSettingsView {
        match context.credential() {
            Some(auth) => ClientSettingsView {
                credentials: Some(CredentialsView::AuthorizationHeader(auth)),
                ..self.shared()@
            },
            None => self.shared()@,
        }
    }

    pub fn new(client: ClientSettings) -> (provider: Self)
        ensures
            provider.shared() == client,
    {
        EsClientProvider(client)
    }

    /// If the incoming request is a http request and has an `Authorization`
    /// header, use it to authenticate to the backend: the result is then a
    /// new client. In every other case it is the shared client itself.
    pub fn get(&self, context: RequestContext) -> (client: Cow<'_, ClientSettings>)
        ensures
            client@ == self.client_for(context),
            context.credential() is None ==> client == Cow::<ClientSettings>::Borrowed(
                &self.shared(),
            ),
            context.credential() is Some ==> client is Owned,
    {
        let value = match &context.authorization {
            Some(value) => value,
            None => {
                return Cow::Borrowed(&self.0);
            },
        };
        let auth = match header_text(value.as_slice()) {
            Some(auth) => auth,
            None => {
                return Cow::Borrowed(&self.0);
            },
        };
        let auth = normalize_authorization(auth);
        proof {
            lemma_text_of_utf8(auth@);
        }
        Cow::Owned(
            ClientSettings {
                url: self.0.url.clone(),
                credentials: Some(Credentials::AuthorizationHeader(auth.to_owned())),
                skip_certificate_validation: self.0.skip_certificate_validation,
                user_agent: self.0.user_agent.clone(),
            },
        )
    }
}

/// Two callers never get each other's credential: each one's client carries
/// what that caller supplied, and but for the credential both are the shared
/// client.
pub proof fn lemma_credentials_do_not_cross(
    provider: EsClientProvider,
    first: RequestContext,
    second: RequestContext,
)
    requires
        first.credential() is Some,
        second.credential() is Some,
    ensures
        provider.client_for(first).credentials == Some(
            CredentialsView::AuthorizationHeader(first.credential().unwrap()),
        ),
        provider.client_for(second).credentials == Some(
            CredentialsView::AuthorizationHeader(second.credential().unwrap()),
        ),
        first.credential() != second.credential() ==> provider.client_for(first).credentials
            != provider.client_for(second).credentials,
        provider.client_for(first) == (ClientSettingsView {
            credentials: provider.client_for(first).credentials,
            ..provider.shared()@
        }),
        provider.client_for(second) == (ClientSettingsView {
            credentials: provider.client_for(second).credentials,
            ..provider.shared()@
        }),
{
}

/// A call without an authorization value, and one whose value cannot be
/// read as text, are served with the shared client and its own credential.
pub proof fn lemma_fallback_to_shared(provider: EsClientProvider, context: RequestContext)
    requires
        context.authorization matches Some(value) ==> !is_readable(value@),
    ensures
        provider.client_for(context) == provider.shared()@,
{
}

/// The code of an error inside the server, as JSON-RPC numbers it.
pub const INTERNAL_ERROR: i32 = -32603;

/// An error as the protocol reports it to a caller.
pub struct McpError {
    pub code: i32,
    pub message: String,
}

/// rmcp's `ErrorData::internal_error`, called without data: the code and the
/// message of the error that it makes. The code is that of an internal error,
/// the message is the one given.
#[verifier::external_body]
fn rmcp_internal_error(message: String) -> (parts: (i32, String))
    ensures
        parts.0 == INTERNAL_ERROR,
        parts.1@ == message@,
{
    let error = rmcp::model::ErrorData::internal_error(message, None);
    (error.code.0, error.message.into_owned())
}

/// Map the message of any error to an internal error of the MCP server.
pub fn internal_error(message: String) -> (e: McpError)
    ensures
        e.code == INTERNAL_ERROR,
        e.message@ == message@,
{
    let (code, message) = rmcp_internal_error(message);
    McpError { code, message }
}

/// What the server reads of a backend answer: its status and the address
/// that was asked. `body` is the answer itself, which is handed on unread.
pub struct Response<B> {
    pub status: u16,
    pub url: String,
    pub body: B,
}

/// A call to the backend that got no answer, with what the transport said of it.
pub struct BackendError {
    pub message: String,
}

/// An answer counts as a success where its status is one of the 2xx.
pub open spec fn is_success(status: u16) -> bool {
    200 <= status < 300
}

/// What a caller is told of an answer whose status is no success.
pub open spec fn status_message(status: u16, url: Seq<u8>) -> Seq<u8> {
    utf8("HTTP status error ("@) + decimal(status as nat) + utf8(") for url ("@) + url + utf8(
        ")"@,
    )
}

fn status_error<B>(response: &Response<B>) -> (e: McpError)
    ensures
        e.code == INTERNAL_ERROR,
        utf8(e.message@) == status_message(response.status, utf8(response.url@)),
{
    let mut message = String::from_str("HTTP status error (");
    let status = decimal_string(response.status as u64);
    push_text(&mut message, status.as_str());
    push_text(&mut message, ") for url (");
    push_text(&mut message, response.url.as_str());
    push_text(&mut message, ")");
    internal_error(message)
}

/// Return an error as an error response to the client, which may be able to
/// take action to correct it: an answer with a success status is handed on,
/// any other answer and any failed call become an internal error.
pub fn handle_error<B>(result: Result<Response<B>, BackendError>) -> (r: Result<
    Response<B>,
    McpError,
>)
    ensures
        match result {
            Ok(response) => if is_success(response.status) {
                r == Ok::<Response<B>, McpError>(response)
            } else {
                r matches Err(e) && e.code == INTERNAL_ERROR && utf8(e.message@) == status_message(
                    response.status,
                    utf8(response.url@),
                )
            },
            Err(failure) => r matches Err(e) && e.code == INTERNAL_ERROR && e.message@
                == failure.message@,
        },
{
    match result {
        Ok(response) => {
            if 200 <= response.status && response.status < 300 {
                Ok(response)
            } else {
                Err(status_error(&response))
            }
        },
        Err(failure) => Err(internal_error(failure.message)),
    }
}

/// Which tools are shown, and the tools that the configuration adds, by their names.
pub struct Tools {
    pub incl_excl: Option<IncludeExclude>,
    pub custom: HashMap<String, CustomTool>,
}

impl Tools {
    /// Without a rule every tool is shown.
    pub open spec fn shows(&self, name: Seq<char>) -> bool {
        match self.incl_excl {
            Some(rule) => rule.includes(name),
            None => true,
        }
    }

    /// The tools of `tools` that are shown, in their order.
    pub open spec fn shown<T>(&self, tools: Seq<NamedTool<T>>) -> Seq<NamedTool<T>> {
        match self.incl_excl {
            Some(rule) => rule.shown(tools),
            None => tools,
        }
    }

    pub fn is_included(&self, name: &str) -> (r: bool)
        ensures
            r == self.shows(name@),
    {
        match &self.incl_excl {
            Some(rule) => rule.is_included(name),
            None => true,
        }
    }

    /// Keeps the tools that are shown, in their order, and drops the others.
    pub fn filter<T>(&self, tools: &mut Vec<NamedTool<T>>)
        ensures
            final(tools)@ == self.shown(old(tools)@),
    {
        match &self.incl_excl {
            Some(rule) => rule.filter(tools),
            None => {},
        }
    }
}

impl Default for Tools {
    fn default() -> (tools: Self)
        ensures
            tools.incl_excl is None,
            tools.custom@ == Map::<String, CustomTool>::empty(),
    {
        Tools { incl_excl: None, custom: HashMap::new() }
    }
}

/// How to reach the backend, as the configuration file gives it.
pub struct ElasticsearchMcpConfig {
    /// Cluster URL
    pub url: String,
    /// API key
    pub api_key: Option<String>,
    /// Login
    pub login: Option<String>,
    /// Password
    pub password: Option<String>,
    /// Should we skip SSL certificate verification?
    pub ssl_skip_verify: bool,
    /// Tool visibility
    pub tools: Tools,
    /// Prompts
    pub prompts: Vec<String>,
}

/// Why a configuration gives no client.
#[derive(Clone, Copy, PartialEq, Eq, Structural, Debug)]
pub enum ConfigError {
    /// A login stands without a password.
    MissingPassword,
    /// The URL of the backend is empty.
    EmptyUrl,
}

impl ConfigError {
    pub fn message(&self) -> (text: &'static str)
        ensures
            text@ == (match self {
                ConfigError::MissingPassword => "missing password"@,
                ConfigError::EmptyUrl => "Elasticsearch URL is empty"@,
            }),
    {
        match self {
            ConfigError::MissingPassword => "missing password",
            ConfigError::EmptyUrl => "Elasticsearch URL is empty",
        }
    }
}

/// The version that the server reports of itself.
pub fn version() -> (v: &'static str)
    ensures
        v@ == "0.1.0"@,
{
    "0.1.0"
}

/// The user agent that the server sends to the backend.
pub open spec fn user_agent() -> Seq<char> {
    "elastic-mcp/"@ + "0.1.0"@
}

/// The credentials that a configuration asks for: the API key where there is
/// one, else login and password, else none. A login needs a password.
pub open spec fn configured_credentials(config: ElasticsearchMcpConfig) -> Result<
    Option<CredentialsView>,
    ConfigError,
> {
    match config.api_key {
        Some(key) => Ok(Some(CredentialsView::EncodedApiKey(key@))),
        None => match config.login {
            Some(login) => match config.password {
                Some(password) => Ok(Some(CredentialsView::Basic(login@, password@))),
                None => Err(ConfigError::MissingPassword),
            },
            None => Ok(None),
        },
    }
}

/// The settings of the shared client that a configuration asks for.
pub open spec fn configured_client(config: ElasticsearchMcpConfig) -> Result<
    ClientSettingsView,
    ConfigError,
> {
    match configured_credentials(config) {
        Err(e) => Err(e),
        Ok(credentials) => if config.url@.len() == 0 {
            Err(ConfigError::EmptyUrl)
        } else {
            Ok(
                ClientSettingsView {
                    url: config.url@,
                    credentials,
                    skip_certificate_validation: config.ssl_skip_verify,
                    user_agent: user_agent(),
                },
            )
        },
    }
}

/// What `new_with_config` returns, by the views of the settings.
pub open spec fn client_view(r: Result<ClientSettings, ConfigError>) -> Result<
    ClientSettingsView,
    ConfigError,
> {
    match r {
        Ok(settings) => Ok(settings@),
        Err(e) => Err(e),
    }
}

#[derive(Clone)]
pub struct ElasticsearchMcp {}

impl ElasticsearchMcp {
    /// Works out the shared client from the configuration.
    pub fn new_with_config(config: ElasticsearchMcpConfig) -> (r: Result<
        ClientSettings,
        ConfigError,
    >)
        ensures
            client_view(r) == configured_client(config),
    {
        let credentials = match config.api_key {
            Some(key) => Some(Credentials::EncodedApiKey(key)),
            None => match config.login {
                Some(login) => match config.password {
                    Some(password) => Some(Credentials::Basic(login, password)),
                    None => {
                        return Err(ConfigError::MissingPassword);
                    },
                },
                None => None,
            },
        };
        if config.url.as_str().is_empty() {
            return Err(ConfigError::EmptyUrl);
        }
        let mut user_agent = String::from_str("elastic-mcp/");
        push_text(&mut user_agent, version());
        Ok(
            ClientSettings {
                url: config.url,
                credentials,
                skip_certificate_validation: config.ssl_skip_verify,
                user_agent,
            },
        )
    }
}

/// The host name that Docker gives to the machine that runs the container.
pub open spec fn docker_host() -> Seq<char> {
    "host.docker.internal"@
}

/// The host name that Podman, and maybe others, give to it.
pub open spec fn podman_host() -> Seq<char> {
    "host.containers.internal"@
}

/// The name to use in place of `localhost` inside a container: the first of
/// the two host names that resolves. Other hosts are left alone.
pub open spec fn alias_for(host: Option<Seq<char>>, docker: bool, podman: bool) -> Option<
    Seq<char>,
> {
    if host == Some("localhost"@) {
        if docker {
            Some(docker_host())
        } else if podman {
            Some(podman_host())
        } else {
            None
        }
    } else {
        None
    }
}

/// `resolves`, asked for `name`, may say `answer`.
pub open spec fn may_resolve<F: Fn(&str) -> bool>(resolves: F, name: Seq<char>, answer: bool)
    -> bool {
    exists|n: &str| n@ == name && #[trigger] call_ensures(resolves, (n,), answer)
}

pub open spec fn alias_view(alias: Option<&'static str>) -> Option<Seq<char>> {
    match alias {
        Some(name) => Some(name@),
        None => None,
    }
}

/// Rewrite urls targeting `localhost` to a hostname that maps to the
/// container host, if possible: returns the host name to put in place of
/// `host`, or nothing where `host` is to stay. `resolves` says whether a
/// host name can be resolved; it is asked for the second name only where
/// the first does not resolve, and not at all for a host but `localhost`.
pub fn rewrite_localhost<F: Fn(&str) -> bool>(host: Option<&str>, resolves: &F) -> (alias:
    Option<&'static str>)
    requires
        forall|n: &str| call_requires(*resolves, (n,)),
    ensures
        exists|docker: bool, podman: bool|
            {
                &&& alias_view(alias) == #[trigger] alias_for(alias_view(host), docker, podman)
                &&& alias_view(host) == Some("localhost"@) ==> may_resolve(
                    *resolves,
                    docker_host(),
                    docker,
                )
                &&& alias_view(host) == Some("localhost"@) && !docker ==> may_resolve(
                    *resolves,
                    podman_host(),
                    podman,
                )
            },
{
    let local = match host {
        Some(name) => str_eq(name, "localhost"),
        None => false,
    };
    if !local {
        assert(alias_view(None) == alias_for(alias_view(host), false, false));
        return None;
    }
    let docker = resolves("host.docker.internal");
    if docker {
        assert(alias_view(Some("host.docker.internal")) == alias_for(
            alias_view(host),
            docker,
            false,
        ));
        return Some("host.docker.internal");
    }
    let podman = resolves("host.containers.internal");
    let alias = if podman {
        Some("host.containers.internal")
    } else {
        None
    };
    assert(alias_view(alias) == alias_for(alias_view(host), docker, podman));
    alias
}

} // verus!
