//! What is decided when the server starts: where to listen, and which
//! configuration to read.

use crate::utils::interpolator::answers_of;
use crate::utils::interpolator::has_open;
use crate::utils::interpolator::interpolate;
use crate::utils::interpolator::outcome;
use crate::utils::interpolator::rendering;
use crate::utils::interpolator::template;
use crate::utils::interpolator::InterpolationError;
use crate::utils::text::decimal;
use crate::utils::text::decimal_string;
use crate::utils::text::push_text;
use crate::utils::text::utf8;
use vstd::prelude::*;
use vstd::string::StringExecFns;

verus! {

/// The port of the two addresses that the server picks by itself.
pub const DEFAULT_PORT: u16 = 8080;

/// Where the server listens.
pub enum BindChoice<A> {
    /// At the address that was given.
    Explicit(A),
    /// On all interfaces, at the default port.
    AllInterfaces,
    /// On the loopback interface only, at the default port.
    Loopback,
}

/// An IPv4 address and a port.
#[derive(Clone, Copy, PartialEq, Eq, Structural, Debug)]
pub struct Ipv4Socket {
    pub a: u8,
    pub b: u8,
    pub c: u8,
    pub d: u8,
    pub port: u16,
}

/// The address that was given; without one, all interfaces inside a
/// container and the loopback interface outside of one.
pub open spec fn chosen<A>(explicit: Option<A>, in_container: bool) -> BindChoice<A> {
    match explicit {
        Some(address) => BindChoice::Explicit(address),
        None => if in_container {
            BindChoice::AllInterfaces
        } else {
            BindChoice::Loopback
        },
    }
}

impl<A> BindChoice<A> {
    /// The address of a choice that the server made by itself.
    pub open spec fn socket(self) -> Option<Ipv4Socket> {
        match self {
            BindChoice::Explicit(_) => None,
            BindChoice::AllInterfaces => Some(
                Ipv4Socket { a: 0, b: 0, c: 0, d: 0, port: DEFAULT_PORT },
            ),
            BindChoice::Loopback => Some(
                Ipv4Socket { a: 127, b: 0, c: 0, d: 1, port: DEFAULT_PORT },
            ),
        }
    }

    pub fn default_socket(&self) -> (socket: Option<Ipv4Socket>)
        ensures
            socket == self.socket(),
    {
        match self {
            BindChoice::Explicit(_) => None,
            BindChoice::AllInterfaces => Some(
                Ipv4Socket { a: 0, b: 0, c: 0, d: 0, port: DEFAULT_PORT },
            ),
            BindChoice::Loopback => Some(
                Ipv4Socket { a: 127, b: 0, c: 0, d: 1, port: DEFAULT_PORT },
            ),
        }
    }
}

/// Picks the address for what is known of the surroundings.
pub fn choose_bind<A>(explicit: Option<A>, in_container: bool) -> (choice: BindChoice<A>)
    ensures
        choice == chosen(explicit, in_container),
{
    match explicit {
        Some(address) => BindChoice::Explicit(address),
        None => if in_container {
            BindChoice::AllInterfaces
        } else {
            BindChoice::Loopback
        },
    }
}

/// `is_container::is_container`: whether the process runs inside a
/// container, as far as the files of the machine tell. Nothing is known of
/// the answer beforehand.
#[verifier::external_body]
fn runs_in_container() -> (inside: bool) {
    is_container::is_container()
}

/// Picks the address: the one given, else by the container-mode switch, else
/// by a look at the machine, which is taken only where the first two leave
/// the choice open.
pub fn bind_choice<A>(explicit: Option<A>, container_mode: bool) -> (choice: BindChoice<A>)
    ensures
        explicit is Some || container_mode ==> choice == chosen(explicit, true),
        choice == chosen(explicit, true) || choice == chosen(explicit, false),
{
    match explicit {
        Some(address) => BindChoice::Explicit(address),
        None => {
            let inside = container_mode || runs_in_container();
            choose_bind(None, inside)
        },
    }
}

/// The configuration that is read where no file is given: all of it comes
/// from the environment.
pub open spec fn default_configuration() -> Seq<char> {
    "{
            \"elasticsearch\": {
                \"url\": \"${ES_URL}\",
                \"api_key\": \"${ES_API_KEY:}\",
                \"username\": \"${ES_USERNAME:}\",
                \"password\": \"${ES_PASSWORD:}\",
                \"ssl_skip_verify\": \"${ES_SSL_SKIP_VERIFY:false}\"
            }
        }"@
}

/// The text of the configuration: that of the file where there is one, the
/// built-in configuration else.
pub open spec fn configuration(file: Option<String>) -> Seq<char> {
    match file {
        Some(content) => content@,
        None => default_configuration(),
    }
}

pub fn configuration_text(file: Option<String>) -> (text: String)
    ensures
        text@ == configuration(file),
{
    match file {
        Some(content) => content,
        None => String::from_str(
            "{
            \"elasticsearch\": {
                \"url\": \"${ES_URL}\",
                \"api_key\": \"${ES_API_KEY:}\",
                \"username\": \"${ES_USERNAME:}\",
                \"password\": \"${ES_PASSWORD:}\",
                \"ssl_skip_verify\": \"${ES_SSL_SKIP_VERIFY:false}\"
            }
        }",
        ),
    }
}

/// The configuration text with its placeholders filled in.
pub fn expand_configuration(file: Option<String>, lookup: impl Fn(&str) -> Option<String>) -> (r:
    Result<String, InterpolationError>)
    requires
        forall|n: &str| call_requires(lookup, (n,)),
    ensures
        !has_open(utf8(configuration(file))) ==> r is Ok && r->Ok_0@ == configuration(file),
        has_open(utf8(configuration(file))) ==> exists|answers: Seq<Option<Seq<u8>>>|
            answers_of(lookup, template(utf8(configuration(file))), answers) && outcome(r)
                == rendering(template(utf8(configuration(file))), answers),
{
    interpolate(configuration_text(file), lookup)
}

/// What is reported of a configuration that cannot be parsed.
pub open spec fn parse_failure(message: Seq<u8>, location: Option<(usize, usize)>) -> Seq<u8> {
    match location {
        Some((line, column)) => utf8("Failed to parse config: "@) + message + utf8(
            ", at line "@,
        ) + decimal(line as nat) + utf8(" column "@) + decimal(column as nat),
        None => message,
    }
}

/// What is reported of a configuration that cannot be parsed: the parser's
/// message, with the line and the column where it gave them.
pub fn parse_failure_message(message: String, location: Option<(usize, usize)>) -> (text: String)
    ensures
        utf8(text@) == parse_failure(utf8(message@), location),
{
    match location {
        Some((line, column)) => {
            let mut text = String::from_str("Failed to parse config: ");
            push_text(&mut text, message.as_str());
            push_text(&mut text, ", at line ");
            let line = decimal_string(line as u64);
            push_text(&mut text, line.as_str());
            push_text(&mut text, " column ");
            let column = decimal_string(column as u64);
            push_text(&mut text, column.as_str());
            text
        },
        None => message,
    }
}

} // verus!
