use elasticsearch_core_mcp_server::setup::bind_choice;
use elasticsearch_core_mcp_server::setup::choose_bind;
use elasticsearch_core_mcp_server::setup::configuration_text;
use elasticsearch_core_mcp_server::setup::expand_configuration;
use elasticsearch_core_mcp_server::setup::parse_failure_message;
use elasticsearch_core_mcp_server::setup::BindChoice;
use elasticsearch_core_mcp_server::setup::Ipv4Socket;
use elasticsearch_core_mcp_server::setup::DEFAULT_PORT;
use elasticsearch_core_mcp_server::utils::text::decimal_string;
use elasticsearch_core_mcp_server::utils::text::none_if_empty;

#[test]
fn an_address_that_is_given_is_taken() {
    assert!(matches!(choose_bind(Some("10.0.0.1:9000"), true), BindChoice::Explicit("10.0.0.1:9000")));
    assert!(matches!(choose_bind(Some("10.0.0.1:9000"), false), BindChoice::Explicit("10.0.0.1:9000")));
    assert!(matches!(bind_choice(Some(7), false), BindChoice::Explicit(7)));
    assert!(matches!(bind_choice(Some(7), true), BindChoice::Explicit(7)));
    assert_eq!(choose_bind(Some(1), true).default_socket(), None);
}

#[test]
fn inside_a_container_all_interfaces_are_bound() {
    let choice = choose_bind::<()>(None, true);
    assert!(matches!(choice, BindChoice::AllInterfaces));
    assert_eq!(choice.default_socket(), Some(Ipv4Socket { a: 0, b: 0, c: 0, d: 0, port: 8080 }));
    assert!(matches!(bind_choice::<()>(None, true), BindChoice::AllInterfaces));
}

#[test]
fn outside_of_a_container_only_the_loopback_is_bound() {
    let choice = choose_bind::<()>(None, false);
    assert!(matches!(choice, BindChoice::Loopback));
    assert_eq!(choice.default_socket(), Some(Ipv4Socket { a: 127, b: 0, c: 0, d: 1, port: 8080 }));
    assert_eq!(DEFAULT_PORT, 8080);
}

#[test]
fn the_machine_is_asked_where_nothing_else_decides() {
    let choice = bind_choice::<()>(None, false);
    assert!(matches!(choice, BindChoice::AllInterfaces | BindChoice::Loopback));
    let again = bind_choice::<()>(None, false);
    assert_eq!(choice.default_socket(), again.default_socket());
}

#[test]
fn the_text_of_a_file_is_the_configuration() {
    assert_eq!(configuration_text(Some("{ }".to_string())), "{ }");
    assert_eq!(configuration_text(Some(String::new())), "");
}

#[test]
fn the_built_in_configuration_reads_the_environment() {
    let text = configuration_text(None);
    assert!(text.contains("\"url\": \"${ES_URL}\""));
    assert!(text.contains("\"api_key\": \"${ES_API_KEY:}\""));
    assert!(text.contains("\"username\": \"${ES_USERNAME:}\""));
    assert!(text.contains("\"password\": \"${ES_PASSWORD:}\""));
    assert!(text.contains("\"ssl_skip_verify\": \"${ES_SSL_SKIP_VERIFY:false}\""));
    assert!(text.starts_with("{\n"));
    assert!(text.ends_with("}"));
}

#[test]
fn the_built_in_configuration_needs_a_url_only() {
    let env = |name: &str| if name == "ES_URL" { Some("http://127.0.0.1:9200/".to_string()) } else { None };
    let expanded = match expand_configuration(None, env) {
        Ok(text) => text,
        Err(e) => panic!("{}", e.message()),
    };
    assert!(expanded.contains("\"url\": \"http://127.0.0.1:9200/\""));
    assert!(expanded.contains("\"api_key\": \"\""));
    assert!(expanded.contains("\"ssl_skip_verify\": \"false\""));
    assert!(!expanded.contains("${"));

    match expand_configuration(None, |_: &str| None) {
        Ok(text) => panic!("no error, but {}", text),
        Err(e) => {
            assert_eq!(e.reason, "env variable 'ES_URL' not defined");
            assert_eq!(e.line, 3);
            assert_eq!(e.char, 26);
        }
    }
}

#[test]
fn a_file_is_expanded_too() {
    let env = |name: &str| if name == "KEY" { Some("secret".to_string()) } else { None };
    let r = expand_configuration(Some("{ \"api_key\": \"${KEY}\" }".to_string()), env);
    assert!(matches!(r, Ok(text) if text == "{ \"api_key\": \"secret\" }"));
}

#[test]
fn a_parse_failure_names_its_place() {
    assert_eq!(
        parse_failure_message("expected value".to_string(), Some((3, 14))),
        "Failed to parse config: expected value, at line 3 column 14"
    );
    assert_eq!(parse_failure_message("expected value".to_string(), None), "expected value");
}

#[test]
fn numbers_in_decimal() {
    assert_eq!(decimal_string(0), "0");
    assert_eq!(decimal_string(7), "7");
    assert_eq!(decimal_string(10), "10");
    assert_eq!(decimal_string(1234567890), "1234567890");
    assert_eq!(decimal_string(u64::MAX), "18446744073709551615");
}

#[test]
fn an_empty_text_is_no_value() {
    assert_eq!(none_if_empty(String::new()), None);
    assert_eq!(none_if_empty("x".to_string()), Some("x".to_string()));
    assert_eq!(none_if_empty(" ".to_string()), Some(" ".to_string()));
}
