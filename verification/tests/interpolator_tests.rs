use elasticsearch_core_mcp_server::utils::interpolator::interpolate;
use elasticsearch_core_mcp_server::utils::interpolator::parse_template;
use elasticsearch_core_mcp_server::utils::interpolator::render;
use elasticsearch_core_mcp_server::utils::interpolator::InterpolationError;
use elasticsearch_core_mcp_server::utils::interpolator::Segment;

fn expand(name: &str) -> Result<String, InterpolationError> {
    let lookup = |s: &str| match s {
        "foo" => Some("foo_value".to_string()),
        "bar" => Some("bar_value".to_string()),
        _ => None,
    };

    interpolate(name.to_string(), lookup)
}

fn expanded(name: &str) -> String {
    match expand(name) {
        Ok(text) => text,
        Err(e) => panic!("{}", e.message()),
    }
}

fn failure(name: &str) -> InterpolationError {
    match expand(name) {
        Ok(text) => panic!("no error, but {}", text),
        Err(e) => e,
    }
}

#[test]
fn good_extrapolation() {
    assert_eq!("012345678", expanded("012345678"));
    assert_eq!("foo_value01234", expanded("${foo}01234"));
    assert_eq!("foo_value01234\n1234bar_value", expanded("${foo}01234\n1234${bar}"));
    assert_eq!("foo_value01234bar_value", expanded("${foo}01234${bar}"));
    assert_eq!("_01_foo_value01234bar_value567", expanded("_01_${foo}01234${bar}567"));
}

#[test]
fn failed_extrapolation() {
    assert!(expand("${foo01234").is_err());
    assert!(expand("${foo}01234${bar").is_err());
    assert!(expand("${baz}01234").is_err());
}

#[test]
fn defaults_stand_in_for_unknown_names() {
    assert_eq!("x=fallback", expanded("x=${baz:fallback}"));
    assert_eq!("x=", expanded("x=${baz:}"));
    assert_eq!("x=foo_value", expanded("x=${foo:fallback}"));
    assert_eq!("x=a:b", expanded("x=${baz:a:b}"));
}

#[test]
fn text_without_placeholders_is_untouched() {
    assert_eq!("a\r\nb\n", expanded("a\r\nb\n"));
    assert_eq!("", expanded(""));
    assert_eq!("$ {foo} $", expanded("$ {foo} $"));
    assert_eq!("{foo}$", expanded("{foo}$"));
}

#[test]
fn lines_are_joined_by_line_feeds() {
    assert_eq!("a\nfoo_value", expanded("a\r\n${foo}\r\n"));
    assert_eq!("foo_value", expanded("${foo}\n"));
    assert_eq!("foo_value\n\nx", expanded("${foo}\n\nx"));
    assert_eq!("foo_value\r", expanded("${foo}\r"));
    assert_eq!("foo_value\r\nx", expanded("${foo}\r\r\nx"));
}

#[test]
fn an_unclosed_brace_is_located() {
    let e = failure("${foo01234");
    assert_eq!(e.reason, "missing closing braces");
    assert_eq!(e.line, 1);
    assert_eq!(e.char, 2);

    let e = failure("${foo}01234${bar");
    assert_eq!(e.reason, "missing closing braces");
    assert_eq!(e.line, 1);
    assert_eq!(e.char, 13);

    let e = failure("one\ntwo ${foo} and ${bar\n${baz}");
    assert_eq!(e.reason, "missing closing braces");
    assert_eq!(e.line, 2);
    assert_eq!(e.char, 17);
}

#[test]
fn a_brace_closes_on_its_own_line_only() {
    let e = failure("${foo\n}");
    assert_eq!(e.reason, "missing closing braces");
    assert_eq!(e.line, 1);
    assert_eq!(e.char, 2);
}

#[test]
fn an_unknown_name_is_located() {
    let e = failure("${baz}01234");
    assert_eq!(e.reason, "env variable 'baz' not defined");
    assert_eq!(e.line, 1);
    assert_eq!(e.char, 2);

    let e = failure("a\n\nabc${foo}${nope}");
    assert_eq!(e.reason, "env variable 'nope' not defined");
    assert_eq!(e.line, 3);
    assert_eq!(e.char, 11);
}

#[test]
fn offsets_count_bytes() {
    let e = failure("\u{e9}\u{e9}${baz}");
    assert_eq!(e.line, 1);
    assert_eq!(e.char, 6);
    assert_eq!("\u{e9}foo_value\u{4e16}", expanded("\u{e9}${foo}\u{4e16}"));
}

#[test]
fn the_first_failure_wins() {
    let e = failure("${baz}\n${foo");
    assert_eq!(e.reason, "env variable 'baz' not defined");
    let e = failure("${foo\n${baz}");
    assert_eq!(e.reason, "missing closing braces");
}

#[test]
fn an_error_reads_as_one_line() {
    let e = failure("a\n\nabc${foo}${nope}");
    assert_eq!(
        e.message(),
        "Invalid configuration template: env variable 'nope' not defined at 3:11"
    );
    let e = InterpolationError { reason: "why".to_string(), line: 120, char: 0 };
    assert_eq!(e.message(), "Invalid configuration template: why at 120:0");
}

#[test]
fn lookups_are_made_in_order_until_one_fails() {
    let asked = std::cell::RefCell::new(Vec::new());
    let lookup = |name: &str| {
        asked.borrow_mut().push(name.to_string());
        if name == "b" {
            None
        } else {
            Some(name.to_uppercase())
        }
    };
    let r = interpolate("${a}-${c:d}\n${b}${e}".to_string(), lookup);
    assert!(r.is_err());
    assert_eq!(*asked.borrow(), vec!["a".to_string(), "c".to_string(), "b".to_string()]);
}

#[test]
fn a_template_is_read_into_segments() {
    let segments = parse_template("a${x:1}\r\nb${y");
    assert_eq!(segments.len(), 6);
    assert!(matches!(&segments[0], Segment::Literal(t) if t == "a"));
    assert!(matches!(
        &segments[1],
        Segment::Placeholder { name, default: Some(d), line: 1, column: 3 } if name == "x" && d == "1"
    ));
    assert!(matches!(&segments[2], Segment::Literal(t) if t.is_empty()));
    assert!(matches!(&segments[3], Segment::Literal(t) if t == "\n"));
    assert!(matches!(&segments[4], Segment::Literal(t) if t == "b"));
    assert!(matches!(&segments[5], Segment::Unclosed { line: 2, column: 3 }));
}

#[test]
fn segments_are_rendered_from_left_to_right() {
    let segments = vec![
        Segment::Literal("a=".to_string()),
        Segment::Placeholder { name: "a".to_string(), default: None, line: 1, column: 4 },
        Segment::Literal(";".to_string()),
        Segment::Placeholder {
            name: "b".to_string(),
            default: Some("dflt".to_string()),
            line: 1,
            column: 9,
        },
    ];
    let known = |name: &str| if name == "a" { Some("1".to_string()) } else { None };
    match render(&segments, &known) {
        Ok(text) => assert_eq!(text, "a=1;dflt"),
        Err(e) => panic!("{}", e.message()),
    }
    let unknown = |_: &str| None;
    match render(&segments, &unknown) {
        Ok(text) => panic!("no error, but {}", text),
        Err(e) => {
            assert_eq!(e.reason, "env variable 'a' not defined");
            assert_eq!(e.line, 1);
            assert_eq!(e.char, 4);
        }
    }
}

#[test]
fn lines_are_split_as_the_standard_library_splits_them() {
    let texts = [
        "", "a", "\n", "\r", "\r\n", "\n\r", "\n\n", "a\n", "a\r", "a\r\n", "a\r\r\n", "a\n\rb",
        "a\r\nb\r\n", "a\nb\n\n", "\u{e9}\r\n\u{fc}", "one\ntwo\r\nthree\rfour", "\r\n\r\n", "x\r\n\ny",
    ];
    for text in texts {
        let template = format!("${{foo}}{}", text);
        let joined = template.lines().collect::<Vec<_>>().join("\n").replace("${foo}", "foo_value");
        assert_eq!(expanded(&template), joined, "for {:?}", text);
    }
}
