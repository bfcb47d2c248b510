use aiform::decimal::{format_integer, format_natural, parse_integer};
use aiform::{to_pascal_case, AgentError, Json};

#[test]
fn to_pascal_case_capitalizes_each_word() {
    assert_eq!(to_pascal_case("get_weather"), "GetWeather");
    assert_eq!(to_pascal_case("test_tool"), "TestTool");
    assert_eq!(to_pascal_case("calculate"), "Calculate");
    assert_eq!(to_pascal_case(""), "");
    assert_eq!(to_pascal_case("__a__b_"), "AB");
    assert_eq!(to_pascal_case("already_Pascal"), "AlreadyPascal");
    assert_eq!(to_pascal_case("x2_y"), "X2Y");
    assert_eq!(to_pascal_case("\u{df}x_\u{e9}t\u{e9}"), "SSx\u{c9}t\u{e9}");
}

#[test]
fn format_writes_integers_in_base_ten() {
    assert_eq!(format_natural(0), "0");
    assert_eq!(format_natural(7), "7");
    assert_eq!(format_natural(10), "10");
    assert_eq!(format_natural(u64::MAX), "18446744073709551615");
    assert_eq!(format_integer(0), "0");
    assert_eq!(format_integer(-1), "-1");
    assert_eq!(format_integer(1234567890), "1234567890");
    assert_eq!(format_integer(i64::MAX), "9223372036854775807");
    assert_eq!(format_integer(i64::MIN), "-9223372036854775808");
}

#[test]
fn parse_reads_what_format_writes_and_nothing_else() {
    assert_eq!(parse_integer("0"), Some(0));
    assert_eq!(parse_integer("42"), Some(42));
    assert_eq!(parse_integer("-42"), Some(-42));
    assert_eq!(parse_integer("9223372036854775807"), Some(i64::MAX));
    assert_eq!(parse_integer("-9223372036854775808"), Some(i64::MIN));
    for text in [
        "", "-", "-0", "00", "007", "+1", "1.0", "1e3", " 1", "1 ", "١", "--1", "1-",
        "9223372036854775808", "-9223372036854775809", "99999999999999999999999",
    ] {
        assert_eq!(parse_integer(text), None, "{:?}", text);
    }
}

#[test]
fn parse_reads_json() {
    let value = Json::parse(
        "{\"b\": [1, -2.5, 1e2, \"x\", true, null], \"a\": {\"nested\": \"\\u00e9\"}}",
    )
    .unwrap();
    assert_eq!(
        value,
        Json::object(vec![
            ("a".to_string(), Json::object(vec![("nested".to_string(), Json::text("\u{e9}"))])),
            (
                "b".to_string(),
                Json::array(vec![
                    Json::Number("1".to_string()),
                    Json::Number("-2.5".to_string()),
                    Json::Number("100.0".to_string()),
                    Json::text("x"),
                    Json::Bool(true),
                    Json::Null,
                ])
            ),
        ])
    );
    assert_eq!(Json::parse("\"text\"").unwrap(), Json::text("text"));
    assert_eq!(Json::parse("{\"a\": 1, \"a\": 2}").unwrap().get("a"), Some(&Json::Number("2".to_string())));
}

#[test]
fn parse_refuses_what_is_no_json() {
    for text in ["", "{", "{\"a\":}", "[1,]", "nul", "{} {}", "'a'"] {
        assert!(matches!(Json::parse(text), Err(AgentError::Json(_))), "{:?}", text);
    }
}

#[test]
fn json_accessors() {
    let value = Json::object(vec![
        ("a".to_string(), Json::text("x")),
        ("b".to_string(), Json::Bool(true)),
        ("a".to_string(), Json::Null),
    ]);
    assert_eq!(value.get("a"), Some(&Json::text("x")));
    assert_eq!(value.get("b").unwrap().as_bool(), Some(true));
    assert_eq!(value.get("c"), None);
    assert_eq!(Json::text("x").get("a"), None);
    assert_eq!(Json::text("x").as_text().unwrap(), "x");
    assert!(Json::Null.is_null());
    assert!(!Json::Bool(false).is_null());
    assert_eq!(Json::Null.as_array(), None);
    assert_eq!(value.as_object().unwrap().len(), 3);
    let replaced = value.with_member("a", Json::Bool(false));
    assert_eq!(
        replaced,
        Json::object(vec![
            ("a".to_string(), Json::Bool(false)),
            ("b".to_string(), Json::Bool(true)),
            ("a".to_string(), Json::Null),
        ])
    );
    let added = Json::object(vec![]).with_member("k", Json::Null);
    assert_eq!(added, Json::object(vec![("k".to_string(), Json::Null)]));
    assert_eq!(Json::text("x").with_member("k", Json::Null), Json::text("x"));
}

#[test]
fn messages_say_what_failed() {
    assert_eq!(
        AgentError::ToolNotFound("missing".to_string()).message(),
        "Tool not found: missing"
    );
    assert_eq!(
        AgentError::MaxIterationsExceeded { max: 10 }.message(),
        "Agent exceeded maximum iterations: 10"
    );
    assert_eq!(
        AgentError::ToolExecutionFailed { name: "add".to_string(), cause: "overflow".to_string() }
            .message(),
        "Tool 'add' failed: overflow"
    );
    assert_eq!(
        AgentError::InvalidConfiguration("Model must be specified".to_string()).message(),
        "Invalid configuration: Model must be specified"
    );
    assert_eq!(
        AgentError::InvalidArguments("add".to_string()).message(),
        "Invalid arguments for tool: add"
    );
    assert_eq!(AgentError::DuplicateName("add".to_string()).message(), "Duplicate tool name: add");
    assert_eq!(AgentError::EmptyResponse.message(), "Agent returned no content or tool calls");
    assert_eq!(
        AgentError::NoToolsConfigured.message(),
        "Agent received tool calls but has no tools configured"
    );
    let upstream: AgentError =
        async_openai::error::OpenAIError::InvalidArgument("no model".to_string()).into();
    assert_eq!(upstream.message(), "OpenAI API error: invalid args: no model");
    match Json::parse("{") {
        Err(e) => assert!(e.message().starts_with("JSON error: EOF while parsing")),
        Ok(_) => panic!("parsed"),
    }
}

#[test]
fn chars_of_lists_the_characters() {
    assert_eq!(aiform::text::chars_of("a\u{e9}_!"), vec!['a', '\u{e9}', '_', '!']);
    assert_eq!(aiform::text::chars_of(""), Vec::<char>::new());
}

#[test]
fn as_integer_reads_numbers_that_are_integers() {
    assert_eq!(Json::parse("17").unwrap().as_integer(), Some(17));
    assert_eq!(Json::parse("-17").unwrap().as_integer(), Some(-17));
    assert_eq!(Json::parse("17.5").unwrap().as_integer(), None);
    assert_eq!(Json::parse("18446744073709551615").unwrap().as_integer(), None);
    assert_eq!(Json::parse("\"17\"").unwrap().as_integer(), None);
}
