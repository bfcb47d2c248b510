use aiform::{
    AgentError, ArgValue, ArgumentType, Field, Json, ToolCall, ToolDefinition, ToolSet, TypeDesc,
    TypeTable, Variant,
};

fn weather() -> ToolDefinition {
    ToolDefinition::new(
        "get_weather",
        "Get the current weather for a location",
        ArgumentType::record(vec![
            Field::new("location", TypeDesc::Text),
            Field::new("unit", TypeDesc::optional(TypeDesc::Text)),
        ]),
    )
}

fn calculate() -> ToolDefinition {
    ToolDefinition::new(
        "calculate",
        "Evaluate a mathematical expression",
        ArgumentType::record(vec![Field::new("expression", TypeDesc::Text)]),
    )
}

fn tools() -> ToolSet {
    let mut tools = ToolSet::new(TypeTable::new());
    tools.register(weather()).unwrap();
    tools.register(calculate()).unwrap();
    tools
}

#[test]
fn dispatch_of_a_missing_tool_is_tool_not_found() {
    let args = Json::parse("{}").unwrap();
    match tools().dispatch("missing", &args) {
        Err(AgentError::ToolNotFound(name)) => assert_eq!(name, "missing"),
        other => panic!("unexpected: {:?}", other),
    }
}

#[test]
fn register_refuses_a_second_tool_of_a_name() {
    let mut tools = tools();
    match tools.register(weather()) {
        Err(AgentError::DuplicateName(name)) => assert_eq!(name, "get_weather"),
        other => panic!("unexpected: {:?}", other),
    }
    assert_eq!(tools.len(), 2);
}

#[test]
fn tools_lists_name_description_and_schema() {
    let listed = tools().tools();
    assert_eq!(listed.len(), 2);
    assert_eq!(listed[0].name, "get_weather");
    assert_eq!(listed[0].description, "Get the current weather for a location");
    assert_eq!(
        listed[0].parameters.get("required"),
        Some(&Json::array(vec![Json::text("location")]))
    );
    assert_eq!(listed[1].name, "calculate");
    assert_eq!(
        listed[1].parameters,
        TypeTable::new()
            .generate(&ArgumentType::record(vec![Field::new("expression", TypeDesc::Text)]))
    );
}

#[test]
fn dispatch_reads_the_arguments() {
    let args = Json::parse("{\"unit\": \"celsius\", \"location\": \"Paris\", \"extra\": 1}").unwrap();
    let invocation = tools().dispatch("get_weather", &args).unwrap();
    assert_eq!(invocation.tool, 0);
    assert_eq!(invocation.name, "get_weather");
    assert_eq!(
        invocation.arguments,
        ArgValue::Record(vec![
            ("location".to_string(), ArgValue::Text("Paris".to_string())),
            ("unit".to_string(), ArgValue::Text("celsius".to_string())),
        ])
    );
}

#[test]
fn dispatch_takes_a_missing_optional_field_as_absent() {
    let args = Json::parse("{\"location\": \"Paris\"}").unwrap();
    let invocation = tools().dispatch("get_weather", &args).unwrap();
    assert_eq!(invocation.arguments.field("unit"), Some(&ArgValue::Absent));
    let null = Json::parse("{\"location\": \"Paris\", \"unit\": null}").unwrap();
    let invocation = tools().dispatch("get_weather", &null).unwrap();
    assert!(invocation.arguments.field("unit").unwrap().is_absent());
}

#[test]
fn dispatch_refuses_arguments_of_another_shape() {
    for text in ["{}", "{\"location\": 3}", "[\"Paris\"]", "\"Paris\"", "null"] {
        let args = Json::parse(text).unwrap();
        match tools().dispatch("get_weather", &args) {
            Err(AgentError::InvalidArguments(name)) => assert_eq!(name, "get_weather"),
            other => panic!("unexpected for {}: {:?}", text, other),
        }
    }
}

#[test]
fn prepare_parses_and_dispatches() {
    let call = ToolCall {
        id: "call_1".to_string(),
        name: "calculate".to_string(),
        arguments: "{\"expression\": \"2 + 2\"}".to_string(),
    };
    let invocation = tools().prepare(&call).unwrap();
    assert_eq!(invocation.tool, 1);
    assert_eq!(
        invocation.arguments.field("expression").unwrap().as_text().unwrap(),
        "2 + 2"
    );
    let broken = ToolCall {
        id: "call_2".to_string(),
        name: "calculate".to_string(),
        arguments: "{expression}".to_string(),
    };
    assert!(matches!(tools().prepare(&broken), Err(AgentError::Json(_))));
    let missing = ToolCall {
        id: "call_3".to_string(),
        name: "nothing".to_string(),
        arguments: "{}".to_string(),
    };
    assert!(matches!(tools().prepare(&missing), Err(AgentError::ToolNotFound(name)) if name == "nothing"));
}

#[test]
fn conclude_hands_on_the_text_and_wraps_the_failure() {
    assert_eq!(ToolSet::conclude("calculate", Ok("4".to_string())).unwrap(), "4");
    match ToolSet::conclude("calculate", Err("division by zero".to_string())) {
        Err(AgentError::ToolExecutionFailed { name, cause }) => {
            assert_eq!(name, "calculate");
            assert_eq!(cause, "division by zero");
        }
        other => panic!("unexpected: {:?}", other),
    }
}

#[test]
fn written_arguments_are_read_back_as_they_were() {
    let mut types = TypeTable::new();
    types.define(
        "Shape",
        ArgumentType::union(
            vec![
                Variant::unit("Point"),
                Variant::tuple("Circle", vec![TypeDesc::Integer]),
                Variant::tuple("Rect", vec![TypeDesc::Integer, TypeDesc::Integer]),
                Variant::named(
                    "Label",
                    vec![
                        Field::new("text", TypeDesc::Text),
                        Field::new("size", TypeDesc::optional(TypeDesc::Number)),
                    ],
                ),
            ],
            &vec![],
        ),
    );
    let mut tools = ToolSet::new(types);
    tools
        .register(ToolDefinition::new(
            "draw",
            "Draw shapes",
            ArgumentType::record(vec![
                Field::new("shapes", TypeDesc::list(TypeDesc::named("Shape"))),
                Field::new("title", TypeDesc::optional(TypeDesc::Text)),
                Field::new("fill", TypeDesc::Boolean),
                Field::new("offset", TypeDesc::Integer),
            ]),
        ))
        .unwrap();
    let value = ArgValue::Record(vec![
        (
            "shapes".to_string(),
            ArgValue::List(vec![
                ArgValue::Unit("Point".to_string()),
                ArgValue::Tuple("Circle".to_string(), vec![ArgValue::Integer(3)]),
                ArgValue::Tuple(
                    "Rect".to_string(),
                    vec![ArgValue::Integer(-4), ArgValue::Integer(i64::MAX)],
                ),
                ArgValue::Struct(
                    "Label".to_string(),
                    vec![
                        ("text".to_string(), ArgValue::Text("hi".to_string())),
                        ("size".to_string(), ArgValue::Absent),
                    ],
                ),
                ArgValue::Struct(
                    "Label".to_string(),
                    vec![
                        ("text".to_string(), ArgValue::Text("ho".to_string())),
                        ("size".to_string(), ArgValue::Number("1.5".to_string())),
                    ],
                ),
            ]),
        ),
        ("title".to_string(), ArgValue::Absent),
        ("fill".to_string(), ArgValue::Boolean(true)),
        ("offset".to_string(), ArgValue::Integer(i64::MIN)),
    ]);
    let invocation = tools.dispatch("draw", &value.encode()).unwrap();
    assert_eq!(invocation.arguments, value);
    assert_eq!(invocation.tool, 0);
}
