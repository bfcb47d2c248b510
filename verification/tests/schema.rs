use aiform::{
    AgentCallArgs, ArgumentType, Attribute, Field, Json, StructuredOutput, ToolArg,
    ToolDefinition, ToolSet, TypeDesc, TypeTable, Variant,
};

fn text(s: &str) -> Json {
    Json::text(s)
}

fn at<'a>(value: &'a Json, path: &[&str]) -> &'a Json {
    let mut here = value;
    for key in path {
        here = here.get(key).unwrap();
    }
    here
}

fn desc(s: &str) -> Vec<Attribute> {
    vec![Attribute { name: "desc".to_string(), text: Some(s.to_string()) }]
}

struct TestArgs;

impl ToolArg for TestArgs {
    fn schema() -> Json {
        TypeTable::new().generate(&ArgumentType::record(vec![
            Field::new("name", TypeDesc::Text),
            Field::new("count", TypeDesc::Integer),
        ]))
    }
}

struct TestOutput;

impl ToolArg for TestOutput {
    fn schema() -> Json {
        TypeTable::new().generate(&ArgumentType::record(vec![Field::new("result", TypeDesc::Text)]))
    }
}

impl StructuredOutput for TestOutput {
    fn schema() -> Json {
        <TestOutput as ToolArg>::schema()
    }
}

fn nested_types() -> TypeTable {
    let mut types = TypeTable::new();
    types.define("Inner", ArgumentType::record(vec![Field::new("value", TypeDesc::Integer)]));
    types.define(
        "Outer",
        ArgumentType::record(vec![
            Field::new("inner", TypeDesc::named("Inner")),
            Field::new("list", TypeDesc::list(TypeDesc::named("Inner"))),
        ]),
    );
    types
}

#[test]
fn test_tool_arg_schema() {
    let schema = TestArgs::schema();
    assert_eq!(at(&schema, &["type"]), &text("object"));

    assert_eq!(at(&schema, &["properties", "name", "type"]), &text("string"));
    assert_eq!(at(&schema, &["properties", "count", "type"]), &text("integer"));
    assert!(at(&schema, &["required"]).as_array().unwrap().contains(&text("name")));
    assert!(at(&schema, &["required"]).as_array().unwrap().contains(&text("count")));
}

#[test]
fn test_tool_impl() {
    let tool = ToolDefinition::new(
        "test_tool",
        "A test tool",
        ArgumentType::record(vec![
            Field::new("name", TypeDesc::Text),
            Field::new("count", TypeDesc::Integer),
        ]),
    );
    assert_eq!(tool.name, "test_tool");
    assert_eq!(tool.description, "A test tool");
    assert_eq!(tool.struct_name, "TestToolTool");
    let mut tools = ToolSet::new(TypeTable::new());
    tools.register(tool).unwrap();
    let listed = tools.tools();
    assert_eq!(listed.len(), 1);
    assert_eq!(listed[0].name, "test_tool");
    assert_eq!(listed[0].description, "A test tool");
    let params = &listed[0].parameters;
    assert_eq!(at(params, &["type"]), &text("object"));
}

#[test]
fn test_structured_output_schema() {
    let schema = <TestOutput as ToolArg>::schema();
    assert_eq!(at(&schema, &["type"]), &text("object"));
    assert_eq!(at(&schema, &["properties", "result", "type"]), &text("string"));
    assert_eq!(<TestOutput as StructuredOutput>::schema(), schema);
}

#[test]
fn test_nested_schema() {
    let schema = nested_types().schema_expr(&TypeDesc::named("Outer"), "");
    assert_eq!(at(&schema, &["type"]), &text("object"));
    assert_eq!(at(&schema, &["properties", "inner", "type"]), &text("object"));
    assert_eq!(
        at(&schema, &["properties", "inner", "properties", "value", "type"]),
        &text("integer")
    );
    assert_eq!(at(&schema, &["properties", "list", "type"]), &text("array"));
    assert_eq!(at(&schema, &["properties", "list", "items", "type"]), &text("object"));
    assert_eq!(
        at(&schema, &["properties", "list", "items", "properties", "value", "type"]),
        &text("integer")
    );
}

#[test]
fn test_enum_schema() {
    let my_enum = ArgumentType::union(
        vec![Variant::unit("A"), Variant::unit("B"), Variant::unit("C")],
        &vec![],
    );
    let schema = TypeTable::new().generate(&my_enum);
    let one_of = at(&schema, &["oneOf"]).as_array().unwrap();
    assert_eq!(one_of.len(), 3);
    for item in one_of {
        assert_eq!(at(item, &["type"]), &text("object"));
        assert!(at(item, &["required"]).as_array().unwrap().contains(&text("type")));
        let props = at(item, &["properties"]);
        assert!(at(props, &["type", "const"]).as_text().is_some());
    }
    // Check specific variants
    let types: std::collections::HashSet<_> = one_of
        .iter()
        .map(|item| at(item, &["properties", "type", "const"]).as_text().unwrap().as_str())
        .collect();
    assert!(types.contains("A"));
    assert!(types.contains("B"));
    assert!(types.contains("C"));
}

#[test]
fn test_wrapped_enum_schema() {
    let wrapped = ArgumentType::union(
        vec![
            Variant::tuple("Text", vec![TypeDesc::Text]),
            Variant::tuple("Number", vec![TypeDesc::Integer]),
        ],
        &vec![],
    );
    let schema = TypeTable::new().generate(&wrapped);
    let one_of = at(&schema, &["oneOf"]).as_array().unwrap();
    assert_eq!(one_of.len(), 2);
    // Check Text variant
    let text_item = &one_of[0];
    assert_eq!(at(text_item, &["type"]), &text("object"));
    assert_eq!(at(text_item, &["properties", "type", "const"]), &text("Text"));
    assert_eq!(at(text_item, &["properties", "value", "type"]), &text("string"));
    assert!(at(text_item, &["required"]).as_array().unwrap().contains(&text("type")));
    assert!(at(text_item, &["required"]).as_array().unwrap().contains(&text("value")));
    // Check Number variant
    let number_item = &one_of[1];
    assert_eq!(at(number_item, &["type"]), &text("object"));
    assert_eq!(at(number_item, &["properties", "type", "const"]), &text("Number"));
    assert_eq!(at(number_item, &["properties", "value", "type"]), &text("integer"));
    assert!(at(number_item, &["required"]).as_array().unwrap().contains(&text("type")));
    assert!(at(number_item, &["required"]).as_array().unwrap().contains(&text("value")));
}

fn complex_enum() -> ArgumentType {
    ArgumentType::union(
        vec![
            Variant::unit("Unit"),
            Variant::tuple("Single", vec![TypeDesc::Text]),
            Variant::tuple("Multiple", vec![TypeDesc::Text, TypeDesc::Integer]),
            Variant::named(
                "Named",
                vec![Field::new("text", TypeDesc::Text), Field::new("num", TypeDesc::Integer)],
            ),
        ],
        &vec![],
    )
}

#[test]
fn test_complex_enum_schema() {
    let schema = TypeTable::new().generate(&complex_enum());
    let one_of = at(&schema, &["oneOf"]).as_array().unwrap();
    assert_eq!(one_of.len(), 4);

    // Unit variant
    let unit = &one_of[0];
    assert_eq!(at(unit, &["properties", "type", "const"]), &text("Unit"));
    assert_eq!(at(unit, &["required"]).as_array().unwrap().len(), 1);

    // Single variant
    let single = &one_of[1];
    assert_eq!(at(single, &["properties", "type", "const"]), &text("Single"));
    assert_eq!(at(single, &["properties", "value", "type"]), &text("string"));
    assert!(at(single, &["required"]).as_array().unwrap().contains(&text("value")));

    // Multiple variant
    let multiple = &one_of[2];
    assert_eq!(at(multiple, &["properties", "type", "const"]), &text("Multiple"));
    assert_eq!(at(multiple, &["properties", "value", "type"]), &text("array"));
    assert_eq!(at(multiple, &["properties", "value", "items"]).as_array().unwrap().len(), 2);
    assert!(at(multiple, &["required"]).as_array().unwrap().contains(&text("value")));

    // Named variant
    let named = &one_of[3];
    assert_eq!(at(named, &["properties", "type", "const"]), &text("Named"));
    assert_eq!(at(named, &["properties", "text", "type"]), &text("string"));
    assert_eq!(at(named, &["properties", "num", "type"]), &text("integer"));
    let required = at(named, &["required"]).as_array().unwrap();
    assert!(required.contains(&text("text")));
    assert!(required.contains(&text("num")));
}

#[test]
fn record_schema_is_exact() {
    let record = ArgumentType::record(vec![
        Field::with_attributes("location", TypeDesc::Text, &desc("The location to check")),
        Field::new("unit", TypeDesc::optional(TypeDesc::Text)),
        Field::new("days", TypeDesc::list(TypeDesc::Integer)),
        Field::new("exact", TypeDesc::Boolean),
        Field::new("limit", TypeDesc::Number),
    ]);
    let schema = TypeTable::new().generate(&record);
    let expected = Json::object(vec![
        ("type".to_string(), text("object")),
        (
            "properties".to_string(),
            Json::object(vec![
                (
                    "location".to_string(),
                    Json::object(vec![
                        ("type".to_string(), text("string")),
                        ("description".to_string(), text("The location to check")),
                    ]),
                ),
                ("unit".to_string(), Json::object(vec![("type".to_string(), text("string"))])),
                (
                    "days".to_string(),
                    Json::object(vec![
                        ("type".to_string(), text("array")),
                        (
                            "items".to_string(),
                            Json::object(vec![("type".to_string(), text("integer"))]),
                        ),
                    ]),
                ),
                ("exact".to_string(), Json::object(vec![("type".to_string(), text("boolean"))])),
                ("limit".to_string(), Json::object(vec![("type".to_string(), text("number"))])),
            ]),
        ),
        (
            "required".to_string(),
            Json::array(vec![text("location"), text("days"), text("exact"), text("limit")]),
        ),
    ]);
    assert_eq!(schema, expected);
}

#[test]
fn required_names_do_not_depend_on_field_order() {
    let forward = ArgumentType::record(vec![
        Field::new("a", TypeDesc::Text),
        Field::new("b", TypeDesc::optional(TypeDesc::Integer)),
        Field::new("c", TypeDesc::Boolean),
    ]);
    let backward = ArgumentType::record(vec![
        Field::new("c", TypeDesc::Boolean),
        Field::new("b", TypeDesc::optional(TypeDesc::Integer)),
        Field::new("a", TypeDesc::Text),
    ]);
    let table = TypeTable::new();
    let first = table.generate(&forward);
    let second = table.generate(&backward);
    assert_eq!(first.get("required"), Some(&Json::array(vec![text("a"), text("c")])));
    assert_eq!(second.get("required"), Some(&Json::array(vec![text("c"), text("a")])));
}

#[test]
fn optional_field_keeps_its_description() {
    let schema = TypeTable::new()
        .schema_expr(&TypeDesc::optional(TypeDesc::Integer), "How many");
    assert_eq!(
        schema,
        Json::object(vec![
            ("type".to_string(), text("integer")),
            ("description".to_string(), text("How many")),
        ])
    );
}

#[test]
fn union_description_is_added_when_given() {
    let described = ArgumentType::union(vec![Variant::unit("A")], &desc("A choice"));
    let schema = TypeTable::new().generate(&described);
    assert_eq!(schema.get("description"), Some(&text("A choice")));
    let plain = ArgumentType::union(vec![Variant::unit("A")], &vec![]);
    assert_eq!(TypeTable::new().generate(&plain).get("description"), None);
}

#[test]
fn described_named_type_overrides_description() {
    let mut types = TypeTable::new();
    types.define("Choice", ArgumentType::union(vec![Variant::unit("A")], &desc("A choice")));
    let schema = types.schema_expr(&TypeDesc::named("Choice"), "Pick one");
    assert_eq!(schema.get("description"), Some(&text("Pick one")));
    assert_eq!(schema.as_object().unwrap().len(), 2);
}

#[test]
fn zero_position_variant_has_empty_items() {
    let empty = ArgumentType::union(vec![Variant::tuple("Empty", vec![])], &vec![]);
    let schema = TypeTable::new().generate(&empty);
    let entry = &at(&schema, &["oneOf"]).as_array().unwrap()[0];
    assert_eq!(at(entry, &["properties", "value", "type"]), &text("array"));
    assert_eq!(at(entry, &["properties", "value", "items"]), &Json::array(vec![]));
    assert_eq!(at(entry, &["required"]), &Json::array(vec![text("type"), text("value")]));
}

#[test]
fn recursive_type_is_cut_by_a_reference() {
    let mut types = TypeTable::new();
    types.define(
        "Tree",
        ArgumentType::record(vec![
            Field::new("label", TypeDesc::Text),
            Field::new("children", TypeDesc::list(TypeDesc::named("Tree"))),
        ]),
    );
    let schema = types.schema_expr(&TypeDesc::named("Tree"), "");
    assert_eq!(at(&schema, &["type"]), &text("object"));
    assert_eq!(
        at(&schema, &["properties", "children", "items"]),
        &Json::object(vec![("$ref".to_string(), text("#/definitions/Tree"))])
    );
}

#[test]
fn mutually_recursive_types_are_cut() {
    let mut types = TypeTable::new();
    types.define("A", ArgumentType::record(vec![Field::new("b", TypeDesc::named("B"))]));
    types.define(
        "B",
        ArgumentType::record(vec![Field::new("a", TypeDesc::optional(TypeDesc::named("A")))]),
    );
    let schema = types.schema_expr(&TypeDesc::named("A"), "");
    assert_eq!(at(&schema, &["properties", "b", "type"]), &text("object"));
    assert_eq!(
        at(&schema, &["properties", "b", "properties", "a"]),
        &Json::object(vec![("$ref".to_string(), text("#/definitions/A"))])
    );
    assert_eq!(at(&schema, &["properties", "b", "required"]), &Json::array(vec![]));
}

#[test]
fn unknown_name_becomes_a_reference() {
    let schema = TypeTable::new().schema_expr(&TypeDesc::named("Nowhere"), "");
    assert_eq!(schema, Json::object(vec![("$ref".to_string(), text("#/definitions/Nowhere"))]));
}

#[test]
fn get_desc_takes_the_first_description() {
    let attrs = vec![
        Attribute { name: "doc".to_string(), text: Some("ignored".to_string()) },
        Attribute { name: "desc".to_string(), text: None },
        Attribute { name: "desc".to_string(), text: Some("first".to_string()) },
        Attribute { name: "desc".to_string(), text: Some("second".to_string()) },
    ];
    assert_eq!(aiform::get_desc(&attrs), "first");
    assert_eq!(aiform::get_desc(&vec![]), "");
}

#[test]
fn is_option_tells_optional_types() {
    assert!(TypeDesc::optional(TypeDesc::Text).is_option());
    assert!(!TypeDesc::list(TypeDesc::optional(TypeDesc::Text)).is_option());
    assert!(!TypeDesc::Text.is_option());
}

#[test]
fn agent_call_args_schema() {
    let schema = AgentCallArgs::schema();
    assert_eq!(at(&schema, &["properties", "message", "type"]), &text("string"));
    assert_eq!(schema.get("required"), Some(&Json::array(vec![text("message")])));
}

#[test]
fn variants_and_their_fields_keep_their_descriptions() {
    let described = ArgumentType::union(
        vec![
            Variant::unit("Stop").with_attributes(&desc("Stops at once")),
            Variant::named(
                "Go",
                vec![Field::with_attributes("speed", TypeDesc::Integer, &desc("How fast"))],
            ),
        ],
        &vec![],
    );
    let schema = TypeTable::new().generate(&described);
    let one_of = at(&schema, &["oneOf"]).as_array().unwrap();
    assert_eq!(
        one_of[0],
        Json::object(vec![
            ("type".to_string(), text("object")),
            (
                "properties".to_string(),
                Json::object(vec![(
                    "type".to_string(),
                    Json::object(vec![("const".to_string(), text("Stop"))]),
                )]),
            ),
            ("required".to_string(), Json::array(vec![text("type")])),
            ("description".to_string(), text("Stops at once")),
        ])
    );
    assert_eq!(one_of[1].get("description"), None);
    assert_eq!(at(&one_of[1], &["properties", "speed", "description"]), &text("How fast"));
    assert_eq!(at(&one_of[1], &["required"]), &Json::array(vec![text("type"), text("speed")]));
}

#[test]
fn find_gives_the_first_definition_of_a_name() {
    let mut types = nested_types();
    types.define("Inner", ArgumentType::record(vec![]));
    assert_eq!(types.find(&"Inner".to_string()), Some(0));
    assert_eq!(types.find(&"Outer".to_string()), Some(1));
    assert_eq!(types.find(&"Other".to_string()), None);
    let schema = types.schema_expr(&TypeDesc::named("Inner"), "");
    assert_eq!(at(&schema, &["required"]), &Json::array(vec![text("value")]));
}
