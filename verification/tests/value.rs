use aiform::{ArgValue, ArgumentType, Field, Json, TypeDesc, TypeTable, Variant};

fn choice() -> ArgumentType {
    ArgumentType::union(
        vec![
            Variant::unit("Unit"),
            Variant::tuple("Single", vec![TypeDesc::Text]),
            Variant::tuple("Multiple", vec![TypeDesc::Text, TypeDesc::Integer]),
            Variant::named(
                "Named",
                vec![Field::new("text", TypeDesc::Text), Field::new("num", TypeDesc::Integer)],
            ),
        ],
        &vec![],
    )
}

fn read(text: &str) -> Option<ArgValue> {
    TypeTable::new().decode(&choice(), &Json::parse(text).unwrap())
}

#[test]
fn decode_reads_each_kind_of_variant() {
    assert_eq!(read("{\"type\": \"Unit\"}"), Some(ArgValue::Unit("Unit".to_string())));
    assert_eq!(
        read("{\"type\": \"Single\", \"value\": \"x\"}"),
        Some(ArgValue::Tuple("Single".to_string(), vec![ArgValue::Text("x".to_string())]))
    );
    assert_eq!(
        read("{\"type\": \"Multiple\", \"value\": [\"x\", 7]}"),
        Some(ArgValue::Tuple(
            "Multiple".to_string(),
            vec![ArgValue::Text("x".to_string()), ArgValue::Integer(7)]
        ))
    );
    assert_eq!(
        read("{\"type\": \"Named\", \"num\": 7, \"text\": \"x\"}"),
        Some(ArgValue::Struct(
            "Named".to_string(),
            vec![
                ("text".to_string(), ArgValue::Text("x".to_string())),
                ("num".to_string(), ArgValue::Integer(7)),
            ]
        ))
    );
}

#[test]
fn decode_refuses_what_is_no_variant() {
    assert_eq!(read("{\"type\": \"Other\"}"), None);
    assert_eq!(read("{\"value\": \"x\"}"), None);
    assert_eq!(read("{\"type\": 3}"), None);
    assert_eq!(read("\"Unit\""), None);
    assert_eq!(read("{\"type\": \"Single\"}"), None);
    assert_eq!(read("{\"type\": \"Single\", \"value\": 3}"), None);
    assert_eq!(read("{\"type\": \"Multiple\", \"value\": [\"x\"]}"), None);
    assert_eq!(read("{\"type\": \"Multiple\", \"value\": [\"x\", 7, 8]}"), None);
    assert_eq!(read("{\"type\": \"Multiple\", \"value\": \"x\"}"), None);
    assert_eq!(read("{\"type\": \"Named\", \"text\": \"x\"}"), None);
}

#[test]
fn decode_type_reads_primitives() {
    let table = TypeTable::new();
    let json = |text: &str| Json::parse(text).unwrap();
    assert_eq!(
        table.decode_type(&TypeDesc::Text, &json("\"a\"")),
        Some(ArgValue::Text("a".to_string()))
    );
    assert_eq!(table.decode_type(&TypeDesc::Text, &json("1")), None);
    assert_eq!(table.decode_type(&TypeDesc::Integer, &json("-12")), Some(ArgValue::Integer(-12)));
    assert_eq!(table.decode_type(&TypeDesc::Integer, &json("1.5")), None);
    assert_eq!(table.decode_type(&TypeDesc::Integer, &json("1.0")), None);
    assert_eq!(
        table.decode_type(&TypeDesc::Integer, &json("9223372036854775807")),
        Some(ArgValue::Integer(i64::MAX))
    );
    assert_eq!(table.decode_type(&TypeDesc::Integer, &json("9223372036854775808")), None);
    assert_eq!(
        table.decode_type(&TypeDesc::Number, &json("1.5")),
        Some(ArgValue::Number("1.5".to_string()))
    );
    assert_eq!(
        table.decode_type(&TypeDesc::Number, &json("3")),
        Some(ArgValue::Number("3".to_string()))
    );
    assert_eq!(table.decode_type(&TypeDesc::Number, &json("\"3\"")), None);
    assert_eq!(table.decode_type(&TypeDesc::Boolean, &json("true")), Some(ArgValue::Boolean(true)));
    assert_eq!(table.decode_type(&TypeDesc::Boolean, &json("0")), None);
    assert_eq!(
        table.decode_type(&TypeDesc::list(TypeDesc::Integer), &json("[1, 2]")),
        Some(ArgValue::List(vec![ArgValue::Integer(1), ArgValue::Integer(2)]))
    );
    assert_eq!(table.decode_type(&TypeDesc::list(TypeDesc::Integer), &json("[1, \"2\"]")), None);
    assert_eq!(
        table.decode_type(&TypeDesc::optional(TypeDesc::Integer), &json("null")),
        Some(ArgValue::Absent)
    );
    assert_eq!(
        table.decode_type(&TypeDesc::optional(TypeDesc::Integer), &json("5")),
        Some(ArgValue::Integer(5))
    );
    assert_eq!(table.decode_type(&TypeDesc::named("Nowhere"), &json("{}")), None);
}

#[test]
fn decode_takes_the_first_member_of_a_key() {
    let record = ArgumentType::record(vec![Field::new("a", TypeDesc::Integer)]);
    let twice = Json::object(vec![
        ("a".to_string(), Json::Number("1".to_string())),
        ("a".to_string(), Json::Number("2".to_string())),
    ]);
    assert_eq!(
        TypeTable::new().decode(&record, &twice),
        Some(ArgValue::Record(vec![("a".to_string(), ArgValue::Integer(1))]))
    );
}

#[test]
fn encode_writes_values_as_their_schema_says() {
    let record = ArgValue::Record(vec![
        ("name".to_string(), ArgValue::Text("x".to_string())),
        ("count".to_string(), ArgValue::Integer(-3)),
        ("unit".to_string(), ArgValue::Absent),
        ("ratio".to_string(), ArgValue::Number("0.5".to_string())),
        ("tags".to_string(), ArgValue::List(vec![ArgValue::Boolean(false)])),
    ]);
    assert_eq!(
        record.encode(),
        Json::object(vec![
            ("name".to_string(), Json::text("x")),
            ("count".to_string(), Json::Number("-3".to_string())),
            ("ratio".to_string(), Json::Number("0.5".to_string())),
            ("tags".to_string(), Json::array(vec![Json::Bool(false)])),
        ])
    );
    assert_eq!(
        ArgValue::Unit("Unit".to_string()).encode(),
        Json::object(vec![("type".to_string(), Json::text("Unit"))])
    );
    assert_eq!(
        ArgValue::Tuple("Single".to_string(), vec![ArgValue::Absent]).encode(),
        Json::object(vec![
            ("type".to_string(), Json::text("Single")),
            ("value".to_string(), Json::Null),
        ])
    );
    assert_eq!(
        ArgValue::Tuple("None".to_string(), vec![]).encode(),
        Json::object(vec![
            ("type".to_string(), Json::text("None")),
            ("value".to_string(), Json::array(vec![])),
        ])
    );
    assert_eq!(
        ArgValue::Struct("Named".to_string(), vec![("a".to_string(), ArgValue::Absent)]).encode(),
        Json::object(vec![
            ("type".to_string(), Json::text("Named")),
            ("a".to_string(), Json::Null),
        ])
    );
}

#[test]
fn field_finds_values_by_name() {
    let record = ArgValue::Record(vec![
        ("a".to_string(), ArgValue::Integer(1)),
        ("b".to_string(), ArgValue::Boolean(true)),
    ]);
    assert_eq!(record.field("b").unwrap().as_boolean(), Some(true));
    assert_eq!(record.field("a").unwrap().as_integer(), Some(1));
    assert_eq!(record.field("a").unwrap().as_text(), None);
    assert_eq!(record.field("c"), None);
    assert_eq!(ArgValue::Integer(1).field("a"), None);
    let list = ArgValue::List(vec![ArgValue::Number("2.5".to_string())]);
    assert_eq!(list.as_list().unwrap()[0].as_number().unwrap(), "2.5");
}

#[test]
fn copies_are_equal_to_what_they_copy() {
    let value = ArgValue::Record(vec![
        ("a".to_string(), ArgValue::List(vec![ArgValue::Integer(1), ArgValue::Absent])),
        (
            "b".to_string(),
            ArgValue::Struct(
                "S".to_string(),
                vec![("t".to_string(), ArgValue::Tuple("T".to_string(), vec![ArgValue::Boolean(true)]))],
            ),
        ),
        ("c".to_string(), ArgValue::Unit("U".to_string())),
        ("d".to_string(), ArgValue::Number("2.5".to_string())),
        ("e".to_string(), ArgValue::Text("x".to_string())),
    ]);
    assert_eq!(value.clone(), value);
    let json = value.encode();
    assert_eq!(json.clone(), json);
    let ty = TypeDesc::list(TypeDesc::optional(TypeDesc::named("N")));
    assert_eq!(ty.clone(), ty);
    assert_eq!(TypeDesc::Integer.clone(), TypeDesc::Integer);
}
