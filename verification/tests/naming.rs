use config_struct::naming::{assign_names, assign_value_names};
use config_struct::{RawField, RawStructValue, RawValue};
use config_struct::value::FloatText;
fn float(text: &str) -> FloatText {
    FloatText::new(text.to_string()).unwrap()
}

fn field(name: &str, value: RawValue) -> RawField {
    RawField { name: name.to_string(), value }
}

fn record(name: &str, fields: Vec<RawField>) -> RawStructValue {
    RawStructValue { struct_name: name.to_string(), fields }
}

#[test]
fn the_root_gets_the_name_asked_for() {
    let named = assign_names(&record("", vec![field("a", RawValue::I64(1))]), "Config");
    assert_eq!(named, record("Config", vec![field("a", RawValue::I64(1))]));
}

#[test]
fn nested_structs_are_named_after_their_fields() {
    let document = record(
        "placeholder",
        vec![
            field(
                "server",
                RawValue::Struct(record(
                    "",
                    vec![
                        field("limit", RawValue::U16(80)),
                        field("tls", RawValue::Struct(record("whatever", vec![]))),
                    ],
                )),
            ),
            field("name", RawValue::String("x".to_string())),
        ],
    );
    let named = assign_names(&document, "Config");
    assert_eq!(
        named,
        record(
            "Config",
            vec![
                field(
                    "server",
                    RawValue::Struct(record(
                        "Config__server",
                        vec![
                            field("limit", RawValue::U16(80)),
                            field("tls", RawValue::Struct(record("Config__server__tls", vec![]))),
                        ],
                    )),
                ),
                field("name", RawValue::String("x".to_string())),
            ],
        )
    );
}

#[test]
fn array_elements_and_optional_values_are_named_after_their_place() {
    let item = |name: &str| RawValue::Struct(record(name, vec![field("inner", RawValue::Struct(record("", vec![])))]));
    let document = record(
        "",
        vec![
            field("items", RawValue::Array(vec![item("a"), item("b")])),
            field("grid", RawValue::Array(vec![RawValue::Array(vec![item("c")])])),
            field("maybe", RawValue::Option(Some(Box::new(item("d"))))),
            field("nothing", RawValue::Option(None)),
        ],
    );
    let named = assign_names(&document, "Root");
    let expected_item = |name: &str| {
        RawValue::Struct(record(
            name,
            vec![field("inner", RawValue::Struct(record(&format!("{}__inner", name), vec![])))],
        ))
    };
    assert_eq!(
        named,
        record(
            "Root",
            vec![
                field("items", RawValue::Array(vec![expected_item("Root__items"), expected_item("Root__items")])),
                field("grid", RawValue::Array(vec![RawValue::Array(vec![expected_item("Root__grid")])])),
                field("maybe", RawValue::Option(Some(Box::new(expected_item("Root__maybe"))))),
                field("nothing", RawValue::Option(None)),
            ],
        )
    );
}

#[test]
fn naming_twice_changes_nothing() {
    let document = record(
        "",
        vec![field("a", RawValue::Struct(record("", vec![field("b", RawValue::Struct(record("", vec![])))])))],
    );
    let once = assign_names(&document, "Config");
    let twice = assign_names(&once, "Config");
    assert_eq!(once, twice);
}

#[test]
fn scalars_are_copied() {
    let values = vec![
        RawValue::Unit,
        RawValue::Bool(true),
        RawValue::Char('x'),
        RawValue::I8(-1),
        RawValue::I16(-2),
        RawValue::I32(-3),
        RawValue::I64(-4),
        RawValue::U8(1),
        RawValue::U16(2),
        RawValue::U32(3),
        RawValue::U64(4),
        RawValue::Isize(-5),
        RawValue::Usize(5),
        RawValue::F32(float("1.5")),
        RawValue::F64(float("2.5")),
        RawValue::String("text".to_string()),
    ];
    for value in values {
        assert_eq!(assign_value_names(&value, "Name"), value);
    }
}

#[test]
fn a_struct_at_the_place_itself_gets_the_name() {
    let value = RawValue::Struct(record("", vec![field("x", RawValue::Struct(record("", vec![])))]));
    assert_eq!(
        assign_value_names(&value, "Here"),
        RawValue::Struct(record("Here", vec![field("x", RawValue::Struct(record("Here__x", vec![])))]))
    );
}
