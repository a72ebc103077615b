use config_struct::generation::{
    float_string, has_mixed_types, push_declaration, same_shape, type_string, value_string,
};
use config_struct::outline::{outline, Entry};
use config_struct::{
    generate_struct_declarations, DocumentError, struct_value_string, NumericWidth, RawField, RawStructValue,
    RawValue, Representation, StructOptions,
};
use config_struct::value::FloatText;
fn float(text: &str) -> FloatText {
    FloatText::new(text.to_string()).unwrap()
}

fn text(s: &str) -> RawValue {
    RawValue::String(s.to_string())
}

fn field(name: &str, value: RawValue) -> RawField {
    RawField { name: name.to_string(), value }
}

fn record(name: &str, fields: Vec<RawField>) -> RawStructValue {
    RawStructValue { struct_name: name.to_string(), fields }
}

fn type_of(value: &RawValue, options: &StructOptions) -> String {
    type_string(value, options).unwrap()
}

fn struct_shape(value: &RawStructValue, options: &StructOptions) -> Vec<(String, String)> {
    match outline(value, options).into_iter().next() {
        Some(Entry::Struct { shape, .. }) => shape,
        other => panic!("unexpected entry: {:?}", other),
    }
}

fn mixed(paths: Vec<&str>) -> Result<String, DocumentError> {
    Err(DocumentError::HeterogeneousArray(paths.into_iter().map(|path| path.to_string()).collect()))
}

fn preserving() -> StructOptions {
    let mut options = StructOptions::default();
    options.numeric_width = NumericWidth::Preserve;
    options
}

fn owned() -> StructOptions {
    let mut options = StructOptions::default();
    options.representation = Representation::Owned;
    options
}

#[test]
fn scalar_types_are_kept_when_widths_are_preserved() {
    let options = preserving();
    assert_eq!(type_of(&RawValue::Unit, &options), "()");
    assert_eq!(type_of(&RawValue::Bool(true), &options), "bool");
    assert_eq!(type_of(&RawValue::Char('c'), &options), "char");
    assert_eq!(type_of(&RawValue::I8(1), &options), "i8");
    assert_eq!(type_of(&RawValue::I16(1), &options), "i16");
    assert_eq!(type_of(&RawValue::I32(1), &options), "i32");
    assert_eq!(type_of(&RawValue::I64(1), &options), "i64");
    assert_eq!(type_of(&RawValue::U8(1), &options), "u8");
    assert_eq!(type_of(&RawValue::U16(1), &options), "u16");
    assert_eq!(type_of(&RawValue::U32(1), &options), "u32");
    assert_eq!(type_of(&RawValue::U64(1), &options), "u64");
    assert_eq!(type_of(&RawValue::Isize(1), &options), "isize");
    assert_eq!(type_of(&RawValue::Usize(1), &options), "usize");
    assert_eq!(type_of(&RawValue::F32(float("1")), &options), "f32");
    assert_eq!(type_of(&RawValue::F64(float("1")), &options), "f64");
}

#[test]
fn numbers_are_widened_by_default() {
    let options = StructOptions::default();
    assert_eq!(type_of(&RawValue::I8(1), &options), "i64");
    assert_eq!(type_of(&RawValue::U16(1), &options), "i64");
    assert_eq!(type_of(&RawValue::U64(1), &options), "i64");
    assert_eq!(type_of(&RawValue::Usize(1), &options), "i64");
    assert_eq!(type_of(&RawValue::F32(float("1")), &options), "f64");
    assert_eq!(type_of(&RawValue::F64(float("1")), &options), "f64");
    assert_eq!(type_of(&RawValue::Bool(true), &options), "bool");
}

#[test]
fn strings_and_arrays_are_borrowed_or_owned() {
    let borrowed = StructOptions::default();
    assert_eq!(type_of(&text("x"), &borrowed), "Cow<'static, str>");
    assert_eq!(
        type_of(&RawValue::Array(vec![text("x")]), &borrowed),
        "Cow<'static, [Cow<'static, str>]>"
    );
    assert_eq!(type_of(&RawValue::Array(vec![]), &borrowed), "Cow<'static, [()]>");
    let owned = owned();
    assert_eq!(type_of(&text("x"), &owned), "String");
    assert_eq!(type_of(&RawValue::Array(vec![RawValue::I64(1)]), &owned), "Vec<i64>");
    assert_eq!(type_of(&RawValue::Array(vec![]), &owned), "Vec<()>");
}

#[test]
fn an_array_has_the_type_of_its_elements() {
    let options = preserving();
    let array = RawValue::Array(vec![RawValue::U8(1), RawValue::U8(2), RawValue::U8(3)]);
    assert_eq!(type_of(&array, &options), "Cow<'static, [u8]>");
    let nested = RawValue::Array(vec![
        RawValue::Array(vec![RawValue::Bool(true)]),
        RawValue::Array(vec![RawValue::Bool(false), RawValue::Bool(true)]),
    ]);
    assert_eq!(type_of(&nested, &options), "Cow<'static, [Cow<'static, [bool]>]>");
}

#[test]
fn inference_fails_on_an_array_of_an_integer_and_a_string() {
    let array = RawValue::Array(vec![RawValue::I64(1), text("a")]);
    assert_eq!(type_string(&array, &StructOptions::default()), mixed(vec![""]));
    assert_eq!(type_string(&array, &preserving()), mixed(vec![""]));
}

#[test]
fn inference_fails_where_element_types_differ() {
    let options = StructOptions::default();
    let array = RawValue::Array(vec![
        RawValue::Array(vec![RawValue::I64(1)]),
        RawValue::Array(vec![]),
    ]);
    assert_eq!(type_string(&array, &options), mixed(vec![""]));
    let later = RawValue::Array(vec![RawValue::I64(1), RawValue::I64(2), RawValue::Bool(true)]);
    assert_eq!(type_string(&later, &options), mixed(vec![""]));
}

#[test]
fn inference_fails_where_a_mixed_array_lies_deeper() {
    let options = StructOptions::default();
    let bad = || RawValue::Array(vec![RawValue::I64(1), text("a")]);
    let nested = RawValue::Array(vec![bad(), bad()]);
    assert_eq!(type_string(&nested, &options), mixed(vec!["[0]", "[1]"]));
    let optional = RawValue::Option(Some(Box::new(bad())));
    assert_eq!(type_string(&optional, &options), mixed(vec![""]));
    let inside = RawValue::Struct(record("Config", vec![field("ok", RawValue::I64(1)), field("list", bad())]));
    assert_eq!(type_string(&inside, &options), mixed(vec![".list"]));
    let fine = RawValue::Struct(record("Config", vec![field("ok", RawValue::I64(1))]));
    assert_eq!(type_string(&fine, &options), Ok("Config".to_string()));
}

#[test]
fn declarations_fail_on_a_mixed_array() {
    let options = StructOptions::default();
    let value = record(
        "Config",
        vec![
            field("fine", RawValue::I64(1)),
            field("list", RawValue::Array(vec![RawValue::I64(1), text("a")])),
            field(
                "inner",
                RawValue::Struct(record(
                    "Config__inner",
                    vec![field("deep", RawValue::Array(vec![RawValue::Unit, RawValue::Bool(true)]))],
                )),
            ),
        ],
    );
    let mut out = String::from("// untouched\n");
    assert_eq!(
        generate_struct_declarations(&mut out, &value, &options),
        Err(DocumentError::HeterogeneousArray(vec![
            "Config.list".to_string(),
            "Config.inner.deep".to_string(),
        ]))
    );
    assert_eq!(out, "// untouched\n");
}

#[test]
fn optional_values_and_structs_have_types() {
    let options = StructOptions::default();
    assert_eq!(type_of(&RawValue::Option(None), &options), "Option<()>");
    assert_eq!(
        type_of(&RawValue::Option(Some(Box::new(RawValue::Bool(false)))), &options),
        "Option<bool>"
    );
    assert_eq!(
        type_of(&RawValue::Struct(record("Config__point", vec![])), &options),
        "Config__point"
    );
}

#[test]
fn mixed_arrays_are_told_apart() {
    let options = preserving();
    assert!(!has_mixed_types(&vec![], &options));
    assert!(!has_mixed_types(&vec![RawValue::I64(1)], &options));
    assert!(!has_mixed_types(&vec![RawValue::I64(1), RawValue::I64(2)], &options));
    assert!(has_mixed_types(&vec![RawValue::I64(1), text("two")], &options));
    assert!(has_mixed_types(&vec![RawValue::I64(1), RawValue::I64(2), RawValue::I32(3)], &options));
    assert!(has_mixed_types(&vec![RawValue::I64(1), RawValue::F64(float("2.5"))], &options));
}

#[test]
fn widening_unifies_the_integers_of_an_array() {
    let items = vec![RawValue::I8(1), RawValue::U32(2)];
    assert!(has_mixed_types(&items, &preserving()));
    assert!(!has_mixed_types(&items, &StructOptions::default()));
}

#[test]
fn floats_are_written_with_a_decimal_point() {
    assert_eq!(float_string(&float("5"), "f64"), "5.0");
    assert_eq!(float_string(&float("2.5"), "f64"), "2.5");
    assert_eq!(float_string(&float("-3"), "f32"), "-3.0");
    assert_eq!(float_string(&float("0.1"), "f64"), "0.1");
    assert_eq!(float_string(&float("-0"), "f64"), "-0.0");
    assert_eq!(float_string(&float(&5.0f64.to_string()), "f64"), "5.0");
    assert_eq!(float_string(&float(&1.5f32.to_string()), "f32"), "1.5");
    assert_eq!(float_string(&float(&1e21f64.to_string()), "f64"), "1000000000000000000000.0");
}

#[test]
fn floats_that_are_no_numbers_are_written_by_their_constants() {
    assert_eq!(float_string(&float(&f64::NAN.to_string()), "f64"), "f64::NAN");
    assert_eq!(float_string(&float(&f64::INFINITY.to_string()), "f64"), "f64::INFINITY");
    assert_eq!(float_string(&float(&f64::NEG_INFINITY.to_string()), "f64"), "f64::NEG_INFINITY");
    assert_eq!(float_string(&float(&f32::NAN.to_string()), "f32"), "f32::NAN");
    let widened = StructOptions::default();
    assert_eq!(value_string(&RawValue::F32(float("inf")), 0, &widened), "f64::INFINITY");
    assert_eq!(value_string(&RawValue::F32(float("inf")), 0, &preserving()), "f32::INFINITY");
    assert_eq!(value_string(&RawValue::F64(float("-inf")), 0, &preserving()), "f64::NEG_INFINITY");
    assert_eq!(value_string(&RawValue::F64(float("NaN")), 0, &widened), "f64::NAN");
}

#[test]
fn only_the_text_of_a_float_makes_a_float() {
    for text in ["0", "7", "-7", "1.5", "-0.25", "100.001", "NaN", "inf", "-inf", "-0"] {
        let made = FloatText::new(text.to_string());
        assert_eq!(made.map(|made| made.as_str().to_string()), Some(text.to_string()), "{}", text);
    }
    for text in [
        "", "-", ".", "1.", ".5", "-.5", "1..5", "1.2.3", "1e5", "+1", "--1", "1-", "nan", "Inf",
        "+inf", "infinity", "1.5f64", "1 ", " 1", "1,5", "1.5; evil()", "２",
    ] {
        assert_eq!(FloatText::new(text.to_string()), None, "{:?}", text);
    }
}

#[test]
fn a_float_is_copied_with_its_text() {
    let made = float("2.5");
    assert_eq!(made.copy(), made);
    assert_eq!(made.copy().as_str(), "2.5");
}

#[test]
fn scalar_literals() {
    let options = StructOptions::default();
    assert_eq!(value_string(&RawValue::Unit, 0, &options), "()");
    assert_eq!(value_string(&RawValue::Bool(true), 0, &options), "true");
    assert_eq!(value_string(&RawValue::Bool(false), 0, &options), "false");
    assert_eq!(value_string(&RawValue::Char('x'), 0, &options), "'x'");
    assert_eq!(value_string(&RawValue::Char('\''), 0, &options), "'\\''");
    assert_eq!(value_string(&RawValue::Char('"'), 0, &options), "'\"'");
    assert_eq!(value_string(&RawValue::Char('\n'), 0, &options), "'\\n'");
    assert_eq!(value_string(&RawValue::I8(-128), 0, &options), "-128");
    assert_eq!(value_string(&RawValue::I16(-3), 0, &options), "-3");
    assert_eq!(value_string(&RawValue::I32(7), 0, &options), "7");
    assert_eq!(value_string(&RawValue::I64(i64::MIN), 0, &options), "-9223372036854775808");
    assert_eq!(value_string(&RawValue::U8(255), 0, &options), "255");
    assert_eq!(value_string(&RawValue::U16(65535), 0, &options), "65535");
    assert_eq!(value_string(&RawValue::U32(0), 0, &options), "0");
    assert_eq!(value_string(&RawValue::U64(u64::MAX), 0, &options), "18446744073709551615");
    assert_eq!(value_string(&RawValue::Isize(-1), 0, &options), "-1");
    assert_eq!(value_string(&RawValue::Usize(1), 0, &options), "1");
    assert_eq!(value_string(&RawValue::F32(float("2")), 0, &options), "2.0");
    assert_eq!(value_string(&RawValue::F64(float("1.5")), 0, &options), "1.5");
}

#[test]
fn string_literals_are_escaped_and_wrapped() {
    let borrowed = StructOptions::default();
    assert_eq!(value_string(&text("Application"), 0, &borrowed), "Cow::Borrowed(\"Application\")");
    assert_eq!(
        value_string(&text("a \"quoted\" \\ word\n"), 0, &borrowed),
        "Cow::Borrowed(\"a \\\"quoted\\\" \\\\ word\\n\")"
    );
    assert_eq!(value_string(&text("x"), 0, &owned()), "String::from(\"x\")");
}

#[test]
fn optional_literals() {
    let options = StructOptions::default();
    assert_eq!(value_string(&RawValue::Option(None), 0, &options), "None");
    assert_eq!(
        value_string(&RawValue::Option(Some(Box::new(text("x")))), 0, &options),
        "Some(Cow::Borrowed(\"x\"))"
    );
}

#[test]
fn array_literals() {
    let borrowed = StructOptions::default();
    let array = RawValue::Array(vec![text("one"), text("two"), text("three")]);
    assert_eq!(
        value_string(&array, 0, &borrowed),
        "Cow::Borrowed(&[Cow::Borrowed(\"one\"), Cow::Borrowed(\"two\"), Cow::Borrowed(\"three\")])"
    );
    assert_eq!(value_string(&RawValue::Array(vec![]), 0, &borrowed), "Cow::Borrowed(&[])");
    assert_eq!(
        value_string(&RawValue::Array(vec![RawValue::I64(1)]), 0, &borrowed),
        "Cow::Borrowed(&[1])"
    );
    let numbers = RawValue::Array(vec![RawValue::I64(1), RawValue::I64(2)]);
    assert_eq!(value_string(&numbers, 0, &owned()), "vec![1, 2]");
}

#[test]
fn long_arrays_are_cut_in_the_literal_and_not_in_the_type() {
    let array = RawValue::Array(vec![
        RawValue::I64(1),
        RawValue::I64(2),
        RawValue::I64(3),
        RawValue::I64(4),
    ]);
    let mut options = StructOptions::default();
    options.max_array_size = 2;
    assert_eq!(value_string(&array, 0, &options), "Cow::Borrowed(&[1, 2])");
    assert_eq!(type_of(&array, &options), "Cow<'static, [i64]>");
    options.max_array_size = 4;
    assert_eq!(value_string(&array, 0, &options), "Cow::Borrowed(&[1, 2, 3, 4])");
    options.max_array_size = 5;
    assert_eq!(value_string(&array, 0, &options), "Cow::Borrowed(&[1, 2, 3, 4])");
    options.max_array_size = 1;
    assert_eq!(value_string(&array, 0, &options), "Cow::Borrowed(&[1])");
    options.max_array_size = 0;
    assert_eq!(value_string(&array, 0, &options), "Cow::Borrowed(&[1, 2, 3, 4])");
}

#[test]
fn struct_literals_are_indented() {
    let options = StructOptions::default();
    let value = record(
        "Config",
        vec![
            field("name", text("Application")),
            field("point", RawValue::Struct(record("Config__point", vec![field("x", RawValue::I64(1))]))),
        ],
    );
    assert_eq!(
        struct_value_string(&value, 0, &options),
        "Config {\n    name: Cow::Borrowed(\"Application\"),\n    point: Config__point {\n        x: 1,\n    },\n}"
    );
    assert_eq!(
        struct_value_string(&value, 2, &options),
        "Config {\n      name: Cow::Borrowed(\"Application\"),\n      point: Config__point {\n          x: 1,\n      },\n  }"
    );
    assert_eq!(struct_value_string(&record("Empty", vec![]), 0, &options), "Empty {\n}");
    assert_eq!(struct_value_string(&record("Empty", vec![]), 4, &options), "Empty {\n    }");
}

#[test]
fn structs_in_arrays_are_indented_once_more() {
    let options = StructOptions::default();
    let value = record(
        "Config",
        vec![field(
            "items",
            RawValue::Array(vec![
                RawValue::Struct(record("Config__items", vec![field("id", RawValue::I64(1))])),
                RawValue::Struct(record("Config__items", vec![field("id", RawValue::I64(2))])),
            ]),
        )],
    );
    assert_eq!(
        struct_value_string(&value, 0, &options),
        "Config {\n    items: Cow::Borrowed(&[Config__items {\n            id: 1,\n        }, Config__items {\n            id: 2,\n        }]),\n}"
    );
}

#[test]
fn shapes_list_names_and_types() {
    let options = StructOptions::default();
    let value = record("Config", vec![field("name", text("x")), field("version", RawValue::I64(5))]);
    let shape = struct_shape(&value, &options);
    assert_eq!(
        shape,
        vec![
            ("name".to_string(), "Cow<'static, str>".to_string()),
            ("version".to_string(), "i64".to_string()),
        ]
    );
    assert!(same_shape(&shape, &shape));
    let other = struct_shape(&record("Other", vec![field("name", text("y"))]), &options);
    assert!(!same_shape(&shape, &other));
    let retyped = struct_shape(
        &record("Config", vec![field("name", text("x")), field("version", text("5"))]),
        &options,
    );
    assert!(!same_shape(&shape, &retyped));
    let reordered = struct_shape(
        &record("Config", vec![field("version", RawValue::I64(5)), field("name", text("x"))]),
        &options,
    );
    assert!(!same_shape(&shape, &reordered));
    assert!(same_shape(&Vec::new(), &Vec::new()));
}

#[test]
fn a_declaration_is_written() {
    let mut out = String::from("// start\n");
    push_declaration(
        &mut out,
        "Config",
        &vec![
            ("name".to_string(), "Cow<'static, str>".to_string()),
            ("version".to_string(), "i64".to_string()),
        ],
    );
    assert_eq!(
        out,
        "// start\n#[derive(Debug, Clone, Serialize, Deserialize)]\n#[allow(non_camel_case_types)]\npub struct Config {\n    pub name: Cow<'static, str>,\n    pub version: i64,\n}\n\n"
    );
    let mut out = String::new();
    push_declaration(&mut out, "Empty", &Vec::new());
    assert_eq!(
        out,
        "#[derive(Debug, Clone, Serialize, Deserialize)]\n#[allow(non_camel_case_types)]\npub struct Empty {\n\n}\n\n"
    );
}

#[test]
fn nested_structs_are_declared_after_their_parent() {
    let options = StructOptions::default();
    let value = record(
        "Config",
        vec![
            field("first", RawValue::Struct(record("Config__first", vec![field("a", RawValue::I64(1))]))),
            field("name", text("x")),
            field(
                "second",
                RawValue::Struct(record(
                    "Config__second",
                    vec![field("deep", RawValue::Struct(record("Config__second__deep", vec![])))],
                )),
            ),
        ],
    );
    let mut out = String::new();
    generate_struct_declarations(&mut out, &value, &options).unwrap();
    let derive = "#[derive(Debug, Clone, Serialize, Deserialize)]\n#[allow(non_camel_case_types)]\n";
    let expected = format!(
        "{d}pub struct Config {{\n    pub first: Config__first,\n    pub name: Cow<'static, str>,\n    pub second: Config__second,\n}}\n\n{d}pub struct Config__first {{\n    pub a: i64,\n}}\n\n{d}pub struct Config__second {{\n    pub deep: Config__second__deep,\n}}\n\n{d}pub struct Config__second__deep {{\n\n}}\n\n",
        d = derive
    );
    assert_eq!(out, expected);
}

#[test]
fn a_name_is_declared_once() {
    let options = StructOptions::default();
    let item = |id: i64| RawValue::Struct(record("Config__items", vec![field("id", RawValue::I64(id))]));
    let value = record(
        "Config",
        vec![
            field("items", RawValue::Array(vec![item(1), item(2), item(3)])),
            field("maybe", RawValue::Option(Some(Box::new(RawValue::Struct(record("Config__maybe", vec![])))))),
        ],
    );
    let mut out = String::new();
    generate_struct_declarations(&mut out, &value, &options).unwrap();
    assert_eq!(out.matches("pub struct Config__items {").count(), 1);
    assert_eq!(out.matches("pub struct Config__maybe {").count(), 1);
    assert_eq!(out.matches("pub struct ").count(), 3);
    let items = out.find("pub struct Config__items").unwrap();
    let maybe = out.find("pub struct Config__maybe").unwrap();
    assert!(out.find("pub struct Config {").unwrap() < items);
    assert!(items < maybe);
}

#[test]
fn declarations_are_appended_to_what_is_there() {
    let options = StructOptions::default();
    let mut out = String::from("// header\n");
    generate_struct_declarations(&mut out, &record("Config", vec![field("on", RawValue::Bool(true))]), &options).unwrap();
    assert_eq!(
        out,
        "// header\n#[derive(Debug, Clone, Serialize, Deserialize)]\n#[allow(non_camel_case_types)]\npub struct Config {\n    pub on: bool,\n}\n\n"
    );
}
