use config_struct::{
    generate_config, generate_config_from_source, generate_config_from_struct,
    generate_config_with_format, DynamicLoading, Format, GenerationError, RawField,
    RawStructValue, RawValue, StructOptions,
};
use config_struct::value::FloatText;
fn float(text: &str) -> FloatText {
    FloatText::new(text.to_string()).unwrap()
}

fn text(s: &str) -> RawValue {
    RawValue::String(s.to_string())
}

fn field(name: &str, value: RawValue) -> RawField {
    RawField { name: name.to_string(), value }
}

fn record(fields: Vec<RawField>) -> RawStructValue {
    RawStructValue { struct_name: String::new(), fields }
}

fn loading() -> StructOptions {
    let mut options = StructOptions::default();
    options.generate_load_fns = true;
    options
}

fn static_only() -> StructOptions {
    let mut options = loading();
    options.dynamic_loading = DynamicLoading::Never;
    options
}

fn application() -> RawStructValue {
    record(vec![
        field("name", text("Application")),
        field("version", RawValue::I64(5)),
        field("features", RawValue::Array(vec![text("one"), text("two"), text("three")])),
    ])
}

const HEADER: &str = "#![cfg_attr(rustfmt, rustfmt_skip)]
#![allow(dead_code)]

use std::borrow::Cow;

";

const APPLICATION_STRUCT: &str = "#[derive(Debug, Clone, Serialize, Deserialize)]
#[allow(non_camel_case_types)]
pub struct Config {
    pub name: Cow<'static, str>,
    pub version: i64,
    pub features: Cow<'static, [Cow<'static, str>]>,
}

";

const APPLICATION_CONST: &str = "pub const CONFIG: Config = Config {
    name: Cow::Borrowed(\"Application\"),
    version: 5,
    features: Cow::Borrowed(&[Cow::Borrowed(\"one\"), Cow::Borrowed(\"two\"), Cow::Borrowed(\"three\")]),
};
";

const STATIC_LOAD: &str = "impl Config {
    #[inline(always)]
    pub fn load() -> Cow<'static, Self> {
        Cow::Borrowed(&CONFIG)
    }

    #[inline(always)]
    pub fn load_from(_: &::std::path::Path) -> Result<Cow<'static, Self>, Box<dyn ::std::error::Error>> {
        Ok(Cow::Borrowed(&CONFIG))
    }
}
";

const DYNAMIC_LOAD: &str = "impl Config {
    pub fn load() -> Cow<'static, Self> {
        let filepath = concat!(env!(\"CARGO_MANIFEST_DIR\"), \"/config.ron\");
        Self::load_from(filepath.as_ref()).expect(\"Failed to load Config.\")
    }

    pub fn load_from(filepath: &::std::path::Path) -> Result<Cow<'static, Self>, Box<dyn ::std::error::Error>> {
        let file_contents = ::std::fs::read_to_string(filepath)?;
        let result: Self = ::ron::de::from_str(&file_contents)?;
        Ok(Cow::Owned(result))
    }
}
";

#[test]
fn application_example_with_default_options() {
    let options = StructOptions::default();
    let code = generate_config_from_struct(&application(), &options, Format::Ron, None).unwrap();
    assert_eq!(code, format!("{}{}{}", HEADER, APPLICATION_STRUCT, APPLICATION_CONST));
    let source = r#"(name: "Application", version: 5, features: ["one", "two", "three"])"#;
    assert_eq!(generate_config_from_source(Format::Ron, source, &options), Ok(code.clone()));
    assert_eq!(generate_config("config.ron", source, &options), Ok(code));
}

#[test]
fn application_example_with_load_functions() {
    let code =
        generate_config_from_struct(&application(), &loading(), Format::Ron, Some("config.ron"))
            .unwrap();
    let expected = format!(
        "{}{}{}\n#[cfg(debug_assertions)]\n{}\n\n#[cfg(not(debug_assertions))]\n{}\n",
        HEADER, APPLICATION_STRUCT, APPLICATION_CONST, DYNAMIC_LOAD, STATIC_LOAD
    );
    assert_eq!(code, expected);
}

#[test]
fn application_example_from_ron_text() {
    let source = r#"(name: "Application", version: 5, features: ["one", "two", "three"])"#;
    let code = generate_config_from_source(Format::Ron, source, &static_only()).unwrap();
    assert_eq!(code, format!("{}{}{}{}", HEADER, APPLICATION_STRUCT, APPLICATION_CONST, STATIC_LOAD));
    assert!(code.contains("pub struct Config"));
    assert!(code.contains("pub version: i64"));
    assert!(code.contains("version: 5"));
}

#[test]
fn application_example_from_a_file() {
    let source = r#"(name: "Application", version: 5, features: ["one", "two", "three"])"#;
    let mut options = loading();
    options.dynamic_loading = DynamicLoading::Always;
    let code = generate_config("config.ron", source, &options).unwrap();
    assert_eq!(code, format!("{}{}{}{}", HEADER, APPLICATION_STRUCT, APPLICATION_CONST, DYNAMIC_LOAD));
    options.generate_const = false;
    let code = generate_config_with_format(Format::Ron, "config.ron", source, &options).unwrap();
    assert_eq!(code, format!("{}{}{}", HEADER, APPLICATION_STRUCT, DYNAMIC_LOAD));
}

#[test]
fn generating_twice_gives_the_same_text() {
    let first = generate_config_from_struct(&application(), &static_only(), Format::Ron, None);
    let second = generate_config_from_struct(&application(), &static_only(), Format::Ron, None);
    assert!(first.is_ok());
    assert_eq!(first, second);
    let source = r#"(b: (y: 1, x: 2), a: [(k: "v")])"#;
    let first = generate_config_from_source(Format::Ron, source, &static_only());
    let second = generate_config_from_source(Format::Ron, source, &static_only());
    assert!(first.is_ok());
    assert_eq!(first, second);
}

#[test]
fn point_example_keeps_floats_as_floats() {
    let document = record(vec![field(
        "point",
        RawValue::Struct(record(vec![
            field("x", RawValue::F64(float(&1.5f64.to_string()))),
            field("y", RawValue::F64(float(&2.0f64.to_string()))),
        ])),
    )]);
    let mut options = static_only();
    options.generate_load_fns = false;
    let code = generate_config_from_struct(&document, &options, Format::Json, None).unwrap();
    let expected = format!(
        "{}{}",
        HEADER,
        "#[derive(Debug, Clone, Serialize, Deserialize)]
#[allow(non_camel_case_types)]
pub struct Config {
    pub point: Config__point,
}

#[derive(Debug, Clone, Serialize, Deserialize)]
#[allow(non_camel_case_types)]
pub struct Config__point {
    pub x: f64,
    pub y: f64,
}

pub const CONFIG: Config = Config {
    point: Config__point {
        x: 1.5,
        y: 2.0,
    },
};
"
    );
    assert_eq!(code, expected);
}

#[test]
fn point_example_from_ron_text() {
    let mut options = static_only();
    options.generate_load_fns = false;
    let code =
        generate_config_from_source(Format::Ron, "(point: (x: 1.5, y: 2.0))", &options).unwrap();
    assert!(code.contains("pub struct Config__point {\n    pub x: f64,\n    pub y: f64,\n}\n"));
    assert!(code.contains("    point: Config__point {\n        x: 1.5,\n        y: 2.0,\n    },\n"));
}

#[test]
fn infinite_floats_from_ron_text_are_written_by_their_constants() {
    let mut options = static_only();
    options.generate_load_fns = false;
    let code = generate_config_from_source(Format::Ron, "(top: inf, bottom: -inf, none: NaN)", &options)
        .unwrap();
    assert!(code.contains("    top: f64::INFINITY,\n    bottom: f64::NEG_INFINITY,\n    none: f64::NAN,\n"));
    assert!(code.contains("    pub top: f64,\n    pub bottom: f64,\n    pub none: f64,\n"));
}

#[test]
fn missing_path_example() {
    let source = r#"(name: "Application")"#;
    let mut options = loading();
    options.dynamic_loading = DynamicLoading::Always;
    assert_eq!(
        generate_config_from_source(Format::Ron, source, &options),
        Err(GenerationError::MissingFilePath)
    );
    options.dynamic_loading = DynamicLoading::DebugOnly;
    assert_eq!(
        generate_config_from_source(Format::Ron, source, &options),
        Err(GenerationError::MissingFilePath)
    );
    options.dynamic_loading = DynamicLoading::Never;
    let code = generate_config_from_source(Format::Ron, source, &options).unwrap();
    assert!(code.contains("pub const CONFIG: Config = Config {\n    name: Cow::Borrowed(\"Application\"),\n};\n"));
    assert!(code.ends_with(STATIC_LOAD));
}

#[test]
fn without_load_functions_no_path_is_needed() {
    let mut options = StructOptions::default();
    options.dynamic_loading = DynamicLoading::Always;
    let code = generate_config_from_struct(&application(), &options, Format::Ron, None).unwrap();
    assert_eq!(code, format!("{}{}{}", HEADER, APPLICATION_STRUCT, APPLICATION_CONST));
    options.generate_const = false;
    let code = generate_config_from_struct(&application(), &options, Format::Ron, None).unwrap();
    assert_eq!(code, format!("{}{}", HEADER, APPLICATION_STRUCT));
}

#[test]
fn names_from_the_options_are_used() {
    let mut options = static_only();
    options.struct_name = "Settings".to_string();
    options.const_name = Some("DEFAULTS".to_string());
    let document = record(vec![field("inner", RawValue::Struct(record(vec![field("on", RawValue::Bool(true))])))]);
    let code = generate_config_from_struct(&document, &options, Format::Ron, None).unwrap();
    assert!(code.contains("pub struct Settings {\n    pub inner: Settings__inner,\n}\n"));
    assert!(code.contains("pub struct Settings__inner {\n    pub on: bool,\n}\n"));
    assert!(code.contains("pub const DEFAULTS: Settings = Settings {\n    inner: Settings__inner {\n        on: true,\n    },\n};\n"));
    assert!(code.contains("impl Settings {"));
    assert!(code.contains("Cow::Borrowed(&DEFAULTS)"));
}

#[test]
fn identical_array_elements_share_one_declaration() {
    let source = r#"(servers: [(host: "a", limit: 1), (host: "b", limit: 2)])"#;
    let mut options = static_only();
    options.generate_load_fns = false;
    let code = generate_config_from_source(Format::Ron, source, &options).unwrap();
    assert_eq!(code.matches("pub struct Config__servers {").count(), 1);
    assert!(code.contains("pub servers: Cow<'static, [Config__servers]>,"));
    assert!(code.contains(
        "    servers: Cow::Borrowed(&[Config__servers {\n            host: Cow::Borrowed(\"a\"),\n            limit: 1,\n        }, Config__servers {\n            host: Cow::Borrowed(\"b\"),\n            limit: 2,\n        }]),\n"
    ));
}

#[test]
fn only_ron_text_is_parsed() {
    for format in [Format::Json, Format::Toml, Format::Yaml] {
        assert_eq!(
            generate_config_from_source(format, "{}", &static_only()),
            Err(GenerationError::ParseError("only RON documents can be parsed".to_string()))
        );
    }
}

#[test]
fn an_unknown_extension_is_an_error() {
    assert_eq!(
        generate_config("config.ini", "()", &loading()),
        Err(GenerationError::UnknownInputFormat("ini".to_string()))
    );
    assert_eq!(
        generate_config("config", "()", &StructOptions::default()),
        Err(GenerationError::UnknownInputFormat("<none>".to_string()))
    );
}
