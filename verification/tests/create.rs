use config_struct::{
    create_config, create_config_from_source, create_config_with_format,
    generate_config_from_source, write_destination, DynamicLoading, Format, GenerationError,
    StructOptions,
};

fn loading() -> StructOptions {
    let mut options = StructOptions::default();
    options.generate_load_fns = true;
    options
}

fn static_only() -> StructOptions {
    let mut options = loading();
    options.dynamic_loading = DynamicLoading::Never;
    options
}

#[test]
fn an_unchanged_destination_is_left_alone() {
    let options = StructOptions::default();
    assert_eq!(write_destination(Some("same"), "same".to_string(), &options), None);
    assert_eq!(write_destination(Some("old"), "new".to_string(), &options), Some("new".to_string()));
    assert_eq!(write_destination(None, "new".to_string(), &options), Some("new".to_string()));
    assert_eq!(write_destination(Some(""), String::new(), &options), None);
}

#[test]
fn everything_is_written_when_asked_so() {
    let mut options = StructOptions::default();
    options.write_only_if_changed = false;
    assert_eq!(write_destination(Some("same"), "same".to_string(), &options), Some("same".to_string()));
    assert_eq!(write_destination(None, "new".to_string(), &options), Some("new".to_string()));
}

#[test]
fn a_module_is_created_from_source() {
    let options = static_only();
    let source = "(number: 100)";
    let output = generate_config_from_source(Format::Ron, source, &options).unwrap();
    assert!(output.contains("pub number: i64"));
    assert!(output.contains("number: 100"));
    assert_eq!(
        create_config_from_source(Format::Ron, source, None, &options),
        Ok(Some(output.clone()))
    );
    assert_eq!(
        create_config_from_source(Format::Ron, source, Some("stale"), &options),
        Ok(Some(output.clone()))
    );
    assert_eq!(create_config_from_source(Format::Ron, source, Some(output.as_str()), &options), Ok(None));
}

#[test]
fn a_module_is_created_from_a_file() {
    let options = loading();
    let source = "(number: 100)";
    let output = create_config("config.ron", source, None, &options).unwrap().unwrap();
    assert!(output.contains("\"/config.ron\""));
    assert_eq!(create_config("config.ron", source, Some(output.as_str()), &options), Ok(None));
    assert_eq!(
        create_config_with_format(Format::Ron, "config.txt", source, Some("old"), &options)
            .unwrap()
            .unwrap(),
        output.replace("/config.ron", "/config.txt")
    );
    assert_eq!(
        create_config_with_format(Format::Ron, "config.ron", source, Some(output.as_str()), &options),
        Ok(None)
    );
}

#[test]
fn errors_are_handed_on() {
    let options = loading();
    assert_eq!(
        create_config("config.txt", "()", None, &options),
        Err(GenerationError::UnknownInputFormat("txt".to_string()))
    );
    assert_eq!(
        create_config_from_source(Format::Ron, "(a: 1)", None, &options),
        Err(GenerationError::MissingFilePath)
    );
    assert_eq!(
        create_config_with_format(Format::Toml, "config.toml", "", None, &options),
        Err(GenerationError::ParseError("only RON documents can be parsed".to_string()))
    );
}
