use config_struct::format::file_extension;
use config_struct::{Format, GenerationError};

#[test]
fn extensions_are_found() {
    assert_eq!(file_extension("config.toml"), Some("toml".to_string()));
    assert_eq!(file_extension("dir/config.ron"), Some("ron".to_string()));
    assert_eq!(file_extension("a.b/c.d.json"), Some("json".to_string()));
    assert_eq!(file_extension("archive.tar.gz"), Some("gz".to_string()));
    assert_eq!(file_extension("trailing."), Some(String::new()));
    assert_eq!(file_extension("dir/.hidden.yml"), Some("yml".to_string()));
}

#[test]
fn names_without_an_extension() {
    assert_eq!(file_extension(""), None);
    assert_eq!(file_extension("config"), None);
    assert_eq!(file_extension(".hidden"), None);
    assert_eq!(file_extension("dir/.hidden"), None);
    assert_eq!(file_extension("dir.d/config"), None);
    assert_eq!(file_extension("dir.d/"), None);
}

#[test]
fn formats_are_told_by_extension() {
    assert_eq!(Format::from_filename("config.json"), Ok(Format::Json));
    assert_eq!(Format::from_filename("config.ron"), Ok(Format::Ron));
    assert_eq!(Format::from_filename("config.toml"), Ok(Format::Toml));
    assert_eq!(Format::from_filename("config.yaml"), Ok(Format::Yaml));
    assert_eq!(Format::from_filename("config.yml"), Ok(Format::Yaml));
    assert_eq!(Format::from_filename("some/dir.json/config.ron"), Ok(Format::Ron));
}

#[test]
fn unknown_extensions_are_reported() {
    assert_eq!(
        Format::from_filename("config.txt"),
        Err(GenerationError::UnknownInputFormat("txt".to_string()))
    );
    assert_eq!(
        Format::from_filename("config.JSON"),
        Err(GenerationError::UnknownInputFormat("JSON".to_string()))
    );
    assert_eq!(
        Format::from_filename("config"),
        Err(GenerationError::UnknownInputFormat("<none>".to_string()))
    );
    assert_eq!(
        Format::from_filename("config."),
        Err(GenerationError::UnknownInputFormat(String::new()))
    );
}
