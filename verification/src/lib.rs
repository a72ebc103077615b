//! Generates Rust source code that declares structs for a configuration
//! document and holds the document's values in a constant.
//!
//! A document is read into a tree of [`RawValue`]s. Its structs are named
//! after their places in the tree, the tree is checked, and the text of a
//! module is written: a header, the declarations of the structs, the
//! constant and the `load` functions, as the [`StructOptions`] ask.
//!
//! This library touches no file. Where a function speaks of a file, it is
//! handed the file's name and what the file holds, and it answers with the
//! text that its caller has to write.

pub mod error;
pub mod format;
pub mod generate;
pub mod generation;
pub mod laws;
pub mod load_fns;
pub mod naming;
pub mod options;
pub mod outline;
pub mod ron_parsing;
pub mod text;
pub mod validation;
pub mod value;

use vstd::prelude::*;
use vstd::string::*;

pub use crate::error::{DocumentError, GenerationError, GenerationErrorModel, OptionsError};
pub use crate::format::Format;
pub use crate::generate::generate_config_from_struct;
pub use crate::generation::{generate_struct_declarations, struct_value_string};
pub use crate::options::{
    DynamicLoading, NumericWidth, OptionsModel, Representation, StructOptions,
};
pub use crate::ron_parsing::parse_config;
pub use crate::value::{FloatText, RawField, RawStructValue, RawValue};

use crate::format::format_of_filename;
use crate::generate::{generation_outcome, is_outcome};
use crate::ron_parsing::parsed_document;
use crate::value::StructModel;

verus! {

/// What reading `source` as a document in `format` comes to. Only RON
/// documents are read here.
pub open spec fn parse_outcome(format: Format, source: Seq<char>) -> Result<
    StructModel,
    GenerationErrorModel,
> {
    match format {
        Format::Ron => parsed_document(source),
        _ => Err(GenerationErrorModel::ParseError("only RON documents can be parsed"@)),
    }
}

/// What generating code from `source` comes to: the first of an error in
/// the options, an error in reading the document, and what generating
/// code for the document comes to.
pub open spec fn source_outcome(
    format: Format,
    source: Seq<char>,
    options: OptionsModel,
    filepath: Option<Seq<char>>,
) -> Result<Seq<char>, GenerationErrorModel> {
    if options.problem() is Some {
        Err(GenerationErrorModel::InvalidOptions(options.problem()->0))
    } else {
        match parse_outcome(format, source) {
            Ok(root) => generation_outcome(root, options, format, filepath),
            Err(error) => Err(error),
        }
    }
}

/// What generating code from the file named `filepath`, which holds
/// `source`, comes to: the format is told by the file's name.
pub open spec fn file_outcome(filepath: Seq<char>, source: Seq<char>, options: OptionsModel) -> Result<
    Seq<char>,
    GenerationErrorModel,
> {
    match format_of_filename(filepath) {
        Ok(format) => source_outcome(format, source, options, Some(filepath)),
        Err(error) => Err(error),
    }
}

/// What has to be written to a destination that holds `existing`, if
/// anything, when the output is `output`: nothing where only a change is
/// to be written and the destination holds the output already.
pub open spec fn to_write(output: Seq<char>, existing: Option<Seq<char>>, options: OptionsModel) -> Option<
    Seq<char>,
> {
    if options.write_only_if_changed && existing == Some(output) {
        None
    } else {
        Some(output)
    }
}

/// Whether `res` says what has to be written when generation came to
/// `outcome`.
pub open spec fn is_write_plan(
    res: Result<Option<String>, GenerationError>,
    outcome: Result<Seq<char>, GenerationErrorModel>,
    existing: Option<Seq<char>>,
    options: OptionsModel,
) -> bool {
    match res {
        Ok(Some(output)) => outcome is Ok && to_write(outcome->Ok_0, existing, options) == Some(
            output@,
        ),
        Ok(None) => outcome is Ok && to_write(outcome->Ok_0, existing, options) is None,
        Err(error) => outcome == Err::<Seq<char>, GenerationErrorModel>(error@),
    }
}

/// The view of an optional text.
pub open spec fn text_of(text: Option<&str>) -> Option<Seq<char>> {
    match text {
        Some(text) => Some(text@),
        None => None,
    }
}

/// Generates Rust source code defining structs from a config string in
/// some format that was read from the file at `filepath`, if from any.
pub fn generate_config_from_source_with_filepath(
    format: Format,
    source: &str,
    options: &StructOptions,
    filepath: Option<&str>,
) -> (res: Result<String, GenerationError>)
    ensures
        is_outcome(res, source_outcome(format, source@, options@, text_of(filepath))),
{
    match options.validate() {
        Err(error) => {
            return Err(GenerationError::InvalidOptions(error));
        },
        Ok(_) => {},
    }
    let parsed = match format {
        Format::Ron => parse_config(source),
        _ => Err(GenerationError::ParseError("only RON documents can be parsed".to_owned())),
    };
    match parsed {
        Ok(root) => generate_config_from_struct(&root, options, format, filepath),
        Err(error) => Err(error),
    }
}

/// Generates Rust source code defining structs from a config string in
/// some specified format.
pub fn generate_config_from_source(format: Format, source: &str, options: &StructOptions) -> (res:
    Result<String, GenerationError>)
    ensures
        is_outcome(res, source_outcome(format, source@, options@, None)),
{
    generate_config_from_source_with_filepath(format, source, options, None)
}

/// Generates Rust source code defining structs based on the config file
/// named `filepath`, which holds `source`, in an explicit format.
pub fn generate_config_with_format(
    format: Format,
    filepath: &str,
    source: &str,
    options: &StructOptions,
) -> (res: Result<String, GenerationError>)
    ensures
        is_outcome(res, source_outcome(format, source@, options@, Some(filepath@))),
{
    generate_config_from_source_with_filepath(format, source, options, Some(filepath))
}

/// Generates Rust source code defining structs based on the config file
/// named `filepath`, which holds `source`. The format of the file is told
/// by the extension of its name.
pub fn generate_config(filepath: &str, source: &str, options: &StructOptions) -> (res: Result<
    String,
    GenerationError,
>)
    ensures
        is_outcome(res, file_outcome(filepath@, source@, options@)),
{
    match Format::from_filename(filepath) {
        Ok(format) => generate_config_with_format(format, filepath, source, options),
        Err(error) => Err(error),
    }
}

/// Decides what has to be written to a destination that holds `existing`,
/// if it could be read, when the output is `output`.
pub fn write_destination(existing: Option<&str>, output: String, options: &StructOptions) -> (res:
    Option<String>)
    ensures
        match res {
            Some(text) => to_write(output@, text_of(existing), options@) == Some(text@),
            None => to_write(output@, text_of(existing), options@) is None,
        },
{
    if options.write_only_if_changed {
        match existing {
            Some(text) => {
                if text.to_owned() == output {
                    return None;
                }
            },
            None => {},
        }
    }
    Some(output)
}

/// Generates a Rust module containing struct definitions based on the
/// config file named `filepath`, which holds `source`, and says what has
/// to be written to the destination, which holds `existing` if it could
/// be read. The format of the config is told by the extension of its name.
pub fn create_config(
    filepath: &str,
    source: &str,
    existing: Option<&str>,
    options: &StructOptions,
) -> (res: Result<Option<String>, GenerationError>)
    ensures
        is_write_plan(
            res,
            file_outcome(filepath@, source@, options@),
            text_of(existing),
            options@,
        ),
{
    match generate_config(filepath, source, options) {
        Ok(output) => Ok(write_destination(existing, output, options)),
        Err(error) => Err(error),
    }
}

/// Generates a Rust module containing struct definitions based on the
/// config file named `filepath`, which holds `source` in an explicit
/// format, and says what has to be written to the destination.
pub fn create_config_with_format(
    format: Format,
    filepath: &str,
    source: &str,
    existing: Option<&str>,
    options: &StructOptions,
) -> (res: Result<Option<String>, GenerationError>)
    ensures
        is_write_plan(
            res,
            source_outcome(format, source@, options@, Some(filepath@)),
            text_of(existing),
            options@,
        ),
{
    match generate_config_with_format(format, filepath, source, options) {
        Ok(output) => Ok(write_destination(existing, output, options)),
        Err(error) => Err(error),
    }
}

/// Generates a Rust module containing struct definitions from a config
/// string in some specified format, and says what has to be written to
/// the destination.
pub fn create_config_from_source(
    format: Format,
    source: &str,
    existing: Option<&str>,
    options: &StructOptions,
) -> (res: Result<Option<String>, GenerationError>)
    ensures
        is_write_plan(
            res,
            source_outcome(format, source@, options@, None),
            text_of(existing),
            options@,
        ),
{
    match generate_config_from_source(format, source, options) {
        Ok(output) => Ok(write_destination(existing, output, options)),
        Err(error) => Err(error),
    }
}

} // verus!
