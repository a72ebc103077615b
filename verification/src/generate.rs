//! From a value tree to the text of a module.

use vstd::prelude::*;
use vstd::string::*;
use crate::error::{GenerationError, GenerationErrorModel};
use crate::format::Format;
use crate::generation::{push_struct, struct_text};
use crate::load_fns::{
    dynamic_load_text, hybrid_load_text, push_dynamic_load_impl, push_static_load_impl,
    static_load_text,
};
use crate::naming::{assign_names, named_struct};
use crate::options::{DynamicLoading, OptionsModel, StructOptions};
use crate::outline::{
    declarations_text, entry_models, outline, outline_struct, push_declarations, Entry,
    EntryModel,
};
use crate::validation::{check_outline, outline_problem};
use crate::value::{RawStructValue, StructModel};

verus! {

/// What every generated module begins with.
pub open spec fn header_text() -> Seq<char> {
    "#![cfg_attr(rustfmt, rustfmt_skip)]\n#![allow(dead_code)]\n\nuse std::borrow::Cow;\n\n"@
}

/// The constant that holds the values of `config`.
pub open spec fn const_text(config: StructModel, options: OptionsModel) -> Seq<char> {
    "pub const "@ + options.real_const_name() + ": "@ + options.struct_name + " = "@ + struct_text(
        config,
        Seq::empty(),
        options,
    ) + ";\n"@
}

/// The `load` functions that the options ask for.
pub open spec fn load_text(options: OptionsModel, format: Format, filepath: Seq<char>) -> Seq<
    char,
> {
    match options.dynamic_loading {
        DynamicLoading::Always => dynamic_load_text(format, options.struct_name, filepath),
        DynamicLoading::Never => static_load_text(options.struct_name, options.real_const_name()),
        DynamicLoading::DebugOnly => hybrid_load_text(
            format,
            options.struct_name,
            options.real_const_name(),
            filepath,
        ),
    }
}

/// The module generated for `config`, a tree whose structs bear their
/// names and whose outline is `entries`: the header, the declarations,
/// the constant if the options make for one, and the `load` functions if
/// the options ask for them.
pub open spec fn module_text(
    config: StructModel,
    entries: Seq<EntryModel>,
    options: OptionsModel,
    format: Format,
    filepath: Seq<char>,
) -> Seq<char> {
    header_text() + declarations_text(entries, entries.len()) + (if options.emits_const() {
        const_text(config, options)
    } else {
        Seq::empty()
    }) + (if options.generate_load_fns {
        load_text(options, format, filepath)
    } else {
        Seq::empty()
    })
}

/// What generating code for the document `root` comes to.
///
/// The structs of `root` are named after their places, the root after the
/// options. The first of these that applies is the error: options that
/// cannot be used; what is wrong with the named tree; and a missing file
/// path where the document is to be read at run time. Where none applies,
/// the result is the module's text.
pub open spec fn generation_outcome(
    root: StructModel,
    options: OptionsModel,
    format: Format,
    filepath: Option<Seq<char>>,
) -> Result<Seq<char>, GenerationErrorModel> {
    let config = named_struct(root, options.struct_name);
    let entries = outline_struct(config, config.name, options);
    if options.problem() is Some {
        Err(GenerationErrorModel::InvalidOptions(options.problem()->0))
    } else if outline_problem(entries) is Some {
        Err(outline_problem(entries)->0)
    } else if options.loads_dynamically() && filepath is None {
        Err(GenerationErrorModel::MissingFilePath)
    } else {
        Ok(
            module_text(
                config,
                entries,
                options,
                format,
                match filepath {
                    Some(path) => path,
                    None => Seq::empty(),
                },
            ),
        )
    }
}

/// Whether `res` is what `outcome` says, text for text.
pub open spec fn is_outcome(
    res: Result<String, GenerationError>,
    outcome: Result<Seq<char>, GenerationErrorModel>,
) -> bool {
    match res {
        Ok(code) => outcome == Ok::<Seq<char>, GenerationErrorModel>(code@),
        Err(error) => outcome == Err::<Seq<char>, GenerationErrorModel>(error@),
    }
}

/// Appends the constant that holds the values of `config`.
fn push_const(code: &mut String, config: &RawStructValue, options: &StructOptions)
    ensures
        final(code)@ == old(code)@ + const_text(config@, options@),
{
    let const_name = options.real_const_name();
    let margin = String::new();
    code.append("pub const ");
    code.append(const_name.as_str());
    code.append(": ");
    code.append(options.struct_name.as_str());
    code.append(" = ");
    push_struct(code, config, margin.as_str(), options);
    code.append(";\n");
    assert(code@ == old(code)@ + const_text(config@, options@));
}

/// Appends the `load` functions that the options ask for.
fn push_load_fns(code: &mut String, options: &StructOptions, format: Format, filepath: &str)
    ensures
        final(code)@ == old(code)@ + load_text(options@, format, filepath@),
{
    let const_name = options.real_const_name();
    match options.dynamic_loading {
        DynamicLoading::Never => push_static_load_impl(
            code,
            options.struct_name.as_str(),
            const_name.as_str(),
        ),
        DynamicLoading::Always => push_dynamic_load_impl(
            code,
            format,
            options.struct_name.as_str(),
            filepath,
        ),
        DynamicLoading::DebugOnly => {
            code.append("\n#[cfg(debug_assertions)]\n");
            push_dynamic_load_impl(code, format, options.struct_name.as_str(), filepath);
            code.append("\n\n#[cfg(not(debug_assertions))]\n");
            push_static_load_impl(code, options.struct_name.as_str(), const_name.as_str());
            code.append("\n");
            assert(code@ == old(code)@ + hybrid_load_text(
                format,
                options@.struct_name,
                options@.real_const_name(),
                filepath@,
            ));
        },
    }
}

/// Writes the module for `config`, whose outline is `entries`.
fn write_module(
    config: &RawStructValue,
    entries: &Vec<Entry>,
    options: &StructOptions,
    format: Format,
    filepath: &str,
) -> (code: String)
    ensures
        code@ == module_text(config@, entry_models(entries@), options@, format, filepath@),
{
    let mut code = String::new();
    code.append(
        "#![cfg_attr(rustfmt, rustfmt_skip)]\n#![allow(dead_code)]\n\nuse std::borrow::Cow;\n\n",
    );
    push_declarations(&mut code, entries);
    let ghost declared = code@;
    if options.emits_const() {
        push_const(&mut code, config, options);
    }
    let ghost defined = code@;
    assert(defined == declared + (if options@.emits_const() {
        const_text(config@, options@)
    } else {
        Seq::empty()
    }));
    if options.generate_load_fns {
        push_load_fns(&mut code, options, format, filepath);
    }
    assert(code@ == defined + (if options@.generate_load_fns {
        load_text(options@, format, filepath@)
    } else {
        Seq::empty()
    }));
    code
}

/// Generates the text of a module for the document `root`, which was
/// written in `format` and read from the file at `filepath`, if from any.
pub fn generate_config_from_struct(
    root: &RawStructValue,
    options: &StructOptions,
    format: Format,
    filepath: Option<&str>,
) -> (res: Result<String, GenerationError>)
    ensures
        is_outcome(
            res,
            generation_outcome(
                root@,
                options@,
                format,
                match filepath {
                    Some(path) => Some(path@),
                    None => None,
                },
            ),
        ),
{
    match options.validate() {
        Err(error) => {
            return Err(GenerationError::InvalidOptions(error));
        },
        Ok(_) => {},
    }
    let config = assign_names(root, options.struct_name.as_str());
    let entries = outline(&config, options);
    match check_outline(&entries) {
        Err(error) => {
            return Err(error);
        },
        Ok(_) => {},
    }
    match filepath {
        Some(path) => Ok(write_module(&config, &entries, options, format, path)),
        None => {
            if options.loads_dynamically() {
                Err(GenerationError::MissingFilePath)
            } else {
                proof {
                    reveal_strlit("");
                    assert(""@ =~= Seq::<char>::empty());
                }
                Ok(write_module(&config, &entries, options, format, ""))
            }
        },
    }
}

} // verus!
