//! The text of the `load` functions of a generated struct.

use vstd::prelude::*;
use vstd::string::*;
use crate::format::Format;
use crate::text::{escaped, push_escaped};

verus! {

/// The function of a parser crate that reads a document of this format.
pub open spec fn parser_path(format: Format) -> Seq<char> {
    match format {
        Format::Json => "::serde_json::from_str"@,
        Format::Ron => "::ron::de::from_str"@,
        Format::Toml => "::toml::from_str"@,
        Format::Yaml => "::serde_yaml::from_str"@,
    }
}

/// The `load` functions that hand out the constant.
pub open spec fn static_load_text(struct_name: Seq<char>, const_name: Seq<char>) -> Seq<char> {
    "impl "@ + struct_name
        + " {\n    #[inline(always)]\n    pub fn load() -> Cow<'static, Self> {\n        Cow::Borrowed(&"@
        + const_name
        + ")\n    }\n\n    #[inline(always)]\n    pub fn load_from(_: &::std::path::Path) -> Result<Cow<'static, Self>, Box<dyn ::std::error::Error>> {\n        Ok(Cow::Borrowed(&"@
        + const_name + "))\n    }\n}\n"@
}

/// The `load` functions that read the document anew from the file at
/// `filepath`, a path below the directory of the package that is being
/// built.
pub open spec fn dynamic_load_text(
    format: Format,
    struct_name: Seq<char>,
    filepath: Seq<char>,
) -> Seq<char> {
    "impl "@ + struct_name
        + " {\n    pub fn load() -> Cow<'static, Self> {\n        let filepath = concat!(env!(\"CARGO_MANIFEST_DIR\"), \"/"@
        + escaped(filepath, '"')
        + "\");\n        Self::load_from(filepath.as_ref()).expect(\"Failed to load "@
        + struct_name
        + ".\")\n    }\n\n    pub fn load_from(filepath: &::std::path::Path) -> Result<Cow<'static, Self>, Box<dyn ::std::error::Error>> {\n        let file_contents = ::std::fs::read_to_string(filepath)?;\n        let result: Self = "@
        + parser_path(format) + "(&file_contents)?;\n        Ok(Cow::Owned(result))\n    }\n}\n"@
}

/// The `load` functions that read the document anew in debug builds and
/// hand out the constant in release builds.
pub open spec fn hybrid_load_text(
    format: Format,
    struct_name: Seq<char>,
    const_name: Seq<char>,
    filepath: Seq<char>,
) -> Seq<char> {
    "\n#[cfg(debug_assertions)]\n"@ + dynamic_load_text(format, struct_name, filepath)
        + "\n\n#[cfg(not(debug_assertions))]\n"@ + static_load_text(struct_name, const_name)
        + "\n"@
}

/// Appends the `load` functions that hand out the constant.
pub fn push_static_load_impl(out: &mut String, struct_name: &str, const_name: &str)
    ensures
        final(out)@ == old(out)@ + static_load_text(struct_name@, const_name@),
{
    out.append("impl ");
    out.append(struct_name);
    out.append(
        " {\n    #[inline(always)]\n    pub fn load() -> Cow<'static, Self> {\n        Cow::Borrowed(&",
    );
    out.append(const_name);
    out.append(
        ")\n    }\n\n    #[inline(always)]\n    pub fn load_from(_: &::std::path::Path) -> Result<Cow<'static, Self>, Box<dyn ::std::error::Error>> {\n        Ok(Cow::Borrowed(&",
    );
    out.append(const_name);
    out.append("))\n    }\n}\n");
    assert(out@ == old(out)@ + static_load_text(struct_name@, const_name@));
}

/// Appends the `load` functions that read the document anew from the file
/// at `filepath`.
pub fn push_dynamic_load_impl(out: &mut String, format: Format, struct_name: &str, filepath: &str)
    ensures
        final(out)@ == old(out)@ + dynamic_load_text(format, struct_name@, filepath@),
{
    out.append("impl ");
    out.append(struct_name);
    out.append(
        " {\n    pub fn load() -> Cow<'static, Self> {\n        let filepath = concat!(env!(\"CARGO_MANIFEST_DIR\"), \"/",
    );
    push_escaped(out, filepath, '"');
    out.append("\");\n        Self::load_from(filepath.as_ref()).expect(\"Failed to load ");
    out.append(struct_name);
    out.append(
        ".\")\n    }\n\n    pub fn load_from(filepath: &::std::path::Path) -> Result<Cow<'static, Self>, Box<dyn ::std::error::Error>> {\n        let file_contents = ::std::fs::read_to_string(filepath)?;\n        let result: Self = ",
    );
    match format {
        Format::Json => out.append("::serde_json::from_str"),
        Format::Ron => out.append("::ron::de::from_str"),
        Format::Toml => out.append("::toml::from_str"),
        Format::Yaml => out.append("::serde_yaml::from_str"),
    }
    out.append("(&file_contents)?;\n        Ok(Cow::Owned(result))\n    }\n}\n");
    assert(out@ == old(out)@ + dynamic_load_text(format, struct_name@, filepath@));
}

/// Writes the `load` functions that hand out the constant.
pub fn static_load_impl(struct_name: &str, const_name: &str) -> (text: String)
    ensures
        text@ == static_load_text(struct_name@, const_name@),
{
    let mut text = String::new();
    push_static_load_impl(&mut text, struct_name, const_name);
    text
}

/// Writes the `load` functions that read the document anew from the file
/// at `filepath`.
pub fn dynamic_load_impl(format: Format, struct_name: &str, filepath: &str) -> (text: String)
    ensures
        text@ == dynamic_load_text(format, struct_name@, filepath@),
{
    let mut text = String::new();
    push_dynamic_load_impl(&mut text, format, struct_name, filepath);
    text
}

} // verus!
