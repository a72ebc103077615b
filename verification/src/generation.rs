//! Type inference and the text of declarations and literals.

use vstd::prelude::*;
use vstd::string::*;
use crate::options::{NumericWidth, OptionsModel, Representation, StructOptions};
use crate::error::{DocumentError, DocumentErrorModel};
use crate::outline::{
    declarations_text, entry_models, find_problems, lemma_mixed_arrays_are_listed,
    mixed_array_paths, outline, outline_struct, outline_value, push_declarations,
    push_value_outline, Entry, EntryModel, Problem,
};
use crate::text::{
    contains_char, decimal, escaped, escaped_char, is_decimal_text, is_digit, is_float_text,
    push_char, push_decimal, push_escaped, push_escaped_char, push_spaces, spaces, unsigned,
};
use crate::value::{
    lemma_array_view, lemma_struct_view, value_models, FieldModel, FloatText, RawStructValue,
    RawValue, StructModel, ValueModel,
};

verus! {

/// The type of an integer that was read as `own`.
pub open spec fn integer_type(own: Seq<char>, options: OptionsModel) -> Seq<char> {
    if options.numeric_width == NumericWidth::Widen {
        "i64"@
    } else {
        own
    }
}

/// The type of a float that was read as `own`.
pub open spec fn float_type(own: Seq<char>, options: OptionsModel) -> Seq<char> {
    if options.numeric_width == NumericWidth::Widen {
        "f64"@
    } else {
        own
    }
}

/// The type of a string.
pub open spec fn string_type(options: OptionsModel) -> Seq<char> {
    match options.representation {
        Representation::Borrowed => "Cow<'static, str>"@,
        Representation::Owned => "String"@,
    }
}

/// The type of an array whose elements have the type `element`.
pub open spec fn array_type(element: Seq<char>, options: OptionsModel) -> Seq<char> {
    match options.representation {
        Representation::Borrowed => "Cow<'static, ["@ + element + "]>"@,
        Representation::Owned => "Vec<"@ + element + ">"@,
    }
}

/// The type that `value` has going by the first element of each array in
/// it: an array has the element type of its first element, or `()` when
/// it is empty; an absent optional value wraps `()`; a struct has the type
/// that its name says. Where no array in `value` is mixed, this is the
/// type that generated code gives to `value`; where one is, `value` has
/// no type.
pub open spec fn type_text(value: ValueModel, options: OptionsModel) -> Seq<char>
    decreases value,
{
    match value {
        ValueModel::Unit => "()"@,
        ValueModel::Bool(_) => "bool"@,
        ValueModel::Char(_) => "char"@,
        ValueModel::I8(_) => integer_type("i8"@, options),
        ValueModel::I16(_) => integer_type("i16"@, options),
        ValueModel::I32(_) => integer_type("i32"@, options),
        ValueModel::I64(_) => integer_type("i64"@, options),
        ValueModel::U8(_) => integer_type("u8"@, options),
        ValueModel::U16(_) => integer_type("u16"@, options),
        ValueModel::U32(_) => integer_type("u32"@, options),
        ValueModel::U64(_) => integer_type("u64"@, options),
        ValueModel::Isize(_) => integer_type("isize"@, options),
        ValueModel::Usize(_) => integer_type("usize"@, options),
        ValueModel::F32(_) => float_type("f32"@, options),
        ValueModel::F64(_) => float_type("f64"@, options),
        ValueModel::String(_) => string_type(options),
        ValueModel::Option(None) => "Option<"@ + "()"@ + ">"@,
        ValueModel::Option(Some(inner)) => "Option<"@ + type_text(*inner, options) + ">"@,
        ValueModel::Array(items) => if items.len() == 0 {
            array_type("()"@, options)
        } else {
            array_type(type_text(items[0], options), options)
        },
        ValueModel::Struct(record) => record.name,
    }
}

/// Whether the elements of an array do not all have one type.
pub open spec fn is_mixed(items: Seq<ValueModel>, options: OptionsModel) -> bool {
    exists|i: int|
        0 <= i < items.len() && #[trigger] type_text(items[i], options) != type_text(
            items[0],
            options,
        )
}

/// Whether `value` holds an array whose elements do not all have one
/// type, at any depth.
pub open spec fn holds_mixed_array(value: ValueModel, options: OptionsModel) -> bool
    decreases value,
{
    match value {
        ValueModel::Option(Some(inner)) => holds_mixed_array(*inner, options),
        ValueModel::Array(items) => is_mixed(items, options) || exists|i: int|
            0 <= i < items.len() && holds_mixed_array(#[trigger] items[i], options),
        ValueModel::Struct(record) => exists|i: int|
            0 <= i < record.fields.len() && holds_mixed_array(
                (#[trigger] record.fields[i]).value,
                options,
            ),
        _ => false,
    }
}

/// Writes the type of an integer that was read as `own`.
fn integer_type_string(own: &str, options: &StructOptions) -> (text: String)
    ensures
        text@ == integer_type(own@, options@),
{
    if options.numeric_width == NumericWidth::Widen {
        "i64".to_owned()
    } else {
        own.to_owned()
    }
}

/// Writes the type of a float that was read as `own`.
fn float_type_string(own: &str, options: &StructOptions) -> (text: String)
    ensures
        text@ == float_type(own@, options@),
{
    if options.numeric_width == NumericWidth::Widen {
        "f64".to_owned()
    } else {
        own.to_owned()
    }
}

/// Writes the type of an array whose elements have the type `element`.
fn array_type_string(element: &str, options: &StructOptions) -> (text: String)
    ensures
        text@ == array_type(element@, options@),
{
    let mut text = String::new();
    match options.representation {
        Representation::Borrowed => {
            text.append("Cow<'static, [");
            text.append(element);
            text.append("]>");
        },
        Representation::Owned => {
            text.append("Vec<");
            text.append(element);
            text.append(">");
        },
    }
    text
}

/// Writes the type that `value` has going by the first element of each
/// array in it, whether or not the other elements agree. This is the type
/// of `value` where no array in it is mixed; [`type_string`] tells.
pub(crate) fn type_by_first(value: &RawValue, options: &StructOptions) -> (text: String)
    ensures
        text@ == type_text(value@, options@),
    decreases value,
{
    match value {
        RawValue::Unit => "()".to_owned(),
        RawValue::Bool(_) => "bool".to_owned(),
        RawValue::Char(_) => "char".to_owned(),
        RawValue::I8(_) => integer_type_string("i8", options),
        RawValue::I16(_) => integer_type_string("i16", options),
        RawValue::I32(_) => integer_type_string("i32", options),
        RawValue::I64(_) => integer_type_string("i64", options),
        RawValue::U8(_) => integer_type_string("u8", options),
        RawValue::U16(_) => integer_type_string("u16", options),
        RawValue::U32(_) => integer_type_string("u32", options),
        RawValue::U64(_) => integer_type_string("u64", options),
        RawValue::Isize(_) => integer_type_string("isize", options),
        RawValue::Usize(_) => integer_type_string("usize", options),
        RawValue::F32(_) => float_type_string("f32", options),
        RawValue::F64(_) => float_type_string("f64", options),
        RawValue::String(_) => match options.representation {
            Representation::Borrowed => "Cow<'static, str>".to_owned(),
            Representation::Owned => "String".to_owned(),
        },
        RawValue::Option(inner) => {
            let mut text = String::new();
            text.append("Option<");
            match inner {
                Some(present) => {
                    let inside = type_by_first(present, options);
                    text.append(inside.as_str());
                },
                None => {
                    text.append("()");
                },
            }
            text.append(">");
            text
        },
        RawValue::Array(items) => {
            proof {
                lemma_array_view(*items);
            }
            if items.len() == 0 {
                array_type_string("()", options)
            } else {
                let element = type_by_first(&items[0], options);
                array_type_string(element.as_str(), options)
            }
        },
        RawValue::Struct(record) => {
            proof {
                lemma_struct_view(*record);
            }
            record.struct_name.clone()
        },
    }
}

/// Tests whether the elements of an array do not all have one type.
pub fn has_mixed_types(items: &Vec<RawValue>, options: &StructOptions) -> (mixed: bool)
    ensures
        mixed == is_mixed(value_models(items@), options@),
{
    if items.len() == 0 {
        return false;
    }
    let ghost models = value_models(items@);
    proof {
        lemma_array_view(*items);
    }
    let first = type_by_first(&items[0], options);
    let mut i: usize = 1;
    while i < items.len()
        invariant
            1 <= i <= items.len(),
            models == value_models(items@),
            first@ == type_text(models[0], options@),
            forall|j: int|
                0 <= j < i ==> #[trigger] type_text(models[j], options@) == type_text(
                    models[0],
                    options@,
                ),
        decreases items.len() - i,
    {
        let other = type_by_first(&items[i], options);
        if other != first {
            assert(type_text(models[i as int], options@) != type_text(models[0], options@));
            return true;
        }
        i = i + 1;
    }
    false
}

/// The shape of a struct: the name and the type of each field, in order,
/// each type going by the first element of each array in the field.
pub open spec fn shape_of(record: StructModel, options: OptionsModel) -> Seq<(Seq<char>, Seq<char>)> {
    Seq::new(
        record.fields.len(),
        |i: int| (record.fields[i].name, type_text(record.fields[i].value, options)),
    )
}

/// The shape that a list of pairs of texts holds.
pub open spec fn shape_model(shape: Seq<(String, String)>) -> Seq<(Seq<char>, Seq<char>)> {
    Seq::new(shape.len(), |i: int| (shape[i].0@, shape[i].1@))
}

/// The lines of the first `n` fields of a struct declaration, with a line
/// break between them.
pub open spec fn field_lines(shape: Seq<(Seq<char>, Seq<char>)>, n: nat) -> Seq<char>
    decreases n,
{
    if n == 0 || n > shape.len() {
        Seq::empty()
    } else {
        field_lines(shape, (n - 1) as nat) + (if n > 1 {
            "\n"@
        } else {
            Seq::empty()
        }) + ("    pub "@ + shape[n - 1].0 + ": "@ + shape[n - 1].1 + ","@)
    }
}

/// The declaration of the type of a struct of this name and shape: its
/// attributes, its name, one line for each field with the field's name and
/// type, and an empty line after the closing brace.
pub open spec fn declaration_text(name: Seq<char>, shape: Seq<(Seq<char>, Seq<char>)>) -> Seq<
    char,
> {
    "#[derive(Debug, Clone, Serialize, Deserialize)]\n#[allow(non_camel_case_types)]\npub struct "@
        + name + " {\n"@ + field_lines(shape, shape.len()) + "\n}\n\n"@
}

/// Finds the shape of the struct `record`, each field's type going by
/// the first element of each array in it.
pub(crate) fn struct_shape(record: &RawStructValue, options: &StructOptions) -> (shape: Vec<
    (String, String),
>)
    ensures
        shape_model(shape@) == shape_of(record@, options@),
{
    let ghost model = record@;
    proof {
        lemma_struct_view(*record);
    }
    let mut shape: Vec<(String, String)> = Vec::new();
    let mut i: usize = 0;
    while i < record.fields.len()
        invariant
            i <= record.fields.len(),
            model == record@,
            model.fields.len() == record.fields@.len(),
            forall|k: int|
                0 <= k < record.fields@.len() ==> #[trigger] model.fields[k]
                    == record.fields@[k]@,
            shape@.len() == i,
            forall|k: int|
                0 <= k < i ==> ((#[trigger] shape@[k]).0@, shape@[k].1@) == shape_of(
                    model,
                    options@,
                )[k],
        decreases record.fields.len() - i,
    {
        let field = &record.fields[i];
        let field_type = type_by_first(&field.value, options);
        shape.push((field.name.clone(), field_type));
        i = i + 1;
    }
    assert(shape_model(shape@) =~= shape_of(model, options@));
    shape
}

/// Tests whether two shapes are the same: as many fields, and the same
/// name and type at each place.
pub fn same_shape(a: &Vec<(String, String)>, b: &Vec<(String, String)>) -> (same: bool)
    ensures
        same == (shape_model(a@) == shape_model(b@)),
{
    if a.len() != b.len() {
        assert(shape_model(a@).len() != shape_model(b@).len());
        return false;
    }
    let mut i: usize = 0;
    while i < a.len()
        invariant
            i <= a.len(),
            a.len() == b.len(),
            forall|k: int| 0 <= k < i ==> shape_model(a@)[k] == shape_model(b@)[k],
        decreases a.len() - i,
    {
        if a[i].0 != b[i].0 || a[i].1 != b[i].1 {
            assert(shape_model(a@)[i as int] != shape_model(b@)[i as int]);
            return false;
        }
        i = i + 1;
    }
    assert(shape_model(a@) =~= shape_model(b@));
    true
}

/// Appends the declaration of the type of a struct of this name and shape.
pub fn push_declaration(out: &mut String, name: &str, shape: &Vec<(String, String)>)
    ensures
        final(out)@ == old(out)@ + declaration_text(name@, shape_model(shape@)),
{
    let ghost model = shape_model(shape@);
    out.append(
        "#[derive(Debug, Clone, Serialize, Deserialize)]\n#[allow(non_camel_case_types)]\npub struct ",
    );
    out.append(name);
    out.append(" {\n");
    let ghost opened = out@;
    let mut i: usize = 0;
    while i < shape.len()
        invariant
            i <= shape.len(),
            model == shape_model(shape@),
            out@ == opened + field_lines(model, i as nat),
        decreases shape.len() - i,
    {
        if i > 0 {
            out.append("\n");
        }
        let ghost broken = out@;
        out.append("    pub ");
        out.append(shape[i].0.as_str());
        out.append(": ");
        out.append(shape[i].1.as_str());
        out.append(",");
        assert(out@ == broken + ("    pub "@ + model[i as int].0 + ": "@ + model[i as int].1
            + ","@));
        i = i + 1;
    }
    out.append("\n}\n\n");
    assert(out@ == old(out)@ + declaration_text(name@, model));
}

/// The literal of a float of the type `float_type` that displays as
/// `text`: the constant of the type for what is no number and for the
/// two infinities; for a finite number the text itself when it holds a
/// decimal point, and else the text followed by `.0`.
pub open spec fn float_text(text: Seq<char>, float_type: Seq<char>) -> Seq<char> {
    if text == "NaN"@ {
        float_type + "::NAN"@
    } else if text == "inf"@ {
        float_type + "::INFINITY"@
    } else if text == "-inf"@ {
        float_type + "::NEG_INFINITY"@
    } else if text.contains('.') {
        text
    } else {
        text + ".0"@
    }
}

/// How many elements of an array of `len` elements a literal writes out.
pub open spec fn shown_count(len: nat, options: OptionsModel) -> nat {
    if options.max_array_size > 0 && len > options.max_array_size {
        options.max_array_size
    } else {
        len
    }
}

/// What stands before the body of a string literal.
pub open spec fn string_open(options: OptionsModel) -> Seq<char> {
    match options.representation {
        Representation::Borrowed => "Cow::Borrowed(\""@,
        Representation::Owned => "String::from(\""@,
    }
}

/// What stands before the elements of an array literal.
pub open spec fn array_open(options: OptionsModel) -> Seq<char> {
    match options.representation {
        Representation::Borrowed => "Cow::Borrowed(&["@,
        Representation::Owned => "vec!["@,
    }
}

/// What stands after the elements of an array literal.
pub open spec fn array_close(options: OptionsModel) -> Seq<char> {
    match options.representation {
        Representation::Borrowed => "])"@,
        Representation::Owned => "]"@,
    }
}

/// The literal that denotes `value` in generated code.
///
/// `indentation` is what a line inside the literal of an enclosing struct
/// begins with; it only matters where `value` holds a struct.
pub open spec fn value_text(
    value: ValueModel,
    indentation: Seq<char>,
    options: OptionsModel,
) -> Seq<char>
    decreases value, 0nat,
{
    match value {
        ValueModel::Unit => "()"@,
        ValueModel::Bool(b) => if b {
            "true"@
        } else {
            "false"@
        },
        ValueModel::Char(c) => seq!['\''] + escaped_char(c, '\'') + seq!['\''],
        ValueModel::I8(n) => decimal(n as int),
        ValueModel::I16(n) => decimal(n as int),
        ValueModel::I32(n) => decimal(n as int),
        ValueModel::I64(n) => decimal(n as int),
        ValueModel::U8(n) => decimal(n as int),
        ValueModel::U16(n) => decimal(n as int),
        ValueModel::U32(n) => decimal(n as int),
        ValueModel::U64(n) => decimal(n as int),
        ValueModel::Isize(n) => decimal(n as int),
        ValueModel::Usize(n) => decimal(n as int),
        ValueModel::F32(text) => float_text(text, float_type("f32"@, options)),
        ValueModel::F64(text) => float_text(text, float_type("f64"@, options)),
        ValueModel::String(text) => string_open(options) + escaped(text, '"') + "\")"@,
        ValueModel::Option(None) => "None"@,
        ValueModel::Option(Some(inner)) => "Some("@ + value_text(*inner, indentation, options)
            + ")"@,
        ValueModel::Array(items) => array_open(options) + items_text(
            items,
            shown_count(items.len(), options),
            indentation + "    "@,
            options,
        ) + array_close(options),
        ValueModel::Struct(record) => struct_text(record, indentation, options),
    }
}

/// The literals of the first `n` elements of `items`, with `, ` between
/// them.
pub open spec fn items_text(
    items: Seq<ValueModel>,
    n: nat,
    indentation: Seq<char>,
    options: OptionsModel,
) -> Seq<char>
    decreases items, n,
{
    if n == 0 || n > items.len() {
        Seq::empty()
    } else if n == 1 {
        value_text(items[0], indentation, options)
    } else {
        items_text(items, (n - 1) as nat, indentation, options) + ", "@ + value_text(
            items[n - 1],
            indentation,
            options,
        )
    }
}

/// The literal that denotes a struct: its name, then one line for each
/// field between braces, the closing brace indented by `indentation` and
/// the fields by four spaces more.
pub open spec fn struct_text(
    record: StructModel,
    indentation: Seq<char>,
    options: OptionsModel,
) -> Seq<char>
    decreases record, 0nat,
{
    record.name + " {\n"@ + fields_text(record.fields, record.fields.len(), indentation, options)
        + indentation + "}"@
}

/// The lines of the first `n` fields of a struct literal.
pub open spec fn fields_text(
    fields: Seq<FieldModel>,
    n: nat,
    indentation: Seq<char>,
    options: OptionsModel,
) -> Seq<char>
    decreases fields, n,
{
    if n == 0 || n > fields.len() {
        Seq::empty()
    } else {
        fields_text(fields, (n - 1) as nat, indentation, options) + (indentation + "    "@
            + fields[n - 1].name + ": "@ + value_text(
            fields[n - 1].value,
            indentation + "    "@,
            options,
        ) + ",\n"@)
    }
}

/// Writes the literal of `float` as a value of the type `float_type`. A
/// finite number is written with a decimal point.
pub fn float_string(float: &FloatText, float_type: &str) -> (literal: String)
    ensures
        literal@ == float_text(float@, float_type@),
        is_float_text(float@),
        is_decimal_text(float@) ==> literal@.contains('.'),
{
    let text = float.as_str();
    let owned = text.to_owned();
    let mut literal = String::new();
    proof {
        lemma_special_floats_are_no_decimals();
    }
    if owned == "NaN".to_owned() {
        literal.append(float_type);
        literal.append("::NAN");
    } else if owned == "inf".to_owned() {
        literal.append(float_type);
        literal.append("::INFINITY");
    } else if owned == "-inf".to_owned() {
        literal.append(float_type);
        literal.append("::NEG_INFINITY");
    } else {
        literal.append(text);
        if !contains_char(text, '.') {
            literal.append(".0");
            proof {
                reveal_strlit(".0");
                assert(literal@[text@.len() as int] == '.');
            }
        }
    }
    literal
}

/// The texts `NaN`, `inf` and `-inf` write no finite number in decimal.
pub proof fn lemma_special_floats_are_no_decimals()
    ensures
        !is_decimal_text("NaN"@),
        !is_decimal_text("inf"@),
        !is_decimal_text("-inf"@),
{
    reveal_strlit("NaN");
    reveal_strlit("inf");
    reveal_strlit("-inf");
    assert(!is_digit(unsigned("NaN"@)[0]));
    assert(!is_digit(unsigned("inf"@)[0]));
    assert(unsigned("-inf"@)[0] == 'i');
}

/// Appends the literal that denotes `value`.
pub fn push_value(out: &mut String, value: &RawValue, indentation: &str, options: &StructOptions)
    ensures
        final(out)@ == old(out)@ + value_text(value@, indentation@, options@),
    decreases value,
{
    match value {
        RawValue::Unit => out.append("()"),
        RawValue::Bool(b) => {
            if *b {
                out.append("true");
            } else {
                out.append("false");
            }
        },
        RawValue::Char(c) => {
            push_char(out, '\'');
            push_escaped_char(out, *c, '\'');
            push_char(out, '\'');
            assert(out@ == old(out)@ + (seq!['\''] + escaped_char(*c, '\'') + seq!['\'']));
        },
        RawValue::I8(n) => push_decimal(out, *n as i128),
        RawValue::I16(n) => push_decimal(out, *n as i128),
        RawValue::I32(n) => push_decimal(out, *n as i128),
        RawValue::I64(n) => push_decimal(out, *n as i128),
        RawValue::U8(n) => push_decimal(out, *n as i128),
        RawValue::U16(n) => push_decimal(out, *n as i128),
        RawValue::U32(n) => push_decimal(out, *n as i128),
        RawValue::U64(n) => push_decimal(out, *n as i128),
        RawValue::Isize(n) => push_decimal(out, *n as i128),
        RawValue::Usize(n) => push_decimal(out, *n as i128),
        RawValue::F32(float) => {
            let float_type = float_type_string("f32", options);
            let literal = float_string(float, float_type.as_str());
            out.append(literal.as_str());
        },
        RawValue::F64(float) => {
            let float_type = float_type_string("f64", options);
            let literal = float_string(float, float_type.as_str());
            out.append(literal.as_str());
        },
        RawValue::String(text) => {
            match options.representation {
                Representation::Borrowed => out.append("Cow::Borrowed(\""),
                Representation::Owned => out.append("String::from(\""),
            }
            push_escaped(out, text.as_str(), '"');
            out.append("\")");
            assert(out@ == old(out)@ + (string_open(options@) + escaped(text@, '"') + "\")"@));
        },
        RawValue::Option(None) => out.append("None"),
        RawValue::Option(Some(inner)) => {
            out.append("Some(");
            push_value(out, inner, indentation, options);
            out.append(")");
            assert(out@ == old(out)@ + ("Some("@ + value_text(inner@, indentation@, options@)
                + ")"@));
        },
        RawValue::Array(items) => {
            proof {
                lemma_array_view(*items);
            }
            push_array(out, items, indentation, options)
        },
        RawValue::Struct(record) => {
            proof {
                lemma_struct_view(*record);
            }
            push_struct(out, record, indentation, options)
        },
    }
}

/// Appends the literal that denotes an array of `items`: as many of them
/// as the options allow, in order.
pub fn push_array(
    out: &mut String,
    items: &Vec<RawValue>,
    indentation: &str,
    options: &StructOptions,
)
    ensures
        final(out)@ == old(out)@ + value_text(
            ValueModel::Array(value_models(items@)),
            indentation@,
            options@,
        ),
    decreases items,
{
    let ghost models = value_models(items@);
    proof {
        lemma_array_view(*items);
    }
    let shown = if options.max_array_size > 0 && items.len() > options.max_array_size {
        options.max_array_size
    } else {
        items.len()
    };
    let mut inner = indentation.to_owned();
    inner.append("    ");
    match options.representation {
        Representation::Borrowed => out.append("Cow::Borrowed(&["),
        Representation::Owned => out.append("vec!["),
    }
    let ghost opened = out@;
    let mut i: usize = 0;
    while i < shown
        invariant
            i <= shown <= items.len(),
            models == value_models(items@),
            out@ == opened + items_text(models, i as nat, inner@, options@),
        decreases shown - i,
    {
        if i > 0 {
            out.append(", ");
        }
        let ghost separated = out@;
        push_value(out, &items[i], inner.as_str(), options);
        assert(out@ == separated + value_text(models[i as int], inner@, options@));
        i = i + 1;
    }
    match options.representation {
        Representation::Borrowed => out.append("])"),
        Representation::Owned => out.append("]"),
    }
    assert(out@ == old(out)@ + (array_open(options@) + items_text(
        models,
        shown as nat,
        inner@,
        options@,
    ) + array_close(options@)));
}

/// Appends the literal that denotes the struct `record`.
pub fn push_struct(
    out: &mut String,
    record: &RawStructValue,
    indentation: &str,
    options: &StructOptions,
)
    ensures
        final(out)@ == old(out)@ + struct_text(record@, indentation@, options@),
    decreases record,
{
    let ghost model = record@;
    proof {
        lemma_struct_view(*record);
    }
    let mut inner = indentation.to_owned();
    inner.append("    ");
    out.append(record.struct_name.as_str());
    out.append(" {\n");
    let ghost opened = out@;
    assert(opened == old(out)@ + (model.name + " {\n"@));
    let mut i: usize = 0;
    while i < record.fields.len()
        invariant
            i <= record.fields.len(),
            model == record@,
            model.fields.len() == record.fields@.len(),
            forall|k: int|
                0 <= k < record.fields@.len() ==> #[trigger] model.fields[k]
                    == record.fields@[k]@,
            inner@ == indentation@ + "    "@,
            out@ == opened + fields_text(model.fields, i as nat, indentation@, options@),
        decreases record.fields.len() - i,
    {
        let field = &record.fields[i];
        let ghost before = out@;
        assert(model.fields[i as int] == field@);
        out.append(inner.as_str());
        out.append(field.name.as_str());
        out.append(": ");
        push_value(out, &field.value, inner.as_str(), options);
        out.append(",\n");
        assert(out@ == before + (indentation@ + "    "@ + field@.name + ": "@ + value_text(
            field@.value,
            indentation@ + "    "@,
            options@,
        ) + ",\n"@));
        i = i + 1;
    }
    out.append(indentation);
    out.append("}");
    assert(out@ == old(out)@ + struct_text(model, indentation@, options@));
}

/// Writes the literal that denotes `value`, for a place where lines begin
/// with `indentation` spaces.
pub fn value_string(value: &RawValue, indentation: usize, options: &StructOptions) -> (literal:
    String)
    ensures
        literal@ == value_text(value@, spaces(indentation as nat), options@),
{
    let mut margin = String::new();
    push_spaces(&mut margin, indentation);
    let mut literal = String::new();
    push_value(&mut literal, value, margin.as_str(), options);
    literal
}

/// Writes the literal that denotes the struct `value`: its name, then one
/// line for each field between braces, the closing brace indented by
/// `indentation` spaces and the fields by four more.
pub fn struct_value_string(value: &RawStructValue, indentation: usize, options: &StructOptions) -> (literal:
    String)
    ensures
        literal@ == struct_text(value@, spaces(indentation as nat), options@),
{
    let mut margin = String::new();
    push_spaces(&mut margin, indentation);
    let mut literal = String::new();
    push_struct(&mut literal, value, margin.as_str(), options);
    literal
}

/// What inferring the type of `value` comes to: the type, or, where
/// `value` holds an array whose elements do not all have one type, the
/// error that lists the paths of all such arrays, each path counted from
/// `value` itself.
pub open spec fn inferred_type(value: ValueModel, options: OptionsModel) -> Result<
    Seq<char>,
    DocumentErrorModel,
> {
    if holds_mixed_array(value, options) {
        Err(
            DocumentErrorModel::HeterogeneousArray(
                mixed_array_paths(value, Seq::empty(), options),
            ),
        )
    } else {
        Ok(type_text(value, options))
    }
}

/// Infers the type that generated code gives to `value`. Inference fails
/// where `value` holds an array whose elements do not all have the type
/// of the first, at any depth.
pub fn type_string(value: &RawValue, options: &StructOptions) -> (res: Result<
    String,
    DocumentError,
>)
    ensures
        match res {
            Ok(text) => inferred_type(value@, options@) == Ok::<Seq<char>, DocumentErrorModel>(
                text@,
            ),
            Err(error) => inferred_type(value@, options@) == Err::<Seq<char>, DocumentErrorModel>(
                error@,
            ),
        },
{
    let here = String::new();
    let mut entries: Vec<Entry> = Vec::new();
    push_value_outline(&mut entries, value, here.as_str(), options);
    let mixed = find_problems(&entries, Problem::MixedArray);
    proof {
        assert(entry_models(Seq::<Entry>::empty()) =~= Seq::<EntryModel>::empty());
        assert(entry_models(entries@) =~= outline_value(value@, Seq::empty(), options@));
        lemma_mixed_arrays_are_listed(value@, Seq::empty(), options@);
    }
    if mixed.len() > 0 {
        Err(DocumentError::HeterogeneousArray(mixed))
    } else {
        Ok(type_by_first(value, options))
    }
}

/// The declarations of the types of `record` and of every struct below
/// it: each struct in document order, a struct before what its fields
/// hold, and each name declared once, where it first occurs.
pub open spec fn struct_declarations_text(record: StructModel, options: OptionsModel) -> Seq<char> {
    let entries = outline_struct(record, record.name, options);
    declarations_text(entries, entries.len())
}

/// What declaring the types of `record` and of every struct below it
/// comes to: the declarations, or, where `record` holds an array whose
/// elements do not all have one type, the error that lists the paths of
/// all such arrays.
pub open spec fn struct_declarations(record: StructModel, options: OptionsModel) -> Result<
    Seq<char>,
    DocumentErrorModel,
> {
    if holds_mixed_array(ValueModel::Struct(record), options) {
        Err(
            DocumentErrorModel::HeterogeneousArray(
                mixed_array_paths(ValueModel::Struct(record), record.name, options),
            ),
        )
    } else {
        Ok(struct_declarations_text(record, options))
    }
}

/// Appends the declarations of the types of `struct_value` and of every
/// struct below it to `output`. Where the type of a field cannot be
/// inferred, because an array holds elements of more than one type,
/// nothing is appended and the error lists the paths of all such arrays.
pub fn generate_struct_declarations(
    output: &mut String,
    struct_value: &RawStructValue,
    options: &StructOptions,
) -> (res: Result<(), DocumentError>)
    ensures
        match res {
            Ok(_) => struct_declarations(struct_value@, options@) == Ok::<
                Seq<char>,
                DocumentErrorModel,
            >(struct_declarations_text(struct_value@, options@)) && final(output)@ == old(
                output,
            )@ + struct_declarations_text(struct_value@, options@),
            Err(error) => struct_declarations(struct_value@, options@) == Err::<
                Seq<char>,
                DocumentErrorModel,
            >(error@) && final(output)@ == old(output)@,
        },
{
    let entries = outline(struct_value, options);
    let mixed = find_problems(&entries, Problem::MixedArray);
    proof {
        lemma_struct_view(*struct_value);
        lemma_mixed_arrays_are_listed(
            ValueModel::Struct(struct_value@),
            struct_value@.name,
            options@,
        );
        assert(output@ =~= output@ + Seq::<char>::empty());
    }
    if mixed.len() > 0 {
        Err(DocumentError::HeterogeneousArray(mixed))
    } else {
        push_declarations(output, &entries);
        Ok(())
    }
}

} // verus!
