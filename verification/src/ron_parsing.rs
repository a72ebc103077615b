//! Reading documents written in RON.
//!
//! The text is parsed by the `ron` crate. What it finds is copied into a
//! tree of this library's own, and that tree is turned into the generic
//! value tree here: the root has to be a struct, and keys have to be
//! strings.

use ron::{Number, Value};
use vstd::prelude::*;
use vstd::string::*;
use crate::error::{GenerationError, GenerationErrorModel};
use crate::text::is_float_text;
use crate::value::{
    lemma_array_view, lemma_struct_view, FieldModel, FloatText, RawField, RawStructValue,
    RawValue, StructModel, ValueModel,
};

verus! {

/// A value as the RON parser hands it out.
///
/// A float is held as the text that `f64` displays as.
#[derive(Debug, PartialEq)]
pub enum ParsedValue {
    Unit,
    Bool(bool),
    Char(char),
    Integer(i64),
    Float(String),
    Text(String),
    Optional(Option<Box<ParsedValue>>),
    List(Vec<ParsedValue>),
    /// The entries of a map, each a key with its value.
    Table(Vec<(ParsedValue, ParsedValue)>),
}

/// The mathematical content of a [`ParsedValue`].
pub enum ParsedModel {
    Unit,
    Bool(bool),
    Char(char),
    Integer(i64),
    Float(Seq<char>),
    Text(Seq<char>),
    Optional(Option<Box<ParsedModel>>),
    List(Seq<ParsedModel>),
    Table(Seq<(ParsedModel, ParsedModel)>),
}

/// The content of a parsed value, read off its representation.
pub open spec fn parsed_model(parsed: ParsedValue) -> ParsedModel
    decreases parsed, 0nat,
{
    match parsed {
        ParsedValue::Unit => ParsedModel::Unit,
        ParsedValue::Bool(b) => ParsedModel::Bool(b),
        ParsedValue::Char(c) => ParsedModel::Char(c),
        ParsedValue::Integer(n) => ParsedModel::Integer(n),
        ParsedValue::Float(text) => ParsedModel::Float(text@),
        ParsedValue::Text(text) => ParsedModel::Text(text@),
        ParsedValue::Optional(None) => ParsedModel::Optional(None),
        ParsedValue::Optional(Some(inner)) => ParsedModel::Optional(
            Some(Box::new(parsed_model(*inner))),
        ),
        ParsedValue::List(items) => ParsedModel::List(parsed_models(items@)),
        ParsedValue::Table(entries) => ParsedModel::Table(parsed_entry_models(entries@)),
    }
}

/// The contents of the parsed values of a list, in order.
pub open spec fn parsed_models(items: Seq<ParsedValue>) -> Seq<ParsedModel>
    decreases items, 0nat,
{
    Seq::new(
        items.len(),
        |i: int|
            if 0 <= i < items.len() {
                parsed_model(items[i])
            } else {
                ParsedModel::Unit
            },
    )
}

/// The contents of the entries of a table, in order.
pub open spec fn parsed_entry_models(entries: Seq<(ParsedValue, ParsedValue)>) -> Seq<
    (ParsedModel, ParsedModel),
>
    decreases entries, 0nat,
{
    Seq::new(
        entries.len(),
        |i: int|
            if 0 <= i < entries.len() {
                (parsed_model(entries[i].0), parsed_model(entries[i].1))
            } else {
                (ParsedModel::Unit, ParsedModel::Unit)
            },
    )
}

impl View for ParsedValue {
    type V = ParsedModel;

    open spec fn view(&self) -> ParsedModel {
        parsed_model(*self)
    }
}

/// What the content of a list of parsed values is, element by element.
pub proof fn lemma_list_view(items: Vec<ParsedValue>)
    ensures
        ParsedValue::List(items)@ == ParsedModel::List(parsed_models(items@)),
        parsed_models(items@).len() == items@.len(),
        forall|i: int| 0 <= i < items@.len() ==> #[trigger] parsed_models(items@)[i] == items@[i]@,
{
}

/// What the content of a table is, entry by entry.
pub proof fn lemma_table_view(entries: Vec<(ParsedValue, ParsedValue)>)
    ensures
        ParsedValue::Table(entries)@ == ParsedModel::Table(parsed_entry_models(entries@)),
        parsed_entry_models(entries@).len() == entries@.len(),
        forall|i: int|
            0 <= i < entries@.len() ==> #[trigger] parsed_entry_models(entries@)[i] == (
                entries@[i].0@,
                entries@[i].1@,
            ),
{
}

/// Whether every key of every table in `parsed` is a string.
pub open spec fn has_text_keys(parsed: ParsedModel) -> bool
    decreases parsed,
{
    match parsed {
        ParsedModel::Optional(Some(inner)) => has_text_keys(*inner),
        ParsedModel::List(items) => forall|i: int|
            0 <= i < items.len() ==> has_text_keys(#[trigger] items[i]),
        ParsedModel::Table(entries) => forall|i: int|
            0 <= i < entries.len() ==> (#[trigger] entries[i]).0 is Text && has_text_keys(
                entries[i].1,
            ),
        _ => true,
    }
}

/// Whether `parsed` can be read as a value: every key of every table in
/// it is a string, and every float in it has the text of a float.
pub open spec fn is_readable(parsed: ParsedModel) -> bool
    decreases parsed,
{
    match parsed {
        ParsedModel::Float(text) => is_float_text(text),
        ParsedModel::Optional(Some(inner)) => is_readable(*inner),
        ParsedModel::List(items) => forall|i: int|
            0 <= i < items.len() ==> is_readable(#[trigger] items[i]),
        ParsedModel::Table(entries) => forall|i: int|
            0 <= i < entries.len() ==> (#[trigger] entries[i]).0 is Text && is_readable(
                entries[i].1,
            ),
        _ => true,
    }
}

/// What can be read as a value has strings for keys.
pub proof fn lemma_readable_has_text_keys(parsed: ParsedModel)
    requires
        is_readable(parsed),
    ensures
        has_text_keys(parsed),
    decreases parsed,
{
    match parsed {
        ParsedModel::Optional(Some(inner)) => {
            lemma_readable_has_text_keys(*inner);
        },
        ParsedModel::List(items) => {
            assert forall|i: int| 0 <= i < items.len() implies has_text_keys(
                #[trigger] items[i],
            ) by {
                lemma_readable_has_text_keys(items[i]);
            }
        },
        ParsedModel::Table(entries) => {
            assert forall|i: int| 0 <= i < entries.len() implies (#[trigger] entries[i]).0 is Text
                && has_text_keys(entries[i].1) by {
                lemma_readable_has_text_keys(entries[i].1);
            }
        },
        _ => {},
    }
}

/// The value that a parsed value stands for.
///
/// An integer becomes an `i64` and a float an `f64`, as the document
/// writes them; a table becomes a struct without a name whose fields are
/// the table's entries in order; everything else keeps its kind.
pub open spec fn raw_value_of(parsed: ParsedModel) -> ValueModel
    decreases parsed, 0nat,
{
    match parsed {
        ParsedModel::Unit => ValueModel::Unit,
        ParsedModel::Bool(b) => ValueModel::Bool(b),
        ParsedModel::Char(c) => ValueModel::Char(c),
        ParsedModel::Integer(n) => ValueModel::I64(n),
        ParsedModel::Float(text) => ValueModel::F64(text),
        ParsedModel::Text(text) => ValueModel::String(text),
        ParsedModel::Optional(None) => ValueModel::Option(None),
        ParsedModel::Optional(Some(inner)) => ValueModel::Option(
            Some(Box::new(raw_value_of(*inner))),
        ),
        ParsedModel::List(items) => ValueModel::Array(
            Seq::new(
                items.len(),
                |i: int|
                    if 0 <= i < items.len() {
                        raw_value_of(items[i])
                    } else {
                        ValueModel::Unit
                    },
            ),
        ),
        ParsedModel::Table(entries) => ValueModel::Struct(raw_struct_of(entries)),
    }
}

/// The struct that a table stands for: it has no name yet, and one field
/// for each entry, in order, named by the entry's key.
pub open spec fn raw_struct_of(entries: Seq<(ParsedModel, ParsedModel)>) -> StructModel
    decreases entries, 0nat,
{
    StructModel {
        name: Seq::empty(),
        fields: Seq::new(
            entries.len(),
            |i: int|
                if 0 <= i < entries.len() {
                    FieldModel {
                        name: match entries[i].0 {
                            ParsedModel::Text(key) => key,
                            _ => Seq::empty(),
                        },
                        value: raw_value_of(entries[i].1),
                    }
                } else {
                    FieldModel { name: Seq::empty(), value: ValueModel::Unit }
                },
        ),
    }
}

/// The document that a parsed value stands for: the struct of a table
/// whose keys are strings throughout. Anything but a table at the root is
/// an error, and so is a key that is no string, and so is, where all keys
/// are strings, a float whose text is not that of a float.
pub open spec fn document_of(parsed: ParsedModel) -> Result<StructModel, GenerationErrorModel> {
    match parsed {
        ParsedModel::Table(entries) => if !has_text_keys(parsed) {
            Err(GenerationErrorModel::ParseError("expected keys in RON to be strings"@))
        } else if !is_readable(parsed) {
            Err(GenerationErrorModel::ParseError("expected floats in RON to be numbers"@))
        } else {
            Ok(raw_struct_of(entries))
        },
        _ => Err(GenerationErrorModel::ParseError("expected root object in RON to be a struct"@)),
    }
}

/// Turns a parsed value into a value; there is none where a key of a
/// table is no string or the text of a float is not that of a float.
pub fn raw_value_from_parsed(parsed: &ParsedValue) -> (res: Option<RawValue>)
    ensures
        match res {
            Some(value) => is_readable(parsed@) && value@ == raw_value_of(parsed@),
            None => !is_readable(parsed@),
        },
    decreases parsed,
{
    match parsed {
        ParsedValue::Unit => Some(RawValue::Unit),
        ParsedValue::Bool(b) => Some(RawValue::Bool(*b)),
        ParsedValue::Char(c) => Some(RawValue::Char(*c)),
        ParsedValue::Integer(n) => Some(RawValue::I64(*n)),
        ParsedValue::Float(text) => match FloatText::new(text.clone()) {
            Some(float) => Some(RawValue::F64(float)),
            None => None,
        },
        ParsedValue::Text(text) => Some(RawValue::String(text.clone())),
        ParsedValue::Optional(None) => Some(RawValue::Option(None)),
        ParsedValue::Optional(Some(inner)) => match raw_value_from_parsed(inner) {
            Some(value) => Some(RawValue::Option(Some(Box::new(value)))),
            None => None,
        },
        ParsedValue::List(items) => match raw_values_from_parsed(items) {
            Some(values) => {
                proof {
                    lemma_list_view(*items);
                    lemma_array_view(values);
                }
                Some(RawValue::Array(values))
            },
            None => {
                proof {
                    lemma_list_view(*items);
                }
                None
            },
        },
        ParsedValue::Table(entries) => match raw_struct_from_parsed(entries) {
            Some(record) => {
                proof {
                    lemma_table_view(*entries);
                    lemma_struct_view(record);
                }
                Some(RawValue::Struct(record))
            },
            None => {
                proof {
                    lemma_table_view(*entries);
                }
                None
            },
        },
    }
}

/// Turns the elements of a parsed list into values.
pub fn raw_values_from_parsed(items: &Vec<ParsedValue>) -> (res: Option<Vec<RawValue>>)
    ensures
        match res {
            Some(values) => is_readable(ParsedModel::List(parsed_models(items@)))
                && RawValue::Array(values)@ == raw_value_of(
                ParsedModel::List(parsed_models(items@)),
            ),
            None => !is_readable(ParsedModel::List(parsed_models(items@))),
        },
    decreases items,
{
    let ghost models = parsed_models(items@);
    proof {
        lemma_list_view(*items);
    }
    let mut values: Vec<RawValue> = Vec::new();
    let mut i: usize = 0;
    while i < items.len()
        invariant
            i <= items.len(),
            models == parsed_models(items@),
            models.len() == items@.len(),
            forall|k: int| 0 <= k < items@.len() ==> #[trigger] models[k] == items@[k]@,
            values@.len() == i,
            forall|k: int| 0 <= k < i ==> is_readable(#[trigger] models[k]),
            forall|k: int| 0 <= k < i ==> (#[trigger] values@[k])@ == raw_value_of(models[k]),
        decreases items.len() - i,
    {
        match raw_value_from_parsed(&items[i]) {
            Some(value) => {
                values.push(value);
            },
            None => {
                assert(!is_readable(models[i as int]));
                return None;
            },
        }
        i = i + 1;
    }
    proof {
        lemma_array_view(values);
        assert(RawValue::Array(values)@->Array_0 =~= raw_value_of(
            ParsedModel::List(models),
        )->Array_0);
    }
    Some(values)
}

/// Turns a parsed table into a struct without a name.
pub fn raw_struct_from_parsed(entries: &Vec<(ParsedValue, ParsedValue)>) -> (res: Option<
    RawStructValue,
>)
    ensures
        match res {
            Some(record) => is_readable(ParsedModel::Table(parsed_entry_models(entries@)))
                && record@ == raw_struct_of(parsed_entry_models(entries@)),
            None => !is_readable(ParsedModel::Table(parsed_entry_models(entries@))),
        },
    decreases entries,
{
    let ghost models = parsed_entry_models(entries@);
    proof {
        lemma_table_view(*entries);
    }
    let mut fields: Vec<RawField> = Vec::new();
    let mut i: usize = 0;
    while i < entries.len()
        invariant
            i <= entries.len(),
            models == parsed_entry_models(entries@),
            models.len() == entries@.len(),
            forall|k: int|
                0 <= k < entries@.len() ==> #[trigger] models[k] == (
                    entries@[k].0@,
                    entries@[k].1@,
                ),
            fields@.len() == i,
            forall|k: int|
                0 <= k < i ==> (#[trigger] models[k]).0 is Text && is_readable(models[k].1),
            forall|k: int|
                0 <= k < i ==> (#[trigger] fields@[k])@ == raw_struct_of(models).fields[k],
        decreases entries.len() - i,
    {
        let entry = &entries[i];
        assert(models[i as int] == (entry.0@, entry.1@));
        match &entry.0 {
            ParsedValue::Text(key) => match raw_value_from_parsed(&entry.1) {
                Some(value) => {
                    fields.push(RawField { name: key.clone(), value });
                },
                None => {
                    assert(!is_readable(models[i as int].1));
                    return None;
                },
            },
            _ => {
                assert(!(models[i as int].0 is Text));
                return None;
            },
        }
        i = i + 1;
    }
    let record = RawStructValue { struct_name: String::new(), fields };
    proof {
        lemma_struct_view(record);
        assert(record@.fields =~= raw_struct_of(models).fields);
    }
    Some(record)
}

/// Tests whether every key of every table in `parsed` is a string.
pub fn keys_are_strings(parsed: &ParsedValue) -> (all: bool)
    ensures
        all == has_text_keys(parsed@),
    decreases parsed,
{
    match parsed {
        ParsedValue::Optional(Some(inner)) => keys_are_strings(inner),
        ParsedValue::List(items) => {
            proof {
                lemma_list_view(*items);
            }
            list_keys_are_strings(items)
        },
        ParsedValue::Table(entries) => {
            proof {
                lemma_table_view(*entries);
            }
            table_keys_are_strings(entries)
        },
        _ => true,
    }
}

/// Tests whether every key of every table in the elements of a list is a
/// string.
pub fn list_keys_are_strings(items: &Vec<ParsedValue>) -> (all: bool)
    ensures
        all == has_text_keys(ParsedModel::List(parsed_models(items@))),
    decreases items,
{
    let ghost models = parsed_models(items@);
    proof {
        lemma_list_view(*items);
    }
    let mut i: usize = 0;
    while i < items.len()
        invariant
            i <= items.len(),
            models == parsed_models(items@),
            models.len() == items@.len(),
            forall|k: int| 0 <= k < items@.len() ==> #[trigger] models[k] == items@[k]@,
            forall|k: int| 0 <= k < i ==> has_text_keys(#[trigger] models[k]),
        decreases items.len() - i,
    {
        assert(models[i as int] == items@[i as int]@);
        if !keys_are_strings(&items[i]) {
            proof {
                let whole = ParsedModel::List(models);
                if has_text_keys(whole) {
                    assert(whole->List_0 == models);
                    assert(has_text_keys(whole->List_0[i as int]));
                }
            }
            return false;
        }
        i = i + 1;
    }
    true
}

/// Tests whether every key of a table, and of every table in its values,
/// is a string.
pub fn table_keys_are_strings(entries: &Vec<(ParsedValue, ParsedValue)>) -> (all: bool)
    ensures
        all == has_text_keys(ParsedModel::Table(parsed_entry_models(entries@))),
    decreases entries,
{
    let ghost models = parsed_entry_models(entries@);
    proof {
        lemma_table_view(*entries);
    }
    let mut i: usize = 0;
    while i < entries.len()
        invariant
            i <= entries.len(),
            models == parsed_entry_models(entries@),
            models.len() == entries@.len(),
            forall|k: int|
                0 <= k < entries@.len() ==> #[trigger] models[k] == (
                    entries@[k].0@,
                    entries@[k].1@,
                ),
            forall|k: int|
                0 <= k < i ==> (#[trigger] models[k]).0 is Text && has_text_keys(models[k].1),
        decreases entries.len() - i,
    {
        let entry = &entries[i];
        assert(models[i as int] == (entry.0@, entry.1@));
        let key_is_text = match &entry.0 {
            ParsedValue::Text(_) => true,
            _ => false,
        };
        if !key_is_text || !keys_are_strings(&entry.1) {
            assert(!((models[i as int]).0 is Text && has_text_keys(models[i as int].1)));
            return false;
        }
        i = i + 1;
    }
    true
}

/// Turns the parsed root of a document into the document's struct: the
/// root has to be a table, and every key of every table a string.
pub fn raw_config_from_parsed(parsed: &ParsedValue) -> (res: Result<
    RawStructValue,
    GenerationError,
>)
    ensures
        match res {
            Ok(config) => document_of(parsed@) == Ok::<StructModel, GenerationErrorModel>(config@),
            Err(error) => document_of(parsed@) == Err::<StructModel, GenerationErrorModel>(error@),
        },
{
    match parsed {
        ParsedValue::Table(entries) => {
            proof {
                lemma_table_view(*entries);
            }
            match raw_struct_from_parsed(entries) {
                Some(record) => {
                    proof {
                        lemma_readable_has_text_keys(parsed@);
                    }
                    Ok(record)
                },
                None => if table_keys_are_strings(entries) {
                    Err(
                        GenerationError::ParseError(
                            "expected floats in RON to be numbers".to_owned(),
                        ),
                    )
                } else {
                    Err(
                        GenerationError::ParseError(
                            "expected keys in RON to be strings".to_owned(),
                        ),
                    )
                },
            }
        },
        _ => Err(
            GenerationError::ParseError("expected root object in RON to be a struct".to_owned()),
        ),
    }
}

/// The value tree of the `ron` crate. Nothing is known of a value of it
/// but what [`ron_tree`] names.
#[verifier::external_type_specification]
#[verifier::external_body]
pub struct ExRonValue(ron::Value);

/// The error of the `ron` crate's parser, with the place in the text
/// where it arose.
#[verifier::external_type_specification]
#[verifier::external_body]
pub struct ExRonError(ron::error::SpannedError);

/// What `ron::de::from_str` makes of a text, as far as the text decides
/// it: the message of the error where the parser fails, and else a tree
/// that the parser can hand out for the text.
///
/// Whether the parser fails, and with which message, is decided by the
/// text. So are the kind of the root and whether every key of every map
/// is a string, and where every key is a string, the whole tree. Where a
/// key is no string the text need not decide the tree: the crate keeps a
/// map's entries in a hash table that is seeded anew for each map, and
/// keys that are equal there need not hash alike (`0.0` and `-0.0` are
/// such), so from one parse to the next a map may keep one of them or
/// both.
pub uninterp spec fn ron_document(source: Seq<char>) -> Result<ParsedModel, Seq<char>>;

/// What a `ron::Value` holds, variant for variant.
pub uninterp spec fn ron_tree(value: ron::Value) -> ParsedModel;

/// The message that a `ron::error::SpannedError` shows.
pub uninterp spec fn ron_message(error: ron::error::SpannedError) -> Seq<char>;

/// Whether two parsed values agree in what a text decides of its tree
/// in every case: in whether they are tables, and in whether every key of
/// every table in them is a string.
pub open spec fn agree_in_kind(a: ParsedModel, b: ParsedModel) -> bool {
    (a is Table) == (b is Table) && has_text_keys(a) == has_text_keys(b)
}

/// Parses a text as RON.
///
/// Calls `ron::de::from_str` for a `ron::Value`. The contract relates the
/// result to [`ron_document`], the name for what the text decides: an
/// error has the message named there; a value agrees with the tree named
/// there in being a table or not and in having strings for keys or not,
/// and where all its keys are strings it holds that very tree. The parser
/// returns for every text: it bounds the depth of nesting and has an
/// error for each thing it cannot read.
#[verifier::external_body]
fn ron_from_str(source: &str) -> (res: Result<ron::Value, ron::error::SpannedError>)
    ensures
        match res {
            Ok(value) => ron_document(source@) is Ok && agree_in_kind(
                ron_tree(value),
                ron_document(source@)->Ok_0,
            ) && (has_text_keys(ron_tree(value)) ==> ron_document(source@) == Ok::<
                ParsedModel,
                Seq<char>,
            >(ron_tree(value))),
            Err(error) => ron_document(source@) == Err::<ParsedModel, Seq<char>>(
                ron_message(error),
            ),
        },
{
    ron::de::from_str::<ron::Value>(source)
}

/// Copies a `ron::Value` into a tree of this library.
///
/// Each variant of `ron::Value` becomes the variant of [`ParsedValue`]
/// that holds the same, an integer as it is and a float as the text that
/// `f64` displays as; the entries of a map are taken in the order in which
/// the map hands them out, each key with its value.
#[verifier::external_body]
fn ron_value_tree(value: ron::Value) -> (tree: ParsedValue)
    ensures
        tree@ == ron_tree(value),
{
    match value {
        Value::Unit => ParsedValue::Unit,
        Value::Bool(b) => ParsedValue::Bool(b),
        Value::Char(c) => ParsedValue::Char(c),
        Value::Number(Number::Integer(n)) => ParsedValue::Integer(n),
        Value::Number(Number::Float(x)) => ParsedValue::Float(x.get().to_string()),
        Value::String(text) => ParsedValue::Text(text),
        Value::Option(inner) => ParsedValue::Optional(inner.map(|v| ron_value_tree(*v).into())),
        Value::Seq(items) => ParsedValue::List(items.into_iter().map(ron_value_tree).collect()),
        Value::Map(map) => ParsedValue::Table(map.into_iter().map(|(k, v)| (ron_value_tree(k), ron_value_tree(v))).collect())
    }
}

/// Writes out the message of a parser error.
///
/// Calls `to_string` on the error, which goes by the `Display` that the
/// `ron` crate gives it: the place, then what was expected or found.
#[verifier::external_body]
fn ron_error_message(error: &ron::error::SpannedError) -> (message: String)
    ensures
        message@ == ron_message(*error),
{
    error.to_string()
}

/// What parsing `source` as a RON document comes to: the document's
/// struct, or a parse error with the parser's message or with the reason
/// why what was parsed is no document. A document has strings for keys
/// throughout, so the text decides all of this.
pub open spec fn parsed_document(source: Seq<char>) -> Result<StructModel, GenerationErrorModel> {
    match ron_document(source) {
        Ok(parsed) => document_of(parsed),
        Err(message) => Err(GenerationErrorModel::ParseError(message)),
    }
}

/// Parses a struct from some RON.
///
/// The result can then be handed to
/// [`generate_config_from_struct`](crate::generate::generate_config_from_struct).
pub fn parse_config(config_source: &str) -> (res: Result<RawStructValue, GenerationError>)
    ensures
        match res {
            Ok(config) => parsed_document(config_source@) == Ok::<
                StructModel,
                GenerationErrorModel,
            >(config@),
            Err(error) => parsed_document(config_source@) == Err::<
                StructModel,
                GenerationErrorModel,
            >(error@),
        },
{
    match ron_from_str(config_source) {
        Ok(value) => {
            let parsed = ron_value_tree(value);
            raw_config_from_parsed(&parsed)
        },
        Err(error) => Err(GenerationError::ParseError(ron_error_message(&error))),
    }
}

} // verus!
