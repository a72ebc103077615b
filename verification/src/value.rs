//! The generic value tree that every configuration format is read into.

use vstd::prelude::*;
use vstd::string::*;
use crate::text::{float_text_ok, is_float_text};

verus! {

/// The text that a floating-point number displays as: a finite number in
/// decimal (`1.5`, `2`, `-0.25`), or one of `NaN`, `inf` and `-inf`.
///
/// This is all that code generation reads of a float. A value of this
/// type always holds such a text.
#[derive(Debug, PartialEq)]
pub struct FloatText {
    text: String,
}

impl View for FloatText {
    type V = Seq<char>;

    closed spec fn view(&self) -> Seq<char> {
        self.text@
    }
}

impl FloatText {
    #[verifier::type_invariant]
    spec fn holds_float_text(self) -> bool {
        is_float_text(self.text@)
    }

    /// Takes `text` as the text of a float, where it is one.
    pub fn new(text: String) -> (res: Option<FloatText>)
        ensures
            match res {
                Some(float) => is_float_text(text@) && float@ == text@,
                None => !is_float_text(text@),
            },
    {
        if float_text_ok(text.as_str()) {
            Some(FloatText { text })
        } else {
            None
        }
    }

    /// Makes another float with the same text.
    pub fn copy(&self) -> (float: FloatText)
        ensures
            float@ == self@,
    {
        proof {
            use_type_invariant(self);
        }
        FloatText { text: self.text.clone() }
    }

    /// The text of the float.
    pub fn as_str(&self) -> (text: &str)
        ensures
            text@ == self@,
            is_float_text(self@),
    {
        proof {
            use_type_invariant(self);
        }
        self.text.as_str()
    }
}

/// One value of a configuration document.
#[derive(Debug, PartialEq)]
pub enum RawValue {
    Unit,
    Bool(bool),
    Char(char),
    I8(i8),
    I16(i16),
    I32(i32),
    I64(i64),
    U8(u8),
    U16(u16),
    U32(u32),
    U64(u64),
    Isize(isize),
    Usize(usize),
    F32(FloatText),
    F64(FloatText),
    String(String),
    Option(Option<Box<RawValue>>),
    Array(Vec<RawValue>),
    Struct(RawStructValue),
}

/// A record: a name for its generated type and its fields in document order.
#[derive(Debug, PartialEq)]
pub struct RawStructValue {
    pub struct_name: String,
    pub fields: Vec<RawField>,
}

/// One named field of a record.
#[derive(Debug, PartialEq)]
pub struct RawField {
    pub name: String,
    pub value: RawValue,
}

/// The mathematical content of a [`RawValue`].
pub enum ValueModel {
    Unit,
    Bool(bool),
    Char(char),
    I8(i8),
    I16(i16),
    I32(i32),
    I64(i64),
    U8(u8),
    U16(u16),
    U32(u32),
    U64(u64),
    Isize(isize),
    Usize(usize),
    F32(Seq<char>),
    F64(Seq<char>),
    String(Seq<char>),
    Option(Option<Box<ValueModel>>),
    Array(Seq<ValueModel>),
    Struct(StructModel),
}

/// The mathematical content of a [`RawStructValue`].
pub struct StructModel {
    pub name: Seq<char>,
    pub fields: Seq<FieldModel>,
}

/// The mathematical content of a [`RawField`].
pub struct FieldModel {
    pub name: Seq<char>,
    pub value: ValueModel,
}

/// The content of a value, read off its representation.
pub open spec fn value_model(value: RawValue) -> ValueModel
    decreases value, 0nat,
{
    match value {
        RawValue::Unit => ValueModel::Unit,
        RawValue::Bool(b) => ValueModel::Bool(b),
        RawValue::Char(c) => ValueModel::Char(c),
        RawValue::I8(n) => ValueModel::I8(n),
        RawValue::I16(n) => ValueModel::I16(n),
        RawValue::I32(n) => ValueModel::I32(n),
        RawValue::I64(n) => ValueModel::I64(n),
        RawValue::U8(n) => ValueModel::U8(n),
        RawValue::U16(n) => ValueModel::U16(n),
        RawValue::U32(n) => ValueModel::U32(n),
        RawValue::U64(n) => ValueModel::U64(n),
        RawValue::Isize(n) => ValueModel::Isize(n),
        RawValue::Usize(n) => ValueModel::Usize(n),
        RawValue::F32(float) => ValueModel::F32(float@),
        RawValue::F64(float) => ValueModel::F64(float@),
        RawValue::String(text) => ValueModel::String(text@),
        RawValue::Option(None) => ValueModel::Option(None),
        RawValue::Option(Some(inner)) => ValueModel::Option(Some(Box::new(value_model(*inner)))),
        RawValue::Array(items) => ValueModel::Array(value_models(items@)),
        RawValue::Struct(record) => ValueModel::Struct(struct_model(record)),
    }
}

/// The contents of the values of a list, in order.
pub open spec fn value_models(items: Seq<RawValue>) -> Seq<ValueModel>
    decreases items, 0nat,
{
    Seq::new(
        items.len(),
        |i: int|
            if 0 <= i < items.len() {
                value_model(items[i])
            } else {
                ValueModel::Unit
            },
    )
}

/// The content of a record, read off its representation.
pub open spec fn struct_model(record: RawStructValue) -> StructModel
    decreases record, 1nat,
{
    StructModel { name: record.struct_name@, fields: field_models(record.fields@) }
}

/// The contents of the fields of a list, in order.
pub open spec fn field_models(fields: Seq<RawField>) -> Seq<FieldModel>
    decreases fields, 0nat,
{
    Seq::new(
        fields.len(),
        |i: int|
            if 0 <= i < fields.len() {
                field_model(fields[i])
            } else {
                FieldModel { name: Seq::empty(), value: ValueModel::Unit }
            },
    )
}

/// The content of a field, read off its representation.
pub open spec fn field_model(field: RawField) -> FieldModel
    decreases field, 0nat,
{
    FieldModel { name: field.name@, value: value_model(field.value) }
}

/// What the content of a list of values is, element by element.
pub proof fn lemma_array_view(items: Vec<RawValue>)
    ensures
        RawValue::Array(items)@ == ValueModel::Array(value_models(items@)),
        value_models(items@).len() == items@.len(),
        forall|i: int| 0 <= i < items@.len() ==> #[trigger] value_models(items@)[i] == items@[i]@,
{
}

/// What the content of a record is, field by field.
pub proof fn lemma_struct_view(record: RawStructValue)
    ensures
        RawValue::Struct(record)@ == ValueModel::Struct(record@),
        record@.name == record.struct_name@,
        record@.fields == field_models(record.fields@),
        record@.fields.len() == record.fields@.len(),
        forall|i: int|
            0 <= i < record.fields@.len() ==> #[trigger] record@.fields[i]
                == record.fields@[i]@,
        forall|i: int|
            0 <= i < record.fields@.len() ==> (#[trigger] record.fields@[i])@ == (FieldModel {
                name: record.fields@[i].name@,
                value: record.fields@[i].value@,
            }),
{
}

impl View for RawValue {
    type V = ValueModel;

    open spec fn view(&self) -> ValueModel {
        value_model(*self)
    }
}

impl View for RawStructValue {
    type V = StructModel;

    open spec fn view(&self) -> StructModel {
        struct_model(*self)
    }
}

impl View for RawField {
    type V = FieldModel;

    open spec fn view(&self) -> FieldModel {
        field_model(*self)
    }
}

} // verus!
