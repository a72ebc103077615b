//! Names for the structs of a value tree.
//!
//! A struct's generated type is named after the way that leads to it: the
//! root gets the name asked for, and a struct under the field `f` of a
//! struct named `P` gets `P__f`. The elements of an array, and a value
//! that is present in an optional place, are named as the place itself is.

use vstd::prelude::*;
use vstd::string::*;
use crate::value::{
    lemma_array_view, lemma_struct_view, value_models, FieldModel, RawField, RawStructValue, RawValue, StructModel, ValueModel,
};

verus! {

/// The name of a struct that stands under the field `field` of a struct
/// named `parent`.
pub open spec fn nested_name(parent: Seq<char>, field: Seq<char>) -> Seq<char> {
    parent + "__"@ + field
}

/// `value` with every struct in it named after its place, where a struct
/// that stands at the place of `value` itself is named `name`.
pub open spec fn named_value(value: ValueModel, name: Seq<char>) -> ValueModel
    decreases value, 0nat,
{
    match value {
        ValueModel::Option(Some(inner)) => ValueModel::Option(
            Some(Box::new(named_value(*inner, name))),
        ),
        ValueModel::Array(items) => ValueModel::Array(
            Seq::new(
                items.len(),
                |i: int|
                    if 0 <= i < items.len() {
                        named_value(items[i], name)
                    } else {
                        ValueModel::Unit
                    },
            ),
        ),
        ValueModel::Struct(record) => ValueModel::Struct(named_struct(record, name)),
        other => other,
    }
}

/// `record` named `name`, with every struct below it named after its
/// place.
pub open spec fn named_struct(record: StructModel, name: Seq<char>) -> StructModel
    decreases record, 0nat,
{
    StructModel {
        name,
        fields: Seq::new(
            record.fields.len(),
            |i: int|
                if 0 <= i < record.fields.len() {
                    FieldModel {
                        name: record.fields[i].name,
                        value: named_value(
                            record.fields[i].value,
                            nested_name(name, record.fields[i].name),
                        ),
                    }
                } else {
                    FieldModel { name: Seq::empty(), value: ValueModel::Unit }
                },
        ),
    }
}

/// Builds a copy of `value` in which every struct is named after its
/// place, a struct at the place of `value` itself being named `name`.
pub fn assign_value_names(value: &RawValue, name: &str) -> (named: RawValue)
    ensures
        named@ == named_value(value@, name@),
    decreases value,
{
    match value {
        RawValue::Unit => RawValue::Unit,
        RawValue::Bool(b) => RawValue::Bool(*b),
        RawValue::Char(c) => RawValue::Char(*c),
        RawValue::I8(n) => RawValue::I8(*n),
        RawValue::I16(n) => RawValue::I16(*n),
        RawValue::I32(n) => RawValue::I32(*n),
        RawValue::I64(n) => RawValue::I64(*n),
        RawValue::U8(n) => RawValue::U8(*n),
        RawValue::U16(n) => RawValue::U16(*n),
        RawValue::U32(n) => RawValue::U32(*n),
        RawValue::U64(n) => RawValue::U64(*n),
        RawValue::Isize(n) => RawValue::Isize(*n),
        RawValue::Usize(n) => RawValue::Usize(*n),
        RawValue::F32(float) => RawValue::F32(float.copy()),
        RawValue::F64(float) => RawValue::F64(float.copy()),
        RawValue::String(text) => RawValue::String(text.clone()),
        RawValue::Option(None) => RawValue::Option(None),
        RawValue::Option(Some(inner)) => {
            let present = assign_value_names(inner, name);
            RawValue::Option(Some(Box::new(present)))
        },
        RawValue::Array(items) => {
            let named = assign_item_names(items, name);
            proof {
                lemma_array_view(*items);
                lemma_array_view(named);
            }
            RawValue::Array(named)
        },
        RawValue::Struct(record) => {
            let named = assign_names(record, name);
            proof {
                lemma_struct_view(*record);
                lemma_struct_view(named);
            }
            RawValue::Struct(named)
        },
    }
}

/// Builds copies of the elements of an array in which every struct is
/// named after its place, a struct among the elements being named `name`.
pub fn assign_item_names(items: &Vec<RawValue>, name: &str) -> (named: Vec<RawValue>)
    ensures
        value_models(named@) == named_value(ValueModel::Array(value_models(items@)), name@)->Array_0,
    decreases items,
{
    let ghost models = value_models(items@);
    proof {
        lemma_array_view(*items);
    }
    let mut named: Vec<RawValue> = Vec::new();
    let mut i: usize = 0;
    while i < items.len()
        invariant
            i <= items.len(),
            models == value_models(items@),
            forall|j: int| 0 <= j < items@.len() ==> #[trigger] models[j] == items@[j]@,
            named@.len() == i,
            forall|j: int|
                0 <= j < i ==> (#[trigger] named@[j])@ == named_value(models[j], name@),
        decreases items.len() - i,
    {
        let item = assign_value_names(&items[i], name);
        named.push(item);
        i = i + 1;
    }
    proof {
        lemma_array_view(named);
        assert(value_models(named@) =~= named_value(ValueModel::Array(models), name@)->Array_0);
    }
    named
}

/// Builds a copy of `record` that is named `name` and in which every
/// struct below is named after its place: `name`, two underscores and the
/// field's name for a struct under a field, and so on downwards.
pub fn assign_names(record: &RawStructValue, name: &str) -> (named: RawStructValue)
    ensures
        named@ == named_struct(record@, name@),
    decreases record,
{
    let ghost model = record@;
    proof {
        lemma_struct_view(*record);
    }
    let mut fields: Vec<RawField> = Vec::new();
    let mut i: usize = 0;
    while i < record.fields.len()
        invariant
            i <= record.fields.len(),
            model == record@,
            model.fields.len() == record.fields@.len(),
            forall|j: int|
                0 <= j < record.fields@.len() ==> #[trigger] model.fields[j] == (FieldModel {
                    name: record.fields@[j].name@,
                    value: record.fields@[j].value@,
                }),
            fields@.len() == i,
            forall|j: int|
                0 <= j < i ==> (#[trigger] fields@[j])@ == named_struct(model, name@).fields[j],
        decreases record.fields.len() - i,
    {
        let field = &record.fields[i];
        let mut below = name.to_owned();
        below.append("__");
        below.append(field.name.as_str());
        let value = assign_value_names(&field.value, below.as_str());
        fields.push(RawField { name: field.name.clone(), value });
        i = i + 1;
    }
    let named = RawStructValue { struct_name: name.to_owned(), fields };
    proof {
        lemma_struct_view(named);
        assert(named@.fields =~= named_struct(model, name@).fields);
    }
    named
}

} // verus!
