//! An outline of a value tree: every struct in it, every name that cannot
//! be used, and every array of mixed types, in document order.
//!
//! The structs of the outline are the registry of generated types: what a
//! name stands for is the shape of the first struct that bears it.

use vstd::prelude::*;
use vstd::string::*;
use crate::generation::{
    declaration_text, has_mixed_types, holds_mixed_array, is_mixed, push_declaration, same_shape,
    shape_model, shape_of, struct_shape,
};
use crate::options::{OptionsModel, StructOptions};
use crate::text::{decimal, push_decimal, texts};
use crate::validation::{is_valid_identifier, valid_identifier};
use crate::value::{
    lemma_array_view, lemma_struct_view, value_models, FieldModel, RawField, RawStructValue,
    RawValue, StructModel, ValueModel,
};

verus! {

/// One line of an outline. Each holds the path of what it speaks of: the
/// root's name, then `.` and a field's name for each field on the way, and
/// an index in square brackets for each array element.
#[derive(Debug, PartialEq)]
pub enum Entry {
    /// A struct, with its name and its shape: the name and the type of
    /// each field, in order. A field's type goes by the first element of
    /// each array in the field; the arrays whose other elements differ
    /// have entries of their own.
    Struct { path: String, name: String, shape: Vec<(String, String)> },
    /// A struct or field whose name is no identifier, or a field whose
    /// name an earlier field of the same struct has.
    InvalidName { path: String },
    /// An array whose elements do not all have the type of the first.
    MixedArray { path: String },
}

/// The mathematical content of an [`Entry`].
pub enum EntryModel {
    Struct { path: Seq<char>, name: Seq<char>, shape: Seq<(Seq<char>, Seq<char>)> },
    InvalidName { path: Seq<char> },
    MixedArray { path: Seq<char> },
}

impl View for Entry {
    type V = EntryModel;

    open spec fn view(&self) -> EntryModel {
        match self {
            Entry::Struct { path, name, shape } => EntryModel::Struct {
                path: path@,
                name: name@,
                shape: shape_model(shape@),
            },
            Entry::InvalidName { path } => EntryModel::InvalidName { path: path@ },
            Entry::MixedArray { path } => EntryModel::MixedArray { path: path@ },
        }
    }
}

impl EntryModel {
    /// The path of what the entry speaks of.
    pub open spec fn path(self) -> Seq<char> {
        match self {
            EntryModel::Struct { path, .. } => path,
            EntryModel::InvalidName { path } => path,
            EntryModel::MixedArray { path } => path,
        }
    }
}

/// The contents of the entries of a list, in order.
pub open spec fn entry_models(entries: Seq<Entry>) -> Seq<EntryModel> {
    Seq::new(entries.len(), |i: int| entries[i]@)
}

/// The path of the field `field` of what stands at `path`.
pub open spec fn field_path(path: Seq<char>, field: Seq<char>) -> Seq<char> {
    path + "."@ + field
}

/// The path of the element `index` of the array at `path`.
pub open spec fn item_path(path: Seq<char>, index: int) -> Seq<char> {
    path + "["@ + decimal(index) + "]"@
}

/// Whether an earlier field has the name of the field `i`.
pub open spec fn name_repeats(fields: Seq<FieldModel>, i: int) -> bool {
    exists|j: int| 0 <= j < i && (#[trigger] fields[j]).name == fields[i].name
}

/// The outline of `value`, which stands at `path`.
pub open spec fn outline_value(
    value: ValueModel,
    path: Seq<char>,
    options: OptionsModel,
) -> Seq<EntryModel>
    decreases value, 0nat,
{
    match value {
        ValueModel::Option(Some(inner)) => outline_value(*inner, path, options),
        ValueModel::Array(items) => (if is_mixed(items, options) {
            seq![EntryModel::MixedArray { path }]
        } else {
            Seq::empty()
        }) + outline_items(items, items.len(), path, options),
        ValueModel::Struct(record) => outline_struct(record, path, options),
        _ => Seq::empty(),
    }
}

/// The outline of the first `n` elements of the array at `path`.
pub open spec fn outline_items(
    items: Seq<ValueModel>,
    n: nat,
    path: Seq<char>,
    options: OptionsModel,
) -> Seq<EntryModel>
    decreases items, n,
{
    if n == 0 || n > items.len() {
        Seq::empty()
    } else {
        outline_items(items, (n - 1) as nat, path, options) + outline_value(
            items[n - 1],
            item_path(path, n - 1),
            options,
        )
    }
}

/// The outline of the struct `record`, which stands at `path`: the struct
/// itself, its name if that is no identifier, then its fields in order.
pub open spec fn outline_struct(
    record: StructModel,
    path: Seq<char>,
    options: OptionsModel,
) -> Seq<EntryModel>
    decreases record, 0nat,
{
    seq![
        EntryModel::Struct {
            path,
            name: record.name,
            shape: shape_of(record, options),
        },
    ] + (if is_valid_identifier(record.name) {
        Seq::empty()
    } else {
        seq![EntryModel::InvalidName { path }]
    }) + outline_fields(record.fields, record.fields.len(), path, options)
}

/// The outline of the first `n` fields of the struct at `path`: for each,
/// its name if that cannot be used, then what its value holds.
pub open spec fn outline_fields(
    fields: Seq<FieldModel>,
    n: nat,
    path: Seq<char>,
    options: OptionsModel,
) -> Seq<EntryModel>
    decreases fields, n,
{
    if n == 0 || n > fields.len() {
        Seq::empty()
    } else {
        outline_fields(fields, (n - 1) as nat, path, options) + (if is_valid_identifier(
            fields[n - 1].name,
        ) && !name_repeats(fields, n - 1) {
            Seq::empty()
        } else {
            seq![EntryModel::InvalidName { path: field_path(path, fields[n - 1].name) }]
        }) + outline_value(fields[n - 1].value, field_path(path, fields[n - 1].name), options)
    }
}

/// What pushing one entry does to the contents of a list.
proof fn lemma_entry_pushed(entries: Seq<Entry>, entry: Entry)
    ensures
        entry_models(entries.push(entry)) == entry_models(entries).push(entry@),
{
    assert(entry_models(entries.push(entry)) =~= entry_models(entries).push(entry@));
}

/// Appends the outline of `value`, which stands at `path`.
pub fn push_value_outline(
    entries: &mut Vec<Entry>,
    value: &RawValue,
    path: &str,
    options: &StructOptions,
)
    ensures
        entry_models(final(entries)@) == entry_models(old(entries)@) + outline_value(
            value@,
            path@,
            options@,
        ),
    decreases value,
{
    match value {
        RawValue::Option(Some(inner)) => push_value_outline(entries, inner, path, options),
        RawValue::Array(items) => {
            proof {
                lemma_array_view(*items);
            }
            push_items_outline(entries, items, path, options)
        },
        RawValue::Struct(record) => {
            proof {
                lemma_struct_view(*record);
            }
            push_struct_outline(entries, record, path, options)
        },
        _ => {
            assert(entry_models(entries@) =~= entry_models(old(entries)@) + Seq::empty());
        },
    }
}

/// Appends the outline of the array of `items` at `path`.
pub fn push_items_outline(
    entries: &mut Vec<Entry>,
    items: &Vec<RawValue>,
    path: &str,
    options: &StructOptions,
)
    ensures
        entry_models(final(entries)@) == entry_models(old(entries)@) + outline_value(
            ValueModel::Array(value_models(items@)),
            path@,
            options@,
        ),
    decreases items,
{
    let ghost models = value_models(items@);
    let ghost start = entry_models(entries@);
    proof {
        lemma_array_view(*items);
    }
    if has_mixed_types(items, options) {
        let entry = Entry::MixedArray { path: path.to_owned() };
        proof {
            lemma_entry_pushed(entries@, entry);
        }
        entries.push(entry);
    }
    let ghost opened = entry_models(entries@);
    assert(opened == start + (if is_mixed(models, options@) {
        seq![EntryModel::MixedArray { path: path@ }]
    } else {
        Seq::empty()
    }));
    let mut i: usize = 0;
    while i < items.len()
        invariant
            i <= items.len(),
            models == value_models(items@),
            forall|k: int| 0 <= k < items@.len() ==> #[trigger] models[k] == items@[k]@,
            entry_models(entries@) == opened + outline_items(models, i as nat, path@, options@),
        decreases items.len() - i,
    {
        let ghost before = entry_models(entries@);
        let mut place = path.to_owned();
        place.append("[");
        push_decimal(&mut place, i as i128);
        place.append("]");
        assert(place@ == item_path(path@, i as int));
        push_value_outline(entries, &items[i], place.as_str(), options);
        assert(entry_models(entries@) == before + outline_value(
            models[i as int],
            item_path(path@, i as int),
            options@,
        ));
        i = i + 1;
    }
    assert(entry_models(entries@) == start + outline_value(
        ValueModel::Array(models),
        path@,
        options@,
    ));
}

/// Tests whether an earlier field has the name of the field `i`.
fn repeats_name(fields: &Vec<RawField>, i: usize) -> (repeats: bool)
    requires
        i < fields@.len(),
    ensures
        repeats == exists|j: int| 0 <= j < i && (#[trigger] fields@[j]).name@ == fields@[i as int].name@,
{
    let mut j: usize = 0;
    while j < i
        invariant
            j <= i < fields@.len(),
            forall|k: int| 0 <= k < j ==> (#[trigger] fields@[k]).name@ != fields@[i as int].name@,
        decreases i - j,
    {
        if fields[j].name == fields[i].name {
            return true;
        }
        j = j + 1;
    }
    false
}

/// Appends the outline of the struct `record`, which stands at `path`.
pub fn push_struct_outline(
    entries: &mut Vec<Entry>,
    record: &RawStructValue,
    path: &str,
    options: &StructOptions,
)
    ensures
        entry_models(final(entries)@) == entry_models(old(entries)@) + outline_struct(
            record@,
            path@,
            options@,
        ),
    decreases record,
{
    let ghost model = record@;
    let ghost start = entry_models(entries@);
    proof {
        lemma_struct_view(*record);
    }
    let own = Entry::Struct {
        path: path.to_owned(),
        name: record.struct_name.clone(),
        shape: struct_shape(record, options),
    };
    proof {
        lemma_entry_pushed(entries@, own);
    }
    entries.push(own);
    if !valid_identifier(record.struct_name.as_str()) {
        let entry = Entry::InvalidName { path: path.to_owned() };
        proof {
            lemma_entry_pushed(entries@, entry);
        }
        entries.push(entry);
    }
    let ghost opened = entry_models(entries@);
    assert(opened == start + (seq![
        EntryModel::Struct {
            path: path@,
            name: model.name,
            shape: shape_of(model, options@),
        },
    ] + (if is_valid_identifier(model.name) {
        Seq::empty()
    } else {
        seq![EntryModel::InvalidName { path: path@ }]
    })));
    let mut i: usize = 0;
    while i < record.fields.len()
        invariant
            i <= record.fields.len(),
            model == record@,
            model.fields.len() == record.fields@.len(),
            forall|k: int|
                0 <= k < record.fields@.len() ==> #[trigger] model.fields[k] == (FieldModel {
                    name: record.fields@[k].name@,
                    value: record.fields@[k].value@,
                }),
            entry_models(entries@) == opened + outline_fields(
                model.fields,
                i as nat,
                path@,
                options@,
            ),
        decreases record.fields.len() - i,
    {
        let field = &record.fields[i];
        let ghost before = entry_models(entries@);
        let mut place = path.to_owned();
        place.append(".");
        place.append(field.name.as_str());
        assert(place@ == field_path(path@, model.fields[i as int].name));
        let repeats = repeats_name(&record.fields, i);
        proof {
            if repeats {
                let j = choose|j: int|
                    0 <= j < i && (#[trigger] record.fields@[j]).name@ == record.fields@[i as int].name@;
                assert(model.fields[j].name == model.fields[i as int].name);
            } else if name_repeats(model.fields, i as int) {
                let j = choose|j: int|
                    0 <= j < i && (#[trigger] model.fields[j]).name == model.fields[i as int].name;
                assert(record.fields@[j].name@ == record.fields@[i as int].name@);
            }
            assert(repeats == name_repeats(model.fields, i as int));
        }
        if !valid_identifier(field.name.as_str()) || repeats {
            let entry = Entry::InvalidName { path: place.clone() };
            proof {
                lemma_entry_pushed(entries@, entry);
            }
            entries.push(entry);
        }
        push_value_outline(entries, &field.value, place.as_str(), options);
        assert(entry_models(entries@) == before + ((if is_valid_identifier(
            model.fields[i as int].name,
        ) && !name_repeats(model.fields, i as int) {
            Seq::empty()
        } else {
            seq![
                EntryModel::InvalidName {
                    path: field_path(path@, model.fields[i as int].name),
                },
            ]
        }) + outline_value(
            model.fields[i as int].value,
            field_path(path@, model.fields[i as int].name),
            options@,
        )));
        i = i + 1;
    }
    assert(entry_models(entries@) == start + outline_struct(model, path@, options@));
}

/// What can be wrong with what an outline lists.
#[derive(Debug, Clone, Copy, PartialEq, Eq, Structural)]
pub enum Problem {
    /// A name that cannot be used.
    InvalidName,
    /// Two structs of one name and different shapes.
    Collision,
    /// An array of mixed types.
    MixedArray,
}

/// Whether `a` and `b` are structs of one name.
pub open spec fn same_name(a: EntryModel, b: EntryModel) -> bool {
    a is Struct && b is Struct && a->name == b->name
}

/// Whether `a` and `b` are structs of one name whose shapes differ: in
/// the number of fields, or in the name or the type of a field at some
/// place.
pub open spec fn clashes(a: EntryModel, b: EntryModel) -> bool {
    same_name(a, b) && a->shape != b->shape
}

/// Whether the entry `i` is a struct that shares its name with a struct of
/// another shape, anywhere in the outline.
pub open spec fn collides(entries: Seq<EntryModel>, i: int) -> bool {
    exists|j: int| 0 <= j < entries.len() && clashes(entries[i], #[trigger] entries[j])
}

/// Whether the entry `i` shows the problem `problem`.
pub open spec fn shows(entries: Seq<EntryModel>, i: int, problem: Problem) -> bool {
    match problem {
        Problem::InvalidName => entries[i] is InvalidName,
        Problem::Collision => collides(entries, i),
        Problem::MixedArray => entries[i] is MixedArray,
    }
}

/// The paths of those of the first `n` entries that show `problem`, in
/// order.
pub open spec fn problem_paths(entries: Seq<EntryModel>, n: nat, problem: Problem) -> Seq<
    Seq<char>,
>
    decreases n,
{
    if n == 0 || n > entries.len() {
        Seq::empty()
    } else if shows(entries, n - 1, problem) {
        problem_paths(entries, (n - 1) as nat, problem).push(entries[n - 1].path())
    } else {
        problem_paths(entries, (n - 1) as nat, problem)
    }
}

/// Whether an earlier entry is a struct with the name of the struct `i`.
pub open spec fn declared_earlier(entries: Seq<EntryModel>, i: int) -> bool {
    exists|j: int| 0 <= j < i && same_name(entries[i], #[trigger] entries[j])
}

/// The declarations of the structs among the first `n` entries, each name
/// declared once, where the first struct of that name stands.
pub open spec fn declarations_text(entries: Seq<EntryModel>, n: nat) -> Seq<char>
    decreases n,
{
    if n == 0 || n > entries.len() {
        Seq::empty()
    } else if entries[n - 1] is Struct && !declared_earlier(entries, n - 1) {
        declarations_text(entries, (n - 1) as nat) + declaration_text(
            entries[n - 1]->name,
            entries[n - 1]->shape,
        )
    } else {
        declarations_text(entries, (n - 1) as nat)
    }
}

impl Entry {
    /// The path of what the entry speaks of.
    pub fn path(&self) -> (path: &String)
        ensures
            path@ == self@.path(),
    {
        match self {
            Entry::Struct { path, .. } => path,
            Entry::InvalidName { path } => path,
            Entry::MixedArray { path } => path,
        }
    }

    /// Tests whether `self` and `other` are structs of one name.
    pub fn has_name_of(&self, other: &Entry) -> (same: bool)
        ensures
            same == same_name(self@, other@),
    {
        match self {
            Entry::Struct { name, .. } => match other {
                Entry::Struct { name: other_name, .. } => *name == *other_name,
                _ => false,
            },
            _ => false,
        }
    }

    /// Tests whether `self` and `other` are structs of one name whose
    /// shapes differ.
    pub fn clashes_with(&self, other: &Entry) -> (clash: bool)
        ensures
            clash == clashes(self@, other@),
    {
        match self {
            Entry::Struct { name, shape, .. } => match other {
                Entry::Struct { name: other_name, shape: other_shape, .. } => *name
                    == *other_name && !same_shape(shape, other_shape),
                _ => false,
            },
            _ => false,
        }
    }
}

/// Tests whether the entry `i` collides with another.
fn collides_at(entries: &Vec<Entry>, i: usize) -> (found: bool)
    requires
        i < entries@.len(),
    ensures
        found == collides(entry_models(entries@), i as int),
{
    let ghost models = entry_models(entries@);
    let mut j: usize = 0;
    while j < entries.len()
        invariant
            j <= entries.len(),
            i < entries@.len(),
            models == entry_models(entries@),
            forall|k: int| 0 <= k < j ==> !clashes(models[i as int], #[trigger] models[k]),
        decreases entries.len() - j,
    {
        if entries[i].clashes_with(&entries[j]) {
            assert(clashes(models[i as int], models[j as int]));
            return true;
        }
        j = j + 1;
    }
    false
}

/// Tests whether the entry `i` shows `problem`.
fn shows_at(entries: &Vec<Entry>, i: usize, problem: Problem) -> (found: bool)
    requires
        i < entries@.len(),
    ensures
        found == shows(entry_models(entries@), i as int, problem),
{
    match problem {
        Problem::InvalidName => match &entries[i] {
            Entry::InvalidName { .. } => true,
            _ => false,
        },
        Problem::Collision => collides_at(entries, i),
        Problem::MixedArray => match &entries[i] {
            Entry::MixedArray { .. } => true,
            _ => false,
        },
    }
}

/// Lists the paths of the entries that show `problem`, in order.
pub fn find_problems(entries: &Vec<Entry>, problem: Problem) -> (paths: Vec<String>)
    ensures
        texts(paths@) == problem_paths(entry_models(entries@), entries@.len(), problem),
{
    let ghost models = entry_models(entries@);
    let mut paths: Vec<String> = Vec::new();
    let mut i: usize = 0;
    assert(texts(paths@) =~= problem_paths(models, 0, problem));
    while i < entries.len()
        invariant
            i <= entries.len(),
            models == entry_models(entries@),
            texts(paths@) == problem_paths(models, i as nat, problem),
        decreases entries.len() - i,
    {
        if shows_at(entries, i, problem) {
            let path = entries[i].path().clone();
            let ghost before = paths@;
            paths.push(path);
            assert(texts(paths@) =~= texts(before).push(path@));
        }
        i = i + 1;
    }
    paths
}

/// Tests whether an earlier entry is a struct with the name of the
/// struct `i`.
fn declared_before(entries: &Vec<Entry>, i: usize) -> (found: bool)
    requires
        i < entries@.len(),
    ensures
        found == declared_earlier(entry_models(entries@), i as int),
{
    let ghost models = entry_models(entries@);
    let mut j: usize = 0;
    while j < i
        invariant
            j <= i < entries@.len(),
            models == entry_models(entries@),
            forall|k: int| 0 <= k < j ==> !same_name(models[i as int], #[trigger] models[k]),
        decreases i - j,
    {
        if entries[i].has_name_of(&entries[j]) {
            assert(same_name(models[i as int], models[j as int]));
            return true;
        }
        j = j + 1;
    }
    false
}

/// Appends the declarations of the structs of an outline, each name
/// declared once, where the first struct of that name stands.
pub fn push_declarations(out: &mut String, entries: &Vec<Entry>)
    ensures
        final(out)@ == old(out)@ + declarations_text(entry_models(entries@), entries@.len()),
{
    let ghost models = entry_models(entries@);
    let mut i: usize = 0;
    while i < entries.len()
        invariant
            i <= entries.len(),
            models == entry_models(entries@),
            out@ == old(out)@ + declarations_text(models, i as nat),
        decreases entries.len() - i,
    {
        match &entries[i] {
            Entry::Struct { name, shape, .. } => {
                if !declared_before(entries, i) {
                    assert(models[i as int]->name == name@);
                    assert(models[i as int]->shape == shape_model(shape@));
                    push_declaration(out, name.as_str(), shape);
                }
            },
            _ => {},
        }
        i = i + 1;
    }
}

/// Outlines the struct `record` as the root of a document: its own path
/// is its name.
pub fn outline(record: &RawStructValue, options: &StructOptions) -> (entries: Vec<Entry>)
    ensures
        entry_models(entries@) == outline_struct(record@, record@.name, options@),
{
    let mut entries: Vec<Entry> = Vec::new();
    proof {
        lemma_struct_view(*record);
        assert(entry_models(entries@) =~= Seq::empty());
    }
    push_struct_outline(&mut entries, record, record.struct_name.as_str(), options);
    entries
}

/// An entry that shows a problem has its path among the paths listed for
/// that problem.
pub proof fn lemma_shown_problem_is_listed(
    entries: Seq<EntryModel>,
    n: nat,
    problem: Problem,
    k: int,
)
    requires
        0 <= k < n <= entries.len(),
        shows(entries, k, problem),
    ensures
        problem_paths(entries, n, problem).contains(entries[k].path()),
        problem_paths(entries, n, problem).len() > 0,
    decreases n,
{
    let rest = problem_paths(entries, (n - 1) as nat, problem);
    if k == n - 1 {
        assert(rest.push(entries[k].path())[rest.len() as int] == entries[k].path());
    } else {
        lemma_shown_problem_is_listed(entries, (n - 1) as nat, problem, k);
        if shows(entries, n - 1, problem) {
            let at = choose|at: int| 0 <= at < rest.len() && rest[at] == entries[k].path();
            assert(rest.push(entries[n - 1].path())[at] == entries[k].path());
        }
    }
}

/// Whether an outline lists an array of mixed types.
pub open spec fn lists_mixed_array(entries: Seq<EntryModel>) -> bool {
    exists|k: int| 0 <= k < entries.len() && (#[trigger] entries[k]) is MixedArray
}

/// What the first part of an outline lists, the whole lists too, and so
/// for the second part.
pub proof fn lemma_parts_list_mixed_arrays(first: Seq<EntryModel>, second: Seq<EntryModel>)
    ensures
        lists_mixed_array(first + second) == (lists_mixed_array(first) || lists_mixed_array(second)),
{
    if lists_mixed_array(first) {
        let k = choose|k: int| 0 <= k < first.len() && (#[trigger] first[k]) is MixedArray;
        assert((first + second)[k] is MixedArray);
    }
    if lists_mixed_array(second) {
        let k = choose|k: int| 0 <= k < second.len() && (#[trigger] second[k]) is MixedArray;
        assert((first + second)[first.len() + k] is MixedArray);
    }
    if lists_mixed_array(first + second) {
        let whole = first + second;
        let k = choose|k: int| 0 <= k < whole.len() && (#[trigger] whole[k]) is MixedArray;
        if k < first.len() {
            assert(first[k] is MixedArray);
        } else {
            assert(second[k - first.len()] is MixedArray);
        }
    }
}

/// The outline of a value that holds an array of mixed types lists one.
pub proof fn lemma_outline_lists_mixed_array(
    value: ValueModel,
    path: Seq<char>,
    options: OptionsModel,
)
    requires
        holds_mixed_array(value, options),
    ensures
        lists_mixed_array(outline_value(value, path, options)),
    decreases value, 0nat,
{
    match value {
        ValueModel::Option(Some(inner)) => {
            lemma_outline_lists_mixed_array(*inner, path, options);
        },
        ValueModel::Array(items) => {
            let own = if is_mixed(items, options) {
                seq![EntryModel::MixedArray { path }]
            } else {
                Seq::empty()
            };
            let below = outline_items(items, items.len(), path, options);
            if is_mixed(items, options) {
                assert(own[0] is MixedArray);
            } else {
                let i = choose|i: int|
                    0 <= i < items.len() && holds_mixed_array(#[trigger] items[i], options);
                lemma_items_outline_lists_mixed_array(items, items.len(), path, options, i);
            }
            lemma_parts_list_mixed_arrays(own, below);
        },
        ValueModel::Struct(record) => {
            let i = choose|i: int|
                0 <= i < record.fields.len() && holds_mixed_array(
                    (#[trigger] record.fields[i]).value,
                    options,
                );
            lemma_fields_outline_lists_mixed_array(
                record.fields,
                record.fields.len(),
                path,
                options,
                i,
            );
            let below = outline_fields(record.fields, record.fields.len(), path, options);
            let whole = outline_struct(record, path, options);
            let k = choose|k: int| 0 <= k < below.len() && (#[trigger] below[k]) is MixedArray;
            assert(whole[whole.len() - below.len() + k] is MixedArray);
        },
        _ => {},
    }
}

/// The outline of the first `n` elements of an array lists an array of
/// mixed types where one of these elements holds one.
pub proof fn lemma_items_outline_lists_mixed_array(
    items: Seq<ValueModel>,
    n: nat,
    path: Seq<char>,
    options: OptionsModel,
    i: int,
)
    requires
        0 <= i < n <= items.len(),
        holds_mixed_array(items[i], options),
    ensures
        lists_mixed_array(outline_items(items, n, path, options)),
    decreases items, n,
{
    let before = outline_items(items, (n - 1) as nat, path, options);
    let last = outline_value(items[n - 1], item_path(path, n - 1), options);
    if i == n - 1 {
        lemma_outline_lists_mixed_array(
            items[n - 1],
            item_path(path, n - 1),
            options,
        );
    } else {
        lemma_items_outline_lists_mixed_array(items, (n - 1) as nat, path, options, i);
    }
    lemma_parts_list_mixed_arrays(before, last);
}

/// The outline of the first `n` fields of a struct lists an array of
/// mixed types where the value of one of these fields holds one.
pub proof fn lemma_fields_outline_lists_mixed_array(
    fields: Seq<FieldModel>,
    n: nat,
    path: Seq<char>,
    options: OptionsModel,
    i: int,
)
    requires
        0 <= i < n <= fields.len(),
        holds_mixed_array(fields[i].value, options),
    ensures
        lists_mixed_array(outline_fields(fields, n, path, options)),
    decreases fields, n,
{
    let place = field_path(path, fields[n - 1].name);
    let before = outline_fields(fields, (n - 1) as nat, path, options);
    let own = if is_valid_identifier(fields[n - 1].name)
        && !name_repeats(fields, n - 1) {
        Seq::empty()
    } else {
        seq![EntryModel::InvalidName { path: place }]
    };
    let last = outline_value(fields[n - 1].value, place, options);
    if i == n - 1 {
        lemma_outline_lists_mixed_array(fields[n - 1].value, place, options);
    } else {
        lemma_fields_outline_lists_mixed_array(fields, (n - 1) as nat, path, options, i);
    }
    lemma_parts_list_mixed_arrays(before, own);
    lemma_parts_list_mixed_arrays(before + own, last);
}

/// Where a path is listed for a problem, an entry shows the problem.
pub proof fn lemma_listed_problem_is_shown(entries: Seq<EntryModel>, n: nat, problem: Problem)
    requires
        n <= entries.len(),
        problem_paths(entries, n, problem).len() > 0,
    ensures
        exists|k: int| 0 <= k < n && shows(entries, k, problem),
    decreases n,
{
    if n > 0 && !shows(entries, n - 1, problem) {
        lemma_listed_problem_is_shown(entries, (n - 1) as nat, problem);
    }
}

/// A value whose outline lists an array of mixed types holds one.
pub proof fn lemma_listed_mixed_array_is_held(
    value: ValueModel,
    path: Seq<char>,
    options: OptionsModel,
)
    requires
        lists_mixed_array(outline_value(value, path, options)),
    ensures
        holds_mixed_array(value, options),
    decreases value, 0nat,
{
    match value {
        ValueModel::Option(Some(inner)) => {
            lemma_listed_mixed_array_is_held(*inner, path, options);
        },
        ValueModel::Array(items) => {
            let own = if is_mixed(items, options) {
                seq![EntryModel::MixedArray { path }]
            } else {
                Seq::empty()
            };
            let below = outline_items(items, items.len(), path, options);
            lemma_parts_list_mixed_arrays(own, below);
            if !is_mixed(items, options) {
                lemma_items_listed_mixed_array_is_held(items, items.len(), path, options);
            }
        },
        ValueModel::Struct(record) => {
            let own = seq![
                EntryModel::Struct { path, name: record.name, shape: shape_of(record, options) },
            ];
            let named = if is_valid_identifier(record.name) {
                Seq::empty()
            } else {
                seq![EntryModel::InvalidName { path }]
            };
            let below = outline_fields(record.fields, record.fields.len(), path, options);
            assert(outline_struct(record, path, options) == own + named + below);
            lemma_parts_list_mixed_arrays(own, named);
            lemma_parts_list_mixed_arrays(own + named, below);
            lemma_fields_listed_mixed_array_is_held(
                record.fields,
                record.fields.len(),
                path,
                options,
            );
        },
        _ => {},
    }
}

/// Where the outline of the first `n` elements of an array lists an array
/// of mixed types, one of these elements holds one.
pub proof fn lemma_items_listed_mixed_array_is_held(
    items: Seq<ValueModel>,
    n: nat,
    path: Seq<char>,
    options: OptionsModel,
)
    requires
        n <= items.len(),
        lists_mixed_array(outline_items(items, n, path, options)),
    ensures
        exists|i: int| 0 <= i < n && holds_mixed_array(#[trigger] items[i], options),
    decreases items, n,
{
    if n > 0 {
        let before = outline_items(items, (n - 1) as nat, path, options);
        let last = outline_value(items[n - 1], item_path(path, n - 1), options);
        lemma_parts_list_mixed_arrays(before, last);
        if lists_mixed_array(last) {
            lemma_listed_mixed_array_is_held(items[n - 1], item_path(path, n - 1), options);
        } else {
            lemma_items_listed_mixed_array_is_held(items, (n - 1) as nat, path, options);
        }
    }
}

/// Where the outline of the first `n` fields of a struct lists an array
/// of mixed types, the value of one of these fields holds one.
pub proof fn lemma_fields_listed_mixed_array_is_held(
    fields: Seq<FieldModel>,
    n: nat,
    path: Seq<char>,
    options: OptionsModel,
)
    requires
        n <= fields.len(),
        lists_mixed_array(outline_fields(fields, n, path, options)),
    ensures
        exists|i: int| 0 <= i < n && holds_mixed_array((#[trigger] fields[i]).value, options),
    decreases fields, n,
{
    if n > 0 {
        let place = field_path(path, fields[n - 1].name);
        let before = outline_fields(fields, (n - 1) as nat, path, options);
        let own = if is_valid_identifier(fields[n - 1].name) && !name_repeats(fields, n - 1) {
            Seq::empty()
        } else {
            seq![EntryModel::InvalidName { path: place }]
        };
        let last = outline_value(fields[n - 1].value, place, options);
        lemma_parts_list_mixed_arrays(before, own);
        lemma_parts_list_mixed_arrays(before + own, last);
        if lists_mixed_array(last) {
            lemma_listed_mixed_array_is_held(fields[n - 1].value, place, options);
        } else {
            lemma_fields_listed_mixed_array_is_held(fields, (n - 1) as nat, path, options);
        }
    }
}

/// The paths of the arrays of mixed types in `value`, which stands at
/// `path`, in document order.
pub open spec fn mixed_array_paths(
    value: ValueModel,
    path: Seq<char>,
    options: OptionsModel,
) -> Seq<Seq<char>> {
    let entries = outline_value(value, path, options);
    problem_paths(entries, entries.len(), Problem::MixedArray)
}

/// A value holds an array of mixed types exactly where the outline of the
/// value lists the path of one.
pub proof fn lemma_mixed_arrays_are_listed(
    value: ValueModel,
    path: Seq<char>,
    options: OptionsModel,
)
    ensures
        holds_mixed_array(value, options) == (mixed_array_paths(value, path, options).len() > 0),
{
    let entries = outline_value(value, path, options);
    if holds_mixed_array(value, options) {
        lemma_outline_lists_mixed_array(value, path, options);
        let k = choose|k: int| 0 <= k < entries.len() && (#[trigger] entries[k]) is MixedArray;
        lemma_shown_problem_is_listed(entries, entries.len(), Problem::MixedArray, k);
    }
    if mixed_array_paths(value, path, options).len() > 0 {
        lemma_listed_problem_is_shown(entries, entries.len(), Problem::MixedArray);
        let k = choose|k: int| 0 <= k < entries.len() && shows(entries, k, Problem::MixedArray);
        assert(entries[k] is MixedArray);
        lemma_listed_mixed_array_is_held(value, path, options);
    }
}

} // verus!
