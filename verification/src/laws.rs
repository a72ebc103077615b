//! What holds of generation for every document and every set of options.

use vstd::prelude::*;
use crate::error::{DocumentErrorModel, GenerationError, GenerationErrorModel};
use crate::format::Format;
use crate::generate::{generation_outcome, is_outcome};
use crate::generation::{
    array_type, float_text, holds_mixed_array, inferred_type, is_mixed,
    lemma_special_floats_are_no_decimals, shape_of, type_text,
};
use crate::naming::{named_struct, named_value, nested_name};
use crate::options::OptionsModel;
use crate::text::{
    all_digits, decimal, digit_char, digits, digits_value, escaped, escaped_char,
    is_decimal_text, is_digit, unescaped, unescaped_char, unsigned, whole_number,
};
use crate::outline::{
    clashes, collides, field_path, item_path, lemma_mixed_arrays_are_listed,
    lemma_shown_problem_is_listed, name_repeats, outline_fields, outline_items, outline_struct,
    outline_value, problem_paths, EntryModel, Problem,
};
use crate::validation::{is_valid_identifier, kind_errors, outline_errors, outline_problem};
use crate::value::{FieldModel, StructModel, ValueModel};

verus! {

/// Generating is idempotent: two results that both are what one outcome
/// says are the same text, or the same error. Every function that
/// generates code says of its result that it is the outcome for its
/// arguments, so generating twice from the same document with the same
/// options gives the same text.
pub proof fn lemma_generation_is_idempotent(
    first: Result<String, GenerationError>,
    second: Result<String, GenerationError>,
    outcome: Result<Seq<char>, GenerationErrorModel>,
)
    requires
        is_outcome(first, outcome),
        is_outcome(second, outcome),
    ensures
        match (first, second) {
            (Ok(a), Ok(b)) => a@ == b@,
            (Err(a), Err(b)) => a@ == b@,
            _ => false,
        },
{
}

/// The literal of a finite float holds exactly one decimal point and is
/// the float's text, with `.0` behind it where the text holds no point: a
/// float is never written as a bare integer.
pub proof fn lemma_float_literal_has_point(text: Seq<char>, float_type: Seq<char>)
    requires
        is_decimal_text(text),
    ensures
        float_text(text, float_type) == (if text.contains('.') {
            text
        } else {
            text + ".0"@
        }),
        float_text(text, float_type).contains('.'),
        forall|i: int, j: int|
            0 <= i < float_text(text, float_type).len() && 0 <= j < float_text(
                text,
                float_type,
            ).len() && #[trigger] float_text(text, float_type)[i] == '.' && #[trigger] float_text(
                text,
                float_type,
            )[j] == '.' ==> i == j,
{
    reveal_strlit(".0");
    lemma_special_floats_are_no_decimals();
    let literal = float_text(text, float_type);
    let start = if text.len() > 0 && text[0] == '-' {
        1int
    } else {
        0int
    };
    let body = unsigned(text);
    assert(forall|i: int| 0 <= i < body.len() ==> body[i] == text[i + start]);
    if !text.contains('.') {
        assert(literal[text.len() as int] == '.');
        assert forall|i: int, j: int|
            0 <= i < literal.len() && 0 <= j < literal.len() && #[trigger] literal[i] == '.'
                && #[trigger] literal[j] == '.' implies i == j by {
            if i < text.len() {
                assert(text.contains(text[i]));
            }
            if j < text.len() {
                assert(text.contains(text[j]));
            }
        }
    } else {
        assert forall|i: int, j: int|
            0 <= i < literal.len() && 0 <= j < literal.len() && #[trigger] literal[i] == '.'
                && #[trigger] literal[j] == '.' implies i == j by {
            assert(body[i - start] == '.');
            assert(body[j - start] == '.');
        }
    }
}

/// Whether every struct in `value` bears the name of its place, where a
/// struct at the place of `value` itself is to be named `name`: a struct
/// under the field `f` of a struct named `P` is named `P__f`, and the
/// elements of an array and a value in an optional place are named as the
/// place is.
pub open spec fn is_named_by_place(value: ValueModel, name: Seq<char>) -> bool
    decreases value,
{
    match value {
        ValueModel::Option(Some(inner)) => is_named_by_place(*inner, name),
        ValueModel::Array(items) => forall|i: int|
            0 <= i < items.len() ==> is_named_by_place(#[trigger] items[i], name),
        ValueModel::Struct(record) => record.name == name && forall|i: int|
            0 <= i < record.fields.len() ==> is_named_by_place(
                (#[trigger] record.fields[i]).value,
                nested_name(name, record.fields[i].name),
            ),
        _ => true,
    }
}

/// Naming is determined by place: after naming, the name of every struct
/// is made of the root's name and the names of the fields that lead to it,
/// and of nothing else, so the same place gets the same name each time.
pub proof fn lemma_names_follow_places(value: ValueModel, name: Seq<char>)
    ensures
        is_named_by_place(named_value(value, name), name),
    decreases value,
{
    match value {
        ValueModel::Option(Some(inner)) => {
            lemma_names_follow_places(*inner, name);
        },
        ValueModel::Array(items) => {
            let named = named_value(value, name)->Array_0;
            assert forall|i: int| 0 <= i < named.len() implies is_named_by_place(
                #[trigger] named[i],
                name,
            ) by {
                lemma_names_follow_places(items[i], name);
            }
        },
        ValueModel::Struct(record) => {
            let named = named_struct(record, name);
            assert forall|i: int| 0 <= i < named.fields.len() implies is_named_by_place(
                (#[trigger] named.fields[i]).value,
                nested_name(name, named.fields[i].name),
            ) by {
                lemma_names_follow_places(
                    record.fields[i].value,
                    nested_name(name, record.fields[i].name),
                );
            }
        },
        _ => {},
    }
}

/// Naming changes nothing in a tree that bears the names of its places
/// already: naming a second time gives the same tree.
pub proof fn lemma_naming_keeps_named(value: ValueModel, name: Seq<char>)
    requires
        is_named_by_place(value, name),
    ensures
        named_value(value, name) == value,
    decreases value,
{
    match value {
        ValueModel::Option(Some(inner)) => {
            lemma_naming_keeps_named(*inner, name);
        },
        ValueModel::Array(items) => {
            let named = named_value(value, name)->Array_0;
            assert forall|i: int| 0 <= i < items.len() implies named[i] == items[i] by {
                lemma_naming_keeps_named(items[i], name);
            }
            assert(named =~= items);
        },
        ValueModel::Struct(record) => {
            let named = named_struct(record, name);
            assert forall|i: int| 0 <= i < record.fields.len() implies named.fields[i]
                == record.fields[i] by {
                lemma_naming_keeps_named(
                    record.fields[i].value,
                    nested_name(name, record.fields[i].name),
                );
            }
            assert(named.fields =~= record.fields);
        },
        _ => {},
    }
}

/// Structs that differ in the number of their fields, or in the name or
/// the type of a field at some place, differ in shape.
pub proof fn lemma_shapes_tell_fields_apart(a: StructModel, b: StructModel, options: OptionsModel)
    requires
        a.fields.len() != b.fields.len() || exists|i: int|
            0 <= i < a.fields.len() && ((#[trigger] a.fields[i]).name != b.fields[i].name
                || type_text(a.fields[i].value, options) != type_text(b.fields[i].value, options)),
    ensures
        shape_of(a, options) != shape_of(b, options),
{
    if a.fields.len() == b.fields.len() {
        let i = choose|i: int|
            0 <= i < a.fields.len() && ((#[trigger] a.fields[i]).name != b.fields[i].name
                || type_text(a.fields[i].value, options) != type_text(b.fields[i].value, options));
        assert(shape_of(a, options)[i] != shape_of(b, options)[i]);
    } else {
        assert(shape_of(a, options).len() != shape_of(b, options).len());
    }
}

/// Collisions are detected: where two structs of the named document get
/// one name and differ in shape, generation fails, and what it reports
/// holds a collision error that names the paths of both. This holds of
/// every document, and of all options that can be used.
pub proof fn lemma_collision_is_rejected(
    root: StructModel,
    options: OptionsModel,
    format: Format,
    filepath: Option<Seq<char>>,
    i: int,
    j: int,
)
    requires
        options.problem() is None,
        ({
            let config = named_struct(root, options.struct_name);
            let entries = outline_struct(config, config.name, options);
            &&& 0 <= i < entries.len()
            &&& 0 <= j < entries.len()
            &&& clashes(entries[i], entries[j])
        }),
    ensures
        ({
            let config = named_struct(root, options.struct_name);
            let entries = outline_struct(config, config.name, options);
            let paths = problem_paths(entries, entries.len(), Problem::Collision);
            &&& generation_outcome(root, options, format, filepath) matches Err(
                GenerationErrorModel::InvalidDocument(errors),
            )
            &&& errors.contains(DocumentErrorModel::StructNameCollision(paths))
            &&& paths.contains(entries[i].path())
            &&& paths.contains(entries[j].path())
        }),
{
    let config = named_struct(root, options.struct_name);
    let entries = outline_struct(config, config.name, options);
    assert(clashes(entries[j], entries[i]));
    assert(collides(entries, i));
    assert(collides(entries, j));
    lemma_shown_problem_is_listed(entries, entries.len(), Problem::Collision, i);
    lemma_shown_problem_is_listed(entries, entries.len(), Problem::Collision, j);
    lemma_kind_is_reported(entries, Problem::Collision);
}

/// Where anything shows a problem of some kind, the error for that kind
/// is among what is reported of the outline.
pub proof fn lemma_kind_is_reported(entries: Seq<EntryModel>, problem: Problem)
    requires
        problem_paths(entries, entries.len(), problem).len() > 0,
    ensures
        outline_problem(entries) == Some(
            GenerationErrorModel::InvalidDocument(outline_errors(entries)),
        ),
        outline_errors(entries).contains(kind_errors(entries, problem)[0]),
        kind_errors(entries, problem).len() == 1,
{
    let names = kind_errors(entries, Problem::InvalidName);
    let collisions = kind_errors(entries, Problem::Collision);
    let arrays = kind_errors(entries, Problem::MixedArray);
    let all = outline_errors(entries);
    match problem {
        Problem::InvalidName => {
            assert(all[0] == names[0]);
        },
        Problem::Collision => {
            assert(all[names.len() as int] == collisions[0]);
        },
        Problem::MixedArray => {
            assert(all[(names.len() + collisions.len()) as int] == arrays[0]);
        },
    }
}

/// Inference on an array: the type of an array that is not empty is
/// inferred exactly where the type of every element is inferred and is
/// the type of the first element, and it is then the array type of that
/// type. An array of an integer and a string has no type.
pub proof fn lemma_array_type_is_inferred_from_equal_elements(
    items: Seq<ValueModel>,
    options: OptionsModel,
)
    requires
        items.len() > 0,
    ensures
        inferred_type(ValueModel::Array(items), options) is Ok <==> (forall|i: int|
            0 <= i < items.len() ==> (#[trigger] inferred_type(items[i], options)) is Ok
                && inferred_type(items[i], options) == inferred_type(items[0], options)),
        inferred_type(ValueModel::Array(items), options) matches Ok(text) ==> text == array_type(
            inferred_type(items[0], options)->Ok_0,
            options,
        ),
{
    let array = ValueModel::Array(items);
    if inferred_type(array, options) is Ok {
        assert(!is_mixed(items, options));
        assert forall|i: int| 0 <= i < items.len() implies (#[trigger] inferred_type(
            items[i],
            options,
        )) is Ok && inferred_type(items[i], options) == inferred_type(items[0], options) by {
            assert(!holds_mixed_array(items[i], options));
            assert(!holds_mixed_array(items[0], options));
            assert(type_text(items[i], options) == type_text(items[0], options));
        }
    }
    if forall|i: int|
        0 <= i < items.len() ==> (#[trigger] inferred_type(items[i], options)) is Ok
            && inferred_type(items[i], options) == inferred_type(items[0], options) {
        assert forall|i: int| 0 <= i < items.len() implies !holds_mixed_array(
            #[trigger] items[i],
            options,
        ) && type_text(items[i], options) == type_text(items[0], options) by {
            assert(inferred_type(items[i], options) is Ok);
            assert(inferred_type(items[0], options) is Ok);
        }
        assert(!is_mixed(items, options));
        assert(!holds_mixed_array(array, options));
    }
}

/// Arrays are homogeneous: where the named document holds an array whose
/// elements do not all have one type, at any depth, generation fails,
/// and what it reports holds a heterogeneous-array error with the paths
/// of all such arrays. This holds of every document, and of all options
/// that can be used.
pub proof fn lemma_mixed_array_is_rejected(
    root: StructModel,
    options: OptionsModel,
    format: Format,
    filepath: Option<Seq<char>>,
)
    requires
        options.problem() is None,
        holds_mixed_array(ValueModel::Struct(named_struct(root, options.struct_name)), options),
    ensures
        ({
            let config = named_struct(root, options.struct_name);
            let entries = outline_struct(config, config.name, options);
            let paths = problem_paths(entries, entries.len(), Problem::MixedArray);
            &&& generation_outcome(root, options, format, filepath) matches Err(
                GenerationErrorModel::InvalidDocument(errors),
            )
            &&& errors.contains(DocumentErrorModel::HeterogeneousArray(paths))
            &&& paths.len() > 0
        }),
{
    let config = named_struct(root, options.struct_name);
    let entries = outline_struct(config, config.name, options);
    lemma_mixed_arrays_are_listed(ValueModel::Struct(config), config.name, options);
    lemma_kind_is_reported(entries, Problem::MixedArray);
}

/// Whether `value` holds a name that cannot be used, at any depth: a
/// struct or a field whose name is no identifier, or a field whose name an
/// earlier field of the same struct has.
pub open spec fn holds_unusable_name(value: ValueModel) -> bool
    decreases value,
{
    match value {
        ValueModel::Option(Some(inner)) => holds_unusable_name(*inner),
        ValueModel::Array(items) => exists|i: int|
            0 <= i < items.len() && holds_unusable_name(#[trigger] items[i]),
        ValueModel::Struct(record) => !is_valid_identifier(record.name) || exists|i: int|
            0 <= i < record.fields.len() && (!is_valid_identifier(
                (#[trigger] record.fields[i]).name,
            ) || name_repeats(record.fields, i) || holds_unusable_name(record.fields[i].value)),
        _ => false,
    }
}

/// Whether an outline lists a name that cannot be used.
pub open spec fn lists_unusable_name(entries: Seq<EntryModel>) -> bool {
    exists|k: int| 0 <= k < entries.len() && (#[trigger] entries[k]) is InvalidName
}

/// What the first part of an outline lists, the whole lists too, and so
/// for the second part.
proof fn lemma_parts_list_unusable_names(first: Seq<EntryModel>, second: Seq<EntryModel>)
    ensures
        lists_unusable_name(first) ==> lists_unusable_name(first + second),
        lists_unusable_name(second) ==> lists_unusable_name(first + second),
{
    if lists_unusable_name(first) {
        let k = choose|k: int| 0 <= k < first.len() && (#[trigger] first[k]) is InvalidName;
        assert((first + second)[k] is InvalidName);
    }
    if lists_unusable_name(second) {
        let k = choose|k: int| 0 <= k < second.len() && (#[trigger] second[k]) is InvalidName;
        assert((first + second)[first.len() + k] is InvalidName);
    }
}

/// The outline of a value that holds a name that cannot be used lists one.
pub proof fn lemma_outline_lists_unusable_name(
    value: ValueModel,
    path: Seq<char>,
    options: OptionsModel,
)
    requires
        holds_unusable_name(value),
    ensures
        lists_unusable_name(outline_value(value, path, options)),
    decreases value, 0nat,
{
    match value {
        ValueModel::Option(Some(inner)) => {
            lemma_outline_lists_unusable_name(*inner, path, options);
        },
        ValueModel::Array(items) => {
            let own = if is_mixed(items, options) {
                seq![EntryModel::MixedArray { path }]
            } else {
                Seq::empty()
            };
            let below = outline_items(items, items.len(), path, options);
            let i = choose|i: int|
                0 <= i < items.len() && holds_unusable_name(#[trigger] items[i]);
            lemma_items_outline_lists_unusable_name(items, items.len(), path, options, i);
            lemma_parts_list_unusable_names(own, below);
        },
        ValueModel::Struct(record) => {
            let own = seq![
                EntryModel::Struct {
                    path,
                    name: record.name,
                    shape: shape_of(record, options),
                },
            ];
            let named = if is_valid_identifier(record.name) {
                Seq::empty()
            } else {
                seq![EntryModel::InvalidName { path }]
            };
            let below = outline_fields(record.fields, record.fields.len(), path, options);
            if !is_valid_identifier(record.name) {
                assert(named[0] is InvalidName);
            } else {
                let i = choose|i: int|
                    0 <= i < record.fields.len() && (!is_valid_identifier(
                        (#[trigger] record.fields[i]).name,
                    ) || name_repeats(record.fields, i) || holds_unusable_name(
                        record.fields[i].value,
                    ));
                lemma_fields_outline_lists_unusable_name(
                    record.fields,
                    record.fields.len(),
                    path,
                    options,
                    i,
                );
            }
            lemma_parts_list_unusable_names(own, named);
            lemma_parts_list_unusable_names(own + named, below);
            assert(outline_struct(record, path, options) == own + named + below);
        },
        _ => {},
    }
}

/// The outline of the first `n` elements of an array lists a name that
/// cannot be used where one of these elements holds one.
proof fn lemma_items_outline_lists_unusable_name(
    items: Seq<ValueModel>,
    n: nat,
    path: Seq<char>,
    options: OptionsModel,
    i: int,
)
    requires
        0 <= i < n <= items.len(),
        holds_unusable_name(items[i]),
    ensures
        lists_unusable_name(outline_items(items, n, path, options)),
    decreases items, n,
{
    let before = outline_items(items, (n - 1) as nat, path, options);
    let last = outline_value(items[n - 1], item_path(path, n - 1), options);
    if i == n - 1 {
        lemma_outline_lists_unusable_name(items[n - 1], item_path(path, n - 1), options);
    } else {
        lemma_items_outline_lists_unusable_name(items, (n - 1) as nat, path, options, i);
    }
    lemma_parts_list_unusable_names(before, last);
}

/// The outline of the first `n` fields of a struct lists a name that
/// cannot be used where one of these fields has one or holds one.
proof fn lemma_fields_outline_lists_unusable_name(
    fields: Seq<FieldModel>,
    n: nat,
    path: Seq<char>,
    options: OptionsModel,
    i: int,
)
    requires
        0 <= i < n <= fields.len(),
        !is_valid_identifier(fields[i].name) || name_repeats(fields, i) || holds_unusable_name(
            fields[i].value,
        ),
    ensures
        lists_unusable_name(outline_fields(fields, n, path, options)),
    decreases fields, n,
{
    let place = field_path(path, fields[n - 1].name);
    let before = outline_fields(fields, (n - 1) as nat, path, options);
    let own = if is_valid_identifier(fields[n - 1].name) && !name_repeats(fields, n - 1) {
        Seq::empty()
    } else {
        seq![EntryModel::InvalidName { path: place }]
    };
    let last = outline_value(fields[n - 1].value, place, options);
    if i == n - 1 {
        if holds_unusable_name(fields[n - 1].value) {
            lemma_outline_lists_unusable_name(fields[n - 1].value, place, options);
        } else {
            assert(own[0] is InvalidName);
        }
    } else {
        lemma_fields_outline_lists_unusable_name(fields, (n - 1) as nat, path, options, i);
    }
    lemma_parts_list_unusable_names(before, own);
    lemma_parts_list_unusable_names(before + own, last);
}

/// Validation is sound: where code is generated, the options can be used
/// and the named document is well formed. Every struct and field in it
/// has a name that is an identifier, no two fields of one struct share a
/// name, no array holds elements of different types, and the structs of
/// one name all have one shape.
pub proof fn lemma_generated_document_is_well_formed(
    root: StructModel,
    options: OptionsModel,
    format: Format,
    filepath: Option<Seq<char>>,
)
    requires
        generation_outcome(root, options, format, filepath) is Ok,
    ensures
        options.problem() is None,
        ({
            let config = named_struct(root, options.struct_name);
            let entries = outline_struct(config, config.name, options);
            &&& !holds_unusable_name(ValueModel::Struct(config))
            &&& !holds_mixed_array(ValueModel::Struct(config), options)
            &&& forall|i: int, j: int|
                0 <= i < entries.len() && 0 <= j < entries.len() ==> !clashes(
                    #[trigger] entries[i],
                    #[trigger] entries[j],
                )
        }),
{
    let config = named_struct(root, options.struct_name);
    let entries = outline_struct(config, config.name, options);
    assert(outline_problem(entries) is None);
    if holds_unusable_name(ValueModel::Struct(config)) {
        lemma_outline_lists_unusable_name(ValueModel::Struct(config), config.name, options);
        let k = choose|k: int| 0 <= k < entries.len() && (#[trigger] entries[k]) is InvalidName;
        lemma_shown_problem_is_listed(entries, entries.len(), Problem::InvalidName, k);
        lemma_kind_is_reported(entries, Problem::InvalidName);
    }
    if holds_mixed_array(ValueModel::Struct(config), options) {
        lemma_mixed_arrays_are_listed(ValueModel::Struct(config), config.name, options);
        lemma_kind_is_reported(entries, Problem::MixedArray);
    }
    assert forall|i: int, j: int|
        0 <= i < entries.len() && 0 <= j < entries.len() implies !clashes(
        #[trigger] entries[i],
        #[trigger] entries[j],
    ) by {
        if clashes(entries[i], entries[j]) {
            assert(collides(entries, i));
            lemma_shown_problem_is_listed(entries, entries.len(), Problem::Collision, i);
            lemma_kind_is_reported(entries, Problem::Collision);
        }
    }
}

/// The body of a literal begins with what its first character is written
/// as, and goes on with the body for the rest.
proof fn lemma_escaped_from_the_front(s: Seq<char>, quote: char)
    requires
        s.len() > 0,
    ensures
        escaped(s, quote) == escaped_char(s[0], quote) + escaped(s.skip(1), quote),
    decreases s.len(),
{
    if s.len() == 1 {
        assert(s.drop_last() =~= Seq::<char>::empty());
        assert(s.skip(1) =~= Seq::<char>::empty());
        assert(escaped(Seq::<char>::empty(), quote) =~= Seq::<char>::empty());
        assert(escaped(s, quote) =~= escaped_char(s[0], quote));
        assert(escaped_char(s[0], quote) + escaped(s.skip(1), quote) =~= escaped_char(
            s[0],
            quote,
        ));
    } else {
        lemma_escaped_from_the_front(s.drop_last(), quote);
        assert(s.skip(1).drop_last() =~= s.drop_last().skip(1));
        assert(s.skip(1).last() == s.last());
        assert(s.drop_last()[0] == s[0]);
        assert(escaped(s, quote) =~= escaped_char(s[0], quote) + escaped(s.skip(1), quote));
    }
}

/// Reading what one character is written as, and more behind it, gives
/// the character and what the rest reads as.
proof fn lemma_unescape_escaped_char(c: char, quote: char, rest: Seq<char>)
    requires
        quote != 'n' && quote != 'r' && quote != 't' && quote != '0',
    ensures
        unescaped(escaped_char(c, quote) + rest) == seq![c] + unescaped(rest),
{
    let body = escaped_char(c, quote) + rest;
    if escaped_char(c, quote).len() == 2 {
        assert(body[0] == '\\');
        assert(unescaped_char(body[1]) == c);
        assert(body.skip(2) =~= rest);
    } else {
        assert(body[0] == c);
        assert(body.skip(1) =~= rest);
    }
}

/// Escaping loses nothing: the body of a literal that denotes `s` reads
/// back as `s`. This holds for every delimiter that is not one of the
/// letters `n`, `r`, `t` and the digit `0`, so for both quotes.
pub proof fn lemma_escaped_text_reads_back(s: Seq<char>, quote: char)
    requires
        quote != 'n' && quote != 'r' && quote != 't' && quote != '0',
    ensures
        unescaped(escaped(s, quote)) == s,
    decreases s.len(),
{
    if s.len() == 0 {
        assert(unescaped(escaped(s, quote)) =~= s);
    } else {
        lemma_escaped_from_the_front(s, quote);
        lemma_unescape_escaped_char(s[0], quote, escaped(s.skip(1), quote));
        lemma_escaped_text_reads_back(s.skip(1), quote);
        assert(seq![s[0]] + s.skip(1) =~= s);
    }
}

/// What one character is written as reads back as the character.
pub proof fn lemma_escaped_char_reads_back(c: char, quote: char)
    requires
        quote != 'n' && quote != 'r' && quote != 't' && quote != '0',
    ensures
        unescaped(escaped_char(c, quote)) == seq![c],
{
    lemma_unescape_escaped_char(c, quote, Seq::empty());
    assert(escaped_char(c, quote) + Seq::<char>::empty() =~= escaped_char(c, quote));
    assert(unescaped(Seq::<char>::empty()) =~= Seq::<char>::empty());
}

/// The digits of a number are digits, at least one, and write the number.
pub proof fn lemma_digits_read_back(m: nat)
    ensures
        digits(m).len() > 0,
        all_digits(digits(m)),
        digits_value(digits(m)) == m,
    decreases m,
{
    if m < 10 {
        assert(digits(m).drop_last() =~= Seq::<char>::empty());
        assert(digits_value(digits(m).drop_last()) == 0);
        assert(is_digit(digit_char(m as int)));
    } else {
        lemma_digits_read_back(m / 10);
        let front = digits(m / 10);
        let last = digit_char((m % 10) as int);
        assert(front.push(last).drop_last() =~= front);
        assert(is_digit(last));
    }
}

/// The literal of an integer reads back as the integer.
pub proof fn lemma_decimal_reads_back(n: int)
    ensures
        whole_number(decimal(n)) == Some(n),
{
    if n < 0 {
        lemma_digits_read_back((-n) as nat);
        let text = decimal(n);
        assert(text[0] == '-');
        assert(text.subrange(1, text.len() as int) =~= digits((-n) as nat));
    } else {
        lemma_digits_read_back(n as nat);
        let text = decimal(n);
        assert(is_digit(text[0]));
    }
}

} // verus!
