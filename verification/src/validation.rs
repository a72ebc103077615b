//! The rules that names and value trees must meet before code is generated.

use vstd::prelude::*;
use crate::error::{
    document_errors, DocumentError, DocumentErrorModel, GenerationError, GenerationErrorModel,
};
use crate::options::{OptionsModel, StructOptions};
use crate::outline::{
    entry_models, find_problems, outline, outline_struct, problem_paths, Entry, EntryModel,
    Problem,
};
use crate::value::{RawStructValue, StructModel};

verus! {

/// Whether `c` may begin an identifier: an ASCII letter or an underscore.
pub open spec fn is_identifier_start(c: char) -> bool {
    ('a' <= c <= 'z') || ('A' <= c <= 'Z') || c == '_'
}

/// Whether `c` may stand inside an identifier: an ASCII letter, an ASCII
/// digit or an underscore.
pub open spec fn is_identifier_char(c: char) -> bool {
    is_identifier_start(c) || ('0' <= c <= '9')
}

/// Whether `name` is a word that Rust keeps for itself: a keyword, or a
/// word reserved for later use.
pub open spec fn is_keyword(name: Seq<char>) -> bool {
    ||| name == "as"@
    ||| name == "async"@
    ||| name == "await"@
    ||| name == "break"@
    ||| name == "const"@
    ||| name == "continue"@
    ||| name == "crate"@
    ||| name == "dyn"@
    ||| name == "else"@
    ||| name == "enum"@
    ||| name == "extern"@
    ||| name == "false"@
    ||| name == "fn"@
    ||| name == "for"@
    ||| name == "if"@
    ||| name == "impl"@
    ||| name == "in"@
    ||| name == "let"@
    ||| name == "loop"@
    ||| name == "match"@
    ||| name == "mod"@
    ||| name == "move"@
    ||| name == "mut"@
    ||| name == "pub"@
    ||| name == "ref"@
    ||| name == "return"@
    ||| name == "self"@
    ||| name == "Self"@
    ||| name == "static"@
    ||| name == "struct"@
    ||| name == "super"@
    ||| name == "trait"@
    ||| name == "true"@
    ||| name == "type"@
    ||| name == "unsafe"@
    ||| name == "use"@
    ||| name == "where"@
    ||| name == "while"@
    ||| name == "abstract"@
    ||| name == "become"@
    ||| name == "box"@
    ||| name == "do"@
    ||| name == "final"@
    ||| name == "macro"@
    ||| name == "override"@
    ||| name == "priv"@
    ||| name == "try"@
    ||| name == "typeof"@
    ||| name == "unsized"@
    ||| name == "virtual"@
    ||| name == "yield"@
}

/// Whether `name` can be written as an identifier in generated code: it is
/// not empty, begins with a letter or an underscore, goes on with letters,
/// digits and underscores only, and is neither the lone underscore nor a
/// keyword.
pub open spec fn is_valid_identifier(name: Seq<char>) -> bool {
    &&& name.len() > 0
    &&& is_identifier_start(name[0])
    &&& forall|i: int| 0 <= i < name.len() ==> is_identifier_char(#[trigger] name[i])
    &&& name != seq!['_']
    &&& !is_keyword(name)
}

/// Tests whether `name` is the word `word`.
fn is_word(name: &String, word: &str) -> (same: bool)
    ensures
        same == (name@ == word@),
{
    *name == word.to_owned()
}

/// Tests whether `name` is a word that Rust keeps for itself.
pub fn keyword(name: &str) -> (kept: bool)
    ensures
        kept == is_keyword(name@),
{
    let owned = name.to_owned();
    if is_word(&owned, "as") {
        return true;
    }
    if is_word(&owned, "async") {
        return true;
    }
    if is_word(&owned, "await") {
        return true;
    }
    if is_word(&owned, "break") {
        return true;
    }
    if is_word(&owned, "const") {
        return true;
    }
    if is_word(&owned, "continue") {
        return true;
    }
    if is_word(&owned, "crate") {
        return true;
    }
    if is_word(&owned, "dyn") {
        return true;
    }
    if is_word(&owned, "else") {
        return true;
    }
    if is_word(&owned, "enum") {
        return true;
    }
    if is_word(&owned, "extern") {
        return true;
    }
    if is_word(&owned, "false") {
        return true;
    }
    if is_word(&owned, "fn") {
        return true;
    }
    if is_word(&owned, "for") {
        return true;
    }
    if is_word(&owned, "if") {
        return true;
    }
    if is_word(&owned, "impl") {
        return true;
    }
    if is_word(&owned, "in") {
        return true;
    }
    if is_word(&owned, "let") {
        return true;
    }
    if is_word(&owned, "loop") {
        return true;
    }
    if is_word(&owned, "match") {
        return true;
    }
    if is_word(&owned, "mod") {
        return true;
    }
    if is_word(&owned, "move") {
        return true;
    }
    if is_word(&owned, "mut") {
        return true;
    }
    if is_word(&owned, "pub") {
        return true;
    }
    if is_word(&owned, "ref") {
        return true;
    }
    if is_word(&owned, "return") {
        return true;
    }
    if is_word(&owned, "self") {
        return true;
    }
    if is_word(&owned, "Self") {
        return true;
    }
    if is_word(&owned, "static") {
        return true;
    }
    if is_word(&owned, "struct") {
        return true;
    }
    if is_word(&owned, "super") {
        return true;
    }
    if is_word(&owned, "trait") {
        return true;
    }
    if is_word(&owned, "true") {
        return true;
    }
    if is_word(&owned, "type") {
        return true;
    }
    if is_word(&owned, "unsafe") {
        return true;
    }
    if is_word(&owned, "use") {
        return true;
    }
    if is_word(&owned, "where") {
        return true;
    }
    if is_word(&owned, "while") {
        return true;
    }
    if is_word(&owned, "abstract") {
        return true;
    }
    if is_word(&owned, "become") {
        return true;
    }
    if is_word(&owned, "box") {
        return true;
    }
    if is_word(&owned, "do") {
        return true;
    }
    if is_word(&owned, "final") {
        return true;
    }
    if is_word(&owned, "macro") {
        return true;
    }
    if is_word(&owned, "override") {
        return true;
    }
    if is_word(&owned, "priv") {
        return true;
    }
    if is_word(&owned, "try") {
        return true;
    }
    if is_word(&owned, "typeof") {
        return true;
    }
    if is_word(&owned, "unsized") {
        return true;
    }
    if is_word(&owned, "virtual") {
        return true;
    }
    if is_word(&owned, "yield") {
        return true;
    }
    false
}

/// Tests whether `name` is made as an identifier is: not empty, a letter
/// or an underscore first, then letters, digits and underscores, and not
/// the lone underscore.
fn well_formed(name: &str) -> (valid: bool)
    ensures
        valid == ({
            &&& name@.len() > 0
            &&& is_identifier_start(name@[0])
            &&& forall|i: int| 0 <= i < name@.len() ==> is_identifier_char(#[trigger] name@[i])
            &&& name@ != seq!['_']
        }),
{
    let mut empty: bool = true;
    let mut lone_underscore: bool = false;
    for c in it: name.chars()
        invariant
            it.seq() == name@,
            empty == (it.index() == 0),
            !empty ==> is_identifier_start(name@[0]),
            forall|i: int| 0 <= i < it.index() ==> is_identifier_char(#[trigger] name@[i]),
            lone_underscore == (it.index() == 1 && name@[0] == '_'),
    {
        let letter = (c >= 'a' && c <= 'z') || (c >= 'A' && c <= 'Z') || c == '_';
        let digit = c >= '0' && c <= '9';
        if !(letter || (digit && !empty)) {
            assert(!is_identifier_char(name@[it.index()]) || (it.index() == 0
                && !is_identifier_start(name@[0])));
            return false;
        }
        lone_underscore = empty && c == '_';
        empty = false;
    }
    proof {
        if lone_underscore {
            assert(name@ == seq!['_']);
        } else if name@ == seq!['_'] {
            assert(name@.len() == 1 && name@[0] == '_');
        }
    }
    !empty && !lone_underscore
}

/// Tests whether `name` can be written as an identifier in generated code.
pub fn valid_identifier(name: &str) -> (valid: bool)
    ensures
        valid == is_valid_identifier(name@),
{
    well_formed(name) && !keyword(name)
}

/// The error for one kind of problem, where anything shows it.
pub open spec fn kind_errors(
    entries: Seq<EntryModel>,
    problem: Problem,
) -> Seq<DocumentErrorModel> {
    let paths = problem_paths(entries, entries.len(), problem);
    if paths.len() == 0 {
        Seq::empty()
    } else {
        seq![
            match problem {
                Problem::InvalidName => DocumentErrorModel::InvalidIdentifier(paths),
                Problem::Collision => DocumentErrorModel::StructNameCollision(paths),
                Problem::MixedArray => DocumentErrorModel::HeterogeneousArray(paths),
            },
        ]
    }
}

/// Everything that is wrong with the tree that `entries` outlines: one
/// error for each kind of problem that anything shows, with the paths of
/// all that show it; first the names that cannot be used, then the
/// structs of one name and different shapes, then the arrays of mixed
/// types.
pub open spec fn outline_errors(entries: Seq<EntryModel>) -> Seq<DocumentErrorModel> {
    kind_errors(entries, Problem::InvalidName) + kind_errors(entries, Problem::Collision)
        + kind_errors(entries, Problem::MixedArray)
}

/// What is wrong with the tree that `entries` outlines, if anything: all
/// of it in one error.
pub open spec fn outline_problem(entries: Seq<EntryModel>) -> Option<GenerationErrorModel> {
    if outline_errors(entries).len() == 0 {
        None
    } else {
        Some(GenerationErrorModel::InvalidDocument(outline_errors(entries)))
    }
}

/// Appends the error for one kind of problem, where anything shows it.
fn push_kind_errors(errors: &mut Vec<DocumentError>, entries: &Vec<Entry>, problem: Problem)
    ensures
        document_errors(final(errors)@) == document_errors(old(errors)@) + kind_errors(
            entry_models(entries@),
            problem,
        ),
{
    let paths = find_problems(entries, problem);
    if paths.len() > 0 {
        let error = match problem {
            Problem::InvalidName => DocumentError::InvalidIdentifier(paths),
            Problem::Collision => DocumentError::StructNameCollision(paths),
            Problem::MixedArray => DocumentError::HeterogeneousArray(paths),
        };
        errors.push(error);
        assert(document_errors(errors@) =~= document_errors(old(errors)@).push(error@));
    }
    assert(document_errors(errors@) =~= document_errors(old(errors)@) + kind_errors(
        entry_models(entries@),
        problem,
    ));
}

/// Finds everything that is wrong with the tree that `entries` outlines.
pub fn check_outline(entries: &Vec<Entry>) -> (res: Result<(), GenerationError>)
    ensures
        match res {
            Ok(_) => outline_problem(entry_models(entries@)) is None,
            Err(error) => outline_problem(entry_models(entries@)) == Some(error@),
        },
{
    let mut errors: Vec<DocumentError> = Vec::new();
    assert(document_errors(errors@) =~= Seq::empty());
    push_kind_errors(&mut errors, entries, Problem::InvalidName);
    push_kind_errors(&mut errors, entries, Problem::Collision);
    push_kind_errors(&mut errors, entries, Problem::MixedArray);
    assert(document_errors(errors@) =~= outline_errors(entry_models(entries@)));
    if errors.len() > 0 {
        Err(GenerationError::InvalidDocument(errors))
    } else {
        Ok(())
    }
}

/// What is wrong with the struct `config` and what it holds, if anything,
/// where `config` is the root of a document and its structs bear their
/// names.
pub open spec fn struct_problem(config: StructModel, options: OptionsModel) -> Option<
    GenerationErrorModel,
> {
    outline_problem(outline_struct(config, config.name, options))
}

/// Checks the struct `config` and what it holds: that every name can be
/// used, that structs of one name have one shape, and that the elements
/// of every array have one type. What fails is reported all at once.
pub fn validate_struct(config: &RawStructValue, options: &StructOptions) -> (res: Result<
    (),
    GenerationError,
>)
    ensures
        match res {
            Ok(_) => struct_problem(config@, options@) is None,
            Err(error) => struct_problem(config@, options@) == Some(error@),
        },
{
    let entries = outline(config, options);
    check_outline(&entries)
}

} // verus!
