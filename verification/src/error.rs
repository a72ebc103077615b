//! What can go wrong while code is generated.

use vstd::prelude::*;
use vstd::string::*;
use crate::text::{joined, push_joined, texts};

verus! {

/// A set of options that no code can be generated with.
#[derive(Debug, Clone, PartialEq)]
pub enum OptionsError {
    /// The name for the root struct is not an identifier.
    InvalidStructName(String),
    /// The name for the constant is not an identifier.
    InvalidConstName(String),
    /// Owned strings and arrays were asked for together with a constant,
    /// which can only hold borrowed data.
    OwnedConstant,
}

/// One kind of thing that is wrong with a document, with the paths of
/// everything in the document that shows it, in document order.
#[derive(Debug, Clone, PartialEq)]
pub enum DocumentError {
    /// The names at these paths cannot be used as identifiers, or are used
    /// twice in one struct.
    InvalidIdentifier(Vec<String>),
    /// The structs at these paths share a name with a struct of another
    /// shape.
    StructNameCollision(Vec<String>),
    /// The arrays at these paths hold elements of more than one type.
    HeterogeneousArray(Vec<String>),
}

/// Why a document could not be turned into code.
#[derive(Debug, Clone, PartialEq)]
pub enum GenerationError {
    /// The options contradict themselves or name something unusable.
    InvalidOptions(OptionsError),
    /// The file name does not end in the extension of a known format.
    UnknownInputFormat(String),
    /// The document could not be read in its format; the message says why.
    ParseError(String),
    /// The document cannot be turned into code. Every kind of thing that
    /// is wrong with it is listed once, with all the paths that show it:
    /// first the unusable names, then the colliding structs, then the
    /// arrays of mixed types.
    InvalidDocument(Vec<DocumentError>),
    /// Code that loads the document at run time was asked for, but it is
    /// not known which file the document came from.
    MissingFilePath,
}

/// The mathematical content of an [`OptionsError`].
pub enum OptionsErrorModel {
    InvalidStructName(Seq<char>),
    InvalidConstName(Seq<char>),
    OwnedConstant,
}

/// The mathematical content of a [`DocumentError`].
pub enum DocumentErrorModel {
    InvalidIdentifier(Seq<Seq<char>>),
    StructNameCollision(Seq<Seq<char>>),
    HeterogeneousArray(Seq<Seq<char>>),
}

/// The mathematical content of a [`GenerationError`].
pub enum GenerationErrorModel {
    InvalidOptions(OptionsErrorModel),
    UnknownInputFormat(Seq<char>),
    ParseError(Seq<char>),
    InvalidDocument(Seq<DocumentErrorModel>),
    MissingFilePath,
}

impl View for OptionsError {
    type V = OptionsErrorModel;

    open spec fn view(&self) -> OptionsErrorModel {
        match self {
            OptionsError::InvalidStructName(name) => OptionsErrorModel::InvalidStructName(name@),
            OptionsError::InvalidConstName(name) => OptionsErrorModel::InvalidConstName(name@),
            OptionsError::OwnedConstant => OptionsErrorModel::OwnedConstant,
        }
    }
}

impl View for DocumentError {
    type V = DocumentErrorModel;

    open spec fn view(&self) -> DocumentErrorModel {
        match self {
            DocumentError::InvalidIdentifier(paths) => DocumentErrorModel::InvalidIdentifier(
                texts(paths@),
            ),
            DocumentError::StructNameCollision(paths) => DocumentErrorModel::StructNameCollision(
                texts(paths@),
            ),
            DocumentError::HeterogeneousArray(paths) => DocumentErrorModel::HeterogeneousArray(
                texts(paths@),
            ),
        }
    }
}

/// The contents of the errors of a list, in order.
pub open spec fn document_errors(list: Seq<DocumentError>) -> Seq<DocumentErrorModel> {
    Seq::new(list.len(), |i: int| list[i]@)
}

impl View for GenerationError {
    type V = GenerationErrorModel;

    open spec fn view(&self) -> GenerationErrorModel {
        match self {
            GenerationError::InvalidOptions(error) => GenerationErrorModel::InvalidOptions(error@),
            GenerationError::UnknownInputFormat(extension) => GenerationErrorModel::UnknownInputFormat(
                extension@,
            ),
            GenerationError::ParseError(message) => GenerationErrorModel::ParseError(message@),
            GenerationError::InvalidDocument(list) => GenerationErrorModel::InvalidDocument(
                document_errors(list@),
            ),
            GenerationError::MissingFilePath => GenerationErrorModel::MissingFilePath,
        }
    }
}

impl OptionsErrorModel {
    /// What the error says in words.
    pub open spec fn message(self) -> Seq<char> {
        match self {
            OptionsErrorModel::InvalidStructName(name) => "Invalid name for a struct: `"@ + name
                + "`."@,
            OptionsErrorModel::InvalidConstName(name) => "Invalid name for a constant: `"@ + name
                + "`."@,
            OptionsErrorModel::OwnedConstant => "A constant cannot hold owned strings and arrays."@,
        }
    }
}

impl DocumentErrorModel {
    /// What the error says in words.
    pub open spec fn message(self) -> Seq<char> {
        match self {
            DocumentErrorModel::InvalidIdentifier(paths) =>
                "Names that cannot be used as identifiers: "@ + joined(paths, paths.len()) + "."@,
            DocumentErrorModel::StructNameCollision(paths) =>
                "Structs of one name and different shapes: "@ + joined(paths, paths.len()) + "."@,
            DocumentErrorModel::HeterogeneousArray(paths) =>
                "Arrays with elements of different types: "@ + joined(paths, paths.len()) + "."@,
        }
    }
}

/// What the first `n` errors of a list say in words, with a space between
/// one error and the next.
pub open spec fn document_messages(list: Seq<DocumentErrorModel>, n: nat) -> Seq<char>
    decreases n,
{
    if n == 0 || n > list.len() {
        Seq::empty()
    } else if n == 1 {
        list[0].message()
    } else {
        document_messages(list, (n - 1) as nat) + " "@ + list[n - 1].message()
    }
}

impl GenerationErrorModel {
    /// What the error says in words.
    pub open spec fn message(self) -> Seq<char> {
        match self {
            GenerationErrorModel::InvalidOptions(error) => error.message(),
            GenerationErrorModel::UnknownInputFormat(extension) => "Unknown input format: `"@
                + extension + "`."@,
            GenerationErrorModel::ParseError(message) => "Parse error: "@ + message + "."@,
            GenerationErrorModel::InvalidDocument(list) => document_messages(list, list.len()),
            GenerationErrorModel::MissingFilePath =>
                "Loading at run time needs the path of the config file."@,
        }
    }
}

impl OptionsError {
    /// Says in words what is wrong with the options.
    pub fn message(&self) -> (text: String)
        ensures
            text@ == self@.message(),
    {
        let mut text = String::new();
        match self {
            OptionsError::InvalidStructName(name) => {
                text.append("Invalid name for a struct: `");
                text.append(name.as_str());
                text.append("`.");
            },
            OptionsError::InvalidConstName(name) => {
                text.append("Invalid name for a constant: `");
                text.append(name.as_str());
                text.append("`.");
            },
            OptionsError::OwnedConstant => {
                text.append("A constant cannot hold owned strings and arrays.");
            },
        }
        text
    }
}

impl DocumentError {
    /// Says in words what is wrong with the document.
    pub fn message(&self) -> (text: String)
        ensures
            text@ == self@.message(),
    {
        let mut text = String::new();
        match self {
            DocumentError::InvalidIdentifier(paths) => {
                text.append("Names that cannot be used as identifiers: ");
                push_joined(&mut text, paths);
                text.append(".");
            },
            DocumentError::StructNameCollision(paths) => {
                text.append("Structs of one name and different shapes: ");
                push_joined(&mut text, paths);
                text.append(".");
            },
            DocumentError::HeterogeneousArray(paths) => {
                text.append("Arrays with elements of different types: ");
                push_joined(&mut text, paths);
                text.append(".");
            },
        }
        text
    }
}

impl GenerationError {
    /// Says in words why no code was generated.
    pub fn message(&self) -> (text: String)
        ensures
            text@ == self@.message(),
    {
        let mut text = String::new();
        match self {
            GenerationError::InvalidOptions(error) => {
                return error.message();
            },
            GenerationError::UnknownInputFormat(extension) => {
                text.append("Unknown input format: `");
                text.append(extension.as_str());
                text.append("`.");
            },
            GenerationError::ParseError(message) => {
                text.append("Parse error: ");
                text.append(message.as_str());
                text.append(".");
            },
            GenerationError::InvalidDocument(list) => {
                let ghost models = document_errors(list@);
                let mut i: usize = 0;
                while i < list.len()
                    invariant
                        i <= list.len(),
                        models == document_errors(list@),
                        text@ == document_messages(models, i as nat),
                    decreases list.len() - i,
                {
                    if i > 0 {
                        text.append(" ");
                    }
                    let one = list[i].message();
                    text.append(one.as_str());
                    i = i + 1;
                }
            },
            GenerationError::MissingFilePath => {
                text.append("Loading at run time needs the path of the config file.");
            },
        }
        text
    }
}

} // verus!
