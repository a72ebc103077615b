//! The markup languages that a document can be written in.

use vstd::prelude::*;
use vstd::string::*;
use crate::error::{GenerationError, GenerationErrorModel};
use crate::text::push_char;

verus! {

/// A markup language.
#[derive(Debug, Clone, Copy, PartialEq, Eq, Structural)]
pub enum Format {
    Json,
    Ron,
    Toml,
    Yaml,
}

/// The greatest index at which `c` stands in `s`, or -1 where it does not
/// occur.
pub open spec fn last_index(s: Seq<char>, c: char) -> int
    decreases s.len(),
{
    if s.len() == 0 {
        -1
    } else if s.last() == c {
        s.len() - 1
    } else {
        last_index(s.drop_last(), c)
    }
}

/// The extension of a file name: what follows the last `.`, provided that
/// this `.` stands behind the last `/` and is not the first character of
/// what follows that `/`.
pub open spec fn extension(filename: Seq<char>) -> Option<Seq<char>> {
    let slash = last_index(filename, '/');
    let dot = last_index(filename, '.');
    if dot > slash + 1 {
        Some(filename.subrange(dot + 1, filename.len() as int))
    } else {
        None
    }
}

/// The format that files with this extension are written in.
pub open spec fn format_of(extension: Seq<char>) -> Option<Format> {
    if extension == "json"@ {
        Some(Format::Json)
    } else if extension == "ron"@ {
        Some(Format::Ron)
    } else if extension == "toml"@ {
        Some(Format::Toml)
    } else if extension == "yaml"@ || extension == "yml"@ {
        Some(Format::Yaml)
    } else {
        None
    }
}

/// The format of the file named `filename`, or the extension that
/// stands for none; `<none>` where the name has no extension.
pub open spec fn format_of_filename(filename: Seq<char>) -> Result<Format, GenerationErrorModel> {
    match extension(filename) {
        Some(found) => match format_of(found) {
            Some(format) => Ok(format),
            None => Err(GenerationErrorModel::UnknownInputFormat(found)),
        },
        None => Err(GenerationErrorModel::UnknownInputFormat("<none>"@)),
    }
}

/// Finds the extension of a file name.
pub fn file_extension(filename: &str) -> (found: Option<String>)
    ensures
        match found {
            Some(text) => extension(filename@) == Some(text@),
            None => extension(filename@) is None,
        },
{
    let mut text = String::new();
    let mut has_extension: bool = false;
    let mut at_start: bool = true;
    let ghost mut slash: int = -1;
    let ghost mut dot: int = -1;
    for c in it: filename.chars()
        invariant
            it.seq() == filename@,
            slash == last_index(filename@.take(it.index()), '/'),
            dot == last_index(filename@.take(it.index()), '.'),
            -1 <= slash < it.index(),
            -1 <= dot < it.index(),
            at_start == (slash == it.index() - 1),
            has_extension == (dot > slash + 1),
            has_extension ==> text@ == filename@.subrange(dot + 1, it.index()),
    {
        let ghost k = it.index();
        proof {
            assert(filename@.take(k + 1).drop_last() == filename@.take(k));
            assert(filename@.take(k + 1).last() == c);
        }
        if c == '/' {
            has_extension = false;
            at_start = true;
            proof {
                slash = k;
            }
        } else if c == '.' {
            if !at_start {
                has_extension = true;
                text = String::new();
            }
            at_start = false;
            proof {
                dot = k;
                if has_extension {
                    assert(text@ == filename@.subrange(dot + 1, k + 1));
                }
            }
        } else {
            if has_extension {
                push_char(&mut text, c);
                assert(text@ == filename@.subrange(dot + 1, k + 1));
            }
            at_start = false;
        }
    }
    proof {
        assert(filename@.take(filename@.len() as int) == filename@);
    }
    if has_extension {
        Some(text)
    } else {
        None
    }
}

impl Format {
    /// Tells the format of a file by the extension of its name: `json`,
    /// `ron`, `toml`, and `yaml` or `yml`.
    pub fn from_filename(filename: &str) -> (res: Result<Format, GenerationError>)
        ensures
            match res {
                Ok(format) => format_of_filename(filename@) == Ok::<Format, GenerationErrorModel>(format),
                Err(error) => format_of_filename(filename@) == Err::<Format, GenerationErrorModel>(error@),
            },
    {
        match file_extension(filename) {
            Some(found) => {
                if found == "json".to_owned() {
                    Ok(Format::Json)
                } else if found == "ron".to_owned() {
                    Ok(Format::Ron)
                } else if found == "toml".to_owned() {
                    Ok(Format::Toml)
                } else if found == "yaml".to_owned() || found == "yml".to_owned() {
                    Ok(Format::Yaml)
                } else {
                    Err(GenerationError::UnknownInputFormat(found))
                }
            },
            None => Err(GenerationError::UnknownInputFormat("<none>".to_owned())),
        }
    }
}

} // verus!
