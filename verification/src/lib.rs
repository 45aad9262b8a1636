//! Look up the history of a function through the commits of a git repository,
//! and filter what was found by commit, date, file, language and by
//! language-specific properties of the functions.
use vstd::prelude::*;

pub mod backend;
pub mod cli;
pub mod filters;
pub mod grep;
pub mod history;
pub mod languages;
pub mod new_types;
pub mod regex_search;
pub mod terminal;
pub mod text;
pub mod things;
pub mod types;

use filters::InstantiatedFilterType;

verus! {

/// Filters that select which files are searched.
/// The path separator is `/`.
#[derive(Debug, Clone, PartialEq, Eq)]
pub enum FileFilterType {
    /// When you have a absolute path to a file.
    Absolute(String),
    /// When you have a relative path to a file and or want to find look in all files match a name (aka `ends_with`).
    Relative(String),
    /// When you want to filter only files in a specific directory
    Directory(String),
    /// When you don't know the path to a file.
    NoFilter,
}

/// The filters that select commits, files or functions of a lookup.
pub enum Filter {
    /// When you want to filter by a commit hash.
    CommitHash(String),
    /// When you want to filter by a specific date (in rfc2822 format).
    Date(String),
    /// When you want to filter from one date to another date (both in rfc2822 format).
    DateRange(String, String),
    /// When you have a absolute path to a file.
    FileAbsolute(String),
    /// When you have a relative path to a file and or want to find look in all files match a name.
    FileRelative(String),
    /// When you want to filter only files in a specific directory
    Directory(String),
    /// when you want to filter by a any commit author name that contains a specific string
    Author(String),
    /// when you want to filter by a any commit author email that contains a specific string
    AuthorEmail(String),
    /// when you want to filter by a a commit message that contains a specific string
    Message(String),
    /// when you want to filter by a filter of the function finder (for
    /// every language, or with a version for each of some languages)
    PLFilter(InstantiatedFilterType),
    /// when you want to filter to only have files that are in a specific language
    Language(String),
    /// When you want only the functions that lie within the given lines.
    FunctionInLines(usize, usize),
    /// When you want to filter by nothing.
    NoFilter,
}

} // verus!
