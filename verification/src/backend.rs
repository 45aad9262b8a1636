//! The commands the front ends send to the worker, what the worker answers,
//! and how it decides the answer to each command.
use vstd::prelude::*;

use crate::grep::SupportedLanguage;
use crate::history::{get_function_history, CommitData};
use crate::text::{clone_string, clone_strings, decimal, push_decimal, push_str, string_of, views};
use crate::types::{date_text, date_to_rfc2822, CommitDate, ErrorReason, FunctionHistory};
use crate::{FileFilterType, Filter};

verus! {

/// The kinds of command.
#[derive(Debug, Clone, Copy, PartialEq, Eq, Structural)]
pub enum Command {
    /// filter a result
    Filter,
    /// list the commits or their dates
    List,
    /// look up a function
    Search,
}

/// The name a command is shown with.
pub open spec fn command_name(c: Command) -> Seq<char> {
    match c {
        Command::Filter => "filter"@,
        Command::List => "list"@,
        Command::Search => "search"@,
    }
}

impl Command {
    /// The command used when none is chosen.
    pub fn default() -> (r: Self)
        ensures
            r == Command::Search,
    {
        Command::Search
    }

    /// The name the command is shown with.
    pub fn to_string(&self) -> (r: String)
        ensures
            r@ == command_name(*self),
    {
        match self {
            Command::Filter => string_of("filter"),
            Command::List => string_of("list"),
            Command::Search => string_of("search"),
        }
    }
}

/// What can be listed.
#[derive(Debug, Clone, Copy, PartialEq, Eq, Structural)]
pub enum ListType {
    /// the dates of the commits
    Dates,
    /// the hashes of the commits
    Commits,
}

impl ListType {
    /// The list used when none is chosen.
    pub fn default() -> (r: Self)
        ensures
            r == ListType::Dates,
    {
        ListType::Dates
    }

    /// The name the list is shown with.
    pub fn to_string(&self) -> (r: String)
        ensures
            r@ == match *self {
                ListType::Dates => "dates"@,
                ListType::Commits => "commits"@,
            },
    {
        match self {
            ListType::Dates => string_of("dates"),
            ListType::Commits => string_of("commits"),
        }
    }
}

/// The result of a command.
#[derive(Debug)]
pub enum CommandResult {
    /// a function history
    History(FunctionHistory),
    /// lines of text
    String(Vec<String>),
    /// nothing yet
    Empty,
}

/// The number of lines of a text: one more than its newlines.
pub open spec fn line_count(s: Seq<char>) -> nat
    decreases s.len(),
{
    if s.len() == 0 {
        1
    } else if s.last() == '\n' {
        line_count(s.drop_last()) + 1
    } else {
        line_count(s.drop_last())
    }
}

/// The number of lines of a text, counted as `split('\n').count()` does.
fn count_lines(s: &String) -> (r: usize)
    ensures
        s@.len() < usize::MAX ==> r == line_count(s@),
        r >= 1,
{
    let v = crate::text::str_chars(s.as_str());
    let mut n: usize = 0;
    let mut i: usize = 0;
    proof {
        assert(s@.take(0) =~= seq![]);
    }
    while i < v.len()
        invariant
            i <= v.len(),
            v@ == s@,
            n + 1 == line_count(s@.take(i as int)),
            n <= i,
        decreases v.len() - i,
    {
        proof {
            assert(s@.take(i + 1).drop_last() =~= s@.take(i as int));
        }
        if v[i] == '\n' {
            n += 1;
        }
        i += 1;
    }
    proof {
        assert(s@.take(v.len() as int) =~= s@);
    }
    if n == usize::MAX {
        n
    } else {
        n + 1
    }
}

/// Lines shown one after the other, each ended by a newline.
pub open spec fn lines_shown(v: Seq<Seq<char>>) -> Seq<char>
    decreases v.len(),
{
    if v.len() == 0 {
        seq![]
    } else {
        lines_shown(v.drop_last()) + v.last() + seq!['\n']
    }
}

impl CommandResult {
    /// The number of lines of the result: the lines of a shown history, the
    /// number of strings, or none.
    pub fn len(&self) -> (r: usize)
        ensures
            match *self {
                CommandResult::String(v) => r == v@.len(),
                CommandResult::Empty => r == 0,
                CommandResult::History(h) => r >= 1 && (crate::types::history_shown(h).len() < usize::MAX
                    ==> r == line_count(crate::types::history_shown(h))),
            },
    {
        match self {
            CommandResult::History(h) => count_lines(&h.to_string()),
            CommandResult::String(v) => v.len(),
            CommandResult::Empty => 0,
        }
    }

    /// How the result is shown.
    pub fn to_string(&self) -> (r: String)
        ensures
            r@ == match *self {
                CommandResult::History(h) => crate::types::history_shown(h),
                CommandResult::String(v) => lines_shown(views(v@)),
                CommandResult::Empty => "Please enter some commands to search for a function"@,
            },
    {
        match self {
            CommandResult::History(h) => h.to_string(),
            CommandResult::String(v) => {
                let mut s = String::new();
                let mut i: usize = 0;
                while i < v.len()
                    invariant
                        i <= v.len(),
                        s@ == lines_shown(views(v@).take(i as int)),
                    decreases v.len() - i,
                {
                    assert(views(v@).take(i + 1).drop_last() =~= views(v@).take(i as int));
                    push_str(&mut s, v[i].as_str());
                    push_str(&mut s, "\n");
                    proof {
                        reveal_strlit("\n");
                    }
                    i += 1;
                }
                assert(views(v@).take(v@.len() as int) =~= views(v@));
                s
            },
            CommandResult::Empty => string_of("Please enter some commands to search for a function"),
        }
    }
}

/// The status of the last command.
#[derive(Debug)]
pub enum Status {
    /// it worked, maybe with a message
    Success(Option<String>),
    /// it failed
    Error(String),
    /// it worked, with a warning
    Warning(String),
    /// it is running
    Loading,
}

impl Status {
    /// The status used when there is none yet.
    pub fn default() -> (r: Self)
        ensures
            r matches Status::Success(m) && m is None,
    {
        Status::Success(None)
    }

    /// How the status is shown.
    pub fn to_string(&self) -> (r: String)
        ensures
            match self {
                Status::Success(Some(m)) => r@ == "Ok: "@ + m@,
                Status::Success(None) => r@ == "Ok"@,
                Status::Error(m) => r@ == "Err "@ + m@,
                Status::Warning(m) => r@ == "Warn "@ + m@,
                Status::Loading => r@ == "Loading..."@,
            },
    {
        match self {
            Status::Success(Some(m)) => {
                let mut s = string_of("Ok: ");
                push_str(&mut s, m.as_str());
                s
            },
            Status::Success(None) => string_of("Ok"),
            Status::Error(m) => {
                let mut s = string_of("Err ");
                push_str(&mut s, m.as_str());
                s
            },
            Status::Warning(m) => {
                let mut s = string_of("Warn ");
                push_str(&mut s, m.as_str());
                s
            },
            Status::Loading => string_of("Loading..."),
        }
    }
}

/// A lookup: the name of the function, the files to look in, and a filter.
pub struct SearchType {
    /// the name of the function
    pub search: String,
    /// the files to look in
    pub file: FileFilterType,
    /// the filter of the lookup
    pub filter: Filter,
}

impl SearchType {
    /// A lookup.
    pub fn new(search: String, file_filter: FileFilterType, filter: Filter) -> (r: Self)
        ensures
            r == (SearchType { search, file: file_filter, filter }),
    {
        SearchType { search, file: file_filter, filter }
    }

    /// A lookup from (name, files, filter).
    pub fn new_from_tuple(tuple: (String, FileFilterType, Filter)) -> (r: Self)
        ensures
            r == (SearchType { search: tuple.0, file: tuple.1, filter: tuple.2 }),
    {
        SearchType { search: tuple.0, file: tuple.1, filter: tuple.2 }
    }
}

/// A filter to apply to a result.
pub struct FilterType {
    /// the result to filter
    pub thing: CommandResult,
    /// the filter
    pub filter: Filter,
}

/// A command for the worker.
pub enum FullCommand {
    /// filter a result
    Filter(FilterType),
    /// list the commits or their dates
    List(ListType),
    /// look up a function
    Search(SearchType),
}

/// The filters a history can be given, by kind.
pub enum HistoryFilterType {
    /// a date
    Date(String),
    /// a range of dates
    DateRange(String, String),
    /// a commit hash
    CommitHash(String),
    /// an exact file path
    FileAbsolute(String),
    /// the end of a file path
    FileRelative(String),
    /// a directory
    Directory(String),
    /// no filter
    NoFilter,
}

impl HistoryFilterType {
    /// The name the kind of filter is shown with.
    pub fn to_string(&self) -> (r: String)
        ensures
            r@ == match *self {
                HistoryFilterType::Date(_) => "date"@,
                HistoryFilterType::DateRange(_, _) => "date range"@,
                HistoryFilterType::CommitHash(_) => "commit hash"@,
                HistoryFilterType::FileAbsolute(_) => "file absolute"@,
                HistoryFilterType::FileRelative(_) => "file relative"@,
                HistoryFilterType::Directory(_) => "directory"@,
                HistoryFilterType::NoFilter => "none"@,
            },
    {
        match self {
            HistoryFilterType::Date(_) => string_of("date"),
            HistoryFilterType::DateRange(_, _) => string_of("date range"),
            HistoryFilterType::CommitHash(_) => string_of("commit hash"),
            HistoryFilterType::FileAbsolute(_) => string_of("file absolute"),
            HistoryFilterType::FileRelative(_) => string_of("file relative"),
            HistoryFilterType::Directory(_) => string_of("directory"),
            HistoryFilterType::NoFilter => string_of("none"),
        }
    }

    /// The filter a history filter of the interface asks for: the filter of
    /// the same kind with the same text; none for no filter.
    pub fn to_filter(&self) -> (r: Option<Filter>)
        ensures
            match *self {
                HistoryFilterType::Date(d) => r matches Some(Filter::Date(x)) && x@ == d@,
                HistoryFilterType::DateRange(a, b) => r matches Some(Filter::DateRange(x, y)) && x@ == a@ && y@ == b@,
                HistoryFilterType::CommitHash(h) => r matches Some(Filter::CommitHash(x)) && x@ == h@,
                HistoryFilterType::FileAbsolute(f) => r matches Some(Filter::FileAbsolute(x)) && x@ == f@,
                HistoryFilterType::FileRelative(f) => r matches Some(Filter::FileRelative(x)) && x@ == f@,
                HistoryFilterType::Directory(d) => r matches Some(Filter::Directory(x)) && x@ == d@,
                HistoryFilterType::NoFilter => r is None,
            },
    {
        match self {
            HistoryFilterType::Date(d) => Some(Filter::Date(clone_string(d))),
            HistoryFilterType::DateRange(a, b) => Some(Filter::DateRange(clone_string(a), clone_string(b))),
            HistoryFilterType::CommitHash(h) => Some(Filter::CommitHash(clone_string(h))),
            HistoryFilterType::FileAbsolute(f) => Some(Filter::FileAbsolute(clone_string(f))),
            HistoryFilterType::FileRelative(f) => Some(Filter::FileRelative(clone_string(f))),
            HistoryFilterType::Directory(d) => Some(Filter::Directory(clone_string(d))),
            HistoryFilterType::NoFilter => None,
        }
    }
}

// ---------------------------------------------------------------- deciding the answer

/// What the repository says of one commit when commits are listed.
pub struct CommitInfo {
    /// the time of the commit, in seconds since January 1, 1970 0:00:00 UTC
    pub date: i64,
    /// the hash of the commit
    pub hash: String,
    /// the title and body of the message
    pub message: String,
    /// the name of the author
    pub author: String,
    /// the email of the author
    pub author_email: String,
}

/// How a command went, before the time it took is known.
pub enum Outcome {
    /// the commits were listed
    ListedCommits(usize),
    /// the dates of the commits were listed
    ListedDates(usize),
    /// the commits could not be read
    ListFailed(ListType, String),
    /// functions were found
    Found,
    /// the lookup failed
    SearchFailed(String),
    /// the history was filtered
    Filtered,
    /// the filter failed
    FilterFailed(String),
    /// what was given cannot be filtered
    CannotFilter,
}

/// The RFC 2822 text of the dates of commits (in UTC), in order, leaving out
/// the dates that cannot be written.
pub open spec fn dates_listed(v: Seq<CommitInfo>) -> Seq<Seq<char>>
    decreases v.len(),
{
    if v.len() == 0 {
        seq![]
    } else {
        match date_text(CommitDate { secs: v.last().date, nanos: 0, offset: 0 }) {
            Some(t) => dates_listed(v.drop_last()).push(t),
            None => dates_listed(v.drop_last()),
        }
    }
}

/// The answer to a list command, from the commits of the repository (or the
/// error reading them): their hashes, or the RFC 2822 text of their dates
/// (in UTC; a date that cannot be written is left out).
pub fn answer_list(list: ListType, info: &Result<Vec<CommitInfo>, String>) -> (r: (CommandResult, Outcome))
    ensures
        info is Err ==> r.0 is Empty && r.1 is ListFailed,
        info matches Ok(v) ==> match list {
            ListType::Commits => (r.0 matches CommandResult::String(s) && s@.len() == v@.len() && forall|i: int|
                0 <= i < s@.len() ==> (#[trigger] s@[i])@ == v@[i].hash@),
            ListType::Dates => (r.0 matches CommandResult::String(s) && views(s@) == dates_listed(v@)),
        },
{
    match info {
        Err(e) => (CommandResult::Empty, Outcome::ListFailed(list, clone_string(e))),
        Ok(v) => match list {
            ListType::Commits => {
                let mut s: Vec<String> = Vec::new();
                let mut i: usize = 0;
                while i < v.len()
                    invariant
                        i <= v.len(),
                        s@.len() == i,
                        forall|j: int| 0 <= j < i ==> (#[trigger] s@[j])@ == v@[j].hash@,
                    decreases v.len() - i,
                {
                    s.push(clone_string(&v[i].hash));
                    i += 1;
                }
                let n = s.len();
                (CommandResult::String(s), Outcome::ListedCommits(n))
            },
            ListType::Dates => {
                let mut s: Vec<String> = Vec::new();
                let mut i: usize = 0;
                while i < v.len()
                    invariant
                        i <= v.len(),
                        views(s@) == dates_listed(v@.take(i as int)),
                    decreases v.len() - i,
                {
                    assert(v@.take(i + 1).drop_last() =~= v@.take(i as int));
                    match date_to_rfc2822(CommitDate { secs: v[i].date, nanos: 0, offset: 0 }) {
                        Some(t) => crate::text::push_string(&mut s, t),
                        None => {},
                    }
                    i += 1;
                }
                assert(v@.take(v@.len() as int) =~= v@);
                let n = s.len();
                (CommandResult::String(s), Outcome::ListedDates(n))
            },
        },
    }
}

/// The answer to a lookup, from the commits of the repository.
pub fn answer_search(
    search: &SearchType,
    langs: &Vec<SupportedLanguage>,
    commits: &Vec<CommitData>,
) -> (r: (CommandResult, Outcome))
    ensures
        match r.1 {
            Outcome::Found => r.0 matches CommandResult::History(h) && crate::history::lookup_gives(
                search.search@,
                search.file,
                search.filter,
                langs@,
                commits@,
                Ok::<FunctionHistory, String>(h),
            ),
            Outcome::SearchFailed(e) => r.0 is Empty && crate::history::lookup_gives(
                search.search@,
                search.file,
                search.filter,
                langs@,
                commits@,
                Err::<FunctionHistory, String>(e),
            ),
            _ => false,
        },
{
    match get_function_history(search.search.as_str(), &search.file, &search.filter, langs, commits) {
        Ok(h) => (CommandResult::History(h), Outcome::Found),
        Err(e) => (CommandResult::Empty, Outcome::SearchFailed(e)),
    }
}

/// The answer to a filter command: a history is filtered; anything else cannot be.
pub fn answer_filter(f: &FilterType) -> (r: (CommandResult, Outcome))
    ensures
        match f.thing {
            CommandResult::History(h) => match r.1 {
                Outcome::Filtered => r.0 matches CommandResult::History(x) && crate::types::filter_gives(
                    h,
                    f.filter,
                    Ok::<FunctionHistory, ErrorReason>(x),
                ),
                Outcome::FilterFailed(m) => r.0 is Empty && crate::types::filter_gives(
                    h,
                    f.filter,
                    Err::<FunctionHistory, ErrorReason>(ErrorReason::NoHistory),
                ) && m@ == "nothing found"@,
                _ => false,
            },
            _ => r.0 is Empty && r.1 is CannotFilter,
        },
{
    match &f.thing {
        CommandResult::History(h) => match h.filter_by(&f.filter) {
            Ok(x) => (CommandResult::History(x), Outcome::Filtered),
            Err(e) => (CommandResult::Empty, Outcome::FilterFailed(e.to_string())),
        },
        _ => (CommandResult::Empty, Outcome::CannotFilter),
    }
}

/// How long a command took, as the status shows it.
pub open spec fn took_text(secs: u64) -> Seq<char> {
    " took "@ + decimal(secs as usize as nat) + "s"@
}

/// How an error in listing commits or dates starts.
pub open spec fn list_error_heading(kind: ListType) -> Seq<char> {
    match kind {
        ListType::Commits => "Error getting commits: "@,
        ListType::Dates => "Error getting dates: "@,
    }
}

/// The message of the status of a command that went as `outcome` and took `secs` seconds.
pub open spec fn status_message(outcome: Outcome, secs: u64) -> Seq<char> {
    match outcome {
        Outcome::ListedCommits(_) => "Found commits dates"@ + took_text(secs),
        Outcome::ListedDates(_) => "Found dates"@ + took_text(secs),
        Outcome::ListFailed(kind, e) => list_error_heading(kind) + e@ + took_text(secs),
        Outcome::Found => "Found functions"@ + took_text(secs),
        Outcome::SearchFailed(e) => "Error getting functions: "@ + e@ + took_text(secs),
        Outcome::Filtered => "Filtered history"@ + took_text(secs),
        Outcome::FilterFailed(e) => "Error filtering history: "@ + e@ + took_text(secs),
        Outcome::CannotFilter => "Can't filter this"@ + took_text(secs),
    }
}

/// Appends " took {secs}s".
fn push_took(s: &mut String, secs: u64)
    ensures
        final(s)@ == old(s)@ + took_text(secs),
{
    push_str(s, " took ");
    push_decimal(s, secs as usize);
    push_str(s, "s");
    assert(final(s)@ =~= old(s)@ + took_text(secs));
}

/// The status of a command that went as `outcome` and took `secs` seconds.
pub fn status_of(outcome: &Outcome, secs: u64) -> (r: Status)
    ensures
        match outcome {
            Outcome::ListedCommits(_) | Outcome::ListedDates(_) | Outcome::Found | Outcome::Filtered => r is Success,
            _ => r is Error,
        },
        match r {
            Status::Success(Some(m)) => m@ == status_message(*outcome, secs),
            Status::Error(m) => m@ == status_message(*outcome, secs),
            _ => false,
        },
{
    match outcome {
        Outcome::ListedCommits(_) => {
            let mut s = string_of("Found commits dates");
            push_took(&mut s, secs);
            Status::Success(Some(s))
        },
        Outcome::ListedDates(_) => {
            let mut s = string_of("Found dates");
            push_took(&mut s, secs);
            Status::Success(Some(s))
        },
        Outcome::ListFailed(kind, e) => {
            let mut s = match kind {
                ListType::Commits => string_of("Error getting commits: "),
                ListType::Dates => string_of("Error getting dates: "),
            };
            push_str(&mut s, e.as_str());
            push_took(&mut s, secs);
            Status::Error(s)
        },
        Outcome::Found => {
            let mut s = string_of("Found functions");
            push_took(&mut s, secs);
            Status::Success(Some(s))
        },
        Outcome::SearchFailed(e) => {
            let mut s = string_of("Error getting functions: ");
            push_str(&mut s, e.as_str());
            push_took(&mut s, secs);
            Status::Error(s)
        },
        Outcome::Filtered => {
            let mut s = string_of("Filtered history");
            push_took(&mut s, secs);
            Status::Success(Some(s))
        },
        Outcome::FilterFailed(e) => {
            let mut s = string_of("Error filtering history: ");
            push_str(&mut s, e.as_str());
            push_took(&mut s, secs);
            Status::Error(s)
        },
        Outcome::CannotFilter => {
            let mut s = string_of("Can't filter this");
            push_took(&mut s, secs);
            Status::Error(s)
        },
    }
}

} // verus!
