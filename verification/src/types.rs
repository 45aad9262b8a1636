//! Commits and whole function histories, the dates of commits, and the ways
//! to move through and filter them.
use vstd::prelude::*;

use chrono::Datelike;

use crate::grep::{FoundRange, ParsedFile};
use crate::text::{clone_string, contains_seq, ends_with, string_of};
use crate::filters::{FilterFunction, FilterSpec, InstantiatedFilter, InstantiatedFilterType, Language, SingleOrMany};
use crate::Filter;

verus! {

/// Why a filter gave nothing back.
#[derive(Debug)]
pub enum ErrorReason {
    /// nothing was found
    NoHistory,
    /// any other reason
    Other(String),
}

impl ErrorReason {
    /// How the reason is shown.
    pub fn to_string(&self) -> (r: String)
        ensures
            match self {
                ErrorReason::NoHistory => r@ == "nothing found"@,
                ErrorReason::Other(o) => r@ == o@,
            },
    {
        match self {
            ErrorReason::NoHistory => string_of("nothing found"),
            ErrorReason::Other(o) => clone_string(o),
        }
    }
}

/// A point in time with the offset from UTC it was given in.
#[derive(Debug, Clone, Copy, PartialEq, Eq, Structural)]
pub struct CommitDate {
    /// seconds since January 1, 1970 0:00:00 UTC
    pub secs: i64,
    /// nanoseconds past the second
    pub nanos: u32,
    /// the offset from UTC, in seconds (east is positive)
    pub offset: i32,
}

/// The date an RFC 2822 text stands for, as chrono parses it.
pub uninterp spec fn rfc2822_parse(s: Seq<char>) -> Option<CommitDate>;

/// The year of a date in its own offset, as chrono computes it, when the
/// date can be represented.
pub uninterp spec fn date_year_of(d: CommitDate) -> Option<i32>;

/// The RFC 2822 text of a date, as chrono writes it.
pub uninterp spec fn rfc2822_text(d: CommitDate) -> Option<Seq<char>>;

/// `DateTime::parse_from_rfc2822`: the date a text stands for, or the parse
/// error as text.
#[verifier::external_body]
fn parse_rfc2822(s: &str) -> (r: Result<CommitDate, String>)
    ensures
        r is Ok <==> rfc2822_parse(s@) is Some,
        r matches Ok(d) ==> rfc2822_parse(s@) == Some(d),
{
    let d = chrono::DateTime::parse_from_rfc2822(s).map_err(|e| e.to_string())?;
    Ok(CommitDate { secs: d.timestamp(), nanos: d.timestamp_subsec_nanos(), offset: d.offset().local_minus_utc() })
}

/// The year of a date in its own offset (`FixedOffset::east_opt`,
/// `timestamp_opt(..).single()`, `year()`); nothing when the offset or the
/// time is out of range.
#[verifier::external_body]
fn date_year(d: CommitDate) -> (r: Option<i32>)
    ensures
        r == date_year_of(d),
{
    let off = chrono::FixedOffset::east_opt(d.offset)?;
    let dt = chrono::TimeZone::timestamp_opt(&off, d.secs, d.nanos).single()?;
    Some(dt.year())
}

/// `DateTime::to_rfc2822` of a date; nothing when the offset or the time is
/// out of range. chrono panics for a year below 0 or above 9999, so the
/// year must lie between them.
#[verifier::external_body]
fn format_rfc2822(d: CommitDate) -> (r: Option<String>)
    requires
        date_year_of(d) matches Some(y) && 0 <= y <= 9999,
    ensures
        match (r, rfc2822_text(d)) {
            (Some(x), Some(t)) => x@ == t,
            (None, None) => true,
            _ => false,
        },
{
    let off = chrono::FixedOffset::east_opt(d.offset)?;
    let dt = chrono::TimeZone::timestamp_opt(&off, d.secs, d.nanos).single()?;
    Some(dt.to_rfc2822())
}

/// The RFC 2822 text of a date, when it can be written.
pub open spec fn date_text(d: CommitDate) -> Option<Seq<char>> {
    match date_year_of(d) {
        Some(y) => if 0 <= y <= 9999 {
            rfc2822_text(d)
        } else {
            None
        },
        None => None,
    }
}

/// The RFC 2822 text of a date, when it can be written.
pub fn date_to_rfc2822(d: CommitDate) -> (r: Option<String>)
    ensures
        match (r, date_text(d)) {
            (Some(x), Some(t)) => x@ == t,
            (None, None) => true,
            _ => false,
        },
{
    match date_year(d) {
        Some(y) => if 0 <= y && y <= 9999 {
            format_rfc2822(d)
        } else {
            None
        },
        None => None,
    }
}

/// Whether `a` is at or after `b` (as instants).
pub open spec fn not_before(a: CommitDate, b: CommitDate) -> bool {
    a.secs > b.secs || (a.secs == b.secs && a.nanos >= b.nanos)
}

/// Options returned when you use `get_move_direction`
/// It tells you which way you could move through the commits or files
#[derive(Debug, Clone, Copy, PartialEq, Eq, Structural)]
pub enum Directions {
    /// You can only move forward
    Forward,
    /// You can only move back
    Back,
    /// You can't move in any direction
    Neither,
    /// You can move in both directions
    Both,
}

/// The way one can move from `pos` among `len` items.
pub open spec fn direction(pos: nat, len: nat) -> Directions {
    if pos == 0 && len == 1 {
        Directions::Neither
    } else if pos == 0 {
        Directions::Forward
    } else if pos == len - 1 {
        Directions::Back
    } else {
        Directions::Both
    }
}

/// The way one can move from `pos` among `len` items.
pub(crate) fn move_direction(pos: usize, len: usize) -> (r: Directions)
    ensures
        r == direction(pos as nat, len as nat),
{
    if pos == 0 && len == 1 {
        Directions::Neither
    } else if pos == 0 {
        Directions::Forward
    } else if len > 0 && pos == len - 1 {
        Directions::Back
    } else {
        Directions::Both
    }
}

/// This holds information like date and commit `commit_hash` and also the list of function found in the commit.
#[derive(Debug)]
pub struct Commit {
    commit_hash: String,
    files: Vec<ParsedFile>,
    date: CommitDate,
    current_iter_pos: usize,
    current_pos: usize,
    author: String,
    email: String,
    message: String,
}

impl Commit {
    /// The hash of the commit.
    pub closed spec fn hash(&self) -> Seq<char> {
        self.commit_hash@
    }

    /// The files of the commit.
    pub closed spec fn file_list(&self) -> Seq<ParsedFile> {
        self.files@
    }

    /// The date of the commit.
    pub closed spec fn date_spec(&self) -> CommitDate {
        self.date
    }

    /// The file the commit is at.
    pub closed spec fn pos(&self) -> nat {
        self.current_pos as nat
    }

    /// The author of the commit.
    pub closed spec fn author_spec(&self) -> Seq<char> {
        self.author@
    }

    /// The email of the author of the commit.
    pub closed spec fn email_spec(&self) -> Seq<char> {
        self.email@
    }

    /// The message of the commit.
    pub closed spec fn message_spec(&self) -> Seq<char> {
        self.message@
    }

    /// The commit is at one of its files, or has none.
    pub open spec fn wf(&self) -> bool {
        self.pos() < self.file_list().len() || self.pos() == 0
    }

    /// Create a new `Commit` with the given `commit_hash`, files, and date.
    ///
    /// # Errors
    ///
    /// will return `Err` if it cannot parse the date provided.
    pub fn new(
        commit_hash: &str,
        files: Vec<ParsedFile>,
        date: &str,
        author: &str,
        email: &str,
        message: &str,
    ) -> (r: Result<Self, String>)
        ensures
            r is Ok <==> rfc2822_parse(date@) is Some,
            r matches Ok(c) ==> c.wf() && c.hash() == commit_hash@ && c.file_list() == files@
                && Some(c.date_spec()) == rfc2822_parse(date@) && c.pos() == 0 && c.author_spec()
                == author@ && c.email_spec() == email@ && c.message_spec() == message@,
    {
        let date = match parse_rfc2822(date) {
            Ok(d) => d,
            Err(e) => return Err(e),
        };
        Ok(
            Commit {
                commit_hash: string_of(commit_hash),
                files,
                date,
                current_pos: 0,
                current_iter_pos: 0,
                author: string_of(author),
                email: string_of(email),
                message: string_of(message),
            },
        )
    }

    /// sets the current file to the next file if possible
    pub fn move_forward(&mut self)
        requires
            old(self).wf(),
            old(self).file_list().len() > 0,
        ensures
            final(self).wf(),
            final(self).file_list() == old(self).file_list(),
            final(self).hash() == old(self).hash(),
            final(self).date_spec() == old(self).date_spec(),
            final(self).author_spec() == old(self).author_spec(),
            final(self).email_spec() == old(self).email_spec(),
            final(self).message_spec() == old(self).message_spec(),
            final(self).pos() == if old(self).pos() + 1 < old(self).file_list().len() {
                old(self).pos() + 1
            } else {
                old(self).pos()
            },
    {
        if self.current_pos >= self.files.len() - 1 {
            return;
        }
        self.current_pos += 1;
    }

    /// sets the current file to the previous file if possible
    pub fn move_back(&mut self)
        requires
            old(self).wf(),
        ensures
            final(self).wf(),
            final(self).file_list() == old(self).file_list(),
            final(self).hash() == old(self).hash(),
            final(self).date_spec() == old(self).date_spec(),
            final(self).author_spec() == old(self).author_spec(),
            final(self).email_spec() == old(self).email_spec(),
            final(self).message_spec() == old(self).message_spec(),
            final(self).pos() == if old(self).pos() > 0 {
                old(self).pos() - 1
            } else {
                0
            },
    {
        if self.current_pos == 0 {
            return;
        }
        self.current_pos -= 1;
    }

    /// returns the current file
    pub fn get_file(&self) -> (r: Option<&ParsedFile>)
        ensures
            self.pos() < self.file_list().len() ==> r == Some(&self.file_list()[self.pos() as int]),
            self.pos() >= self.file_list().len() ==> r is None,
    {
        if self.current_pos < self.files.len() {
            Some(&self.files[self.current_pos])
        } else {
            None
        }
    }

    /// tells you in which directions you can move through the files in the commit
    pub fn get_move_direction(&self) -> (r: Directions)
        ensures
            r == direction(self.pos(), self.file_list().len()),
    {
        move_direction(self.current_pos, self.files.len())
    }

    /// A copy of the commit, at its first file.
    fn copy_with_files(&self, files: Vec<ParsedFile>) -> (r: Commit)
        ensures
            r.hash() == self.hash(),
            r.file_list() == files@,
            r.date_spec() == self.date_spec(),
            r.author_spec() == self.author_spec(),
            r.email_spec() == self.email_spec(),
            r.message_spec() == self.message_spec(),
            r.pos() == 0,
            r.wf(),
    {
        Commit {
            commit_hash: clone_string(&self.commit_hash),
            files,
            date: self.date,
            current_pos: 0,
            current_iter_pos: 0,
            author: clone_string(&self.author),
            email: clone_string(&self.email),
            message: clone_string(&self.message),
        }
    }

    /// A copy of the commit, at its first file.
    pub fn duplicate(&self) -> (r: Commit)
        ensures
            r.hash() == self.hash(),
            r.file_list().len() == self.file_list().len(),
            forall|k: int| 0 <= k < r.file_list().len() ==> same_parsed(#[trigger] r.file_list()[k], self.file_list()[k]),
            r.date_spec() == self.date_spec(),
            r.author_spec() == self.author_spec(),
            r.email_spec() == self.email_spec(),
            r.message_spec() == self.message_spec(),
            r.pos() == 0,
            r.wf(),
    {
        let mut files: Vec<ParsedFile> = Vec::new();
        let mut i: usize = 0;
        while i < self.files.len()
            invariant
                i <= self.files.len(),
                files@.len() == i,
                forall|k: int| 0 <= k < i ==> same_parsed(#[trigger] files@[k], self.files@[k]),
            decreases self.files.len() - i,
        {
            files.push(self.files[i].duplicate());
            i += 1;
        }
        self.copy_with_files(files)
    }

    /// Whether a filter applies to the files of a commit.
    pub open spec fn is_file_filter(filter: Filter) -> bool {
        match filter {
            Filter::FileAbsolute(_) | Filter::FileRelative(_) | Filter::Directory(_)
            | Filter::PLFilter(_) | Filter::Language(_) | Filter::FunctionInLines(_, _)
            | Filter::NoFilter => true,
            _ => false,
        }
    }

    /// returns a new `Commit` by filtering the current one by the filter
    /// specified (does not modify the current one): a file is kept when its
    /// name is the given one, ends with it, or contains the directory; when
    /// its language is the given one; or, of its functions, those within the
    /// given lines are kept; with no filter every file is kept; with a
    /// filter of the function finder, the functions of the file that the
    /// version of the filter for its language keeps (see `ParsedFile::filter`).
    ///
    /// # Errors
    ///
    /// Will result in an `Err` if a non-valid filter is given, or if no results are found for the given filter
    pub fn filter_by(&self, filter: &Filter) -> (r: Result<Self, ErrorReason>)
        ensures
            commit_filter_gives(*self, *filter, r),
            r matches Ok(c) ==> forall|i: int|
                0 <= i < c.file_list().len() ==> file_kept(*filter, #[trigger] c.file_list()[i]),
    {
        if !is_file_filter_exec(filter) {
            return Err(ErrorReason::Other(string_of("Invalid filter")));
        }
        let mut kept: Vec<ParsedFile> = Vec::new();
        let mut i: usize = 0;
        while i < self.files.len()
            invariant
                i <= self.files.len(),
                kept@.len() == files_filtered(*filter, self.files@.take(i as int)).len(),
                forall|j: int| 0 <= j < kept@.len() ==> file_kept(*filter, #[trigger] kept@[j]),
                forall|j: int| 0 <= j < kept@.len() ==> file_filtered(
                    *filter,
                    self.files@[files_filtered(*filter, self.files@.take(i as int))[j]],
                    #[trigger] kept@[j],
                ),
                forall|j: int| 0 <= j < files_filtered(*filter, self.files@.take(i as int)).len() ==> 0
                    <= #[trigger] files_filtered(*filter, self.files@.take(i as int))[j] < i,
            decreases self.files.len() - i,
        {
            let ghost before = kept@;
            let ghost t = self.files@.take(i + 1);
            let ghost old_idx = files_filtered(*filter, self.files@.take(i as int));
            assert(t.drop_last() =~= self.files@.take(i as int));
            assert(t.last() == self.files@[i as int]);
            match filter_file(&self.files[i], filter) {
                Some(f) => {
                    kept.push(f);
                    proof {
                        let new_idx = files_filtered(*filter, t);
                        assert(new_idx == old_idx + seq![i as int]);
                        assert forall|j: int| 0 <= j < kept@.len() implies file_filtered(
                            *filter,
                            self.files@[new_idx[j]],
                            #[trigger] kept@[j],
                        ) by {
                            if j < before.len() {
                                assert(kept@[j] == before[j]);
                                assert(new_idx[j] == old_idx[j]);
                            }
                        }
                        assert forall|j: int| 0 <= j < new_idx.len() implies 0 <= #[trigger] new_idx[j] < i + 1 by {
                            if j < old_idx.len() {
                                assert(new_idx[j] == old_idx[j]);
                            }
                        }
                    }
                },
                None => {
                    assert(files_filtered(*filter, t) =~= old_idx);
                },
            }
            i += 1;
        }
        assert(self.files@.take(self.files@.len() as int) =~= self.files@);
        if kept.len() == 0 {
            return Err(ErrorReason::Other(string_of("No files found for filter")));
        }
        Ok(self.copy_with_files(kept))
    }

    /// How the commit is shown: its current file, and a newline; nothing
    /// when it has no current file.
    pub fn to_string(&self) -> (r: Option<String>)
        ensures
            self.pos() < self.file_list().len() ==> (r matches Some(x) && x@ == crate::grep::parsed_shown(
                self.file_list()[self.pos() as int].code(),
                self.file_list()[self.pos() as int].found(),
            ) + seq!['\n']),
            self.pos() >= self.file_list().len() ==> r is None,
    {
        if self.current_pos < self.files.len() {
            let mut s = self.files[self.current_pos].to_string();
            crate::text::push_char(&mut s, '\n');
            Some(s)
        } else {
            None
        }
    }
}

/// Whether a filter applies to the files of a commit (executable).
fn is_file_filter_exec(filter: &Filter) -> (r: bool)
    ensures
        r == Commit::is_file_filter(*filter),
{
    match filter {
        Filter::FileAbsolute(_) | Filter::FileRelative(_) | Filter::Directory(_)
        | Filter::PLFilter(_) | Filter::Language(_) | Filter::FunctionInLines(_, _)
        | Filter::NoFilter => true,
        _ => false,
    }
}

/// Whether two searched files hold the same values.
pub open spec fn same_parsed(a: ParsedFile, b: ParsedFile) -> bool {
    a.code() == b.code() && a.name_of_file() == b.name_of_file() && a.searched() == b.searched()
        && a.language_name() == b.language_name() && a.found() == b.found()
}

/// What a filter keeps of a file: the ranges of the functions left, when it
/// keeps the file.
pub open spec fn filtered_found(filter: Filter, f: ParsedFile) -> Option<Seq<FoundRange>> {
    match filter {
        Filter::FileAbsolute(n) => if f.name_of_file() == Some(n@) {
            Some(f.found())
        } else {
            None
        },
        Filter::FileRelative(n) => if f.name_of_file() matches Some(x) && ends_with(x, n@) {
            Some(f.found())
        } else {
            None
        },
        Filter::Directory(d) => if f.name_of_file() matches Some(x) && contains_seq(x, d@) {
            Some(f.found())
        } else {
            None
        },
        Filter::Language(l) => if f.language_name() == l@ {
            Some(f.found())
        } else {
            None
        },
        Filter::FunctionInLines(a, b) => {
            let v = f.found().filter(|x: FoundRange| x.start_row >= a && x.end_row <= b);
            if v.len() > 0 {
                Some(v)
            } else {
                None
            }
        },
        Filter::NoFilter => Some(f.found()),
        Filter::PLFilter(flt) => match chosen_filter(flt, f.language_name()) {
            Some(spec) => crate::grep::file_filter_result(f.code(), f.found(), spec),
            None => None,
        },
        _ => None,
    }
}

/// Whether `x` is what a filter keeps of the file `f`.
pub open spec fn file_filtered(filter: Filter, f: ParsedFile, x: ParsedFile) -> bool {
    filtered_found(filter, f) == Some(x.found()) && x.code() == f.code() && x.name_of_file() == f.name_of_file()
        && x.searched() == f.searched() && x.language_name() == f.language_name()
}

/// What a file kept by a filter satisfies.
pub open spec fn file_kept(filter: Filter, f: ParsedFile) -> bool {
    match filter {
        Filter::FileAbsolute(n) => f.name_of_file() == Some(n@),
        Filter::FileRelative(n) => f.name_of_file() matches Some(x) && ends_with(x, n@),
        Filter::Directory(d) => f.name_of_file() matches Some(x) && contains_seq(x, d@),
        Filter::Language(l) => f.language_name() == l@,
        Filter::FunctionInLines(a, b) => f.found().len() > 0 && forall|i: int|
            0 <= i < f.found().len() ==> (#[trigger] f.found()[i]).start_row >= a
                && f.found()[i].end_row <= b,
        Filter::NoFilter => true,
        Filter::PLFilter(_) => f.found().len() > 0,
        _ => false,
    }
}

/// The version of a filter of the function finder for a language: the one
/// for every language, or the first whose language name is the given one,
/// ignoring ASCII case.
pub open spec fn chosen_filter(flt: InstantiatedFilterType, lang: Seq<char>) -> Option<FilterSpec> {
    match flt {
        SingleOrMany::All(a) => Some(a.function_spec()),
        SingleOrMany::Many(m) => language_version(m.filters@, lang, 0),
    }
}

/// The first version, from position `i` on, whose language name is the
/// given one, ignoring ASCII case.
pub open spec fn language_version(
    filters: Seq<(String, InstantiatedFilter<Language>)>,
    lang: Seq<char>,
    i: int,
) -> Option<FilterSpec>
    decreases filters.len() - i,
{
    if i < 0 || i >= filters.len() {
        None
    } else if crate::history::eq_ignore_ascii_case(filters[i].0@, lang) {
        Some(filters[i].1.function_spec())
    } else {
        language_version(filters, lang, i + 1)
    }
}

/// The version of a filter of the function finder for a language (executable).
fn choose_filter<'a>(flt: &'a InstantiatedFilterType, lang: &str) -> (r: Option<&'a FilterFunction>)
    ensures
        match chosen_filter(*flt, lang@) {
            Some(s) => r matches Some(x) && x@ == s,
            None => r is None,
        },
{
    match flt {
        SingleOrMany::All(a) => Some(a.function()),
        SingleOrMany::Many(m) => {
            let mut i: usize = 0;
            while i < m.filters.len()
                invariant
                    i <= m.filters@.len(),
                    language_version(m.filters@, lang@, 0) == language_version(m.filters@, lang@, i as int),
                    chosen_filter(*flt, lang@) == language_version(m.filters@, lang@, 0),
                decreases m.filters.len() - i,
            {
                if crate::history::str_eq_ignore_ascii_case(m.filters[i].0.as_str(), lang) {
                    return Some(m.filters[i].1.function());
                }
                i += 1;
            }
            None
        },
    }
}

/// The positions of the files a filter keeps, in order.
pub open spec fn files_filtered(filter: Filter, files: Seq<ParsedFile>) -> Seq<int>
    decreases files.len(),
{
    if files.len() == 0 {
        seq![]
    } else {
        files_filtered(filter, files.drop_last()) + if filtered_found(filter, files.last()) is Some {
            seq![files.len() - 1]
        } else {
            seq![]
        }
    }
}

/// Whether `c` is the commit `o` with the files the filter keeps of it.
pub open spec fn files_after(filter: Filter, o: Commit, c: Commit) -> bool {
    let kept = files_filtered(filter, o.file_list());
    &&& c.hash() == o.hash()
    &&& c.date_spec() == o.date_spec()
    &&& c.author_spec() == o.author_spec()
    &&& c.email_spec() == o.email_spec()
    &&& c.message_spec() == o.message_spec()
    &&& c.pos() == 0
    &&& c.wf()
    &&& c.file_list().len() == kept.len()
    &&& forall|k: int| 0 <= k < kept.len() ==> file_filtered(filter, o.file_list()[kept[k]], #[trigger] c.file_list()[k])
}

/// The file a filter keeps of a file, if any.
fn filter_file(f: &ParsedFile, filter: &Filter) -> (r: Option<ParsedFile>)
    ensures
        r matches Some(x) ==> file_kept(*filter, x),
        match r {
            Some(x) => file_filtered(*filter, *f, x),
            None => filtered_found(*filter, *f) is None,
        },
{
    match filter {
        Filter::FileAbsolute(n) => match f.file_name() {
            Some(x) => if crate::languages::str_eq(x.as_str(), n.as_str()) {
                Some(f.duplicate())
            } else {
                None
            },
            None => None,
        },
        Filter::FileRelative(n) => match f.file_name() {
            Some(x) => if crate::text::str_ends_with(x.as_str(), n.as_str()) {
                Some(f.duplicate())
            } else {
                None
            },
            None => None,
        },
        Filter::Directory(d) => match f.file_name() {
            Some(x) => if crate::text::str_contains(x.as_str(), d.as_str()) {
                Some(f.duplicate())
            } else {
                None
            },
            None => None,
        },
        Filter::Language(l) => {
            let lang = f.language();
            if crate::languages::str_eq(lang.as_str(), l.as_str()) {
                Some(f.duplicate())
            } else {
                None
            }
        },
        Filter::NoFilter => Some(f.duplicate()),
        Filter::PLFilter(flt) => {
            let lang = f.language();
            match choose_filter(flt, lang.as_str()) {
                Some(func) => match f.filter(func) {
                    Ok(x) => Some(x),
                    Err(_) => None,
                },
                None => None,
            }
        },
        Filter::FunctionInLines(a, b) => match f.filter_in_rows(*a, *b) {
            Ok(x) => {
                proof {
                    assert forall|i: int| 0 <= i < x.found().len() implies (
                    #[trigger] x.found()[i]).start_row >= *a && x.found()[i].end_row <= *b by {
                        let p = |y: crate::grep::FoundRange| y.start_row >= *a && y.end_row <= *b;
                        f.found().lemma_filter_pred(p, i);
                    }
                }
                Some(x)
            },
            Err(_) => None,
        },
        _ => None,
    }
}


/// This struct holds the a list of commits and the function that were looked up for each commit.
#[derive(Debug)]
pub struct FunctionHistory {
    name: String,
    commit_history: Vec<Commit>,
    current_iter_pos: usize,
    current_pos: usize,
}

impl FunctionHistory {
    /// The name that was looked up.
    pub closed spec fn name_spec(&self) -> Seq<char> {
        self.name@
    }

    /// The commits of the history.
    pub closed spec fn commits(&self) -> Seq<Commit> {
        self.commit_history@
    }

    /// The commit the history is at.
    pub closed spec fn pos(&self) -> nat {
        self.current_pos as nat
    }

    /// The history is at one of its commits (or has none), and each commit
    /// is at one of its files.
    pub open spec fn wf(&self) -> bool {
        &&& (self.pos() < self.commits().len() || self.pos() == 0)
        &&& forall|i: int| 0 <= i < self.commits().len() ==> (#[trigger] self.commits()[i]).wf()
    }

    /// creates a new `FunctionHistory` from a list of commits
    pub fn new(name: String, commit_history: Vec<Commit>) -> (r: Self)
        ensures
            r.name_spec() == name@,
            r.commits() == commit_history@,
            r.pos() == 0,
            (forall|i: int| 0 <= i < commit_history@.len() ==> (#[trigger] commit_history@[i]).wf())
                ==> r.wf(),
    {
        FunctionHistory { name, commit_history, current_iter_pos: 0, current_pos: 0 }
    }

    /// This will return a vector of all the commit hashess in the history.
    pub fn list_commit_hashes(&self) -> (r: Vec<String>)
        ensures
            r@.len() == self.commits().len(),
            forall|i: int| 0 <= i < r@.len() ==> (#[trigger] r@[i])@ == self.commits()[i].hash(),
    {
        let mut r: Vec<String> = Vec::new();
        let mut i: usize = 0;
        while i < self.commit_history.len()
            invariant
                i <= self.commit_history.len(),
                r@.len() == i,
                forall|j: int| 0 <= j < i ==> (#[trigger] r@[j])@ == self.commit_history@[j].hash(),
            decreases self.commit_history.len() - i,
        {
            r.push(clone_string(&self.commit_history[i].commit_hash));
            i += 1;
        }
        r
    }

    /// Puts the commit at `pos` back at its first file.
    fn reset_commit(&mut self, pos: usize)
        requires
            pos < old(self).commit_history@.len(),
            forall|i: int| 0 <= i < old(self).commit_history@.len() ==> (#[trigger] old(self).commit_history@[i]).wf(),
        ensures
            final(self).name == old(self).name,
            final(self).current_pos == old(self).current_pos,
            final(self).commit_history@.len() == old(self).commit_history@.len(),
            forall|i: int| 0 <= i < final(self).commit_history@.len() ==> (#[trigger] final(self).commit_history@[i]).wf(),
            forall|i: int| 0 <= i < final(self).commit_history@.len() ==> final(self).commit_history@[i].hash() == (#[trigger] old(self).commit_history@[i]).hash(),
            forall|i: int| 0 <= i < final(self).commit_history@.len() && i != pos ==> final(self).commit_history@[i] == (#[trigger] old(self).commit_history@[i]),
            final(self).commit_history@[pos as int].pos() == 0,
            final(self).commit_history@[pos as int].file_list() == old(self).commit_history@[pos as int].file_list(),
            forall|i: int| 0 <= i < final(self).commit_history@.len() ==> same_commit_info(
                #[trigger] final(self).commit_history@[i],
                old(self).commit_history@[i],
            ),
    {
        let mut c = self.commit_history.remove(pos);
        c.current_pos = 0;
        c.current_iter_pos = 0;
        self.commit_history.insert(pos, c);
        proof {
            assert forall|i: int| 0 <= i < self.commit_history@.len() && i != pos implies self.commit_history@[i] == old(self).commit_history@[i] by {}
        }
    }

    /// this will move to the next commit if possible: `None` when it is at the last one
    pub fn move_forward(&mut self) -> (r: Option<()>)
        requires
            old(self).wf(),
            old(self).commits().len() > 0,
        ensures
            forward_gives(*old(self), *final(self), r),
    {
        if self.current_pos >= self.commit_history.len() - 1 {
            return None;
        }
        self.current_pos += 1;
        let pos = self.current_pos;
        self.reset_commit(pos);
        Some(())
    }

    /// this will move to the previous commit if possible: `None` when it is at the first one
    pub fn move_back(&mut self) -> (r: Option<()>)
        requires
            old(self).wf(),
        ensures
            back_gives(*old(self), *final(self), r),
    {
        if self.current_pos == 0 {
            return None;
        }
        self.current_pos -= 1;
        let pos = self.current_pos;
        self.reset_commit(pos);
        Some(())
    }

    /// this will move to the next file in the current commit if possible
    pub fn move_forward_file(&mut self)
        requires
            old(self).wf(),
        ensures
            final(self).wf(),
            final(self).pos() == old(self).pos(),
            final(self).commits().len() == old(self).commits().len(),
            final(self).name_spec() == old(self).name_spec(),
            forall|i: int| 0 <= i < old(self).commits().len() && i != old(self).pos() ==> final(self).commits()[i]
                == old(self).commits()[i],
            old(self).pos() < old(self).commits().len() ==> {
                let (c, d) = (old(self).commits()[old(self).pos() as int], final(self).commits()[old(self).pos() as int]);
                &&& d.file_list() == c.file_list()
                &&& d.hash() == c.hash()
                &&& d.date_spec() == c.date_spec()
                &&& d.author_spec() == c.author_spec()
                &&& d.email_spec() == c.email_spec()
                &&& d.message_spec() == c.message_spec()
                &&& d.pos() == if c.pos() + 1 < c.file_list().len() { c.pos() + 1 } else { c.pos() }
            },
    {
        if self.current_pos < self.commit_history.len() {
            let pos = self.current_pos;
            let mut c = self.commit_history.remove(pos);
            if c.files.len() > 0 {
                c.move_forward();
            }
            self.commit_history.insert(pos, c);
        }
    }

    /// this will move to the previous file in the current commit if possible
    pub fn move_back_file(&mut self)
        requires
            old(self).wf(),
        ensures
            final(self).wf(),
            final(self).pos() == old(self).pos(),
            final(self).commits().len() == old(self).commits().len(),
            final(self).name_spec() == old(self).name_spec(),
            forall|i: int| 0 <= i < old(self).commits().len() && i != old(self).pos() ==> final(self).commits()[i]
                == old(self).commits()[i],
            old(self).pos() < old(self).commits().len() ==> {
                let (c, d) = (old(self).commits()[old(self).pos() as int], final(self).commits()[old(self).pos() as int]);
                &&& d.file_list() == c.file_list()
                &&& d.hash() == c.hash()
                &&& d.date_spec() == c.date_spec()
                &&& d.author_spec() == c.author_spec()
                &&& d.email_spec() == c.email_spec()
                &&& d.message_spec() == c.message_spec()
                &&& d.pos() == if c.pos() > 0 { (c.pos() - 1) as nat } else { c.pos() }
            },
    {
        if self.current_pos < self.commit_history.len() {
            let pos = self.current_pos;
            let mut c = self.commit_history.remove(pos);
            c.move_back();
            self.commit_history.insert(pos, c);
        }
    }

    /// returns a reference to the current commit
    pub fn get_commit(&self) -> (r: Option<&Commit>)
        ensures
            self.pos() < self.commits().len() ==> r == Some(&self.commits()[self.pos() as int]),
            self.pos() >= self.commits().len() ==> r is None,
    {
        if self.current_pos < self.commit_history.len() {
            Some(&self.commit_history[self.current_pos])
        } else {
            None
        }
    }

    /// returns the directions in which ways you can move through the commit history
    pub fn get_move_direction(&self) -> (r: Directions)
        ensures
            r == direction(self.pos(), self.commits().len()),
    {
        move_direction(self.current_pos, self.commit_history.len())
    }

    /// tells you in which directions you can move through the files in the current commit
    pub fn get_commit_move_direction(&self) -> (r: Directions)
        ensures
            self.pos() < self.commits().len() ==> r == direction(
                self.commits()[self.pos() as int].pos(),
                self.commits()[self.pos() as int].file_list().len(),
            ),
            self.pos() >= self.commits().len() ==> r == Directions::Neither,
    {
        if self.current_pos < self.commit_history.len() {
            self.commit_history[self.current_pos].get_move_direction()
        } else {
            Directions::Neither
        }
    }

    /// How the history is shown: its current commit and a newline.
    pub fn to_string(&self) -> (r: String)
        ensures
            r@ == history_shown(*self),
    {
        let mut s = if self.current_pos < self.commit_history.len() {
            match self.commit_history[self.current_pos].to_string() {
                Some(x) => x,
                None => string_of("could not retrieve commit please file a bug"),
            }
        } else {
            string_of("could not retrieve commit please file a bug")
        };
        crate::text::push_char(&mut s, '\n');
        s
    }
}


/// How a commit is shown: its current file, and a newline; nothing when it
/// has no current file.
pub open spec fn commit_shown(c: Commit) -> Option<Seq<char>> {
    if c.pos() < c.file_list().len() {
        Some(crate::grep::parsed_shown(c.file_list()[c.pos() as int].code(), c.file_list()[c.pos() as int].found())
            + seq!['\n'])
    } else {
        None
    }
}

/// How a history is shown: its current commit (or a note that it cannot be
/// had), and a newline.
pub open spec fn history_shown(h: FunctionHistory) -> Seq<char> {
    (if h.pos() < h.commits().len() {
        match commit_shown(h.commits()[h.pos() as int]) {
            Some(x) => x,
            None => "could not retrieve commit please file a bug"@,
        }
    } else {
        "could not retrieve commit please file a bug"@
    }) + seq!['\n']
}

/// Parses an RFC 2822 date.
pub fn parse_date(s: &str) -> (r: Result<CommitDate, String>)
    ensures
        r is Ok <==> rfc2822_parse(s@) is Some,
        r matches Ok(d) ==> rfc2822_parse(s@) == Some(d),
{
    parse_rfc2822(s)
}


/// Whether a commit is kept by a filter over a history (for the filters that
/// do not look at its files).
pub open spec fn commit_kept(filter: Filter, c: Commit) -> bool {
    match filter {
        Filter::CommitHash(h) => c.hash() == h@,
        Filter::DateRange(a, b) => rfc2822_parse(a@) matches Some(x) && rfc2822_parse(b@) matches Some(
            y,
        ) && not_before(c.date_spec(), x) && not_before(y, c.date_spec()),
        Filter::Author(a) => contains_seq(c.author_spec(), a@),
        Filter::AuthorEmail(e) => contains_seq(c.email_spec(), e@),
        Filter::Message(m) => contains_seq(c.message_spec(), m@),
        _ => false,
    }
}

impl FunctionHistory {
    /// The commit closest to the date `t` (the first of those equally
    /// close), alone in a history of the same name.
    fn closest_to_date(&self, t: &String) -> (r: Result<Self, ErrorReason>)
        ensures
            date_filter_gives(*self, t@, r),
    {
        let d = match parse_rfc2822(t.as_str()) {
            Ok(d) => d,
            Err(_) => return Err(ErrorReason::NoHistory),
        };
        if self.commit_history.len() == 0 {
            return Err(ErrorReason::NoHistory);
        }
        let mut best: usize = 0;
        let mut i: usize = 1;
        while i < self.commit_history.len()
            invariant
                1 <= i <= self.commit_history.len(),
                best < self.commit_history.len(),
                closest_date_from(self.commits(), d, 0, 1) == closest_date_from(
                    self.commits(),
                    d,
                    best as int,
                    i as int,
                ),
            decreases self.commit_history.len() - i,
        {
            if date_distance_exec(self.commit_history[i].date, d) < date_distance_exec(
                self.commit_history[best].date,
                d,
            ) {
                best = i;
            }
            i += 1;
        }
        let c = self.commit_history[best].duplicate();
        let mut v: Vec<Commit> = Vec::new();
        v.push(c);
        let h = FunctionHistory::new(clone_string(&self.name), v);
        assert(h.commits()[0] == c);
        Ok(h)
    }

    /// returns a new `FunctionHistory` by filtering the current one by the
    /// filter specified (does not modify the current one): filters of files
    /// filter the files of each commit, keeping the commits with files left;
    /// the others keep the commits they fit (an author or email that
    /// contains the text, a date range holding the date at both ends); a
    /// date keeps the commit closest to it; no filter keeps every commit.
    ///
    /// # Errors
    ///
    /// returns `Err` if no files or commits are match the filter specified
    pub fn filter_by(&self, filter: &Filter) -> (r: Result<Self, ErrorReason>)
        ensures
            filter_gives(*self, *filter, r),
    {
        if let Filter::Date(t) = filter {
            return self.closest_to_date(t);
        }
        let mut kept: Vec<Commit> = Vec::new();
        let mut i: usize = 0;
        while i < self.commit_history.len()
            invariant
                i <= self.commit_history.len(),
                kept@.len() == commits_filtered(*filter, self.commit_history@.take(i as int)).len(),
                forall|j: int| 0 <= j < kept@.len() ==> commit_after(
                    *filter,
                    self.commit_history@[commits_filtered(*filter, self.commit_history@.take(i as int))[j]],
                    #[trigger] kept@[j],
                ),
                forall|j: int| 0 <= j < commits_filtered(*filter, self.commit_history@.take(i as int)).len() ==> 0
                    <= #[trigger] commits_filtered(*filter, self.commit_history@.take(i as int))[j] < i,
            decreases self.commit_history.len() - i,
        {
            let ghost before = kept@;
            let ghost t = self.commit_history@.take(i + 1);
            let ghost old_idx = commits_filtered(*filter, self.commit_history@.take(i as int));
            assert(t.drop_last() =~= self.commit_history@.take(i as int));
            assert(t.last() == self.commit_history@[i as int]);
            let c = &self.commit_history[i];
            let keep: Option<Commit> = match filter {
                Filter::PLFilter(_) | Filter::Directory(_) | Filter::FileAbsolute(_)
                | Filter::FileRelative(_) | Filter::Language(_) | Filter::FunctionInLines(_, _) => {
                    match c.filter_by(filter) {
                        Ok(x) => Some(x),
                        Err(_) => None,
                    }
                },
                Filter::NoFilter => Some(c.duplicate()),
                _ => if commit_fits(filter, c) {
                    Some(c.duplicate())
                } else {
                    None
                },
            };
            assert(keep is Some == commit_survives(*filter, self.commit_history@[i as int]));
            assert(keep matches Some(x) ==> commit_after(*filter, self.commit_history@[i as int], x));
            match keep {
                Some(x) => {
                    kept.push(x);
                    proof {
                        let new_idx = commits_filtered(*filter, t);
                        assert(new_idx == old_idx + seq![i as int]);
                        assert forall|j: int| 0 <= j < kept@.len() implies commit_after(
                            *filter,
                            self.commit_history@[new_idx[j]],
                            #[trigger] kept@[j],
                        ) by {
                            if j < before.len() {
                                assert(kept@[j] == before[j]);
                                assert(new_idx[j] == old_idx[j]);
                            }
                        }
                        assert forall|j: int| 0 <= j < new_idx.len() implies 0 <= #[trigger] new_idx[j] < i + 1 by {
                            if j < old_idx.len() {
                                assert(new_idx[j] == old_idx[j]);
                            }
                        }
                    }
                },
                None => {
                    assert(commits_filtered(*filter, t) =~= old_idx);
                },
            }
            i += 1;
        }
        assert(self.commit_history@.take(self.commit_history@.len() as int) =~= self.commit_history@);
        if kept.len() == 0 {
            return Err(ErrorReason::NoHistory);
        }
        let h = FunctionHistory::new(clone_string(&self.name), kept);
        assert forall|x: int| 0 <= x < h.commits().len() implies (#[trigger] h.commits()[x]).wf() by {
            assert(commit_after(*filter, self.commit_history@[commits_filtered(*filter, self.commit_history@)[x]], h.commits()[x]));
        }
        Ok(h)
    }
}

/// What filtering a history gives: the commits the filter keeps, each as
/// the filter makes it, or no history when it keeps none.
pub open spec fn filter_gives(o: FunctionHistory, filter: Filter, r: Result<FunctionHistory, ErrorReason>) -> bool {
    match filter {
        Filter::Date(t) => date_filter_gives(o, t@, r),
        _ => commits_filter_gives(o, filter, r),
    }
}

/// The time of a date, in nanoseconds since January 1, 1970 0:00:00 UTC.
pub open spec fn date_nanos(d: CommitDate) -> int {
    d.secs as int * 1_000_000_000 + d.nanos as int
}

/// How far apart two dates are, in nanoseconds.
pub open spec fn date_distance(a: CommitDate, b: CommitDate) -> int {
    let x = date_nanos(a) - date_nanos(b);
    if x < 0 {
        -x
    } else {
        x
    }
}

/// The position of the first commit closest to the date, looking from
/// position `i` on with `best` the closest so far.
pub open spec fn closest_date_from(commits: Seq<Commit>, d: CommitDate, best: int, i: int) -> int
    decreases commits.len() - i,
{
    if i < 0 || i >= commits.len() {
        best
    } else if date_distance(commits[i].date_spec(), d) < date_distance(commits[best].date_spec(), d) {
        closest_date_from(commits, d, i, i + 1)
    } else {
        closest_date_from(commits, d, best, i + 1)
    }
}

/// What filtering a history by the date `t` gives: the commit closest to it
/// (the first of those equally close), alone; `NoHistory` when the date
/// does not parse or there is no commit.
pub open spec fn date_filter_gives(o: FunctionHistory, t: Seq<char>, r: Result<FunctionHistory, ErrorReason>) -> bool {
    match r {
        Ok(h) => rfc2822_parse(t) matches Some(d) && o.commits().len() > 0 && h.wf() && h.pos() == 0
            && h.name_spec() == o.name_spec() && h.commits().len() == 1 && commit_copied(
            o.commits()[closest_date_from(o.commits(), d, 0, 1)],
            h.commits()[0],
        ),
        Err(e) => (rfc2822_parse(t) is None || o.commits().len() == 0) && e is NoHistory,
    }
}

/// What filtering a history by a filter other than a date gives: the
/// commits it keeps, each as the filter leaves it; `NoHistory` when none is kept.
pub open spec fn commits_filter_gives(o: FunctionHistory, filter: Filter, r: Result<FunctionHistory, ErrorReason>) -> bool {
    let kept = commits_filtered(filter, o.commits());
    match r {
        Ok(h) => {
            &&& kept.len() > 0
            &&& h.wf()
            &&& h.pos() == 0
            &&& h.name_spec() == o.name_spec()
            &&& h.commits().len() == kept.len()
            &&& forall|k: int| 0 <= k < kept.len() ==> commit_after(filter, o.commits()[kept[k]], #[trigger] h.commits()[k])
        },
        Err(e) => kept.len() == 0 && e is NoHistory,
    }
}

/// Whether a filter over a history looks at the files of its commits.
pub open spec fn looks_at_files(filter: Filter) -> bool {
    filter is PLFilter || filter is Directory || filter is FileAbsolute || filter is FileRelative || filter is Language
        || filter is FunctionInLines
}

/// Whether a commit is kept by a filter over a history: one that looks at
/// files keeps it when it keeps some of its files; no filter keeps every
/// commit; the others keep the commits they fit.
pub open spec fn commit_survives(filter: Filter, c: Commit) -> bool {
    if looks_at_files(filter) {
        files_filtered(filter, c.file_list()).len() > 0
    } else if filter is NoFilter {
        true
    } else {
        commit_kept(filter, c)
    }
}

/// Whether `x` is what a filter over a history makes of the commit `c`: its
/// kept files, or a copy.
pub open spec fn commit_after(filter: Filter, c: Commit, x: Commit) -> bool {
    if looks_at_files(filter) {
        files_after(filter, c, x)
    } else {
        commit_copied(c, x)
    }
}

/// Whether `x` is a copy of the commit `c`, at its first file.
pub open spec fn commit_copied(c: Commit, x: Commit) -> bool {
    {
        &&& x.hash() == c.hash()
        &&& x.date_spec() == c.date_spec()
        &&& x.author_spec() == c.author_spec()
        &&& x.email_spec() == c.email_spec()
        &&& x.message_spec() == c.message_spec()
        &&& x.pos() == 0
        &&& x.wf()
        &&& x.file_list().len() == c.file_list().len()
        &&& forall|k: int| 0 <= k < x.file_list().len() ==> same_parsed(#[trigger] x.file_list()[k], c.file_list()[k])
    }
}

/// The positions of the commits a filter over a history keeps, in order.
pub open spec fn commits_filtered(filter: Filter, commits: Seq<Commit>) -> Seq<int>
    decreases commits.len(),
{
    if commits.len() == 0 {
        seq![]
    } else {
        commits_filtered(filter, commits.drop_last()) + if commit_survives(filter, commits.last()) {
            seq![commits.len() - 1]
        } else {
            seq![]
        }
    }
}

/// The time of a date, in nanoseconds (executable).
fn date_nanos_exec(d: CommitDate) -> (r: i128)
    ensures
        r == date_nanos(d),
{
    let s = d.secs as i128;
    assert(-9_223_372_036_854_775_808 <= s <= 9_223_372_036_854_775_807);
    assert(-9_223_372_036_854_775_808_000_000_000 <= s * 1_000_000_000 <= 9_223_372_036_854_775_807_000_000_000)
        by (nonlinear_arith)
        requires
            -9_223_372_036_854_775_808 <= s <= 9_223_372_036_854_775_807,
    ;
    s * 1_000_000_000 + d.nanos as i128
}

/// How far apart two dates are, in nanoseconds (executable).
fn date_distance_exec(a: CommitDate, b: CommitDate) -> (r: i128)
    ensures
        r == date_distance(a, b),
{
    let x = date_nanos_exec(a) - date_nanos_exec(b);
    if x < 0 {
        -x
    } else {
        x
    }
}

/// Whether a commit is kept by a filter that does not look at its files.
fn commit_fits(filter: &Filter, c: &Commit) -> (r: bool)
    ensures
        r == commit_kept(*filter, *c),
{
    match filter {
        Filter::CommitHash(h) => crate::languages::str_eq(c.commit_hash.as_str(), h.as_str()),
        Filter::DateRange(a, b) => {
            let x = match parse_rfc2822(a.as_str()) {
                Ok(x) => x,
                Err(_) => return false,
            };
            let y = match parse_rfc2822(b.as_str()) {
                Ok(y) => y,
                Err(_) => return false,
            };
            let d = c.date;
            (d.secs > x.secs || (d.secs == x.secs && d.nanos >= x.nanos)) && (y.secs > d.secs || (
            y.secs == d.secs && y.nanos >= d.nanos))
        },
        Filter::Author(a) => crate::text::str_contains(c.author.as_str(), a.as_str()),
        Filter::AuthorEmail(e) => crate::text::str_contains(c.email.as_str(), e.as_str()),
        Filter::Message(m) => crate::text::str_contains(c.message.as_str(), m.as_str()),
        _ => false,
    }
}

/// The directions a history or a commit reports are the moves that
/// succeed: forward exactly when there is a next item, back exactly when
/// there is a previous one.
pub proof fn law_direction_matches_moves(pos: nat, len: nat)
    requires
        pos < len,
    ensures
        (direction(pos, len) is Forward || direction(pos, len) is Both) <==> pos + 1 < len,
        (direction(pos, len) is Back || direction(pos, len) is Both) <==> pos > 0,
{
}

/// How far apart two dates are, in nanoseconds, without sign.
pub open spec fn nanos_gap(a: CommitDate, b: CommitDate) -> int {
    if date_nanos(a) >= date_nanos(b) {
        date_nanos(a) - date_nanos(b)
    } else {
        date_nanos(b) - date_nanos(a)
    }
}

/// The commit the search for the closest one settles on is no farther
/// from the date than the best so far, nor than any commit from `i` on.
proof fn lemma_closest_date(commits: Seq<Commit>, d: CommitDate, best: int, i: int)
    requires
        0 <= best < commits.len(),
        best < i,
    ensures
        0 <= closest_date_from(commits, d, best, i) < commits.len(),
        nanos_gap(commits[closest_date_from(commits, d, best, i)].date_spec(), d) <= nanos_gap(
            commits[best].date_spec(),
            d,
        ),
        forall|j: int|
            i <= j < commits.len() ==> nanos_gap(commits[closest_date_from(commits, d, best, i)].date_spec(), d)
                <= nanos_gap(#[trigger] commits[j].date_spec(), d),
    decreases commits.len() - i,
{
    if i < commits.len() {
        if date_distance(commits[i].date_spec(), d) < date_distance(commits[best].date_spec(), d) {
            lemma_closest_date(commits, d, i, i + 1);
        } else {
            lemma_closest_date(commits, d, best, i + 1);
        }
    }
}

/// Filtering a history by a date gives, when the date can be read and there
/// are commits, a history of one commit: a copy of a commit of the history
/// that is at least as close to the date as every other commit (so one of
/// that very date, where there is one); and `NoHistory` otherwise.
pub proof fn law_date_filter_closest(o: FunctionHistory, t: String, r: Result<FunctionHistory, ErrorReason>)
    requires
        filter_gives(o, Filter::Date(t), r),
    ensures
        r is Ok <==> (rfc2822_parse(t@) is Some && o.commits().len() > 0),
        r matches Ok(h) ==> h.commits().len() == 1 && exists|k: int|
            0 <= k < o.commits().len() && #[trigger] commit_copied(o.commits()[k], h.commits()[0]) && forall|j: int|
                0 <= j < o.commits().len() ==> nanos_gap(o.commits()[k].date_spec(), rfc2822_parse(t@)->Some_0)
                    <= nanos_gap(#[trigger] o.commits()[j].date_spec(), rfc2822_parse(t@)->Some_0),
{
    if let Ok(h) = r {
        let d = rfc2822_parse(t@)->Some_0;
        let k = closest_date_from(o.commits(), d, 0, 1);
        lemma_closest_date(o.commits(), d, 0, 1);
        assert(commit_copied(o.commits()[k], h.commits()[0]));
    }
}

/// The commits a filter over a history keeps are those that survive it,
/// each once, in order.
proof fn lemma_commits_filtered(filter: Filter, cs: Seq<Commit>)
    ensures
        forall|k: int| 0 <= k < commits_filtered(filter, cs).len() ==> {
            let j = #[trigger] commits_filtered(filter, cs)[k];
            0 <= j < cs.len() && commit_survives(filter, cs[j])
        },
        forall|j: int| 0 <= j < cs.len() && commit_survives(filter, #[trigger] cs[j]) ==> commits_filtered(
            filter,
            cs,
        ).contains(j),
    decreases cs.len(),
{
    if cs.len() > 0 {
        let w = cs.drop_last();
        lemma_commits_filtered(filter, w);
        let old = commits_filtered(filter, w);
        let new = commits_filtered(filter, cs);
        assert forall|k: int| 0 <= k < new.len() implies {
            let j = #[trigger] new[k];
            0 <= j < cs.len() && commit_survives(filter, cs[j])
        } by {
            if k < old.len() {
                assert(new[k] == old[k]);
                assert(w[old[k]] == cs[old[k]]);
            }
        }
        assert forall|j: int| 0 <= j < cs.len() && commit_survives(filter, #[trigger] cs[j]) implies new.contains(j) by {
            if j < cs.len() - 1 {
                assert(w[j] == cs[j]);
                let k = choose|k: int| 0 <= k < old.len() && old[k] == j;
                assert(new[k] == j);
            } else {
                assert(new[new.len() - 1] == j);
            }
        }
    }
}

/// Whether a commit has the hash, or an author, email or message that
/// contains the text, or a date within the range, that a filter asks for.
pub open spec fn fits_commit_filter(filter: Filter, c: Commit) -> bool {
    ||| filter matches Filter::CommitHash(x) && c.hash() == x@
    ||| filter matches Filter::Author(a) && contains_seq(c.author_spec(), a@)
    ||| filter matches Filter::AuthorEmail(e) && contains_seq(c.email_spec(), e@)
    ||| filter matches Filter::Message(m) && contains_seq(c.message_spec(), m@)
    ||| filter matches Filter::DateRange(a, b) && rfc2822_parse(a@) matches Some(x) && rfc2822_parse(b@) matches Some(
        y,
    ) && not_before(c.date_spec(), x) && not_before(y, c.date_spec())
}

/// Filtering a history by a commit hash, an author, an email, a message or
/// a date range keeps exactly the commits that have that hash, whose author,
/// email or message contains the text, or whose date is neither before the
/// start nor after the end of the range: each kept commit is a copy of a
/// commit of the history and fits, and each commit that fits is kept.
pub proof fn law_commit_filters_fit(o: FunctionHistory, filter: Filter, r: Result<FunctionHistory, ErrorReason>)
    requires
        filter is CommitHash || filter is Author || filter is AuthorEmail || filter is Message || filter is DateRange,
        filter_gives(o, filter, r),
    ensures
        r matches Ok(h) ==> forall|k: int|
            0 <= k < h.commits().len() ==> fits_commit_filter(filter, #[trigger] h.commits()[k]) && exists|j: int|
                0 <= j < o.commits().len() && commit_copied(o.commits()[j], h.commits()[k]),
        forall|j: int|
            0 <= j < o.commits().len() && fits_commit_filter(filter, #[trigger] o.commits()[j]) ==> (r matches Ok(h)
                && exists|k: int| 0 <= k < h.commits().len() && commit_copied(o.commits()[j], h.commits()[k])),
{
    lemma_commits_filtered(filter, o.commits());
    let kept = commits_filtered(filter, o.commits());
    assert forall|c: Commit| #[trigger] fits_commit_filter(filter, c) == commit_survives(filter, c) by {}
    match r {
        Ok(h) => {
            assert forall|k: int| 0 <= k < h.commits().len() implies fits_commit_filter(filter, #[trigger] h.commits()[k])
                && exists|j: int| 0 <= j < o.commits().len() && commit_copied(o.commits()[j], h.commits()[k]) by {
                let j = kept[k];
                assert(commit_after(filter, o.commits()[j], h.commits()[k]));
                assert(commit_survives(filter, o.commits()[j]));
                assert(fits_commit_filter(filter, o.commits()[j]));
            }
            assert forall|j: int| 0 <= j < o.commits().len() && fits_commit_filter(filter, #[trigger] o.commits()[j])
                implies exists|k: int| 0 <= k < h.commits().len() && commit_copied(o.commits()[j], h.commits()[k]) by {
                let k = choose|k: int| 0 <= k < kept.len() && kept[k] == j;
                assert(commit_after(filter, o.commits()[kept[k]], h.commits()[k]));
            }
        },
        Err(_) => {
            assert forall|j: int| 0 <= j < o.commits().len() implies !fits_commit_filter(filter, #[trigger] o.commits()[j]) by {
                if fits_commit_filter(filter, o.commits()[j]) {
                    assert(kept.contains(j));
                }
            }
        },
    }
}

/// What filtering the files of a commit gives: an error for a filter that
/// does not apply to files; else the commit with the files the filter
/// keeps, or an error when it keeps none.
pub open spec fn commit_filter_gives(o: Commit, filter: Filter, r: Result<Commit, ErrorReason>) -> bool {
    &&& !Commit::is_file_filter(filter) ==> (r matches Err(ErrorReason::Other(m)) && m@ == "Invalid filter"@)
    &&& Commit::is_file_filter(filter) ==> {
        let kept = files_filtered(filter, o.file_list());
        match r {
            Ok(c) => kept.len() > 0 && files_after(filter, o, c),
            Err(e) => kept.len() == 0 && (e matches ErrorReason::Other(m) && m@ == "No files found for filter"@),
        }
    }
}

/// Whether a file has exactly the given path, a path ending with the given
/// text or holding the given directory, or the given language.
pub open spec fn fits_file_filter(filter: Filter, f: ParsedFile) -> bool {
    ||| filter matches Filter::FileAbsolute(n) && f.name_of_file() == Some(n@)
    ||| filter matches Filter::FileRelative(n) && f.name_of_file() is Some && n@.len() <= f.name_of_file()->0.len()
        && f.name_of_file()->0.subrange(f.name_of_file()->0.len() - n@.len(), f.name_of_file()->0.len() as int) == n@
    ||| filter matches Filter::Directory(d) && f.name_of_file() is Some && contains_seq(f.name_of_file()->0, d@)
    ||| filter matches Filter::Language(l) && f.language_name() == l@
}

/// Filtering a commit by a path, a path ending, a directory or a language
/// keeps exactly the files that fit: each file kept is one of the commit's
/// files (same code, path, search and functions found) that fits, and each
/// file that fits is kept; it fails exactly when none fits.
pub proof fn law_file_filters_fit(o: Commit, filter: Filter, r: Result<Commit, ErrorReason>)
    requires
        filter is FileAbsolute || filter is FileRelative || filter is Directory || filter is Language,
        commit_filter_gives(o, filter, r),
    ensures
        r is Ok <==> exists|j: int| 0 <= j < o.file_list().len() && fits_file_filter(filter, #[trigger] o.file_list()[j]),
        r matches Ok(c) ==> forall|k: int|
            0 <= k < c.file_list().len() ==> fits_file_filter(filter, #[trigger] c.file_list()[k]) && exists|j: int|
                0 <= j < o.file_list().len() && same_parsed(o.file_list()[j], c.file_list()[k]),
        r matches Ok(c) ==> forall|j: int|
            0 <= j < o.file_list().len() && fits_file_filter(filter, #[trigger] o.file_list()[j]) ==> exists|k: int|
                0 <= k < c.file_list().len() && same_parsed(o.file_list()[j], c.file_list()[k]),
{
    let fs = o.file_list();
    lemma_files_filtered(filter, fs);
    let kept = files_filtered(filter, fs);
    match r {
        Ok(c) => {
            assert forall|k: int| 0 <= k < c.file_list().len() implies fits_file_filter(filter, #[trigger] c.file_list()[k])
                && exists|j: int| 0 <= j < fs.len() && same_parsed(fs[j], c.file_list()[k]) by {
                let j = kept[k];
                lemma_fits_file(filter, fs[j]);
                assert(file_filtered(filter, fs[j], c.file_list()[k]));
                assert(same_parsed(fs[j], c.file_list()[k]));
            }
            assert forall|j: int| 0 <= j < fs.len() && fits_file_filter(filter, #[trigger] fs[j]) implies exists|k: int|
                0 <= k < c.file_list().len() && same_parsed(fs[j], c.file_list()[k]) by {
                lemma_fits_file(filter, fs[j]);
                let k = choose|k: int| 0 <= k < kept.len() && kept[k] == j;
                assert(file_filtered(filter, fs[kept[k]], c.file_list()[k]));
            }
            lemma_fits_file(filter, fs[kept[0]]);
            assert(fits_file_filter(filter, fs[kept[0]]));
        },
        Err(_) => {
            assert forall|j: int| 0 <= j < fs.len() implies !fits_file_filter(filter, #[trigger] fs[j]) by {
                lemma_fits_file(filter, fs[j]);
                if fits_file_filter(filter, fs[j]) {
                    assert(kept.contains(j));
                }
            }
        },
    }
}

/// A file fits a path, directory or language filter exactly when the filter keeps it.
proof fn lemma_fits_file(filter: Filter, f: ParsedFile)
    requires
        filter is FileAbsolute || filter is FileRelative || filter is Directory || filter is Language,
    ensures
        fits_file_filter(filter, f) == (filtered_found(filter, f) is Some),
{
    if let Filter::FileRelative(n) = filter {
        if let Some(x) = f.name_of_file() {
            if n@.len() <= x.len() {
                assert(x.skip(x.len() - n@.len()) =~= x.subrange(x.len() - n@.len(), x.len() as int));
            }
        }
    }
}

/// The files a filter keeps are those it keeps something of, each once, in order.
proof fn lemma_files_filtered(filter: Filter, fs: Seq<ParsedFile>)
    ensures
        forall|k: int| 0 <= k < files_filtered(filter, fs).len() ==> {
            let j = #[trigger] files_filtered(filter, fs)[k];
            0 <= j < fs.len() && filtered_found(filter, fs[j]) is Some
        },
        forall|j: int| 0 <= j < fs.len() && filtered_found(filter, #[trigger] fs[j]) is Some ==> files_filtered(
            filter,
            fs,
        ).contains(j),
    decreases fs.len(),
{
    if fs.len() > 0 {
        let w = fs.drop_last();
        lemma_files_filtered(filter, w);
        let old = files_filtered(filter, w);
        let new = files_filtered(filter, fs);
        assert forall|k: int| 0 <= k < new.len() implies {
            let j = #[trigger] new[k];
            0 <= j < fs.len() && filtered_found(filter, fs[j]) is Some
        } by {
            if k < old.len() {
                assert(new[k] == old[k]);
                assert(w[old[k]] == fs[old[k]]);
            }
        }
        assert forall|j: int| 0 <= j < fs.len() && filtered_found(filter, #[trigger] fs[j]) is Some implies new.contains(j) by {
            if j < fs.len() - 1 {
                assert(w[j] == fs[j]);
                let k = choose|k: int| 0 <= k < old.len() && old[k] == j;
                assert(new[k] == j);
            } else {
                assert(new[new.len() - 1] == j);
            }
        }
    }
}

/// No filter keeps every commit, in order.
proof fn lemma_no_filter_keeps_all(cs: Seq<Commit>)
    ensures
        commits_filtered(Filter::NoFilter, cs) == Seq::new(cs.len(), |i: int| i),
    decreases cs.len(),
{
    if cs.len() > 0 {
        lemma_no_filter_keeps_all(cs.drop_last());
        assert(commits_filtered(Filter::NoFilter, cs) =~= Seq::new(cs.len(), |i: int| i));
    } else {
        assert(commits_filtered(Filter::NoFilter, cs) =~= Seq::new(cs.len(), |i: int| i));
    }
}

/// Filtering a history that holds commits with no filter keeps every
/// commit, in order, each a copy of the one it was (same hash, date,
/// author, email, message and files), under the same name.
pub proof fn law_no_filter_keeps_history(h: FunctionHistory, r: Result<FunctionHistory, ErrorReason>)
    requires
        h.commits().len() > 0,
        filter_gives(h, Filter::NoFilter, r),
    ensures
        r matches Ok(g) && g.name_spec() == h.name_spec() && g.commits().len() == h.commits().len() && forall|i: int|
            0 <= i < g.commits().len() ==> commit_copied(h.commits()[i], #[trigger] g.commits()[i]),
{
    lemma_no_filter_keeps_all(h.commits());
    let kept = commits_filtered(Filter::NoFilter, h.commits());
    assert(kept.len() > 0);
    if let Ok(g) = r {
        assert forall|i: int| 0 <= i < g.commits().len() implies commit_copied(
            h.commits()[i],
            #[trigger] g.commits()[i],
        ) by {
            assert(kept[i] == i);
            assert(commit_after(Filter::NoFilter, h.commits()[kept[i]], g.commits()[i]));
        }
    }
}

/// Whether two commits hold the same hash, files, date, author, email and message.
pub open spec fn same_commit_info(a: Commit, b: Commit) -> bool {
    &&& a.hash() == b.hash()
    &&& a.file_list() == b.file_list()
    &&& a.date_spec() == b.date_spec()
    &&& a.author_spec() == b.author_spec()
    &&& a.email_spec() == b.email_spec()
    &&& a.message_spec() == b.message_spec()
}

/// Whether `n` and `r` are what moving the history `o` forward gives: the
/// next commit, at its first file, when there is one; else no change.
pub open spec fn forward_gives(o: FunctionHistory, n: FunctionHistory, r: Option<()>) -> bool {
    &&& n.wf()
    &&& n.commits().len() == o.commits().len()
    &&& n.name_spec() == o.name_spec()
    &&& forall|i: int| 0 <= i < n.commits().len() ==> same_commit_info(#[trigger] n.commits()[i], o.commits()[i])
    &&& o.pos() + 1 < o.commits().len() ==> r is Some && n.pos() == o.pos() + 1 && n.commits()[n.pos() as int].pos()
        == 0
    &&& o.pos() + 1 >= o.commits().len() ==> r is None && n == o
}

/// Whether `n` and `r` are what moving the history `o` back gives: the
/// previous commit, at its first file, when there is one; else no change.
pub open spec fn back_gives(o: FunctionHistory, n: FunctionHistory, r: Option<()>) -> bool {
    &&& n.wf()
    &&& n.commits().len() == o.commits().len()
    &&& n.name_spec() == o.name_spec()
    &&& forall|i: int| 0 <= i < n.commits().len() ==> same_commit_info(#[trigger] n.commits()[i], o.commits()[i])
    &&& o.pos() > 0 ==> r is Some && n.pos() == o.pos() - 1 && n.commits()[n.pos() as int].pos() == 0
    &&& o.pos() == 0 ==> r is None && n == o
}

/// Moving a history forward and then back returns it to the commit it was
/// at, when there is a next one; moving it back and then forward returns it
/// to the commit it was at, when there is a previous one. Either way every
/// commit holds what it held.
pub proof fn law_back_undoes_forward(
    h0: FunctionHistory,
    h1: FunctionHistory,
    r1: Option<()>,
    h2: FunctionHistory,
    r2: Option<()>,
)
    requires
        h0.wf(),
        (h0.pos() + 1 < h0.commits().len() && forward_gives(h0, h1, r1) && back_gives(h1, h2, r2)) || (h0.pos()
            > 0 && back_gives(h0, h1, r1) && forward_gives(h1, h2, r2)),
    ensures
        r1 is Some && r2 is Some,
        h2.pos() == h0.pos(),
        h2.name_spec() == h0.name_spec(),
        h2.commits().len() == h0.commits().len(),
        forall|i: int| 0 <= i < h2.commits().len() ==> same_commit_info(#[trigger] h2.commits()[i], h0.commits()[i]),
{
    assert forall|i: int| 0 <= i < h2.commits().len() implies same_commit_info(
        #[trigger] h2.commits()[i],
        h0.commits()[i],
    ) by {
        assert(same_commit_info(h2.commits()[i], h1.commits()[i]));
        assert(same_commit_info(h1.commits()[i], h0.commits()[i]));
    }
}

} // verus!
