//! Looking up the history of a function: checking the request, choosing the
//! commits and the files to search, and searching them.
use vstd::prelude::*;

use crate::grep::{
    captured, grep_language_name, language_exts, language_for_file, query_text, tree_search_of, FoundRange, ParsedFile,
    SupportedLanguage, TreeSearch,
};
use crate::text::{clone_string, contains_seq, ends_with, join, push_str, split_last, string_of, views};
use crate::types::{
    date_text, not_before, rfc2822_parse, Commit, CommitDate, FunctionHistory,
};
use crate::{FileFilterType, Filter};

verus! {

/// The code of a character in ASCII lower case.
pub open spec fn ascii_lower(c: char) -> u32 {
    if 'A' <= c <= 'Z' {
        ((c as u32) + 32) as u32
    } else {
        c as u32
    }
}

/// Whether two texts are equal when ASCII letters are compared without case.
pub open spec fn eq_ignore_ascii_case(a: Seq<char>, b: Seq<char>) -> bool {
    a.len() == b.len() && forall|i: int| 0 <= i < a.len() ==> ascii_lower(a[i]) == ascii_lower(b[i])
}

/// The last component of a path (after its last `/`), unless it is empty,
/// `.` or `..`.
pub open spec fn path_file_name(p: Seq<char>) -> Option<Seq<char>> {
    let name = match split_last(p, seq!['/']) {
        Some((_, n)) => n,
        None => p,
    };
    if name.len() == 0 || name == seq!['.'] || name == seq!['.', '.'] {
        None
    } else {
        Some(name)
    }
}

/// The extension of a path: what follows the last `.` of its file name,
/// when that `.` is not its first character.
pub open spec fn path_extension(p: Seq<char>) -> Option<Seq<char>> {
    match path_file_name(p) {
        Some(name) => match split_last(name, seq!['.']) {
            Some((before, after)) => if before.len() == 0 {
                None
            } else {
                Some(after)
            },
            None => None,
        },
        None => None,
    }
}

/// The code of `c.to_ascii_lowercase()`.
fn lower_char(c: char) -> (r: u32)
    ensures
        r == ascii_lower(c),
{
    if 'A' <= c && c <= 'Z' {
        (c as u32) + 32
    } else {
        c as u32
    }
}

/// `a.eq_ignore_ascii_case(b)`.
pub fn str_eq_ignore_ascii_case(a: &str, b: &str) -> (r: bool)
    ensures
        r == eq_ignore_ascii_case(a@, b@),
{
    let av = crate::text::str_chars(a);
    let bv = crate::text::str_chars(b);
    if av.len() != bv.len() {
        return false;
    }
    let mut i: usize = 0;
    while i < av.len()
        invariant
            i <= av.len(),
            av.len() == bv.len(),
            av@ == a@,
            bv@ == b@,
            forall|j: int| 0 <= j < i ==> ascii_lower(av@[j]) == ascii_lower(bv@[j]),
        decreases av.len() - i,
    {
        if lower_char(av[i]) != lower_char(bv[i]) {
            return false;
        }
        i += 1;
    }
    true
}

/// Whether the extension of a file name is the given one, ignoring ASCII case.
pub open spec fn has_extension(filename: Seq<char>, ext: Seq<char>) -> bool {
    path_extension(filename) matches Some(e) && eq_ignore_ascii_case(e, ext)
}

/// Whether the extension of `filename` is `file_ext`, ignoring ASCII case.
pub fn ends_with_cmp_no_case(filename: &str, file_ext: &str) -> (r: bool)
    ensures
        r == has_extension(filename@, file_ext@),
{
    proof {
        reveal_strlit("/");
        reveal_strlit(".");
        reveal_strlit("..");
        assert("/"@ =~= seq!['/']);
        assert("."@ =~= seq!['.']);
        assert(".."@ =~= seq!['.', '.']);
    }
    let name = match crate::text::rsplit_once_str(filename, "/") {
        Some((_, n)) => n,
        None => string_of(filename),
    };
    if name.as_str().is_empty() || crate::languages::str_eq(name.as_str(), ".")
        || crate::languages::str_eq(name.as_str(), "..") {
        proof {
            if name@.len() != 0 && name@ != seq!['.'] {
                assert(name@ == seq!['.', '.']);
            }
        }
        return false;
    }
    match crate::text::rsplit_once_str(name.as_str(), ".") {
        Some((before, after)) => {
            if before.as_str().is_empty() {
                false
            } else {
                str_eq_ignore_ascii_case(after.as_str(), file_ext)
            }
        },
        None => false,
    }
}


// ---------------------------------------------------------------- checking a lookup

/// Whether a filter can be used to look up a history, and its dates parse.
pub open spec fn lookup_filter_ok(filter: Filter) -> bool {
    match filter {
        Filter::Date(d) => rfc2822_parse(d@) is Some,
        Filter::DateRange(a, b) => rfc2822_parse(a@) matches Some(x) && rfc2822_parse(b@) matches Some(
            y,
        ) && not_before(y, x),
        Filter::Author(_) | Filter::AuthorEmail(_) | Filter::Message(_) | Filter::NoFilter
        | Filter::CommitHash(_) => true,
        _ => false,
    }
}

/// Whether some language has an extension the file name ends with.
pub open spec fn supported_file(f: Seq<char>, langs: Seq<SupportedLanguage>) -> bool {
    exists|i: int, j: int|
        0 <= i < langs.len() && 0 <= j < language_exts(langs[i]).len() && has_extension(
            f,
            #[trigger] language_exts(langs[i])[j],
        )
}

/// Whether the file filter fits the languages.
pub open spec fn lookup_file_ok(file: FileFilterType, langs: Seq<SupportedLanguage>) -> bool {
    match file {
        FileFilterType::Absolute(f) | FileFilterType::Relative(f) => supported_file(f@, langs),
        _ => true,
    }
}

/// The error about a file that no language takes.
pub open spec fn unsupported_file_message(file: FileFilterType, langs: Seq<SupportedLanguage>) -> Seq<char> {
    match file {
        FileFilterType::Absolute(f) | FileFilterType::Relative(f) => "file "@ + f@
            + " is not a supported file, the following files are supported "@ + languages_list_text(langs),
        _ => seq![],
    }
}

/// The message a refused lookup is answered with, where it does not come
/// from reading a date: an empty name; a filter a lookup does not take; a
/// date range that ends before it starts; a file no language takes.
pub open spec fn lookup_refusal(
    name: Seq<char>,
    file: FileFilterType,
    filter: Filter,
    langs: Seq<SupportedLanguage>,
) -> Option<Seq<char>> {
    if name.len() == 0 {
        Some("function name is empty"@)
    } else if !(filter is Date || filter is DateRange || filter is Author || filter is AuthorEmail
        || filter is Message || filter is NoFilter || filter is CommitHash) {
        Some("invalid filter"@)
    } else if filter matches Filter::DateRange(a, b) && rfc2822_parse(a@) matches Some(x) && rfc2822_parse(
        b@,
    ) matches Some(y) && !not_before(y, x) {
        Some("start date is after end date"@)
    } else if lookup_filter_ok(filter) && !lookup_file_ok(file, langs) {
        Some(unsupported_file_message(file, langs))
    } else {
        None
    }
}

/// Whether the extension of a file name is the given one, ignoring ASCII case.
fn extension_is(f: &str, ext: &str) -> (r: bool)
    ensures
        r == has_extension(f@, ext@),
{
    ends_with_cmp_no_case(f, ext)
}

/// Whether some language has an extension the file name ends with (executable).
fn is_supported_file(f: &str, langs: &Vec<SupportedLanguage>) -> (r: bool)
    ensures
        r == supported_file(f@, langs@),
{
    let mut i: usize = 0;
    while i < langs.len()
        invariant
            i <= langs.len(),
            forall|x: int, y: int|
                0 <= x < i && 0 <= y < language_exts(langs@[x]).len() ==> !has_extension(
                    f@,
                    #[trigger] language_exts(langs@[x])[y],
                ),
        decreases langs.len() - i,
    {
        let exts = langs[i].file_exts();
        let mut k: usize = 0;
        while k < exts.len()
            invariant
                k <= exts.len(),
                i < langs.len(),
                crate::text::views(exts@) == language_exts(langs@[i as int]),
                forall|x: int, y: int|
                    0 <= x < i && 0 <= y < language_exts(langs@[x]).len() ==> !has_extension(
                        f@,
                        #[trigger] language_exts(langs@[x])[y],
                    ),
                forall|y: int| 0 <= y < k ==> !has_extension(f@, #[trigger] language_exts(langs@[i as int])[y]),
            decreases exts.len() - k,
        {
            if extension_is(f, exts[k].as_str()) {
                assert(crate::text::views(exts@)[k as int] == exts@[k as int]@);
                assert(has_extension(f@, language_exts(langs@[i as int])[k as int]));
                return true;
            }
            k += 1;
        }
        i += 1;
    }
    false
}

/// A language and its extensions, as the error about an unsupported file lists it.
pub open spec fn language_listed(l: SupportedLanguage) -> Seq<char> {
    "("@ + grep_language_name(l) + " with extension(s) ["@ + join(language_exts(l), ","@) + "])"@
}

/// The languages and their extensions, as the error about an unsupported file lists them.
pub open spec fn languages_list_text(langs: Seq<SupportedLanguage>) -> Seq<char> {
    join(Seq::new(langs.len(), |i: int| language_listed(langs[i])), " "@)
}

/// The languages and their extensions, as the error about an unsupported file lists them.
fn languages_listed(langs: &Vec<SupportedLanguage>) -> (r: String)
    ensures
        r@ == languages_list_text(langs@),
{
    let mut parts: Vec<String> = Vec::new();
    let mut i: usize = 0;
    while i < langs.len()
        invariant
            i <= langs.len(),
            views(parts@) == Seq::new(i as nat, |j: int| language_listed(langs@[j])),
        decreases langs.len() - i,
    {
        let mut p = string_of("(");
        let n = langs[i].name();
        push_str(&mut p, n.as_str());
        push_str(&mut p, " with extension(s) [");
        let exts = crate::text::join_strings(&langs[i].file_exts(), ",");
        push_str(&mut p, exts.as_str());
        push_str(&mut p, "])");
        assert(p@ =~= language_listed(langs@[i as int]));
        let ghost before = parts@;
        parts.push(p);
        assert(views(parts@) =~= Seq::new((i + 1) as nat, |j: int| language_listed(langs@[j]))) by {
            assert(parts@ == before.push(p));
            assert(views(parts@) =~= views(before).push(language_listed(langs@[i as int])));
        }
        i += 1;
    }
    assert(views(parts@) =~= Seq::new(langs@.len(), |j: int| language_listed(langs@[j])));
    crate::text::join_strings(&parts, " ")
}

/// Checks a lookup: the name is not empty; the filter is one a lookup takes
/// (a date, a date range, an author, an email, a message, a commit hash or
/// none) and its dates parse, a range not ending before it starts; a file
/// given by its path has an extension of one of the languages.
pub fn validate_lookup(
    name: &str,
    file: &FileFilterType,
    filter: &Filter,
    langs: &Vec<SupportedLanguage>,
) -> (r: Result<(), String>)
    ensures
        r is Ok <==> (name@.len() > 0 && lookup_filter_ok(*filter) && lookup_file_ok(*file, langs@)),
        lookup_refusal(name@, *file, *filter, langs@) matches Some(m) ==> (r matches Err(e) && e@ == m),
{
    if name.is_empty() {
        return Err(string_of("function name is empty"));
    }
    match filter {
        Filter::Date(date) => {
            match crate::types::parse_date(date.as_str()) {
                Ok(_) => {},
                Err(e) => return Err(e),
            }
        },
        Filter::Author(_) | Filter::AuthorEmail(_) | Filter::Message(_) | Filter::NoFilter
        | Filter::CommitHash(_) => {},
        Filter::DateRange(start, end) => {
            let s = match crate::types::parse_date(start.as_str()) {
                Ok(d) => d,
                Err(e) => return Err(e),
            };
            let e = match crate::types::parse_date(end.as_str()) {
                Ok(d) => d,
                Err(e) => return Err(e),
            };
            if !(e.secs > s.secs || (e.secs == s.secs && e.nanos >= s.nanos)) {
                return Err(string_of("start date is after end date"));
            }
        },
        _ => return Err(string_of("invalid filter")),
    }
    match file {
        FileFilterType::Absolute(f) | FileFilterType::Relative(f) => {
            if !is_supported_file(f.as_str(), langs) {
                let mut msg = string_of("file ");
                push_str(&mut msg, f.as_str());
                push_str(&mut msg, " is not a supported file, the following files are supported ");
                let listed = languages_listed(langs);
                push_str(&mut msg, listed.as_str());
                return Err(msg);
            }
        },
        _ => {},
    }
    Ok(())
}

// ---------------------------------------------------------------- choosing commits and files

/// One commit as read from the repository: its metadata and its files
/// (path, contents), in the order of its tree.
pub struct CommitData {
    /// the hash of the commit
    pub hash: String,
    /// the time of the commit, in seconds since January 1, 1970 0:00:00 UTC
    pub time: i64,
    /// the name of the author
    pub author: String,
    /// the email of the author
    pub email: String,
    /// the title and body of the message
    pub message: String,
    /// the files of the commit, each as (path, contents)
    pub files: Vec<(String, String)>,
}

/// The date of a commit (in UTC).
pub open spec fn commit_date(c: CommitData) -> CommitDate {
    CommitDate { secs: c.time, nanos: 0, offset: 0 }
}

/// Whether a commit is looked in for a filter other than a date.
pub open spec fn commit_chosen(filter: Filter, c: CommitData) -> bool {
    match filter {
        Filter::CommitHash(h) => h@ == c.hash@,
        Filter::DateRange(a, b) => rfc2822_parse(a@) matches Some(x) && rfc2822_parse(b@) matches Some(
            y,
        ) && not_before(commit_date(c), x) && not_before(y, commit_date(c)),
        Filter::Author(a) => contains_seq(c.author@, a@),
        Filter::AuthorEmail(e) => contains_seq(c.email@, e@),
        Filter::Message(m) => contains_seq(c.message@, m@) || contains_seq(m@, c.message@) || m@
            == c.message@,
        Filter::NoFilter => true,
        _ => false,
    }
}

/// Whether a commit is looked in for a filter other than a date (executable).
pub fn commit_matches(filter: &Filter, c: &CommitData) -> (r: bool)
    ensures
        r == commit_chosen(*filter, *c),
{
    match filter {
        Filter::CommitHash(h) => crate::languages::str_eq(h.as_str(), c.hash.as_str()),
        Filter::DateRange(a, b) => {
            let x = match crate::types::parse_date(a.as_str()) {
                Ok(d) => d,
                Err(_) => return false,
            };
            let y = match crate::types::parse_date(b.as_str()) {
                Ok(d) => d,
                Err(_) => return false,
            };
            let after_start = c.time > x.secs || (c.time == x.secs && 0 >= x.nanos);
            let before_end = y.secs > c.time || (y.secs == c.time && y.nanos >= 0);
            after_start && before_end
        },
        Filter::Author(a) => crate::text::str_contains(c.author.as_str(), a.as_str()),
        Filter::AuthorEmail(e) => crate::text::str_contains(c.email.as_str(), e.as_str()),
        Filter::Message(m) => crate::text::str_contains(c.message.as_str(), m.as_str())
            || crate::text::str_contains(m.as_str(), c.message.as_str())
            || crate::languages::str_eq(m.as_str(), c.message.as_str()),
        Filter::NoFilter => true,
        _ => false,
    }
}

/// The whole seconds from `d` to a commit time, as chrono counts them
/// (`(time - d).num_seconds()`: truncated toward zero), without sign.
pub open spec fn seconds_apart(time: i64, d: CommitDate) -> int {
    let whole = if d.nanos == 0 {
        time - d.secs
    } else {
        let s = time - d.secs - 1;
        if s < 0 {
            s + 1
        } else {
            s
        }
    };
    if whole < 0 {
        -whole
    } else {
        whole
    }
}

/// The whole seconds from `d` to a commit time, without sign (executable).
fn seconds_apart_exec(time: i64, d: CommitDate) -> (r: i128)
    ensures
        r == seconds_apart(time, d),
{
    let t = time as i128;
    let s = d.secs as i128;
    let whole = if d.nanos == 0 {
        t - s
    } else {
        let x = t - s - 1;
        if x < 0 {
            x + 1
        } else {
            x
        }
    };
    if whole < 0 {
        -whole
    } else {
        whole
    }
}

/// The index of the first commit whose time is closest to the date.
pub open spec fn closest_from(commits: Seq<CommitData>, d: CommitDate, best: int, i: int) -> int
    decreases commits.len() - i,
{
    if i < 0 || i >= commits.len() {
        best
    } else if seconds_apart(commits[i].time, d) < seconds_apart(commits[best].time, d) {
        closest_from(commits, d, i, i + 1)
    } else {
        closest_from(commits, d, best, i + 1)
    }
}

/// The index of the first commit whose time is closest to the date (`min_by_key`).
pub fn closest_commit(commits: &Vec<CommitData>, d: CommitDate) -> (r: Option<usize>)
    ensures
        commits@.len() == 0 ==> r is None,
        commits@.len() > 0 ==> (r matches Some(k) && k as int == closest_from(commits@, d, 0, 1)),
        r matches Some(k) ==> k < commits@.len(),
{
    if commits.len() == 0 {
        return None;
    }
    let mut best: usize = 0;
    let mut i: usize = 1;
    while i < commits.len()
        invariant
            1 <= i <= commits.len(),
            best < commits.len(),
            closest_from(commits@, d, 0, 1) == closest_from(commits@, d, best as int, i as int),
        decreases commits.len() - i,
    {
        if seconds_apart_exec(commits[i].time, d) < seconds_apart_exec(commits[best].time, d) {
            best = i;
        }
        i += 1;
    }
    Some(best)
}

/// Whether a file of a commit is searched: its path fits the file filter,
/// and its extension is one of the languages'.
pub open spec fn file_chosen(file: FileFilterType, path: Seq<char>, langs: Seq<SupportedLanguage>) -> bool {
    &&& match file {
        FileFilterType::Relative(p) => ends_with(path, p@),
        FileFilterType::Absolute(p) => path == p@,
        FileFilterType::Directory(p) => contains_seq(path, p@),
        FileFilterType::NoFilter => true,
    }
    &&& supported_file(path, langs)
}

/// What searching one file finds: its language and the ranges of the
/// functions, when the search succeeds and finds some.
pub open spec fn file_found(name: Seq<char>, path: Seq<char>, code: Seq<char>, langs: Seq<SupportedLanguage>) -> Option<
    (SupportedLanguage, Seq<FoundRange>),
> {
    match language_for_file(path, langs) {
        Some(l) => match tree_search_of(code, query_text(l, name)) {
            TreeSearch::Found(v) => if captured(code, v).len() > 0 {
                Some((l, captured(code, v)))
            } else {
                None
            },
            _ => None,
        },
        None => None,
    }
}

/// Whether a file of a commit is kept by a lookup: it is chosen and its
/// search finds some functions.
pub open spec fn file_kept_by(name: Seq<char>, file: FileFilterType, langs: Seq<SupportedLanguage>, f: (String, String)) -> bool {
    file_chosen(file, f.0@, langs) && file_found(name, f.0@, f.1@, langs) is Some
}

/// The positions of the files of a commit that a lookup keeps, in order.
pub open spec fn files_kept(name: Seq<char>, file: FileFilterType, langs: Seq<SupportedLanguage>, files: Seq<(String, String)>) -> Seq<int>
    decreases files.len(),
{
    if files.len() == 0 {
        seq![]
    } else {
        files_kept(name, file, langs, files.drop_last()) + if file_kept_by(name, file, langs, files.last()) {
            seq![files.len() - 1]
        } else {
            seq![]
        }
    }
}

/// Whether a searched file is what searching the file `path` with contents
/// `code` for `name` finds.
pub open spec fn parsed_is(f: ParsedFile, name: Seq<char>, path: Seq<char>, code: Seq<char>, langs: Seq<SupportedLanguage>) -> bool {
    file_found(name, path, code, langs) matches Some((l, v)) && f.code() == code && f.searched() == name
        && f.name_of_file() == Some(path) && f.language_name() == grep_language_name(l) && f.found() == v
}

/// Whether searched files are the files kept from a commit's files, in order.
pub open spec fn files_are(r: Seq<ParsedFile>, name: Seq<char>, file: FileFilterType, langs: Seq<SupportedLanguage>, files: Seq<(String, String)>) -> bool {
    let kept = files_kept(name, file, langs, files);
    &&& r.len() == kept.len()
    &&& forall|k: int| 0 <= k < r.len() ==> parsed_is(#[trigger] r[k], name, files[kept[k]].0@, files[kept[k]].1@, langs)
}

/// The positions kept are positions of the files.
proof fn lemma_files_kept_range(name: Seq<char>, file: FileFilterType, langs: Seq<SupportedLanguage>, files: Seq<(String, String)>)
    ensures
        forall|k: int| 0 <= k < files_kept(name, file, langs, files).len() ==> 0 <= #[trigger] files_kept(name, file, langs, files)[k] < files.len(),
    decreases files.len(),
{
    if files.len() > 0 {
        lemma_files_kept_range(name, file, langs, files.drop_last());
        let old = files_kept(name, file, langs, files.drop_last());
        let new = files_kept(name, file, langs, files);
        assert forall|k: int| 0 <= k < new.len() implies 0 <= #[trigger] new[k] < files.len() by {
            if k < old.len() {
                assert(new[k] == old[k]);
            }
        }
    }
}

/// Searches the chosen files of a commit for the functions called `name`:
/// a file is kept when its search finds some.
pub fn search_commit_files(
    name: &str,
    file: &FileFilterType,
    langs: &Vec<SupportedLanguage>,
    files: &Vec<(String, String)>,
) -> (r: Vec<ParsedFile>)
    ensures
        files_are(r@, name@, *file, langs@, files@),
{
    let mut r: Vec<ParsedFile> = Vec::new();
    let mut i: usize = 0;
    while i < files.len()
        invariant
            i <= files.len(),
            files_are(r@, name@, *file, langs@, files@.take(i as int)),
        decreases files.len() - i,
    {
        let ghost before = r@;
        let ghost t = files@.take(i + 1);
        assert(t.drop_last() =~= files@.take(i as int));
        assert(t.last() == files@[i as int]);
        proof {
            lemma_files_kept_range(name@, *file, langs@, files@.take(i as int));
        }
        let path = files[i].0.as_str();
        let fits = match file {
            FileFilterType::Relative(p) => crate::text::str_ends_with(path, p.as_str()),
            FileFilterType::Absolute(p) => crate::languages::str_eq(path, p.as_str()),
            FileFilterType::Directory(p) => crate::text::str_contains(path, p.as_str()),
            FileFilterType::NoFilter => true,
        };
        let mut pushed = false;
        if fits && is_supported_file(path, langs) {
            match ParsedFile::search_file_with_name(name, files[i].1.as_str(), path, langs) {
                Ok(f) => {
                    r.push(f);
                    pushed = true;
                },
                Err(_) => {},
            }
        }
        proof {
            let kept_old = files_kept(name@, *file, langs@, files@.take(i as int));
            let kept_new = files_kept(name@, *file, langs@, t);
            assert(pushed == file_kept_by(name@, *file, langs@, files@[i as int]));
            if pushed {
                assert(kept_new == kept_old + seq![i as int]);
                assert forall|k: int| 0 <= k < r@.len() implies parsed_is(
                    #[trigger] r@[k],
                    name@,
                    t[kept_new[k]].0@,
                    t[kept_new[k]].1@,
                    langs@,
                ) by {
                    if k < before.len() {
                        assert(r@[k] == before[k]);
                        assert(kept_new[k] == kept_old[k]);
                        assert(t[kept_old[k]] == files@.take(i as int)[kept_old[k]]);
                    } else {
                        assert(kept_new[k] == i);
                    }
                }
            } else {
                assert(kept_new =~= kept_old);
                assert forall|k: int| 0 <= k < r@.len() implies parsed_is(
                    #[trigger] r@[k],
                    name@,
                    t[kept_new[k]].0@,
                    t[kept_new[k]].1@,
                    langs@,
                ) by {
                    assert(t[kept_old[k]] == files@.take(i as int)[kept_old[k]]);
                }
            }
        }
        i += 1;
    }
    assert(files@.take(files@.len() as int) =~= files@);
    r
}

/// Whether the date of a commit can be written in RFC 2822 and read back.
pub open spec fn commit_writable(c: CommitData) -> bool {
    date_text(commit_date(c)) matches Some(t) && rfc2822_parse(t) is Some
}

/// Whether a commit of a history is what a lookup makes of a commit of the
/// repository: its hash, author, email, message and date, with the files
/// the lookup keeps.
pub open spec fn commit_is(x: Commit, c: CommitData, name: Seq<char>, file: FileFilterType, langs: Seq<SupportedLanguage>) -> bool {
    &&& x.wf()
    &&& x.pos() == 0
    &&& x.hash() == c.hash@
    &&& x.author_spec() == c.author@
    &&& x.email_spec() == c.email@
    &&& x.message_spec() == c.message@
    &&& date_text(commit_date(c)) matches Some(t) && Some(x.date_spec()) == rfc2822_parse(t)
    &&& files_are(x.file_list(), name, file, langs, c.files@)
}

/// The positions of the commits a lookup keeps (for a filter other than a
/// date), in order: those the filter chooses, with some kept files, and
/// whose date can be written.
pub open spec fn commits_kept(
    name: Seq<char>,
    file: FileFilterType,
    filter: Filter,
    langs: Seq<SupportedLanguage>,
    commits: Seq<CommitData>,
) -> Seq<int>
    decreases commits.len(),
{
    if commits.len() == 0 {
        seq![]
    } else {
        commits_kept(name, file, filter, langs, commits.drop_last()) + if commit_chosen(filter, commits.last())
            && files_kept(name, file, langs, commits.last().files@).len() > 0 && commit_writable(commits.last()) {
            seq![commits.len() - 1]
        } else {
            seq![]
        }
    }
}

/// The commit a commit of the repository becomes with the files found in it;
/// an error when its date cannot be written or read back.
fn make_commit(c: &CommitData, files: Vec<ParsedFile>) -> (r: Result<Commit, String>)
    ensures
        r is Ok <==> commit_writable(*c),
        r matches Ok(x) ==> x.wf() && x.pos() == 0 && x.hash() == c.hash@ && x.file_list() == files@
            && x.author_spec() == c.author@ && x.email_spec() == c.email@ && x.message_spec() == c.message@
            && (date_text(commit_date(*c)) matches Some(t) && Some(x.date_spec()) == rfc2822_parse(t)),
{
    let date = CommitDate { secs: c.time, nanos: 0, offset: 0 };
    let text = match crate::types::date_to_rfc2822(date) {
        Some(t) => t,
        None => return Err(string_of("date cannot be represented by RFC 2822")),
    };
    Commit::new(
        c.hash.as_str(),
        files,
        text.as_str(),
        c.author.as_str(),
        c.email.as_str(),
        c.message.as_str(),
    )
}

/// What looking up the history of a function gives: an error for a lookup
/// that is not valid; for a date, the commit closest to it with the files
/// kept from it; otherwise the commits kept, each with its kept files.
pub open spec fn lookup_gives(
    name: Seq<char>,
    file: FileFilterType,
    filter: Filter,
    langs: Seq<SupportedLanguage>,
    commits: Seq<CommitData>,
    r: Result<FunctionHistory, String>,
) -> bool {
    &&& (!(name.len() > 0 && lookup_filter_ok(filter) && lookup_file_ok(file, langs)) ==> r is Err)
    &&& lookup_refusal(name, file, filter, langs) matches Some(m) ==> (r matches Err(e) && e@ == m)
    &&& ((name.len() > 0 && lookup_filter_ok(filter) && lookup_file_ok(file, langs) && !(filter is Date)) ==> {
            let kept = commits_kept(name, file, filter, langs, commits);
            match r {
                Ok(h) => {
                    &&& h.wf()
                    &&& h.name_spec() == name
                    &&& h.pos() == 0
                    &&& h.commits().len() == kept.len()
                    &&& kept.len() > 0
                    &&& forall|k: int| 0 <= k < kept.len() ==> commit_is(
                        #[trigger] h.commits()[k],
                        commits[kept[k]],
                        name,
                        file,
                        langs,
                    )
                },
                Err(e) => kept.len() == 0 && e@ == "no history found"@,
            }
        })
    &&& ((name.len() > 0 && lookup_filter_ok(filter) && lookup_file_ok(file, langs)) ==> match filter {
            Filter::Date(d) => {
                let day = rfc2822_parse(d@)->Some_0;
                if commits.len() == 0 {
                    r matches Err(e) && e@ == "no history found"@
                } else {
                    let c = commits[closest_from(commits, day, 0, 1)];
                    if files_kept(name, file, langs, c.files@).len() == 0 {
                        r matches Err(e) && e@ == "empty commit found"@
                    } else if !commit_writable(c) {
                        r is Err
                    } else {
                        r matches Ok(h) && h.wf() && h.name_spec() == name && h.pos() == 0 && h.commits().len() == 1
                            && commit_is(h.commits()[0], c, name, file, langs)
                    }
                }
            },
            _ => true,
        })
}

/// Looks up the history of the function called `name` in the commits of a
/// repository (newest first, as read from it): the lookup is checked; with a
/// date, only the commit closest to it is searched; otherwise each commit
/// the filter chooses is searched, and kept when some of its chosen files
/// hold such a function.
///
/// # Errors
/// When the lookup is not valid, when no commit holds such a function, or
/// (for a date) when the commit closest to it holds none.
pub fn get_function_history(
    name: &str,
    file: &FileFilterType,
    filter: &Filter,
    langs: &Vec<SupportedLanguage>,
    commits: &Vec<CommitData>,
) -> (r: Result<FunctionHistory, String>)
    ensures
        lookup_gives(name@, *file, *filter, langs@, commits@, r),
{
    match validate_lookup(name, file, filter, langs) {
        Ok(()) => {},
        Err(e) => return Err(e),
    }
    if let Filter::Date(date) = filter {
        let d = match crate::types::parse_date(date.as_str()) {
            Ok(d) => d,
            Err(e) => return Err(e),
        };
        let k = match closest_commit(commits, d) {
            Some(k) => k,
            None => return Err(string_of("no history found")),
        };
        let c = &commits[k];
        let tree = search_commit_files(name, file, langs, &c.files);
        if tree.len() == 0 {
            return Err(string_of("empty commit found"));
        }
        let commit = match make_commit(c, tree) {
            Ok(x) => x,
            Err(e) => return Err(e),
        };
        let mut v: Vec<Commit> = Vec::new();
        v.push(commit);
        assert(v@[0].wf());
        let h = FunctionHistory::new(string_of(name), v);
        assert(commit_is(h.commits()[0], commits@[k as int], name@, *file, langs@));
        return Ok(h);
    }
    let mut found: Vec<Commit> = Vec::new();
    let mut i: usize = 0;
    while i < commits.len()
        invariant
            i <= commits.len(),
            !(filter is Date),
            found@.len() == commits_kept(name@, *file, *filter, langs@, commits@.take(i as int)).len(),
            forall|x: int| 0 <= x < found@.len() ==> commit_is(
                #[trigger] found@[x],
                commits@[commits_kept(name@, *file, *filter, langs@, commits@.take(i as int))[x]],
                name@,
                *file,
                langs@,
            ),
            forall|x: int| 0 <= x < commits_kept(name@, *file, *filter, langs@, commits@.take(i as int)).len() ==>
                0 <= #[trigger] commits_kept(name@, *file, *filter, langs@, commits@.take(i as int))[x] < i,
        decreases commits.len() - i,
    {
        let ghost before = found@;
        let ghost t = commits@.take(i + 1);
        let ghost kept_old = commits_kept(name@, *file, *filter, langs@, commits@.take(i as int));
        assert(t.drop_last() =~= commits@.take(i as int));
        assert(t.last() == commits@[i as int]);
        let c = &commits[i];
        let mut pushed = false;
        if commit_matches(filter, c) {
            let tree = search_commit_files(name, file, langs, &c.files);
            if tree.len() > 0 {
                match make_commit(c, tree) {
                    Ok(x) => {
                        found.push(x);
                        pushed = true;
                    },
                    Err(_) => {},
                }
            }
        }
        proof {
            let kept_new = commits_kept(name@, *file, *filter, langs@, t);
            assert(pushed == (commit_chosen(*filter, commits@[i as int]) && files_kept(
                name@,
                *file,
                langs@,
                commits@[i as int].files@,
            ).len() > 0 && commit_writable(commits@[i as int])));
            if pushed {
                assert(kept_new == kept_old + seq![i as int]);
                assert forall|x: int| 0 <= x < found@.len() implies commit_is(
                    #[trigger] found@[x],
                    commits@[kept_new[x]],
                    name@,
                    *file,
                    langs@,
                ) by {
                    if x < before.len() {
                        assert(found@[x] == before[x]);
                        assert(kept_new[x] == kept_old[x]);
                    } else {
                        assert(kept_new[x] == i);
                    }
                }
                assert forall|x: int| 0 <= x < kept_new.len() implies 0 <= #[trigger] kept_new[x] < i + 1 by {
                    if x < kept_old.len() {
                        assert(kept_new[x] == kept_old[x]);
                    }
                }
            } else {
                assert(kept_new =~= kept_old);
            }
        }
        i += 1;
    }
    assert(commits@.take(commits@.len() as int) =~= commits@);
    if found.len() == 0 {
        return Err(string_of("no history found"));
    }
    let h = FunctionHistory::new(string_of(name), found);
    assert forall|x: int| 0 <= x < h.commits().len() implies (#[trigger] h.commits()[x]).wf() by {
        assert(commit_is(h.commits()[x], commits@[commits_kept(name@, *file, *filter, langs@, commits@)[x]], name@, *file, langs@));
    }
    Ok(h)
}


/// The commits a lookup keeps are chosen by its filter, each once, in order.
proof fn lemma_commits_kept_chosen(
    name: Seq<char>,
    file: FileFilterType,
    filter: Filter,
    langs: Seq<SupportedLanguage>,
    commits: Seq<CommitData>,
)
    ensures
        forall|k: int| 0 <= k < commits_kept(name, file, filter, langs, commits).len() ==> {
            let j = #[trigger] commits_kept(name, file, filter, langs, commits)[k];
            0 <= j < commits.len() && commit_chosen(filter, commits[j])
        },
    decreases commits.len(),
{
    if commits.len() > 0 {
        let w = commits.drop_last();
        lemma_commits_kept_chosen(name, file, filter, langs, w);
        let old = commits_kept(name, file, filter, langs, w);
        let new = commits_kept(name, file, filter, langs, commits);
        assert forall|k: int| 0 <= k < new.len() implies {
            let j = #[trigger] new[k];
            0 <= j < commits.len() && commit_chosen(filter, commits[j])
        } by {
            if k < old.len() {
                assert(new[k] == old[k]);
                assert(w[old[k]] == commits[old[k]]);
            }
        }
    }
}

/// A lookup by a date range gives only commits (by their hashes) of the
/// repository whose dates are neither before the start nor after the end
/// of the range, and it succeeds only when both ends are dates and the
/// range does not end before it starts.
pub proof fn law_range_lookup_in_range(
    name: Seq<char>,
    file: FileFilterType,
    a: String,
    b: String,
    langs: Seq<SupportedLanguage>,
    commits: Seq<CommitData>,
    r: Result<FunctionHistory, String>,
)
    requires
        lookup_gives(name, file, Filter::DateRange(a, b), langs, commits, r),
    ensures
        r matches Ok(h) ==> rfc2822_parse(a@) matches Some(x) && rfc2822_parse(b@) matches Some(y) && not_before(y, x)
            && forall|k: int|
            0 <= k < h.commits().len() ==> exists|i: int|
                0 <= i < commits.len() && (#[trigger] h.commits()[k]).hash() == commits[i].hash@ && #[trigger] not_before(
                    commit_date(commits[i]),
                    x,
                ) && not_before(y, commit_date(commits[i])),
{
    let filter = Filter::DateRange(a, b);
    lemma_commits_kept_chosen(name, file, filter, langs, commits);
    if let Ok(h) = r {
        let kept = commits_kept(name, file, filter, langs, commits);
        let x = rfc2822_parse(a@)->Some_0;
        let y = rfc2822_parse(b@)->Some_0;
        assert forall|k: int| 0 <= k < h.commits().len() implies exists|i: int|
            0 <= i < commits.len() && (#[trigger] h.commits()[k]).hash() == commits[i].hash@ && #[trigger] not_before(
                commit_date(commits[i]),
                x,
            ) && not_before(y, commit_date(commits[i])) by {
            let i = kept[k];
            assert(commit_is(h.commits()[k], commits[kept[k]], name, file, langs));
            assert(commit_chosen(filter, commits[i]));
            assert(fits_lookup_filter(filter, commits[i]));
        }
    }
}

/// Whether a commit of the repository has the hash, the author or email
/// containing the text, the message related to the text (one holds the
/// other), or a date within the range, that a lookup's filter asks for.
pub open spec fn fits_lookup_filter(filter: Filter, c: CommitData) -> bool {
    ||| filter matches Filter::CommitHash(x) && c.hash@ == x@
    ||| filter matches Filter::Author(a) && contains_seq(c.author@, a@)
    ||| filter matches Filter::AuthorEmail(e) && contains_seq(c.email@, e@)
    ||| filter matches Filter::Message(m) && (contains_seq(c.message@, m@) || contains_seq(m@, c.message@))
    ||| filter matches Filter::DateRange(a, b) && rfc2822_parse(a@) matches Some(x) && rfc2822_parse(b@) matches Some(
        y,
    ) && not_before(commit_date(c), x) && not_before(y, commit_date(c))
    ||| filter is NoFilter
}

/// Whether a commit has the hash, author, email and message of a commit of
/// the repository that fits a filter.
pub open spec fn from_fitting_commit(x: Commit, filter: Filter, commits: Seq<CommitData>) -> bool {
    exists|i: int|
        0 <= i < commits.len() && x.hash() == commits[i].hash@ && x.author_spec() == commits[i].author@
            && x.email_spec() == commits[i].email@ && x.message_spec() == commits[i].message@
            && #[trigger] fits_lookup_filter(filter, commits[i])
}

/// A lookup with a filter other than a date gives only commits (by their
/// hashes, authors, emails and messages) of the repository that fit the
/// filter.
pub proof fn law_lookup_commits_fit(
    name: Seq<char>,
    file: FileFilterType,
    filter: Filter,
    langs: Seq<SupportedLanguage>,
    commits: Seq<CommitData>,
    r: Result<FunctionHistory, String>,
)
    requires
        !(filter is Date),
        lookup_gives(name, file, filter, langs, commits, r),
    ensures
        r matches Ok(h) ==> forall|k: int|
            0 <= k < h.commits().len() ==> #[trigger] from_fitting_commit(h.commits()[k], filter, commits),
{
    lemma_commits_kept_chosen(name, file, filter, langs, commits);
    assert forall|c: CommitData| commit_chosen(filter, c) ==> #[trigger] fits_lookup_filter(filter, c) by {
        if filter is Message && commit_chosen(filter, c) {
            let m = filter->Message_0;
            if m@ == c.message@ {
                assert(c.message@.subrange(0, m@.len() as int) =~= m@);
                assert(crate::text::occurs_at(c.message@, m@, 0));
            }
        }
    }
    if let Ok(h) = r {
        let kept = commits_kept(name, file, filter, langs, commits);
        assert forall|k: int| 0 <= k < h.commits().len() implies #[trigger] from_fitting_commit(
            h.commits()[k],
            filter,
            commits,
        ) by {
            let i = kept[k];
            assert(commit_is(h.commits()[k], commits[kept[k]], name, file, langs));
            assert(commit_chosen(filter, commits[i]));
            assert(fits_lookup_filter(filter, commits[i]));
        }
    }
}
} // verus!
