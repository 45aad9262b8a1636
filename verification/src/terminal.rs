//! The commands typed into the terminal front end: how `search`, `filter`
//! and `list` are read, and the state of the application around them.
use vstd::prelude::*;

use crate::backend::{CommandResult, ListType, SearchType, Status};
use crate::filters::general_filters::{FunctionInImpl, FunctionInLines, FunctionWithParameterRust};
use crate::filters::{
    AnyLanguageFilter, Filter as GrepFilter, FilterSpec, Filters, InstantiatedFilterType,
    OneLanguageFilter, SingleOrMany,
};
use crate::languages::str_eq;
use crate::cli::{action_for_key_from, lemma_distinct_actions_keys_unique, Action, Actions, AppReturn, AppState, Key};
use crate::text::{clone_string, split_first, split_once_str, trim, trim_str, join, join_with_space, push_str, split_char, split_at_char, str_split_once, split_once_char, string_of, views};
use crate::{FileFilterType, Filter};

verus! {

/// A filter of a command, by its view.
pub enum FilterS {
    /// none
    NoFilter,
    /// a date
    Date(Seq<char>),
    /// a range of dates
    DateRange(Seq<char>, Seq<char>),
    /// a commit hash
    CommitHash(Seq<char>),
    /// an author
    Author(Seq<char>),
    /// an author's email
    AuthorEmail(Seq<char>),
    /// a commit message
    Message(Seq<char>),
    /// a language
    Language(Seq<char>),
    /// an exact file path
    FileAbsolute(Seq<char>),
    /// the end of a file path
    FileRelative(Seq<char>),
    /// a directory
    Directory(Seq<char>),
    /// a filter of the function finder, by name, with its options
    Grep(Seq<char>, Seq<char>),
}

/// The files of a search, by their view.
pub enum FileS {
    /// all files
    NoFilter,
    /// an exact path
    Absolute(Seq<char>),
    /// the end of a path
    Relative(Seq<char>),
    /// a directory
    Directory(Seq<char>),
}

/// Whether a filter of the library is the one the view describes.
pub open spec fn filter_is(f: Filter, s: FilterS) -> bool {
    match s {
        FilterS::NoFilter => f is NoFilter,
        FilterS::Date(d) => f matches Filter::Date(x) && x@ == d,
        FilterS::DateRange(a, b) => f matches Filter::DateRange(x, y) && x@ == a && y@ == b,
        FilterS::CommitHash(h) => f matches Filter::CommitHash(x) && x@ == h,
        FilterS::Author(a) => f matches Filter::Author(x) && x@ == a,
        FilterS::AuthorEmail(a) => f matches Filter::AuthorEmail(x) && x@ == a,
        FilterS::Message(m) => f matches Filter::Message(x) && x@ == m,
        FilterS::Language(l) => f matches Filter::Language(x) && x@ == l,
        FilterS::FileAbsolute(p) => f matches Filter::FileAbsolute(x) && x@ == p,
        FilterS::FileRelative(p) => f matches Filter::FileRelative(x) && x@ == p,
        FilterS::Directory(p) => f matches Filter::Directory(x) && x@ == p,
        FilterS::Grep(_, _) => false,
    }
}

/// Whether a file filter is the one the view describes.
pub open spec fn file_is(f: FileFilterType, s: FileS) -> bool {
    match s {
        FileS::NoFilter => f is NoFilter,
        FileS::Absolute(p) => f matches FileFilterType::Absolute(x) && x@ == p,
        FileS::Relative(p) => f matches FileFilterType::Relative(x) && x@ == p,
        FileS::Directory(p) => f matches FileFilterType::Directory(x) && x@ == p,
    }
}

/// The commit filters that `search` and `filter` both read at word `i`:
/// `date [date]`, `date range [start] [end]`, `commit [hash]`,
/// `author [name]`, `author email [email]` and `message [text]`; what they
/// give and where the reading goes on, or the error. Nothing for another
/// word.
pub open spec fn commit_filter_at(t: Seq<Seq<char>>, i: int) -> Option<Result<(int, FilterS), Seq<char>>> {
    let cmd = t[i];
    if cmd == "date"@ {
        Some(
            if i + 1 >= t.len() {
                Err("No date given"@)
            } else if t[i + 1] == "range"@ {
                if i + 2 >= t.len() {
                    Err("No start date given"@)
                } else if i + 3 >= t.len() {
                    Err("No end date given"@)
                } else {
                    Ok((i + 4, FilterS::DateRange(t[i + 2], t[i + 3])))
                }
            } else {
                Ok((i + 2, FilterS::Date(t[i + 1])))
            },
        )
    } else if cmd == "date-range"@ {
        Some(
            if i + 1 >= t.len() {
                Err("No start date given"@)
            } else if i + 2 >= t.len() {
                Err("No end date given"@)
            } else {
                Ok((i + 3, FilterS::DateRange(t[i + 1], t[i + 2])))
            },
        )
    } else if cmd == "commit-hash"@ || cmd == "commit"@ {
        Some(
            if i + 1 >= t.len() {
                Err("No commit given"@)
            } else {
                Ok((i + 2, FilterS::CommitHash(t[i + 1])))
            },
        )
    } else if cmd == "author"@ {
        Some(
            if i + 1 >= t.len() {
                Err("No author name given"@)
            } else if t[i + 1] == "email"@ {
                if i + 2 >= t.len() {
                    Err("No email given"@)
                } else {
                    Ok((i + 3, FilterS::AuthorEmail(t[i + 2])))
                }
            } else {
                Ok((i + 2, FilterS::Author(t[i + 1])))
            },
        )
    } else if cmd == "message"@ {
        Some(
            if i + 1 >= t.len() {
                Err("No commit message given"@)
            } else {
                Ok((i + 2, FilterS::Message(t[i + 1])))
            },
        )
    } else {
        None
    }
}

/// The kinds of file a `file` word may name.
pub enum FileKind {
    /// `absolute`
    Absolute,
    /// `relative`
    Relative,
    /// `directory`
    Directory,
}

/// `file [kind] [path]` at word `i`: the kind, the path and where the
/// reading goes on, or the error.
pub open spec fn file_at(t: Seq<Seq<char>>, i: int) -> Result<(int, FileKind, Seq<char>), Seq<char>> {
    if i + 1 >= t.len() {
        Err("Invalid file type"@)
    } else {
        let kind = t[i + 1];
        if kind != "absolute"@ && kind != "relative"@ && kind != "directory"@ {
            Err("Invalid file type"@)
        } else if i + 2 >= t.len() {
            Err("No file given"@)
        } else {
            Ok((
                i + 3,
                if kind == "absolute"@ {
                    FileKind::Absolute
                } else if kind == "relative"@ {
                    FileKind::Relative
                } else {
                    FileKind::Directory
                },
                t[i + 2],
            ))
        }
    }
}

/// What the words of `search` from word `i` on give, with the files and
/// filter read so far: the files and the filter, or the error.
pub open spec fn search_from(t: Seq<Seq<char>>, i: int, file: FileS, filter: FilterS) -> Result<(FileS, FilterS), Seq<char>>
    decreases t.len() - i,
{
    if i < 0 || i >= t.len() {
        Ok((file, filter))
    } else {
        match commit_filter_at(t, i) {
            Some(Ok((next, f))) => if next > i {
                search_from(t, next, file, f)
            } else {
                Ok((file, filter))
            },
            Some(Err(e)) => Err(e),
            None => if t[i] == "file"@ {
                match file_at(t, i) {
                    Ok((next, kind, path)) => search_from(
                        t,
                        next,
                        match kind {
                            FileKind::Absolute => FileS::Absolute(path),
                            FileKind::Relative => FileS::Relative(path),
                            FileKind::Directory => FileS::Directory(path),
                        },
                        filter,
                    ),
                    Err(e) => Err(e),
                }
            } else if t[i] == "absolute"@ || t[i] == "relative"@ || t[i] == "directory"@ {
                if i + 1 >= t.len() {
                    Err("No file given"@)
                } else {
                    search_from(
                        t,
                        i + 2,
                        if t[i] == "absolute"@ {
                            FileS::Absolute(t[i + 1])
                        } else if t[i] == "relative"@ {
                            FileS::Relative(t[i + 1])
                        } else {
                            FileS::Directory(t[i + 1])
                        },
                        filter,
                    )
                }
            } else {
                Err("Invalid search command: "@ + t[i])
            },
        }
    }
}

/// What the words of `search` give: the name of the function, the files and
/// the filter, or the error.
pub open spec fn search_words(t: Seq<Seq<char>>) -> Result<(Seq<char>, FileS, FilterS), Seq<char>> {
    if t.len() == 0 {
        Err("No function name"@)
    } else {
        match search_from(t, 1, FileS::NoFilter, FilterS::NoFilter) {
            Ok((file, filter)) => Ok((t[0], file, filter)),
            Err(e) => Err(e),
        }
    }
}

/// Whether a search is the one the view describes.
pub open spec fn search_is(s: SearchType, v: (Seq<char>, FileS, FilterS)) -> bool {
    s.search@ == v.0 && file_is(s.file, v.1) && filter_is(s.filter, v.2)
}

/// Reads the commit filter at word `i`, if the word names one.
fn read_commit_filter(t: &Vec<String>, i: usize) -> (r: Option<Result<(usize, Filter), String>>)
    requires
        i < t@.len(),
    ensures
        match commit_filter_at(views(t@), i as int) {
            None => r is None,
            Some(Err(e)) => r matches Some(Err(x)) && x@ == e,
            Some(Ok((n, f))) => r matches Some(Ok((m, x))) && m == n && filter_is(x, f),
        },
{
    let ghost tv = views(t@);
    assert(tv[i as int] == t@[i as int]@);
    let n = t.len();
    let cmd = t[i].as_str();
    if str_eq(cmd, "date") {
        if i + 1 >= n {
            return Some(Err(string_of("No date given")));
        }
        assert(tv[i + 1] == t@[i + 1]@);
        if str_eq(t[i + 1].as_str(), "range") {
            if i + 2 >= n {
                return Some(Err(string_of("No start date given")));
            }
            if i + 3 >= n {
                return Some(Err(string_of("No end date given")));
            }
            assert(tv[i + 2] == t@[i + 2]@);
            assert(tv[i + 3] == t@[i + 3]@);
            Some(Ok((i + 4, Filter::DateRange(clone_string(&t[i + 2]), clone_string(&t[i + 3])))))
        } else {
            Some(Ok((i + 2, Filter::Date(clone_string(&t[i + 1])))))
        }
    } else if str_eq(cmd, "date-range") {
        if i + 1 >= n {
            return Some(Err(string_of("No start date given")));
        }
        if i + 2 >= n {
            return Some(Err(string_of("No end date given")));
        }
        assert(tv[i + 1] == t@[i + 1]@);
        assert(tv[i + 2] == t@[i + 2]@);
        Some(Ok((i + 3, Filter::DateRange(clone_string(&t[i + 1]), clone_string(&t[i + 2])))))
    } else if str_eq(cmd, "commit-hash") || str_eq(cmd, "commit") {
        if i + 1 >= n {
            return Some(Err(string_of("No commit given")));
        }
        assert(tv[i + 1] == t@[i + 1]@);
        Some(Ok((i + 2, Filter::CommitHash(clone_string(&t[i + 1])))))
    } else if str_eq(cmd, "author") {
        if i + 1 >= n {
            return Some(Err(string_of("No author name given")));
        }
        assert(tv[i + 1] == t@[i + 1]@);
        if str_eq(t[i + 1].as_str(), "email") {
            if i + 2 >= n {
                return Some(Err(string_of("No email given")));
            }
            assert(tv[i + 2] == t@[i + 2]@);
            Some(Ok((i + 3, Filter::AuthorEmail(clone_string(&t[i + 2])))))
        } else {
            Some(Ok((i + 2, Filter::Author(clone_string(&t[i + 1])))))
        }
    } else if str_eq(cmd, "message") {
        if i + 1 >= n {
            return Some(Err(string_of("No commit message given")));
        }
        assert(tv[i + 1] == t@[i + 1]@);
        Some(Ok((i + 2, Filter::Message(clone_string(&t[i + 1])))))
    } else {
        None
    }
}

/// Reads `file [kind] [path]` at word `i`.
fn read_file(t: &Vec<String>, i: usize) -> (r: Result<(usize, FileKind, String), String>)
    requires
        i < t@.len(),
    ensures
        match file_at(views(t@), i as int) {
            Err(e) => r matches Err(x) && x@ == e,
            Ok((n, k, p)) => r matches Ok((m, kk, x)) && m == n && kk == k && x@ == p,
        },
{
    let ghost tv = views(t@);
    let n = t.len();
    if i + 1 >= n {
        return Err(string_of("Invalid file type"));
    }
    assert(tv[i + 1] == t@[i + 1]@);
    let kind = t[i + 1].as_str();
    let k = if str_eq(kind, "absolute") {
        FileKind::Absolute
    } else if str_eq(kind, "relative") {
        FileKind::Relative
    } else if str_eq(kind, "directory") {
        FileKind::Directory
    } else {
        return Err(string_of("Invalid file type"));
    };
    if i + 2 >= n {
        return Err(string_of("No file given"));
    }
    assert(tv[i + 2] == t@[i + 2]@);
    Ok((i + 3, k, clone_string(&t[i + 2])))
}

/// Reads the words of `search`: the name of the function, then `date`,
/// `commit`, `author`, `message` and `file` options, the last of each kind
/// winning.
pub fn parse_search(t: &Vec<String>) -> (r: Result<SearchType, String>)
    ensures
        match search_words(views(t@)) {
            Ok(v) => r matches Ok(s) && search_is(s, v),
            Err(e) => r matches Err(x) && x@ == e,
        },
{
    let ghost tv = views(t@);
    if t.len() == 0 {
        return Err(string_of("No function name"));
    }
    assert(tv[0] == t@[0]@);
    let mut file = FileFilterType::NoFilter;
    let mut filter = Filter::NoFilter;
    let ghost mut fs = FileS::NoFilter;
    let ghost mut ts = FilterS::NoFilter;
    let mut i: usize = 1;
    while i < t.len()
        invariant
            1 <= i <= t@.len(),
            tv == views(t@),
            search_from(tv, i as int, fs, ts) == search_from(tv, 1, FileS::NoFilter, FilterS::NoFilter),
            file_is(file, fs),
            filter_is(filter, ts),
        decreases t@.len() - i,
    {
        assert(tv[i as int] == t@[i as int]@);
        match read_commit_filter(t, i) {
            Some(Ok((next, f))) => {
                proof {
                    ts = commit_filter_at(tv, i as int)->Some_0->Ok_0.1;
                }
                filter = f;
                i = next;
            },
            Some(Err(e)) => {
                return Err(e);
            },
            None => {
                if str_eq(t[i].as_str(), "file") {
                    match read_file(t, i) {
                        Ok((next, kind, path)) => {
                            proof {
                                fs = match kind {
                                    FileKind::Absolute => FileS::Absolute(path@),
                                    FileKind::Relative => FileS::Relative(path@),
                                    FileKind::Directory => FileS::Directory(path@),
                                };
                            }
                            file = match kind {
                                FileKind::Absolute => FileFilterType::Absolute(path),
                                FileKind::Relative => FileFilterType::Relative(path),
                                FileKind::Directory => FileFilterType::Directory(path),
                            };
                            i = next;
                        },
                        Err(e) => {
                            return Err(e);
                        },
                    }
                } else if str_eq(t[i].as_str(), "absolute") || str_eq(t[i].as_str(), "relative") || str_eq(
                    t[i].as_str(),
                    "directory",
                ) {
                    if i + 1 >= t.len() {
                        return Err(string_of("No file given"));
                    }
                    assert(tv[i + 1] == t@[i + 1]@);
                    let path = clone_string(&t[i + 1]);
                    if str_eq(t[i].as_str(), "absolute") {
                        proof {
                            fs = FileS::Absolute(tv[i + 1]);
                        }
                        file = FileFilterType::Absolute(path);
                    } else if str_eq(t[i].as_str(), "relative") {
                        proof {
                            fs = FileS::Relative(tv[i + 1]);
                        }
                        file = FileFilterType::Relative(path);
                    } else {
                        proof {
                            fs = FileS::Directory(tv[i + 1]);
                        }
                        file = FileFilterType::Directory(path);
                    }
                    i = i + 2;
                } else {
                    let mut e = string_of("Invalid search command: ");
                    push_str(&mut e, t[i].as_str());
                    return Err(e);
                }
            },
        }
    }
    Ok(SearchType { search: clone_string(&t[0]), file, filter })
}

/// What a filter of the function finder reads its options as, by name.
pub open spec fn grep_parse(name: Seq<char>, rest: Seq<char>) -> Result<FilterSpec, Seq<char>> {
    if name == "function_in_lines"@ {
        FunctionInLines.parse_spec(rest)
    } else if name == "function_in_impl"@ {
        FunctionInImpl.parse_spec(rest)
    } else {
        FunctionWithParameterRust.parse_spec(rest)
    }
}

/// Whether a name is one of the filters of the function finder.
pub open spec fn is_grep_filter(name: Seq<char>) -> bool {
    name == "function_in_lines"@ || name == "function_in_impl"@ || name == "function_with_parameter"@
}

/// What the words of `filter` from word `i` on give, with the filter read
/// so far: the last filter, or the error. A filter of the function finder
/// takes all the words after it as its options.
pub open spec fn filter_from(t: Seq<Seq<char>>, i: int, filter: FilterS) -> Result<FilterS, Seq<char>>
    decreases t.len() - i,
{
    if i < 0 || i >= t.len() {
        Ok(filter)
    } else {
        match commit_filter_at(t, i) {
            Some(Ok((next, f))) => if next > i {
                filter_from(t, next, f)
            } else {
                Ok(filter)
            },
            Some(Err(e)) => Err(e),
            None => if t[i] == "language"@ {
                if i + 1 >= t.len() {
                    Err("No language given"@)
                } else {
                    filter_from(t, i + 2, FilterS::Language(t[i + 1]))
                }
            } else if t[i] == "file"@ {
                match file_at(t, i) {
                    Ok((next, kind, path)) => filter_from(
                        t,
                        next,
                        match kind {
                            FileKind::Absolute => FilterS::FileAbsolute(path),
                            FileKind::Relative => FilterS::FileRelative(path),
                            FileKind::Directory => FilterS::Directory(path),
                        },
                    ),
                    Err(e) => Err(e),
                }
            } else if t[i] == "file-absolute"@ || t[i] == "file-relative"@ || t[i] == "directory"@ {
                if i + 1 >= t.len() {
                    Err("No file given"@)
                } else {
                    filter_from(
                        t,
                        i + 2,
                        if t[i] == "file-absolute"@ {
                            FilterS::FileAbsolute(t[i + 1])
                        } else if t[i] == "file-relative"@ {
                            FilterS::FileRelative(t[i + 1])
                        } else {
                            FilterS::Directory(t[i + 1])
                        },
                    )
                }
            } else if is_grep_filter(t[i]) {
                let rest = join(t.skip(i + 1), seq![' ']);
                match grep_parse(t[i], rest) {
                    Ok(_) => Ok(FilterS::Grep(t[i], rest)),
                    Err(e) => Err("filters of "@ + t[i] + " could not be parsed properly, reason: "@ + e + " "@),
                }
            } else {
                Err("Invalid search command filter: "@ + t[i])
            },
        }
    }
}

/// A filter typed into the terminal: one of the library, or one of the
/// function finder with its options read.
pub enum AppFilter {
    /// a filter of the library
    Plain(Filter),
    /// a filter of the function finder
    Grep(InstantiatedFilterType),
}

/// Whether a filter typed into the terminal is the one the view describes.
pub open spec fn app_filter_is(f: AppFilter, s: FilterS) -> bool {
    match f {
        AppFilter::Plain(x) => filter_is(x, s),
        AppFilter::Grep(g) => s matches FilterS::Grep(name, rest) && match g {
            SingleOrMany::All(x) => name == "function_in_lines"@ && grep_parse(name, rest)
                == Ok::<FilterSpec, Seq<char>>(x.function_spec()),
            SingleOrMany::Many(m) => m.name@ == name && m.filters@.len() == 1
                && grep_parse(name, rest) == Ok::<FilterSpec, Seq<char>>(m.filters@[0].1.function_spec()),
        },
    }
}

/// Reads the words of `filter`: `language`, `date`, `commit`, `author`,
/// `message` and `file` options, the last winning, or a filter of the
/// function finder with the rest of the words as its options.
#[verifier::loop_isolation(false)]
pub fn parse_filter(t: &Vec<String>) -> (r: Result<AppFilter, String>)
    ensures
        match filter_from(views(t@), 0, FilterS::NoFilter) {
            Ok(v) => r matches Ok(f) && app_filter_is(f, v),
            Err(e) => r matches Err(x) && x@ == e,
        },
{
    let ghost tv = views(t@);
    let mut filter = Filter::NoFilter;
    let ghost mut ts = FilterS::NoFilter;
    let mut i: usize = 0;
    while i < t.len()
        invariant
            i <= t@.len(),
            tv == views(t@),
            filter_from(tv, i as int, ts) == filter_from(tv, 0, FilterS::NoFilter),
            filter_is(filter, ts),
        decreases t@.len() - i,
    {
        assert(tv[i as int] == t@[i as int]@);
        match read_commit_filter(t, i) {
            Some(Ok((next, f))) => {
                proof {
                    ts = commit_filter_at(tv, i as int)->Some_0->Ok_0.1;
                }
                filter = f;
                i = next;
            },
            Some(Err(e)) => {
                return Err(e);
            },
            None => {
                let cmd = t[i].as_str();
                if str_eq(cmd, "language") {
                    if i + 1 >= t.len() {
                        return Err(string_of("No language given"));
                    }
                    assert(tv[i + 1] == t@[i + 1]@);
                    proof {
                        ts = FilterS::Language(tv[i + 1]);
                    }
                    filter = Filter::Language(clone_string(&t[i + 1]));
                    i = i + 2;
                } else if str_eq(cmd, "file") {
                    match read_file(t, i) {
                        Ok((next, kind, path)) => {
                            proof {
                                ts = match kind {
                                    FileKind::Absolute => FilterS::FileAbsolute(path@),
                                    FileKind::Relative => FilterS::FileRelative(path@),
                                    FileKind::Directory => FilterS::Directory(path@),
                                };
                            }
                            filter = match kind {
                                FileKind::Absolute => Filter::FileAbsolute(path),
                                FileKind::Relative => Filter::FileRelative(path),
                                FileKind::Directory => Filter::Directory(path),
                            };
                            i = next;
                        },
                        Err(e) => {
                            return Err(e);
                        },
                    }
                } else if str_eq(cmd, "file-absolute") || str_eq(cmd, "file-relative") || str_eq(
                    cmd,
                    "directory",
                ) {
                    if i + 1 >= t.len() {
                        return Err(string_of("No file given"));
                    }
                    assert(tv[i + 1] == t@[i + 1]@);
                    let path = clone_string(&t[i + 1]);
                    if str_eq(cmd, "file-absolute") {
                        proof {
                            ts = FilterS::FileAbsolute(tv[i + 1]);
                        }
                        filter = Filter::FileAbsolute(path);
                    } else if str_eq(cmd, "file-relative") {
                        proof {
                            ts = FilterS::FileRelative(tv[i + 1]);
                        }
                        filter = Filter::FileRelative(path);
                    } else {
                        proof {
                            ts = FilterS::Directory(tv[i + 1]);
                        }
                        filter = Filter::Directory(path);
                    }
                    i = i + 2;
                } else {
                    let filters = Filters::default();
                    match filters.get_filter(cmd) {
                        Some(found) => {
                            let rest = join_with_space(t, i + 1);
                            proof {
                                reveal_strlit("function_in_lines");
                                reveal_strlit("function_in_impl");
                                reveal_strlit("function_with_parameter");
                                let k = choose|k: int| 0 <= k < filters.names().len() && filters.names()[k] == cmd@
                                    && !filters.names().take(k).contains(cmd@) && *found == filters.entry(k);
                                assert(filters.names()[k] == cmd@);
                                assert(is_grep_filter(cmd@));
                                assert(k == 0 ==> cmd@ == "function_in_lines"@);
                                assert(k == 1 ==> cmd@ == "function_in_impl"@);
                                assert(k == 2 ==> cmd@ == "function_with_parameter"@);
                            }
                            match found.to_filter(rest.as_str()) {
                                Ok(val) => {
                                    return Ok(AppFilter::Grep(val));
                                },
                                Err(e) => {
                                    let mut msg = string_of("filters of ");
                                    push_str(&mut msg, cmd);
                                    push_str(&mut msg, " could not be parsed properly, reason: ");
                                    push_str(&mut msg, e.as_str());
                                    push_str(&mut msg, " ");
                                    return Err(msg);
                                },
                            }
                        },
                        None => {
                            let mut msg = string_of("Invalid search command filter: ");
                            push_str(&mut msg, cmd);
                            return Err(msg);
                        },
                    }
                }
            },
        }
    }
    Ok(AppFilter::Plain(filter))
}

/// What `list` is followed by: `dates` or `commits` alone.
pub open spec fn list_words(t: Seq<Seq<char>>) -> Result<ListType, Seq<char>> {
    if t.len() == 1 && t[0] == "dates"@ {
        Ok(ListType::Dates)
    } else if t.len() == 1 && t[0] == "commits"@ {
        Ok(ListType::Commits)
    } else {
        Err("Invalid list type"@)
    }
}

/// Reads the words of `list`.
pub fn parse_list(t: &Vec<String>) -> (r: Result<ListType, String>)
    ensures
        match list_words(views(t@)) {
            Ok(l) => r == Ok::<ListType, String>(l),
            Err(e) => r matches Err(x) && x@ == e,
        },
{
    if t.len() == 1 {
        assert(views(t@)[0] == t@[0]@);
        if str_eq(t[0].as_str(), "dates") {
            return Ok(ListType::Dates);
        } else if str_eq(t[0].as_str(), "commits") {
            return Ok(ListType::Commits);
        }
    }
    Err(string_of("Invalid list type"))
}

/// A command typed into the terminal, read.
pub enum ParsedCommand {
    /// look up a function
    Search(SearchType),
    /// filter the result shown
    Filter(AppFilter),
    /// list the commits or their dates
    List(ListType),
}

/// What a command line typed into the terminal is read as: the command
/// before the first space, and its words after it.
pub open spec fn command_words(c: Seq<char>) -> Option<(Seq<char>, Seq<Seq<char>>)> {
    match split_once_char(c, ' ') {
        Some((cmd, args)) => Some((cmd, split_at_char(args, ' '))),
        None => None,
    }
}

/// Reads a command typed into the terminal: `search`, `filter` or `list`
/// followed by a space and their words.
pub fn parse_command_line(command: &str) -> (r: Result<ParsedCommand, String>)
    ensures
        match command_words(command@) {
            None => r matches Err(e) && e@ == "No command given"@,
            Some((cmd, t)) => if cmd == "search"@ {
                match search_words(t) {
                    Ok(v) => r matches Ok(ParsedCommand::Search(s)) && search_is(s, v),
                    Err(e) => r matches Err(x) && x@ == e,
                }
            } else if cmd == "filter"@ {
                match filter_from(t, 0, FilterS::NoFilter) {
                    Ok(v) => r matches Ok(ParsedCommand::Filter(f)) && app_filter_is(f, v),
                    Err(e) => r matches Err(x) && x@ == e,
                }
            } else if cmd == "list"@ {
                match list_words(t) {
                    Ok(l) => r matches Ok(ParsedCommand::List(x)) && x == l,
                    Err(e) => r matches Err(x) && x@ == e,
                }
            } else {
                r matches Err(x) && x@ == "Invalid command: "@ + cmd
            },
        },
{
    match str_split_once(command, ' ') {
        Some((cmd, args)) => {
            let t = split_char(args.as_str(), ' ');
            if str_eq(cmd.as_str(), "search") {
                match parse_search(&t) {
                    Ok(s) => Ok(ParsedCommand::Search(s)),
                    Err(e) => Err(e),
                }
            } else if str_eq(cmd.as_str(), "filter") {
                match parse_filter(&t) {
                    Ok(f) => Ok(ParsedCommand::Filter(f)),
                    Err(e) => Err(e),
                }
            } else if str_eq(cmd.as_str(), "list") {
                match parse_list(&t) {
                    Ok(l) => Ok(ParsedCommand::List(l)),
                    Err(e) => Err(e),
                }
            } else {
                let mut e = string_of("Invalid command: ");
                push_str(&mut e, cmd.as_str());
                Err(e)
            }
        },
        None => Err(string_of("No command given")),
    }
}

// ---------------------------------------------------------------- the application

/// The error shown when a command failed, from the error the worker sent:
/// the text before the first `why`, and what stands between the first and
/// the second `why`.
pub open spec fn error_shown(e: Seq<char>) -> Seq<char> {
    let (before, after) = match split_first(e, "why"@) {
        Some(x) => x,
        None => (e, seq![]),
    };
    let between = match split_first(after, "why"@) {
        Some(x) => x.0,
        None => seq![],
    };
    " error recieved last command didn't work; "@ + before + between
}

/// The state of the terminal front end that is not drawn: the actions, the
/// last result and status, the scrolling and the commands typed before.
pub struct App {
    /// the actions bound to keys
    pub actions: Actions,
    /// the state the application is in
    pub state: AppState,
    /// the result shown
    pub cmd_output: CommandResult,
    /// how far the output is scrolled
    pub scroll_pos: (u16, u16),
    /// the height of the output
    pub body_height: u16,
    /// the status of the last command
    pub status: Status,
    /// the commands typed before
    pub history: Vec<String>,
    /// which of them is shown when going through them
    pub history_index: usize,
}

impl App {
    /// The actions of the application.
    pub open spec fn actions_spec(&self) -> Seq<Action> {
        self.actions.view_actions()
    }

    /// The result shown.
    pub open spec fn output(&self) -> CommandResult {
        self.cmd_output
    }

    /// The status of the last command.
    pub open spec fn status_spec(&self) -> Status {
        self.status
    }

    /// The application as it starts: the history is the text of the history
    /// file, one command a line, with the last line chosen.
    pub fn new(status: Status, history_text: &str) -> (r: Self)
        ensures
            r.actions_spec() == seq![
                Action::Quit,
                Action::TextEdit,
                Action::ScrollDown,
                Action::ScrollUp,
                Action::BackCommit,
                Action::ForwardCommit,
                Action::BackFile,
                Action::ForwardFile,
            ],
            r.state == AppState::Looking,
            r.output() is Empty,
            r.scroll_pos == (0u16, 0u16),
            r.body_height == 0,
            r.status_spec() == status,
            views(r.history@) == split_at_char(history_text@, '\n'),
            r.history_index == r.history@.len() - 1,
    {
        let history = split_char(history_text, '\n');
        proof {
            crate::text::lemma_split_nonempty(seq![], history_text@, '\n');
        }
        let list = vec![
            Action::Quit,
            Action::TextEdit,
            Action::ScrollDown,
            Action::ScrollUp,
            Action::BackCommit,
            Action::ForwardCommit,
            Action::BackFile,
            Action::ForwardFile,
        ];
        proof {
            assert(list@.no_duplicates());
            lemma_distinct_actions_keys_unique(list@);
        }
        let actions = Actions::from_actions(list);
        let n = history.len();
        App {
            actions,
            state: AppState::initialized(),
            cmd_output: CommandResult::Empty,
            scroll_pos: (0, 0),
            body_height: 0,
            status,
            history,
            history_index: n - 1,
        }
    }

    /// The status of the last command.
    pub fn status(&self) -> (r: &Status)
        ensures
            *r == self.status_spec(),
    {
        &self.status
    }

    /// The actions of the application.
    pub fn actions(&self) -> (r: &Actions)
        ensures
            r.view_actions() == self.actions_spec(),
    {
        &self.actions
    }

    /// The state the application is in.
    pub fn state(&self) -> (r: &AppState)
        ensures
            *r == self.state,
    {
        &self.state
    }

    /// The result shown.
    pub fn cmd_output(&self) -> (r: &CommandResult)
        ensures
            *r == self.output(),
    {
        &self.cmd_output
    }

    /// Handle a user action: the action bound to the key among the actions
    /// of the application, if any.
    pub fn do_action(&mut self, key: Key) -> (r: AppReturn)
        requires
            old(self).output() matches CommandResult::History(h) ==> h.wf() && h.commits().len() > 0,
            action_for_key_from(old(self).actions_spec(), key, 0) == Some(Action::ScrollDown)
                ==> old(self).scroll_pos.0 + old(self).body_height <= u16::MAX && old(self).scroll_pos.0
                < u16::MAX,
        ensures
            final(self).actions_spec() == old(self).actions_spec(),
            final(self).status_spec() == old(self).status_spec(),
            final(self).history == old(self).history,
            final(self).history_index == old(self).history_index,
            final(self).body_height == old(self).body_height,
            match action_for_key_from(old(self).actions_spec(), key, 0) {
                None => r == AppReturn::Continue && *final(self) == *old(self),
                Some(Action::Quit) => r == AppReturn::Exit && *final(self) == *old(self),
                Some(Action::TextEdit) => r == AppReturn::Continue && final(self).state == AppState::Editing
                    && final(self).output() == old(self).output() && final(self).scroll_pos == old(self).scroll_pos,
                Some(Action::ScrollUp) => r == AppReturn::Continue && final(self).state == old(self).state
                    && final(self).output() == old(self).output() && final(self).scroll_pos.1 == old(self).scroll_pos.1
                    && final(self).scroll_pos.0 == if old(self).scroll_pos.0 == 0 {
                        0
                    } else {
                        old(self).scroll_pos.0 - 1
                    },
                Some(Action::ScrollDown) => r == AppReturn::Continue && final(self).state == old(self).state
                    && final(self).output() == old(self).output() && final(self).scroll_pos.1 == old(self).scroll_pos.1
                    && (match old(self).output() {
                        CommandResult::String(v) => final(self).scroll_pos.0 == if old(self).scroll_pos.0
                            + old(self).body_height >= v@.len() {
                            old(self).scroll_pos.0
                        } else {
                            (old(self).scroll_pos.0 + 1) as u16
                        },
                        CommandResult::Empty => final(self).scroll_pos.0 == old(self).scroll_pos.0,
                        CommandResult::History(_) => final(self).scroll_pos.0 == old(self).scroll_pos.0
                            || final(self).scroll_pos.0 == old(self).scroll_pos.0 + 1,
                    }),
                Some(a) => r == AppReturn::Continue && final(self).state == old(self).state
                    && final(self).scroll_pos == old(self).scroll_pos && match old(self).output() {
                    CommandResult::History(h) => final(self).output() matches CommandResult::History(g) && g.wf()
                        && g.commits().len() == h.commits().len() && g.name_spec() == h.name_spec() && match a {
                        Action::BackCommit => g.pos() == if h.pos() > 0 {
                            (h.pos() - 1) as nat
                        } else {
                            h.pos()
                        },
                        Action::ForwardCommit => g.pos() == if h.pos() + 1 < h.commits().len() {
                            h.pos() + 1
                        } else {
                            h.pos()
                        },
                        Action::BackFile => g.pos() == h.pos() && (h.pos() < h.commits().len() ==> {
                            let (c, d) = (h.commits()[h.pos() as int], g.commits()[h.pos() as int]);
                            d.file_list() == c.file_list() && d.pos() == if c.pos() > 0 {
                                (c.pos() - 1) as nat
                            } else {
                                c.pos()
                            }
                        }),
                        _ => g.pos() == h.pos() && (h.pos() < h.commits().len() ==> {
                            let (c, d) = (h.commits()[h.pos() as int], g.commits()[h.pos() as int]);
                            d.file_list() == c.file_list() && d.pos() == if c.pos() + 1 < c.file_list().len() {
                                c.pos() + 1
                            } else {
                                c.pos()
                            }
                        }),
                    },
                    _ => final(self).output() == old(self).output(),
                },
            },
    {
        match self.actions.find(key) {
            None => AppReturn::Continue,
            Some(action) => match action {
                Action::Quit => AppReturn::Exit,
                Action::TextEdit => {
                    self.state = AppState::Editing;
                    AppReturn::Continue
                },
                Action::ScrollUp => {
                    if self.scroll_pos.0 == 0 {
                        return AppReturn::Continue;
                    }
                    self.scroll_pos.0 = self.scroll_pos.0 - 1;
                    AppReturn::Continue
                },
                Action::ScrollDown => {
                    let ot = self.scroll_pos.0 + self.body_height;
                    if ot as usize >= self.cmd_output.len() {
                        return AppReturn::Continue;
                    }
                    self.scroll_pos.0 = self.scroll_pos.0 + 1;
                    AppReturn::Continue
                },
                _ => {
                    let mut out = CommandResult::Empty;
                    std::mem::swap(&mut out, &mut self.cmd_output);
                    match out {
                        CommandResult::History(mut t) => {
                            match action {
                                Action::BackCommit => {
                                    t.move_back();
                                },
                                Action::ForwardCommit => {
                                    t.move_forward();
                                },
                                Action::BackFile => {
                                    t.move_back_file();
                                },
                                _ => {
                                    t.move_forward_file();
                                },
                            }
                            self.cmd_output = CommandResult::History(t);
                        },
                        other => {
                            self.cmd_output = other;
                        },
                    }
                    AppReturn::Continue
                },
            },
        }
    }

    /// Reads a command typed into the terminal: the status becomes
    /// `Loading`, or the error, when there is one.
    pub fn parse_command(&mut self, command: &str) -> (r: Option<ParsedCommand>)
        ensures
            final(self).actions_spec() == old(self).actions_spec(),
            final(self).output() == old(self).output(),
            final(self).state == old(self).state,
            final(self).scroll_pos == old(self).scroll_pos,
            final(self).history == old(self).history,
            final(self).history_index == old(self).history_index,
            match r {
                Some(_) => final(self).status_spec() is Loading,
                None => final(self).status_spec() is Error,
            },
            match command_words(command@) {
                None => final(self).status_spec() matches Status::Error(e) && e@ == "No command given"@,
                Some((cmd, t)) => if cmd == "search"@ {
                    match search_words(t) {
                        Ok(v) => r matches Some(ParsedCommand::Search(s)) && search_is(s, v),
                        Err(e) => final(self).status_spec() matches Status::Error(x) && x@ == e,
                    }
                } else if cmd == "filter"@ {
                    match filter_from(t, 0, FilterS::NoFilter) {
                        Ok(v) => r matches Some(ParsedCommand::Filter(f)) && app_filter_is(f, v),
                        Err(e) => final(self).status_spec() matches Status::Error(x) && x@ == e,
                    }
                } else if cmd == "list"@ {
                    match list_words(t) {
                        Ok(l) => r matches Some(ParsedCommand::List(x)) && x == l,
                        Err(e) => final(self).status_spec() matches Status::Error(x) && x@ == e,
                    }
                } else {
                    final(self).status_spec() matches Status::Error(x) && x@ == "Invalid command: "@ + cmd
                },
            },
    {
        match parse_command_line(command) {
            Ok(c) => {
                self.status = Status::Loading;
                Some(c)
            },
            Err(e) => {
                self.status = Status::Error(e);
                None
            },
        }
    }

    /// Takes in what the worker sent back: an error is shown, a success
    /// replaces the result shown; anything else changes nothing.
    pub fn receive_result(&mut self, result: CommandResult, status: Status)
        ensures
            final(self).actions_spec() == old(self).actions_spec(),
            final(self).state == old(self).state,
            final(self).scroll_pos == old(self).scroll_pos,
            final(self).history == old(self).history,
            final(self).history_index == old(self).history_index,
            match status {
                Status::Error(e) => final(self).status_spec() matches Status::Error(x) && x@ == error_shown(e@)
                    && final(self).output() == old(self).output(),
                Status::Success(m) => final(self).status_spec() == Status::Success(m) && final(self).output() == result,
                _ => final(self).status_spec() == old(self).status_spec() && final(self).output() == old(self).output(),
            },
    {
        match status {
            Status::Error(e) => {
                let (before, after) = match split_once_str(e.as_str(), "why") {
                    Some(x) => x,
                    None => (clone_string(&e), String::new()),
                };
                let between = match split_once_str(after.as_str(), "why") {
                    Some(x) => x.0,
                    None => String::new(),
                };
                let mut msg = string_of(" error recieved last command didn't work; ");
                push_str(&mut msg, before.as_str());
                push_str(&mut msg, between.as_str());
                self.status = Status::Error(msg);
            },
            Status::Success(m) => {
                self.status = Status::Success(m);
                self.cmd_output = result;
            },
            _ => {},
        }
    }

    /// Records a typed command in the history, unless it is empty or the
    /// same as the last one: what is to be appended to the history file.
    pub fn reset_and_save(&mut self, input: &str) -> (r: Option<String>)
        ensures
            final(self).actions_spec() == old(self).actions_spec(),
            final(self).output() == old(self).output(),
            final(self).status_spec() == old(self).status_spec(),
            final(self).state == old(self).state,
            final(self).scroll_pos == old(self).scroll_pos,
            final(self).history_index == old(self).history_index,
            views(final(self).history@) == saved_history(views(old(self).history@), input@),
            match r {
                Some(line) => records(views(old(self).history@), input@) && line@ == input@ + seq!['\n'],
                None => !records(views(old(self).history@), input@),
            },
    {
        if input.is_empty() {
            return None;
        }
        let n = self.history.len();
        if n > 0 {
            assert(views(self.history@).last() == self.history@[n - 1]@);
        }
        if n > 0 && str_eq(self.history[n - 1].as_str(), input) {
            return None;
        }
        let mut line = string_of(input);
        crate::text::push_char(&mut line, '\n');
        assert(line@ =~= input@ + seq!['\n']);
        let entry = trim_str(line.as_str());
        crate::text::push_string(&mut self.history, entry);
        Some(line)
    }

    /// Goes to the command typed before the one chosen: the command to show.
    pub fn scroll_up(&mut self) -> (r: String)
        ensures
            final(self).actions_spec() == old(self).actions_spec(),
            final(self).output() == old(self).output(),
            final(self).status_spec() == old(self).status_spec(),
            final(self).history == old(self).history,
            final(self).history_index == index_up(old(self).history_index),
            r@ == if final(self).history_index < final(self).history@.len() {
                final(self).history@[final(self).history_index as int]@
            } else {
                seq![]
            },
    {
        self.history_index = self.history_index.saturating_sub(1);
        if self.history_index < self.history.len() {
            clone_string(&self.history[self.history_index])
        } else {
            String::new()
        }
    }

    /// Goes to the command typed after the one chosen, up to the last one:
    /// the command to show.
    pub fn scroll_down(&mut self) -> (r: String)
        requires
            old(self).history@.len() > 0,
        ensures
            final(self).actions_spec() == old(self).actions_spec(),
            final(self).output() == old(self).output(),
            final(self).status_spec() == old(self).status_spec(),
            final(self).history == old(self).history,
            final(self).history_index == index_down(old(self).history_index, old(self).history@.len()),
            r@ == final(self).history@[final(self).history_index as int]@,
    {
        let next = self.history_index.saturating_add(1);
        let last = self.history.len() - 1;
        self.history_index = if next >= last {
            last
        } else {
            next
        };
        clone_string(&self.history[self.history_index])
    }
}

/// Whether a typed command is recorded: it is not empty and not the same as
/// the last one recorded.
pub open spec fn records(history: Seq<Seq<char>>, input: Seq<char>) -> bool {
    input.len() > 0 && !(history.len() > 0 && history.last() == input)
}

/// The commands recorded after a command is typed: the command, with a
/// newline, trimmed, when it is recorded.
pub open spec fn saved_history(history: Seq<Seq<char>>, input: Seq<char>) -> Seq<Seq<char>> {
    if records(history, input) {
        history.push(trim(input + seq!['\n']))
    } else {
        history
    }
}

/// The command chosen after going up: the one before, or the first.
pub open spec fn index_up(i: usize) -> usize {
    if i > 0 {
        (i - 1) as usize
    } else {
        0
    }
}

/// The command chosen after going down: the one after, up to the last.
pub open spec fn index_down(i: usize, len: nat) -> usize {
    if i + 1 >= len - 1 {
        (len - 1) as usize
    } else {
        (i + 1) as usize
    }
}

/// Typing the same command twice records it once, when it has no
/// surrounding blanks (the history keeps it trimmed).
pub proof fn law_same_command_saved_once(history: Seq<Seq<char>>, input: Seq<char>)
    requires
        trim(input + seq!['\n']) == input,
    ensures
        saved_history(saved_history(history, input), input) == saved_history(history, input),
{
}

/// Going up through the commands typed and then down again comes back to
/// the command chosen, unless it was the first one.
pub proof fn law_up_then_down(i: usize, len: nat)
    requires
        0 < i < len,
        len <= usize::MAX,
    ensures
        index_down(index_up(i), len) == i,
{
}

} // verus!
