use git_function_history::backend::{status_of, ListType, Outcome, Status};
use git_function_history::filters::{AnyLanguageFilter, HasFilterInformation, OneLanguageFilter};
use git_function_history::grep::SupportedLanguage;
use git_function_history::history::validate_lookup;
use git_function_history::languages::{python, rust};
use git_function_history::cli::parse_args;
use git_function_history::filters::{FilterFunction, Filters};
use git_function_history::grep::ParsedFile;
use git_function_history::languages::rust::RustFilter;
use git_function_history::languages::Language;
use git_function_history::terminal::{parse_filter, parse_search, AppFilter};
use git_function_history::types::{Commit, Directions, FunctionHistory};
use git_function_history::{FileFilterType, Filter};

#[test]
fn python_empty_module_has_no_code() {
    let r = python::find_function_in_commit("", "main");
    assert_eq!(r.err(), Some("no code found".to_string()));
}

#[test]
fn python_missing_function() {
    let r = python::find_function_in_commit("x = 1\n", "main");
    assert_eq!(r.err(), Some("no functions found".to_string()));
}

#[test]
fn python_parse_error_is_reported() {
    let r = python::find_function_in_commit("def (:\n", "main");
    assert!(r.err().unwrap().starts_with("error parsing file: "));
}

#[test]
fn python_finds_each_definition() {
    let src = "def main():\n    pass\n\nclass A:\n    def main(self):\n        pass\n";
    let r = python::find_function_in_commit(src, "main").unwrap();
    assert_eq!(r.len(), 2);
}

#[test]
fn rust_missing_function() {
    let r = rust::find_function_in_commit("fn other() {}\n", "main");
    assert_eq!(r.err(), Some("no function found".to_string()));
}

#[test]
fn rust_finds_each_definition() {
    let src = "fn main() {}\nstruct S;\nimpl S {\n    fn main(&self) {}\n}\n";
    let r = rust::find_function_in_commit(src, "main").unwrap();
    assert_eq!(r.len(), 2);
}

#[test]
fn status_messages() {
    match status_of(&Outcome::Found, 3) {
        Status::Success(Some(m)) => assert_eq!(m, "Found functions took 3s"),
        _ => panic!("expected success"),
    }
    match status_of(&Outcome::ListFailed(ListType::Dates, "bad".to_string()), 12) {
        Status::Error(m) => assert_eq!(m, "Error getting dates: bad took 12s"),
        _ => panic!("expected error"),
    }
    match status_of(&Outcome::CannotFilter, 0) {
        Status::Error(m) => assert_eq!(m, "Can't filter this took 0s"),
        _ => panic!("expected error"),
    }
}

#[test]
fn filter_kinds_describe_themselves() {
    assert_eq!(
        AnyLanguageFilter::TreeSitterQuery.description(),
        "filter using an arbritrary tree sitter query"
    );
    assert_eq!(AnyLanguageFilter::FunctionInLines.attributes().len(), 2);
    assert_eq!(OneLanguageFilter::FunctionInImpl.attributes().len(), 0);
    assert_eq!(
        OneLanguageFilter::FunctionWithParameterRust.description(),
        "Find a function with a given parameter"
    );
    assert_eq!(OneLanguageFilter::FunctionInImpl.supports().0, "Rust");
}

#[test]
fn unsupported_file_lists_languages() {
    let r = validate_lookup(
        "f",
        &FileFilterType::Relative("a.txt".to_string()),
        &Filter::NoFilter,
        &vec![SupportedLanguage::Rust],
    );
    assert_eq!(
        r.err(),
        Some("file a.txt is not a supported file, the following files are supported (rust with extension(s) [rs])".to_string())
    );
}

fn words(s: &str) -> Vec<String> {
    s.split(' ').map(|w| w.to_string()).collect()
}

fn commit(hash: &str, date: &str, author: &str, email: &str) -> Commit {
    let file = ParsedFile::new("fn f() {}".to_string(), "f".to_string(), "rust".to_string(), vec![]);
    Commit::new(hash, vec![file], date, author, email, "message").ok().unwrap()
}

fn history() -> FunctionHistory {
    FunctionHistory::new(
        "f".to_string(),
        vec![
            commit("c1", "Mon, 1 Jan 2024 00:00:00 +0000", "Ann Smith", "ann@example.com"),
            commit("c2", "Wed, 10 Jan 2024 00:00:00 +0000", "Bob Jones", "bob@example.com"),
            commit("c3", "Sat, 20 Jan 2024 00:00:00 +0000", "Ann Lee", "lee@example.org"),
        ],
    )
}

#[test]
fn history_no_filter_keeps_everything() {
    let h = history().filter_by(&Filter::NoFilter).ok().unwrap();
    assert_eq!(h.list_commit_hashes(), vec!["c1", "c2", "c3"]);
}

#[test]
fn history_author_contains() {
    let h = history().filter_by(&Filter::Author("Ann".to_string())).ok().unwrap();
    assert_eq!(h.list_commit_hashes(), vec!["c1", "c3"]);
    let h = history().filter_by(&Filter::AuthorEmail("example.com".to_string())).ok().unwrap();
    assert_eq!(h.list_commit_hashes(), vec!["c1", "c2"]);
}

#[test]
fn history_date_range_needs_both_ends() {
    let h = history()
        .filter_by(&Filter::DateRange(
            "Fri, 5 Jan 2024 00:00:00 +0000".to_string(),
            "Mon, 15 Jan 2024 00:00:00 +0000".to_string(),
        ))
        .ok()
        .unwrap();
    assert_eq!(h.list_commit_hashes(), vec!["c2"]);
}

#[test]
fn history_date_picks_closest() {
    let h = history().filter_by(&Filter::Date("Thu, 18 Jan 2024 00:00:00 +0000".to_string())).ok().unwrap();
    assert_eq!(h.list_commit_hashes(), vec!["c3"]);
    assert!(history().filter_by(&Filter::Date("not a date".to_string())).is_err());
}

#[test]
fn commit_no_filter_keeps_files() {
    let c = commit("c1", "Mon, 1 Jan 2024 00:00:00 +0000", "Ann", "a@b");
    let d = c.filter_by(&Filter::NoFilter).ok().unwrap();
    assert!(d.get_file().is_some());
}

#[test]
fn back_then_forward_returns() {
    let mut h = history();
    assert!(h.move_forward().is_some());
    assert!(h.move_back().is_some());
    assert!(h.move_forward().is_some());
    assert!(matches!(h.get_move_direction(), Directions::Both));
    assert_eq!(h.list_commit_hashes(), vec!["c1", "c2", "c3"]);
}

#[test]
fn umpl_name_is_read_back() {
    assert!(matches!(Language::from_string("umpl"), Ok(Language::UMPL)));
}

#[test]
fn documented_command_words() {
    let c = parse_args(&words("p f --filter-date-range=a:b")).ok().unwrap();
    match c.filter {
        Filter::DateRange(a, b) => {
            assert_eq!(a, "a");
            assert_eq!(b, "b");
        }
        _ => panic!("range not read"),
    }
    let s = parse_search(&words("foo commit-hash abc")).ok().unwrap();
    assert!(matches!(s.filter, Filter::CommitHash(ref h) if h == "abc"));
    let s = parse_search(&words("foo absolute src/main.rs date-range a b")).ok().unwrap();
    assert_eq!(s.file, FileFilterType::Absolute("src/main.rs".to_string()));
    assert!(matches!(s.filter, Filter::DateRange(_, _)));
    match parse_filter(&words("file-absolute src/main.rs")) {
        Ok(AppFilter::Plain(Filter::FileAbsolute(f))) => assert_eq!(f, "src/main.rs"),
        _ => panic!("file-absolute not read"),
    }
}

#[test]
fn lookup_refusals_are_exact() {
    let r = git_function_history::history::get_function_history(
        "",
        &FileFilterType::NoFilter,
        &Filter::NoFilter,
        &vec![SupportedLanguage::Rust],
        &vec![],
    );
    assert_eq!(r.err(), Some("function name is empty".to_string()));
}

#[test]
fn regex_finder_finds_with_fixed_patterns() {
    let r = git_function_history::regex_search::functions_in_file("fn a() {\n}\n", "a");
    assert!(r.is_ok());
}

#[test]
fn rust_doc_comment_filter_contains_text() {
    let src = "/// adds two numbers\nfn add() {}\n";
    let f = &rust::find_function_in_commit(src, "add").unwrap()[0];
    assert!(RustFilter::HasDocComment("adds two".to_string()).matches(f));
}

#[test]
fn go_declarations_found_in_order() {
    let src = "package main\n\nfunc a() {\n}\n\nvar x = 1\n\nfunc a() {\n}\n";
    let r = git_function_history::languages::go_parse::find_function_in_file(src, "a").unwrap();
    assert_eq!(r.len(), 2);
}

#[test]
fn ruby_methods_found_in_order() {
    let src = "def a\nend\n\nclass B\n  def a\n  end\nend\n";
    let r = git_function_history::languages::ruby_parse::find_function_in_file(src, "a").unwrap();
    assert_eq!(r.len(), 2);
}

const IMPL_CODE: &str = "struct S;\nimpl S {\n    fn f(a: i32) {}\n}\nfn f(b: i32) {}\n";

fn impl_file() -> ParsedFile {
    ParsedFile::search_file("f", IMPL_CODE, SupportedLanguage::Rust).ok().unwrap()
}

#[test]
fn finder_filter_in_impl() {
    let f = impl_file();
    assert_eq!(f.results().len(), 2);
    let g = f.filter(&FilterFunction::InImpl).ok().unwrap();
    assert_eq!(g.results().len(), 1);
    assert_eq!(g.results()[0].start_row, 2);
}

#[test]
fn finder_filter_with_parameter() {
    let f = impl_file();
    let g = f.filter(&FilterFunction::WithParameter("b".to_string())).ok().unwrap();
    assert_eq!(g.results().len(), 1);
    assert_eq!(g.results()[0].start_row, 4);
    assert!(f.filter(&FilterFunction::WithParameter("c".to_string())).is_err());
}

#[test]
fn finder_filter_lines_and_query() {
    let f = impl_file();
    let g = f.filter(&FilterFunction::InLines(4, 4)).ok().unwrap();
    assert_eq!(g.results().len(), 1);
    let g = f.filter(&FilterFunction::Query("(function_item)".to_string())).ok().unwrap();
    assert_eq!(g.results().len(), 2);
    assert!(f.filter(&FilterFunction::Query("(struct_item)".to_string())).is_err());
}

#[test]
fn commit_finder_filter() {
    let c = Commit::new("c1", vec![impl_file()], "Mon, 1 Jan 2024 00:00:00 +0000", "Ann", "a@b", "m").ok().unwrap();
    let filters = Filters::default();
    let in_impl = filters.get_filter("function_in_impl").unwrap().to_filter("").ok().unwrap();
    let d = c.filter_by(&Filter::PLFilter(in_impl)).ok().unwrap();
    assert_eq!(d.get_file().unwrap().results().len(), 1);
    let h = FunctionHistory::new("f".to_string(), vec![c]);
    let with_b = filters.get_filter("function_with_parameter").unwrap().to_filter("b").ok().unwrap();
    let k = h.filter_by(&Filter::PLFilter(with_b)).ok().unwrap();
    assert_eq!(k.list_commit_hashes(), vec!["c1"]);
}
