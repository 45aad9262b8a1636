use git_function_history::backend::{CommandResult, HistoryFilterType, ListType, Status};
use git_function_history::cli::{parse_args, Action, AppReturn, AppState, ArgsError, Key};
use git_function_history::languages::Language;
use git_function_history::terminal::{
    parse_command_line, parse_filter, parse_list, parse_search, App, AppFilter, ParsedCommand,
};
use git_function_history::{FileFilterType, Filter};

fn args(v: &[&str]) -> Vec<String> {
    v.iter().map(|s| s.to_string()).collect()
}

#[test]
fn args_function_and_file() {
    let c = parse_args(&args(&["cargo-function-history", "main:src\\main.rs"])).ok().unwrap();
    assert_eq!(c.function_name, "main");
    assert_eq!(c.file_type, FileFilterType::Relative("src/main.rs".to_string()));
    assert!(matches!(c.filter, Filter::NoFilter));
    assert!(matches!(c.language, Language::All));
}

#[test]
fn args_options() {
    let c = parse_args(&args(&[
        "p",
        "main:lib.rs",
        "--file-absolute",
        "--filter-date=Mon, 1 Jan 2024 00:00:00 +0000",
        "--lang=rust",
    ]))
    .ok()
    .unwrap();
    assert_eq!(c.file_type, FileFilterType::Absolute("lib.rs".to_string()));
    match c.filter {
        Filter::Date(d) => assert_eq!(d, "Mon, 1 Jan 2024 00:00:00 +0000"),
        _ => panic!("date not read"),
    }
    assert!(matches!(c.language, Language::Rust));
    let c = parse_args(&args(&["p", "f", "--date-range=a:b", "--filter-commit-hash=abc=def"])).ok().unwrap();
    match c.filter {
        Filter::CommitHash(h) => assert_eq!(h, "abc"),
        _ => panic!("hash not read"),
    }
    assert_eq!(c.function_name, "f");
}

#[test]
fn args_errors() {
    assert!(matches!(parse_args(&args(&["p", "--help"])), Err(ArgsError::Usage)));
    assert!(matches!(parse_args(&args(&["p", "f", "--file-relative"])), Err(ArgsError::NoFileName)));
    assert!(matches!(parse_args(&args(&["p", "f", "--date-range=a"])), Err(ArgsError::NoEndDate)));
    assert!(matches!(parse_args(&args(&["p", "f", "--lang=c"])), Err(ArgsError::InvalidLanguage)));
    match parse_args(&args(&["p", "f", "--nope", "--help"])) {
        Err(ArgsError::UnknownArgument(a)) => assert_eq!(a, "--nope"),
        _ => panic!("unknown argument accepted"),
    }
    let c = parse_args(&args(&["p"])).ok().unwrap();
    assert_eq!(c.function_name, "");
}

fn words(s: &str) -> Vec<String> {
    s.split(' ').map(|w| w.to_string()).collect()
}

#[test]
fn search_words() {
    let s = parse_search(&words("main date range a b file relative x.rs")).ok().unwrap();
    assert_eq!(s.search, "main");
    assert_eq!(s.file, FileFilterType::Relative("x.rs".to_string()));
    match s.filter {
        Filter::DateRange(a, b) => {
            assert_eq!(a, "a");
            assert_eq!(b, "b");
        }
        _ => panic!("range not read"),
    }
    assert_eq!(parse_search(&vec![]).err(), Some("No function name".to_string()));
    assert_eq!(parse_search(&words("main date range a")).err(), Some("No end date given".to_string()));
    assert_eq!(parse_search(&words("main file odd x")).err(), Some("Invalid file type".to_string()));
    assert_eq!(parse_search(&words("main what")).err(), Some("Invalid search command: what".to_string()));
    let s = parse_search(&words("main author email a@b.c")).ok().unwrap();
    assert!(matches!(s.filter, Filter::AuthorEmail(_)));
}

#[test]
fn filter_words() {
    match parse_filter(&words("language rust")) {
        Ok(AppFilter::Plain(Filter::Language(l))) => assert_eq!(l, "rust"),
        _ => panic!("language not read"),
    }
    match parse_filter(&words("file directory src")) {
        Ok(AppFilter::Plain(Filter::Directory(d))) => assert_eq!(d, "src"),
        _ => panic!("directory not read"),
    }
    assert!(matches!(parse_filter(&words("function_in_lines 1 9")), Ok(AppFilter::Grep(_))));
    match parse_filter(&words("function_in_lines 1")) {
        Err(e) => assert_eq!(e, "filters of function_in_lines could not be parsed properly, reason: invalid options for function_with_parameters filter\nexpected [number] [number]\n missing second [number] "),
        Ok(_) => panic!("missing number accepted"),
    }
    assert_eq!(
        parse_filter(&words("nope")).err(),
        Some("Invalid search command filter: nope".to_string())
    );
    assert_eq!(parse_filter(&words("commit")).err(), Some("No commit given".to_string()));
}

#[test]
fn list_words() {
    assert_eq!(parse_list(&words("dates")), Ok(ListType::Dates));
    assert_eq!(parse_list(&words("commits")), Ok(ListType::Commits));
    assert_eq!(parse_list(&words("commits dates")), Err("Invalid list type".to_string()));
}

#[test]
fn command_lines() {
    assert!(matches!(parse_command_line("list dates"), Ok(ParsedCommand::List(ListType::Dates))));
    assert_eq!(parse_command_line("list").err(), Some("No command given".to_string()));
    assert_eq!(parse_command_line("go x").err(), Some("Invalid command: go".to_string()));
    assert!(matches!(parse_command_line("search main"), Ok(ParsedCommand::Search(_))));
}

#[test]
fn app_status_follows_commands() {
    let mut app = App::new(Status::Loading, "search a\nlist dates");
    assert_eq!(app.history.len(), 2);
    assert_eq!(app.history_index, 1);
    assert!(app.parse_command("list dates").is_some());
    assert!(matches!(app.status(), Status::Loading));
    assert!(app.parse_command("bad").is_none());
    match app.status() {
        Status::Error(e) => assert_eq!(e, "No command given"),
        _ => panic!("no error"),
    }
}

#[test]
fn app_keys() {
    let mut app = App::new(Status::Loading, "");
    assert_eq!(app.do_action(Key::Char('q')), AppReturn::Exit);
    assert_eq!(app.do_action(Key::Char(':')), AppReturn::Continue);
    assert!(matches!(app.state(), AppState::Editing));
    assert_eq!(app.do_action(Key::Up), AppReturn::Continue);
    assert_eq!(app.scroll_pos.0, 0);
    app.cmd_output = CommandResult::String(vec!["a".to_string(), "b".to_string()]);
    assert_eq!(app.do_action(Key::Down), AppReturn::Continue);
    assert_eq!(app.scroll_pos.0, 1);
    assert_eq!(app.do_action(Key::Down), AppReturn::Continue);
    assert_eq!(app.scroll_pos.0, 2);
    assert_eq!(app.do_action(Key::Char('j')), AppReturn::Continue);
    assert_eq!(app.scroll_pos.0, 2);
    assert_eq!(app.do_action(Key::Char('k')), AppReturn::Continue);
    assert_eq!(app.scroll_pos.0, 1);
    assert_eq!(app.do_action(Key::Unknown), AppReturn::Continue);
    assert_eq!(app.actions().actions().len(), 8);
    assert_eq!(Action::Quit.to_string(), "Quit");
}

#[test]
fn app_results_and_history() {
    let mut app = App::new(Status::Loading, "one");
    app.receive_result(CommandResult::Empty, Status::Error("bad why because why more".to_string()));
    match app.status() {
        Status::Error(e) => assert_eq!(e, " error recieved last command didn't work; bad  because "),
        _ => panic!("no error"),
    }
    app.receive_result(CommandResult::String(vec!["x".to_string()]), Status::Success(None));
    assert!(matches!(app.cmd_output(), CommandResult::String(_)));
    assert_eq!(app.reset_and_save("one"), None);
    assert_eq!(app.reset_and_save(""), None);
    assert_eq!(app.reset_and_save(" two "), Some(" two \n".to_string()));
    assert_eq!(app.history, vec!["one".to_string(), "two".to_string()]);
    app.history_index = 2;
    assert_eq!(app.scroll_up(), "two");
    assert_eq!(app.scroll_up(), "one");
    assert_eq!(app.scroll_up(), "one");
    assert_eq!(app.scroll_down(), "two");
    assert_eq!(app.scroll_down(), "two");
}

#[test]
fn history_filter_kinds() {
    let f = HistoryFilterType::DateRange("a".to_string(), "b".to_string()).to_filter();
    assert!(matches!(f, Some(Filter::DateRange(ref x, ref y)) if x == "a" && y == "b"));
    let f = HistoryFilterType::Directory("src".to_string()).to_filter();
    assert!(matches!(f, Some(Filter::Directory(ref x)) if x == "src"));
    assert!(HistoryFilterType::NoFilter.to_filter().is_none());
    assert_eq!(HistoryFilterType::CommitHash(String::new()).to_string(), "commit hash");
}
