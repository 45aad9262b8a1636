use git_function_history::regex_search::{
    blank_out_range, functions_in_file, BlockType, CommitFunctions, FunctionHistory, Points,
};

const SOURCE: &str = "impl Foo {\n    fn empty_test() {\n        let s = \"fn empty_test() {\";\n    }\n}\n\nfn empty_test() {}\n";

#[test]
fn regex_finds_functions_and_blocks() {
    let found = functions_in_file(SOURCE, "empty_test").ok().unwrap();
    assert_eq!(found.len(), 2);
    let f = &found[0];
    assert_eq!(f.name, "empty_test");
    assert_eq!(
        f.contents,
        "2:     fn empty_test() {\n3:         let s = \"fn empty_test() {\";\n4:     }"
    );
    assert_eq!(f.lines, (2, 4));
    let b = f.block.as_ref().unwrap();
    assert_eq!(b.top, "1: impl Foo {");
    assert_eq!(b.bottom, "\n5: }");
    assert_eq!(b.block_type, BlockType::Impl);
    assert_eq!(
        f.to_string(),
        "1: impl Foo {\n...\n2:     fn empty_test() {\n3:         let s = \"fn empty_test() {\";\n4:     }\n...\n5: }"
    );
    let g = &found[1];
    assert_eq!(g.contents, "7: fn empty_test() {}");
    assert_eq!(g.lines, (7, 7));
    assert!(g.block.is_none());
}

#[test]
fn regex_missing_function() {
    assert_eq!(functions_in_file(SOURCE, "other").err(), Some("No functions found".to_string()));
}

#[test]
fn regex_blanking() {
    assert_eq!(blank_out_range("ab\"é\"cd", &vec![(2, 6)]), "ab    cd");
    assert_eq!(blank_out_range("abc", &vec![]), "abc");
    assert!(Points { x: 2, y: 3 }.in_other(&Points { x: 1, y: 4 }));
    assert!(!Points { x: 1, y: 3 }.in_other(&Points { x: 1, y: 4 }));
}

#[test]
fn regex_history() {
    let found = functions_in_file(SOURCE, "empty_test").ok().unwrap();
    let commit = CommitFunctions::new("abc".to_string(), found, "today".to_string());
    let in_impl = commit.get_function_from_block(BlockType::Impl).unwrap();
    assert_eq!(in_impl.functions.len(), 1);
    assert!(commit.get_function_from_block(BlockType::Trait).is_none());
    let late = commit.get_functin_in_lines(5, 10).unwrap();
    assert_eq!(late.functions[0].lines, (7, 7));
    let history = FunctionHistory::new("empty_test".to_string(), vec![commit]);
    assert_eq!(history.list_commit_ids(), vec!["abc".to_string()]);
    assert!(history.get_by_commit_id("abc").is_some());
    assert!(history.get_by_commit_id("abd").is_none());
    assert_eq!(history.get_by_date("today").unwrap().id, "abc");
    assert_eq!(history.get_all_functions_in_block(BlockType::Extern).history.len(), 0);
    assert_eq!(history.get_all_functions_line(1, 4).history[0].functions.len(), 1);
    assert!(history.to_string().starts_with("\nCommit abc\nDate: today\n1: impl Foo {"));
}
