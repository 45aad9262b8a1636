use git_function_history::languages::rust::BlockType;
use git_function_history::things::{Block, CommitFunctions, File, Filter, Function, FunctionBlock, FunctionHistory};
use git_function_history::types::Directions;

fn parent(name: &str, lines: (usize, usize)) -> FunctionBlock {
    FunctionBlock {
        name: name.to_string(),
        top: format!("{}: fn {name}() {{", lines.0),
        bottom: format!("{}: }}", lines.1),
        lines,
    }
}

fn function(name: &str, lines: (usize, usize), parents: Vec<FunctionBlock>, block: bool) -> Function {
    Function {
        name: name.to_string(),
        contents: format!("{}: fn {name}() {{}}", lines.0),
        block: if block {
            Some(Block {
                name: None,
                top: "1: impl T {".to_string(),
                bottom: "20: }".to_string(),
                block_type: BlockType::Impl,
                lines: (1, 20),
            })
        } else {
            None
        },
        function: Some(parents),
        lines,
    }
}

#[test]
fn function_alone() {
    let f = function("a", (3, 3), vec![parent("outer", (2, 4))], true);
    assert_eq!(
        f.to_string(),
        "1: impl T {\n...\n2: fn outer() {\n...\n3: fn a() {}\n...\n4: }\n...20: }"
    );
}

#[test]
fn context_skips_shared_parts() {
    let a = function("a", (3, 3), vec![parent("outer", (2, 6))], true);
    let b = function("a", (5, 5), vec![parent("outer", (2, 6))], true);
    assert_eq!(a.fmt_with_context(None, Some(&b)), "1: impl T {\n...\n2: fn outer() {\n...\n3: fn a() {}");
    assert_eq!(b.fmt_with_context(Some(&a), None), "5: fn a() {}\n...\n6: }\n...20: }");
    let file = File::new("src/lib.rs".to_string(), vec![a.duplicate(), b.duplicate()]);
    assert_eq!(
        file.to_string(),
        "1: impl T {\n...\n2: fn outer() {\n...\n3: fn a() {}\n...\n5: fn a() {}\n...\n6: }\n...20: }"
    );
}

#[test]
fn file_filters() {
    let file = File::new(
        "src/lib.rs".to_string(),
        vec![
            function("a", (3, 3), vec![parent("outer", (2, 6))], true),
            function("a", (10, 12), vec![], false),
        ],
    );
    let in_impl = file.filter_by(&Filter::FunctionInBlock(BlockType::Impl)).ok().unwrap();
    assert_eq!(in_impl.functions.len(), 1);
    assert_eq!(in_impl.functions[0].lines, (3, 3));
    let in_lines = file.filter_by(&Filter::FunctionInLines(9, 12)).ok().unwrap();
    assert_eq!(in_lines.functions[0].lines, (10, 12));
    let with_parent = file.filter_by(&Filter::FunctionWithParent("outer".to_string())).ok().unwrap();
    assert_eq!(with_parent.functions.len(), 1);
    assert_eq!(
        file.filter_by(&Filter::FunctionInBlock(BlockType::Trait)).err(),
        Some("No functions found for filter".to_string())
    );
    assert_eq!(file.filter_by(&Filter::CommitId("x".to_string())).err(), Some("Filter not available".to_string()));
}

#[test]
fn commit_functions() {
    let files = vec![
        File::new("src/lib.rs".to_string(), vec![function("a", (3, 3), vec![], true)]),
        File::new("src/main.rs".to_string(), vec![function("a", (8, 9), vec![], false)]),
    ];
    let mut c = CommitFunctions::checked_new("abc".to_string(), files, "Mon, 1 Jan 2024 00:00:00 +0000").unwrap();
    assert!(matches!(c.get_move_direction(), Directions::Forward));
    assert!(c.move_forward());
    assert!(!c.move_forward());
    assert!(matches!(c.get_move_direction(), Directions::Back));
    assert_eq!(c.get_file().name, "src/main.rs");
    let meta = c.get_metadata();
    assert_eq!(meta[0], ("commit hash".to_string(), "abc".to_string()));
    assert_eq!(meta[1].0, "date");
    assert_eq!(meta[2], ("file".to_string(), "src/main.rs".to_string()));
    assert_eq!(c.to_string(), "8: fn a() {}\n");
    assert!(c.move_back());
    let only_main = c.filter_by(&Filter::FileRelative("main.rs".to_string())).ok().unwrap();
    assert_eq!(only_main.get_file().name, "src/main.rs");
    assert!(c.filter_by(&Filter::CommitId("abc".to_string())).is_err());
    assert!(CommitFunctions::checked_new("x".to_string(), vec![], "not a date").is_none());
}

fn commit(id: &str, date: &str, lines: (usize, usize)) -> CommitFunctions {
    CommitFunctions::checked_new(
        id.to_string(),
        vec![File::new("src/lib.rs".to_string(), vec![function("a", lines, vec![], true)])],
        date,
    )
    .unwrap()
}

#[test]
fn history_moves_and_filters() {
    let mut h = FunctionHistory::new(
        "a".to_string(),
        vec![
            commit("one", "Mon, 1 Jan 2024 00:00:00 +0000", (3, 3)),
            commit("two", "Tue, 2 Jan 2024 00:00:00 +0000", (30, 31)),
        ],
    );
    assert_eq!(h.list_commit_ids(), vec!["one".to_string(), "two".to_string()]);
    assert!(matches!(h.get_move_direction(), Directions::Forward));
    assert!(!h.move_back());
    assert!(h.move_forward());
    assert!(!h.move_forward());
    assert_eq!(h.get_commit().get_metadata()[0].1, "two");
    assert_eq!(h.to_string(), "1: impl T {\n...\n30: fn a() {}\n...20: }\n\n");
    assert!(!h.move_forward_file());
    let by_id = h.filter_by(&Filter::CommitId("one".to_string())).unwrap();
    assert_eq!(by_id.list_commit_ids(), vec!["one".to_string()]);
    let by_lines = h.filter_by(&Filter::FunctionInLines(1, 10)).unwrap();
    assert_eq!(by_lines.list_commit_ids(), vec!["one".to_string()]);
    assert_eq!(
        h.filter_by(&Filter::CommitId("three".to_string())).err(),
        Some("No history found for the filter".to_string())
    );
    assert_eq!(h.filter_by(&Filter::NoFilter).err(), Some("Invalid filter".to_string()));
    let range = Filter::DateRange(
        "Wed, 3 Jan 2024 00:00:00 +0000".to_string(),
        "Mon, 1 Jan 2024 00:00:00 +0000".to_string(),
    );
    assert_eq!(h.filter_by(&range).err(), Some("Start date is after end date".to_string()));
    let range = Filter::DateRange(
        "Mon, 1 Jan 2024 12:00:00 +0000".to_string(),
        "Mon, 1 Jan 2024 13:00:00 +0000".to_string(),
    );
    assert_eq!(h.filter_by(&range).err(), Some("No history found for the filter".to_string()));
    let range = Filter::DateRange(
        "Mon, 1 Jan 2024 12:00:00 +0000".to_string(),
        "Tue, 2 Jan 2024 13:00:00 +0000".to_string(),
    );
    assert_eq!(h.filter_by(&range).unwrap().list_commit_ids(), vec!["two".to_string()]);
    let date = Filter::Date("Tue, 2 Jan 2024 00:00:00 +0000".to_string());
    assert_eq!(h.filter_by(&date).unwrap().list_commit_ids(), vec!["two".to_string()]);
    let bad = Filter::DateRange("not a date".to_string(), "Mon, 1 Jan 2024 13:00:00 +0000".to_string());
    assert!(h.checked_filter_by(&bad).is_none());
    assert!(h.checked_filter_by(&date).is_some());
}
