use git_function_history::grep::{FoundRange, GrepError, ParsedFile, SupportedLanguage};

#[test]
fn search_known_language() {
    let results = ParsedFile::search_file("foo", "fn foo() {}\n fn bar()\n", SupportedLanguage::Rust).ok().unwrap();
    assert_eq!(
        results.results(),
        vec![FoundRange { start_byte: 0, end_byte: 11, start_row: 0, end_row: 0 }]
    );
    assert_eq!(results.to_string(), "1: fn foo() {}".to_string());
}

#[test]
fn search_by_file_name() {
    let results = ParsedFile::search_file_with_name(
        "foo",
        "fn foo() {}\n fn bar()\n",
        "test.rs",
        &vec![SupportedLanguage::Rust],
    )
    .ok()
    .unwrap();
    assert_eq!(
        results.results(),
        vec![FoundRange { start_byte: 0, end_byte: 11, start_row: 0, end_row: 0 }]
    );
    assert_eq!(results.file_name(), Some("test.rs".to_string()));
}

#[test]
fn search_errors() {
    assert!(matches!(
        ParsedFile::search_file("baz", "fn foo() {}\n", SupportedLanguage::Rust),
        Err(GrepError::NoResultsForSearch)
    ));
    assert!(matches!(
        ParsedFile::search_file_with_name("foo", "fn foo() {}\n", "test.txt", &vec![SupportedLanguage::Rust]),
        Err(GrepError::FileTypeUnkown(_))
    ));
}
