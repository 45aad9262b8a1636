use git_function_history::grep::SupportedLanguage;
use git_function_history::history::{get_function_history, CommitData};
use git_function_history::{FileFilterType, Filter};

const TEST_FUNCTIONS: &str = "use std::error::Error;\nuse std::fmt::Debug;\npub fn empty_test() {\n\n}\n\npub fn not_empty_test() {\n    println!(\"not empty test\");\n}\n\npub struct Test<a> {\n    pub contents: String,\n}\n\nimpl<a> Test<a> {\n    /// empty test\n    pub fn empty_test<'a>() {\n        println!(\"empty test\");\n    }\n}\n";

fn commits() -> Vec<CommitData> {
    vec![
        CommitData {
            hash: "0123456789abcdef".to_string(),
            time: 1_700_000_000,
            author: "someone".to_string(),
            email: "someone@example.com".to_string(),
            message: "add tests".to_string(),
            files: vec![
                ("src/test_functions.rs".to_string(), TEST_FUNCTIONS.to_string()),
                ("README.md".to_string(), "# empty_test".to_string()),
            ],
        },
        CommitData {
            hash: "fedcba9876543210".to_string(),
            time: 1_600_000_000,
            author: "someone".to_string(),
            email: "someone@example.com".to_string(),
            message: "start".to_string(),
            files: vec![("src/main.rs".to_string(), "fn main() {}\n".to_string())],
        },
    ]
}

#[test]
fn lib_found_function() {
    let binding = FileFilterType::Relative("src/test_functions.rs".to_string());
    let output = get_function_history("empty_test", &binding, &Filter::NoFilter, &vec![SupportedLanguage::Rust], &commits());
    match &output {
        Ok(functions) => println!("{}", functions.to_string()),
        Err(e) => println!("{e}"),
    }
    assert!(output.is_ok());
}

#[test]
fn expensive_test() {
    let output = get_function_history("empty_test", &FileFilterType::NoFilter, &Filter::NoFilter, &vec![SupportedLanguage::Rust], &commits());
    match &output {
        Ok(_) => {}
        Err(e) => println!("{e}"),
    }
    assert!(output.is_ok());
}

#[test]
fn not_found() {
    let output = get_function_history("Not_a_function", &FileFilterType::NoFilter, &Filter::NoFilter, &vec![SupportedLanguage::Rust], &commits());
    match &output {
        Ok(output) => println!("{}", output.to_string()),
        Err(error) => println!("{error}"),
    }
    assert!(output.is_err());
}

#[test]
fn not_a_supported_file() {
    let output = get_function_history(
        "empty_test",
        &FileFilterType::Absolute("src/test_functions.txt".to_string()),
        &Filter::NoFilter,
        &vec![SupportedLanguage::Rust],
        &commits(),
    );
    assert!(output.is_err());
    println!("{}", output.as_ref().err().unwrap());
    assert!(output.err().unwrap().contains("is not a supported file"));
}
