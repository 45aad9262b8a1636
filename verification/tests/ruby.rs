use git_function_history::languages::ruby::{RubyArg, RubyFilter, RubyParams};
use git_function_history::languages::ruby_parse::{find_function_in_file, methods_in_tree, RubyDefInfo, RubyNode};
use git_function_history::languages::FunctionTrait;

const SOURCE: &str = "class Foo < Bar\n  def hello(a, *rest, b: 1, **opts)\n    a\n  end\nend\n\ndef hello\nend\n";

#[test]
fn ruby_finds_methods_in_and_out_of_classes() {
    let found = find_function_in_file(SOURCE, "hello").unwrap();
    assert_eq!(found.len(), 2);
    let m = &found[0];
    assert_eq!(m.name, "hello");
    assert_eq!(m.lines, (2, 5));
    assert_eq!(
        m.body,
        "2:   def hello(a, *rest, b: 1, **opts)\n3:     a\n4:   end"
    );
    assert_eq!(m.class.len(), 1);
    assert_eq!(m.class[0].name, "Foo");
    assert_eq!(m.class[0].superclass, Some("Bar".to_string()));
    assert_eq!(m.class[0].lines, (1, 6));
    assert_eq!(m.class[0].top, "1: class Foo < Bar\n2:");
    assert_eq!(m.get_total_lines(), (1, 6));
    assert!(RubyFilter::FunctionInClass("Foo".to_string()).matches(m));
    assert!(RubyFilter::FunctionWithSuperClass("Bar".to_string()).matches(m));
    assert!(RubyFilter::FunctionWithParameter("rest".to_string()).matches(m));
    assert!(RubyFilter::FunctionWithParameter("opts".to_string()).matches(m));
    assert!(!RubyFilter::FunctionWithParameter("1".to_string()).matches(m));
    assert!(!RubyFilter::FunctionWithParameter("c".to_string()).matches(m));
    let top = &found[1];
    assert_eq!(top.lines, (7, 9));
    assert_eq!(top.body, "7: def hello\n8: end");
    assert!(top.class.is_empty());
    assert!(!RubyFilter::FunctionInClass("Foo".to_string()).matches(top));
}

#[test]
fn ruby_missing_method_is_an_error() {
    let r = find_function_in_file(SOURCE, "bye");
    assert_eq!(
        r.err(),
        Some("No functions with this name was found in the this file".to_string())
    );
}

#[test]
fn ruby_syntax_error_is_an_error() {
    assert!(find_function_in_file("def (", "f").is_err());
}

#[test]
fn ruby_methods_from_plain_tree() {
    let text = "def f(x)\nend\n";
    let tree = RubyNode::Begin(vec![
        RubyNode::Other,
        RubyNode::Def(RubyDefInfo {
            name: "f".to_string(),
            begin: 0,
            end: text.find("end").unwrap() + 3,
            args: vec![RubyArg::Arg("x".to_string())],
        }),
    ]);
    let found = methods_in_tree(text, "f", &tree).unwrap();
    assert_eq!(found.len(), 1);
    assert_eq!(found[0].body, "1: def f(x)\n2: end");
    assert!(RubyFilter::FunctionWithParameter("x".to_string()).matches(&found[0]));
    assert!(methods_in_tree(text, "g", &tree).is_err());
}

#[test]
fn ruby_parameters_from_nodes() {
    let text = "def f(k: 42)\nend";
    let start = text.find("42").unwrap();
    let p = RubyParams::from_args(
        &vec![
            RubyArg::Kwoptarg("k".to_string(), start, start + 2),
            RubyArg::Restarg(None),
            RubyArg::Kwnilarg,
        ],
        text,
    );
    let f = git_function_history::languages::ruby::RubyFunction::new(
        "f".to_string(),
        (1, 2),
        vec![],
        p,
        String::new(),
    );
    assert!(!RubyFilter::FunctionWithParameter("42".to_string()).matches(&f));
    assert!(RubyFilter::FunctionWithParameter("k".to_string()).matches(&f));
    let bad = RubyParams::from_args(&vec![RubyArg::Kwoptarg("k".to_string(), 5, 1000)], text);
    let g = git_function_history::languages::ruby::RubyFunction::new(
        "g".to_string(),
        (1, 2),
        vec![],
        bad,
        String::new(),
    );
    assert!(!RubyFilter::FunctionWithParameter("could not retrieve default value".to_string()).matches(&g));
}
