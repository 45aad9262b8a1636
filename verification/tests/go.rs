use git_function_history::languages::go::{GoFilter, GoParameter};
use git_function_history::languages::go_parse::{
    find_function_in_file, functions_named, go_function_from_decl, parameters_of, returns_of,
    GoDecl, GoField,
};

const SOURCE: &str = "package main\n\n// adds two numbers\nfunc add(a int, b int) int {\n\treturn a + b\n}\n\nfunc (s *Server) add(x, y int) (q int, err error) {\n\treturn 0, nil\n}\n";

fn field(names: &[&str], ty: Option<&str>) -> GoField {
    GoField {
        names: names.iter().map(|n| n.to_string()).collect(),
        type_ident: ty.map(|t| t.to_string()),
    }
}

fn named(p: &GoParameter) -> Vec<(String, String)> {
    match p {
        GoParameter::Named(v) => {
            let mut v: Vec<(String, String)> = v.iter().map(|(a, b)| (a.clone(), b.clone())).collect();
            v.sort();
            v
        }
        GoParameter::Type(_) => panic!("expected named parameters"),
    }
}

#[test]
fn go_finds_function_and_method() {
    let found = find_function_in_file(SOURCE, "add").unwrap();
    assert_eq!(found.len(), 2);
    let f = &found[0];
    assert_eq!(f.name, "add");
    assert_eq!(
        f.body,
        "// adds two numbers\nfunc add(a int, b int) int {\n\treturn a + b\n}"
    );
    assert_eq!(f.lines, (2, 5));
    assert_eq!(
        named(&f.parameters),
        vec![("a".to_string(), "int".to_string()), ("b".to_string(), "int".to_string())]
    );
    assert_eq!(f.return_type, None);
    let m = &found[1];
    assert_eq!(
        m.body,
        "func (s *Server) add(x, y int) (q int, err error) {\n\treturn 0, nil\n}"
    );
    assert_eq!(m.lines, (7, 9));
    assert_eq!(
        named(&m.parameters),
        vec![("x".to_string(), "int".to_string()), ("y".to_string(), "int".to_string())]
    );
    assert_eq!(m.return_type, Some("qerr".to_string()));
    assert!(GoFilter::FunctionWithReturnType("err".to_string()).matches(m));
    assert!(GoFilter::FunctionWithParameterName("y".to_string()).matches(m));
    assert!(!GoFilter::FunctionWithParameterName("y".to_string()).matches(f));
}

#[test]
fn go_missing_function_is_an_error() {
    let r = find_function_in_file(SOURCE, "sub");
    assert_eq!(r.err(), Some("could not find function sub in file".to_string()));
}

#[test]
fn go_parse_error_is_an_error() {
    assert!(find_function_in_file("func (", "f").is_err());
}

#[test]
fn go_function_from_plain_declaration() {
    let text = "package p\n\n/* doc */\nfunc f() {\n}\n";
    let decl = GoDecl {
        name: "f".to_string(),
        name_pos: text.find("f()").unwrap(),
        recv_pos: None,
        doc_positions: vec![text.find("/*").unwrap()],
        body_end: Some(text.rfind('}').unwrap()),
        params: vec![],
        results: vec![],
    };
    let f = go_function_from_decl(text, &decl).unwrap();
    assert_eq!(f.body, "/* doc */\nfunc f() {\n}");
    assert_eq!(f.lines, (2, 4));
    assert!(matches!(&f.parameters, GoParameter::Type(v) if v.is_empty()));
    let no_body = GoDecl { body_end: None, ..decl };
    assert!(go_function_from_decl(text, &no_body).is_none());
    let found = functions_named(text, "g", &vec![no_body]);
    assert_eq!(found.err(), Some("could not find function g in file".to_string()));
}

#[test]
fn go_parameter_kinds() {
    let types = parameters_of(&vec![field(&[], Some("int")), field(&[], Some("string")), field(&["x"], Some("int"))]);
    match types {
        GoParameter::Type(v) => assert_eq!(v, vec!["int".to_string(), "string".to_string()]),
        GoParameter::Named(_) => panic!("expected types"),
    }
    let names = parameters_of(&vec![field(&["a"], Some("int")), field(&[], Some("bool")), field(&["a", "b"], None)]);
    assert_eq!(
        named(&names),
        vec![("a".to_string(), String::new()), ("b".to_string(), String::new())]
    );
    assert_eq!(returns_of(&vec![field(&[], Some("int"))]), None);
    assert_eq!(returns_of(&vec![field(&["n"], Some("int")), field(&["e"], None)]), Some("ne".to_string()));
}
