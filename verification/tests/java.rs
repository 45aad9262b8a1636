use git_function_history::languages::java_parse::{find_methods_in_units, JavaMethodNode, JavaModifier, JavaNode};

fn method(name: &str, modifiers: Vec<JavaModifier>, return_type_line: Option<usize>) -> JavaNode {
    JavaNode::Method(JavaMethodNode { name: name.to_string(), modifiers, return_type_line })
}

#[test]
fn java_methods_found_in_bodies() {
    let units = vec![
        JavaNode::Class(vec![
            method("main", vec![JavaModifier::Keyword(3)], None),
            JavaNode::Class(vec![method("main", vec![], Some(5))]),
            method("other", vec![], None),
            JavaNode::Other,
        ]),
        JavaNode::Enum(None),
        JavaNode::Annotation(vec![method("main", vec![], None)]),
        JavaNode::Interface(vec![method("main", vec![JavaModifier::Normal(vec![2, 4])], None)]),
    ];
    let found = find_methods_in_units(&units, "main").unwrap();
    assert_eq!(found.len(), 3);
    for f in &found {
        assert_eq!(f.name, "test");
        assert_eq!(f.body, "test");
        assert_eq!(f.lines, (0, 0));
        assert!(f.args.is_empty() && f.class.is_empty());
    }
    assert!(find_methods_in_units(&units, "none").unwrap().is_empty());
}

#[test]
fn java_method_without_start_is_an_error() {
    let units = vec![JavaNode::Interface(vec![
        method("main", vec![JavaModifier::Keyword(1)], None),
        JavaNode::Enum(Some(vec![method("main", vec![JavaModifier::Marker, JavaModifier::Single], None)])),
    ])];
    assert_eq!(
        find_methods_in_units(&units, "main").err(),
        Some("could not find top of method".to_string())
    );
}

#[test]
fn java() {
    // the compilation unit of
    //     @Company
    //         public class Test {
    //             void main(String[] args) {
    //                 // System.out.println("Hello, World");
    //             }
    //         }
    // : a class whose body holds `main`, with no modifiers and its return type on line 4
    let units = vec![JavaNode::Class(vec![method("main", vec![], Some(4))])];
    let function = find_methods_in_units(&units, "main").unwrap();
    println!("{:#?}", function);
}
