use git_function_history::languages::umpl::{UMPLFilter, UMPLFunction};
use git_function_history::languages::umpl_parse::{find_function_in_file, UmplFunctionNode, UmplThing};
use git_function_history::languages::FunctionTrait;

fn func(name: char, line: usize, end_line: usize, body: Vec<UmplThing>) -> UmplThing {
    UmplThing::Function(UmplFunctionNode { name, num_arguments: 1, body, line, end_line })
}

const FILE: &str = "⧼a 1 ⧼\n  ⧼b 1 ⧼\n    x\n  ⧽\n⧽\n";

#[test]
fn finds_nested_function() {
    let ast = vec![func('a', 1, 5, vec![func('b', 2, 4, vec![UmplThing::Other(3)])])];
    let found: Vec<UMPLFunction> = find_function_in_file(FILE, "b", &ast).ok().unwrap();
    assert_eq!(found.len(), 1);
    let b = &found[0];
    assert_eq!(b.lines, (2, 4));
    assert_eq!(b.body, "2:   ⧼b 1 ⧼\n3:     x\n4:   ⧽");
    assert_eq!(b.parents.len(), 1);
    assert_eq!(b.parents[0].name, "a");
    assert_eq!(b.parents[0].top, "1: ⧼a 1 ⧼");
    assert_eq!(b.parents[0].bottom, "5: ⧽");
    assert_eq!(b.get_total_lines(), (1, 5));
    assert_eq!(b.to_string(), "1: ⧼a 1 ⧼\n...\n2:   ⧼b 1 ⧼\n3:     x\n4:   ⧽\n...\n5: ⧽");
    assert!(UMPLFilter::HasParentWithName("a".to_string()).matches(b));
    assert!(UMPLFilter::HasParents.matches(b));
}

#[test]
fn searches_loops_and_ifs() {
    let ast = vec![
        UmplThing::LoopStatement(vec![func('c', 1, 1, vec![])], 1),
        UmplThing::IfStatement(vec![], vec![func('c', 2, 2, vec![])], 2),
    ];
    let found = find_function_in_file("⧼c⧽\n⧼c⧽\n", "c", &ast).ok().unwrap();
    assert_eq!(found.len(), 2);
    assert_eq!(found[0].body, "1: ⧼c⧽");
    assert_eq!(found[1].lines, (2, 2));
}

#[test]
fn umpl_not_found() {
    let ast = vec![func('a', 1, 1, vec![])];
    assert_eq!(find_function_in_file("⧼a⧽\n", "z", &ast).err(), Some("Function not found".to_string()));
}
