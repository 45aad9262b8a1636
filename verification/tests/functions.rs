use git_function_history::languages::java::{JavaBlock, JavaBlockType, JavaFunction};
use git_function_history::languages::python;
use git_function_history::languages::rust::find_function_in_commit;
use git_function_history::new_types::{File, FileType};

#[test]
fn java_fn_print() {
    let java_class1 = JavaBlock {
        name: "Test".to_string(),
        line: (1, 1),
        top: "1: public class Test {".to_string(),
        bottom: "30: }".to_string(),
        type_: JavaBlockType::Class,
    };
    let java_class2 = JavaBlock {
        name: "Test2".to_string(),
        line: (1, 1),
        top: "3:    public class Test2 {".to_string(),
        bottom: "28:    }".to_string(),
        type_: JavaBlockType::Class,
    };
    let java_fn = JavaFunction::new(
        "main".to_string(),
        (1, 1),
        vec![],
        "5:        public static void main(String[] args) {
7:            System.out.println(\"Hello, World\");
8:        }"
            .to_string(),
        vec![java_class1, java_class2],
    );
    println!("{}", java_fn.to_string());
}

#[test]
fn it_works() {
    let fc = r#"
        fn main() {
            println!("Hello, world!");
        }
        "#;
    let rf = find_function_in_commit(fc, "main").unwrap();
    let f = File {
        file_name: "test.rs".to_string(),
        functions: rf,
    };
    let fts: FileType = FileType::Rust(f);

    println!("{}", fts.get_file_name());
    println!("{:?}", fts.get_functions());

    let fc = r#"def main():
    print("Hello, world!")

def main2():
    print("Hello, world!")
        "#;
    let rf = python::find_function_in_commit(fc, "main").unwrap();
    let f = File {
        file_name: "test.py".to_string(),
        functions: rf,
    };
    let ft: FileType = FileType::Python(f);
    let mut vec = Vec::new();
    vec.push(ft);
    vec.push(fts);
}
