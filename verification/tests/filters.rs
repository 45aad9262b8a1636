use git_function_history::filters::general_filters::{
    parse_with_param, FunctionInImpl, FunctionInLines, FunctionWithParameterPython,
    FunctionWithParameterRust, TreeSitterQueryFilter,
};
use git_function_history::filters::{
    extra, label, number, string, AnyLanguageFilter, Filter, FilterFunction, Filters,
    HasFilterInformation, OneLanguageFilter, SingleOrMany, SupportedLanguages,
};

fn words(s: &str) -> Vec<String> {
    s.split(' ').map(|w| w.to_string()).collect()
}

#[test]
fn lines_as_two_numbers() {
    assert_eq!(FunctionInLines::from_str("1 5"), Ok((1, 5)));
}

#[test]
fn lines_with_labels() {
    assert_eq!(FunctionInLines::from_str("start: 2 end: 8"), Ok((2, 8)));
    assert_eq!(FunctionInLines::from_str("end: 8 start: 2"), Ok((2, 8)));
}

#[test]
fn lines_errors() {
    assert_eq!(
        FunctionInLines::from_str("start: x end: 8"),
        Err("invalid options for function_with_parameters filter\nexpected start: [number] end: [number]\n cannot parse start: [number]".to_string())
    );
    assert_eq!(
        FunctionInLines::from_str("start: 2"),
        Err("invalid options for function_with_parameters filter\nexpected start: [number] end: [number]\n missing label end:".to_string())
    );
    assert_eq!(
        FunctionInLines::from_str("start: 2 stop: 4"),
        Err("invalid options for function_with_parameters filter\n expected start: [number] end: [number]\nexpected end:, found stop:".to_string())
    );
    assert_eq!(
        FunctionInLines::from_str("1"),
        Err("invalid options for function_with_parameters filter\nexpected [number] [number]\n missing second [number]".to_string())
    );
    assert_eq!(
        FunctionInLines::from_str("1 2 3"),
        Err("invalid options for function_with_parameters filter\nexpected [number] [number]\n, found extra stuff after [number] [number]: 3".to_string())
    );
    assert_eq!(
        FunctionInLines::from_str("a b"),
        Err("invalid options for function_in_lines filter\nexpected [number] [number], start: [number] end: [number], or end: [number] start: [number]\ngiven a".to_string())
    );
}

#[test]
fn option_readers() {
    let ws = words("3 x");
    let mut pos = 0;
    assert_eq!(number(&ws, &mut pos, "f", "p", "n"), Ok(3));
    assert_eq!(pos, 1);
    assert!(number(&ws, &mut pos, "f", "p", "n").is_err());
    assert_eq!(pos, 2);
    assert_eq!(
        number(&ws, &mut pos, "f", "p", "n"),
        Err("invalid options for n filter\nexpected f\n missing p [number]".to_string())
    );
    assert_eq!(pos, 2);
    let ws = words("a");
    let mut pos = 0;
    assert_eq!(label(&ws, &mut pos, "f", "a", "n"), Ok(()));
    assert_eq!(extra(&ws, &mut pos, "f", "n"), Ok(()));
    let mut pos = 0;
    assert_eq!(string(&ws, &mut pos, "f", "p", "n"), Ok("a".to_string()));
    assert_eq!(
        string(&ws, &mut pos, "f", "p", "n"),
        Err("invalid options for function_with_parameter filter\nexpected f\n missing p [number]".to_string())
    );
}

#[test]
fn impl_filter_takes_no_options() {
    assert!(matches!(FunctionInImpl.parse_filter(""), Ok(FilterFunction::InImpl)));
    match FunctionInImpl.parse_filter("x") {
        Err(e) => assert_eq!(
            e,
            "invalid options for function_in_impl, this filter accepts not options, but got x"
        ),
        Ok(_) => panic!("options accepted"),
    }
}

#[test]
fn query_filter_joins_words() {
    match TreeSitterQueryFilter.parse_filter("query: (function_item) @f") {
        Ok(FilterFunction::Query(q)) => assert_eq!(q, "(function_item) @f"),
        _ => panic!("query not read"),
    }
    match TreeSitterQueryFilter.parse_filter(" (function_item type_parameters: (type_parameters))") {
        Ok(FilterFunction::Query(q)) => {
            assert_eq!(q, " (function_item type_parameters: (type_parameters))")
        }
        _ => panic!("query not read"),
    }
}

#[test]
fn parameter_options() {
    assert_eq!(parse_with_param("name: x"), Ok("x".to_string()));
    assert_eq!(parse_with_param("x"), Ok("x".to_string()));
    assert_eq!(
        parse_with_param("x y"),
        Err("invalid options for function_with_parameters filter\nexpected [string]\n, found extra stuff after [string]: y".to_string())
    );
    assert_eq!(
        parse_with_param("name:"),
        Err("invalid options for function_with_parameter filter\nexpected name: [string]\n missing name: [number]".to_string())
    );
}

#[test]
fn rust_parameter_filter_compiles_its_query() {
    match FunctionWithParameterRust.parse_filter("name: self") {
        Ok(FilterFunction::WithParameter(p)) => assert_eq!(p, "self"),
        _ => panic!("the parameter query should compile"),
    }
}

#[test]
fn filter_descriptions() {
    assert_eq!(FunctionInLines.filter_name(), "function_in_lines");
    assert_eq!(FunctionInImpl.supports().0, "Rust");
    assert_eq!(FunctionWithParameterPython.supports().0, "Python");
    assert_eq!(FunctionWithParameterRust.attributes().len(), 1);
    assert_eq!(FunctionInLines.attributes().len(), 2);
    let info = FunctionInLines.filter_info();
    assert_eq!(info.filter_name(), "function_in_lines");
    assert_eq!(info.to_string(), "filter function_in_lines");
}

#[test]
fn default_filters() {
    let filters = Filters::default();
    assert!(matches!(
        filters.get_filter("function_in_lines"),
        Some(SingleOrMany::All(AnyLanguageFilter::FunctionInLines))
    ));
    assert!(filters.get_filter("tree_sitter_query").is_none());
    match filters.get_filter("function_in_impl") {
        Some(f) => {
            assert_eq!(f.filter_name(), "function_in_impl");
            match f.supports() {
                SupportedLanguages::Many(v) => assert_eq!(v, vec!["Rust".to_string()]),
                _ => panic!("one language"),
            }
        }
        None => panic!("missing filter"),
    }
}

#[test]
fn filter_type_to_filter() {
    let filters = Filters::default();
    let lines = filters.get_filter("function_in_lines").unwrap();
    match lines.to_filter("2 4") {
        Ok(SingleOrMany::All(f)) => {
            assert!(matches!(f.function(), FilterFunction::InLines(2, 4)));
            assert_eq!(f.filter_name(), "function_in_lines");
        }
        _ => panic!("filter not read"),
    }
    let with_param = filters.get_filter("function_with_parameter").unwrap();
    match with_param.to_filter("a b") {
        Err(e) => assert_eq!(e, "invalid options for function_with_parameters filter\nexpected [string]\n, found extra stuff after [string]: b"),
        Ok(_) => panic!("extra words accepted"),
    }
    match with_param.to_filter("a") {
        Ok(SingleOrMany::Many(m)) => {
            assert_eq!(m.name, "function_with_parameter");
            assert_eq!(m.filters.len(), 1);
            assert_eq!(m.filters[0].0, "Rust");
        }
        _ => panic!("filter not read"),
    }
    assert!(matches!(
        OneLanguageFilter::FunctionInImpl.to_filter(""),
        Ok(_)
    ));
}
