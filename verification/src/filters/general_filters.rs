//! The filters that come with the library: by lines, by impl block, by a
//! tree-sitter query and by parameter name.
use vstd::prelude::*;

use crate::filters::{
    Filter, FilterFunction, FilterSpec,
    err_view, extra, extra_at, label, label_at, number, number_at, string, string_at, words,
    attribute_views, Attribute, AttributeType, HasFilterInformation, All, Language,
};
use crate::languages::str_eq;
use crate::grep::{rust_query_compiles, rust_query_valid};
use crate::text::{
    join, lemma_split_nonempty, push_str, split_at_char, split_char, string_of, views,
    join_with_space, clone_string,
};

verus! {

/// The error for options of `function_in_lines` that start with no known word.
pub open spec fn lines_usage() -> Seq<char> {
    "invalid options for function_in_lines filter\nexpected [number] [number], start: [number] end: [number], or end: [number] start: [number]"@
}

/// The name the option readers give in their errors.
pub open spec fn parameters_filter() -> Seq<char> {
    "function_with_parameters"@
}

/// What the options of `function_in_lines` are read as: the first and last
/// line, or the error.
pub open spec fn lines_options(s: Seq<char>) -> Result<(usize, usize), Seq<char>> {
    let ws = words(s);
    let filter = parameters_filter();
    if ws.len() == 0 {
        Err(lines_usage())
    } else if ws[0] == "start:"@ {
        let format = "start: [number] end: [number]"@;
        match number_at(ws, 1, format, "start:"@, filter) {
            Err(e) => Err(e),
            Ok(start) => match label_at(ws, 2, format, "end:"@, filter) {
                Err(e) => Err(e),
                Ok(_) => match number_at(ws, 3, format, "end:"@, filter) {
                    Err(e) => Err(e),
                    Ok(end) => match extra_at(ws, 4, format, filter) {
                        Err(e) => Err(e),
                        Ok(_) => Ok((start, end)),
                    },
                },
            },
        }
    } else if ws[0] == "end:"@ {
        let format = "end: [number] start: [number]"@;
        match number_at(ws, 1, format, "end:"@, filter) {
            Err(e) => Err(e),
            Ok(end) => match label_at(ws, 2, format, "start:"@, filter) {
                Err(e) => Err(e),
                Ok(_) => match number_at(ws, 3, format, "start:"@, filter) {
                    Err(e) => Err(e),
                    Ok(start) => match extra_at(ws, 4, format, filter) {
                        Err(e) => Err(e),
                        Ok(_) => Ok((start, end)),
                    },
                },
            },
        }
    } else {
        match crate::text::parse_usize(ws[0]) {
            Some(start) => match number_at(ws, 1, "[number] [number]"@, "second"@, filter) {
                Err(e) => Err(e),
                Ok(end) => match extra_at(ws, 2, "[number] [number]"@, filter) {
                    Err(e) => Err(e),
                    Ok(_) => Ok((start, end)),
                },
            },
            None => Err(lines_usage() + "\ngiven "@ + ws[0]),
        }
    }
}

/// Keeps the functions that lie within the given lines.
#[derive(Debug, Clone, Copy, PartialEq, Eq, Structural)]
pub struct FunctionInLines;

impl FunctionInLines {
    /// Reads the options: `[number] [number]`, `start: [number] end: [number]`
    /// or `end: [number] start: [number]`, as the first and last line.
    pub fn from_str(s: &str) -> (r: Result<(usize, usize), String>)
        ensures
            err_view(r) == lines_options(s@),
    {
        let ws = split_char(s, ' ');
        proof {
            lemma_split_nonempty(seq![], s@, ' ');
        }
        let ghost wv = views(ws@);
        assert(wv == words(s@));
        if ws.len() == 0 {
            return Err(string_of(
                "invalid options for function_in_lines filter\nexpected [number] [number], start: [number] end: [number], or end: [number] start: [number]",
            ));
        }
        let filter = "function_with_parameters";
        let mut pos: usize = 1;
        assert(wv[0] == ws@[0]@);
        if str_eq(ws[0].as_str(), "start:") {
            let format = "start: [number] end: [number]";
            let start = match number(&ws, &mut pos, format, "start:", filter) {
                Ok(n) => n,
                Err(e) => return Err(e),
            };
            match label(&ws, &mut pos, format, "end:", filter) {
                Ok(_) => {},
                Err(e) => return Err(e),
            }
            let end = match number(&ws, &mut pos, format, "end:", filter) {
                Ok(n) => n,
                Err(e) => return Err(e),
            };
            match extra(&ws, &mut pos, format, filter) {
                Ok(_) => {},
                Err(e) => return Err(e),
            }
            Ok((start, end))
        } else if str_eq(ws[0].as_str(), "end:") {
            let format = "end: [number] start: [number]";
            let end = match number(&ws, &mut pos, format, "end:", filter) {
                Ok(n) => n,
                Err(e) => return Err(e),
            };
            match label(&ws, &mut pos, format, "start:", filter) {
                Ok(_) => {},
                Err(e) => return Err(e),
            }
            let start = match number(&ws, &mut pos, format, "start:", filter) {
                Ok(n) => n,
                Err(e) => return Err(e),
            };
            match extra(&ws, &mut pos, format, filter) {
                Ok(_) => {},
                Err(e) => return Err(e),
            }
            Ok((start, end))
        } else {
            match crate::text::str_parse_usize(ws[0].as_str()) {
                Some(start) => {
                    let end = match number(&ws, &mut pos, "[number] [number]", "second", filter) {
                        Ok(n) => n,
                        Err(e) => return Err(e),
                    };
                    match extra(&ws, &mut pos, "[number] [number]", filter) {
                        Ok(_) => {},
                        Err(e) => return Err(e),
                    }
                    Ok((start, end))
                },
                None => {
                    let mut e = string_of(
                        "invalid options for function_in_lines filter\nexpected [number] [number], start: [number] end: [number], or end: [number] start: [number]",
                    );
                    push_str(&mut e, "\ngiven ");
                    push_str(&mut e, ws[0].as_str());
                    Err(e)
                },
            }
        }
    }
}

/// How `function_in_lines` describes itself.
pub open spec fn lines_description() -> Seq<char> {
    "filter: function_in_lines\nfilters to only functions within the specified lines\nformat:\n\t[number] [number]\n\tstart: [number] end: [number]\n\tend: [number] start: [number]"@
}

impl HasFilterInformation for FunctionInLines {
    type Supports = All;

    open spec fn name_of(&self) -> Seq<char> {
        "function_in_lines"@
    }

    open spec fn description_of(&self) -> Seq<char> {
        lines_description()
    }

    open spec fn supports_of(&self, s: All) -> bool {
        true
    }

    open spec fn attributes_of(&self) -> Seq<(Seq<char>, AttributeType)> {
        seq![("start"@, AttributeType::Number), ("end"@, AttributeType::Number)]
    }

    fn filter_name(&self) -> (r: String) {
        string_of("function_in_lines")
    }

    fn description(&self) -> (r: String)
        ensures
            r@ == lines_description(),
    {
        string_of(
            "filter: function_in_lines\nfilters to only functions within the specified lines\nformat:\n\t[number] [number]\n\tstart: [number] end: [number]\n\tend: [number] start: [number]",
        )
    }

    fn supports(&self) -> (r: All) {
        All
    }

    fn attributes(&self) -> (r: Vec<(Attribute, AttributeType)>)
        ensures
            r@.len() == 2,
            r@[0].0.0@ == "start"@ && r@[0].1 is Number,
            r@[1].0.0@ == "end"@ && r@[1].1 is Number,
    {
        let mut v = Vec::new();
        v.push((Attribute(string_of("start")), AttributeType::Number));
        v.push((Attribute(string_of("end")), AttributeType::Number));
        assert(attribute_views(v@) =~= self.attributes_of());
        v
    }
}

impl Filter for FunctionInLines {
    open spec fn parse_spec(&self, s: Seq<char>) -> Result<FilterSpec, Seq<char>> {
        match lines_options(s) {
            Ok((start, end)) => Ok(FilterSpec::InLines(start, end)),
            Err(e) => Err(e),
        }
    }

    fn parse_filter(&self, s: &str) -> (r: Result<FilterFunction, String>) {
        match Self::from_str(s) {
            Ok((start, end)) => Ok(FilterFunction::InLines(start, end)),
            Err(e) => Err(e),
        }
    }
}

/// Keeps the functions that stand in an impl block.
#[derive(Debug, Clone, Copy, PartialEq, Eq, Structural)]
pub struct FunctionInImpl;

impl HasFilterInformation for FunctionInImpl {
    type Supports = Language;

    open spec fn name_of(&self) -> Seq<char> {
        "function_in_impl"@
    }

    open spec fn description_of(&self) -> Seq<char> {
        "find if any functions are in an impl block"@
    }

    open spec fn supports_of(&self, s: Language) -> bool {
        s.0@ == "Rust"@
    }

    open spec fn attributes_of(&self) -> Seq<(Seq<char>, AttributeType)> {
        Seq::<(Seq<char>, AttributeType)>::empty()
    }

    fn filter_name(&self) -> (r: String) {
        string_of("function_in_impl")
    }

    fn description(&self) -> (r: String)
        ensures
            r@ == "find if any functions are in an impl block"@,
    {
        string_of("find if any functions are in an impl block")
    }

    fn supports(&self) -> (r: Language)
        ensures
            r.0@ == "Rust"@,
    {
        Language(string_of("Rust"))
    }

    fn attributes(&self) -> (r: Vec<(Attribute, AttributeType)>)
        ensures
            r@.len() == 0,
    {
        let v: Vec<(Attribute, AttributeType)> = Vec::new();
        assert(attribute_views(v@) =~= self.attributes_of());
        v
    }
}

impl Filter for FunctionInImpl {
    open spec fn parse_spec(&self, s: Seq<char>) -> Result<FilterSpec, Seq<char>> {
        if s.len() == 0 {
            Ok(FilterSpec::InImpl)
        } else {
            Err("invalid options for function_in_impl, this filter accepts not options, but got "@ + s)
        }
    }

    fn parse_filter(&self, s: &str) -> (r: Result<FilterFunction, String>) {
        if !s.is_empty() {
            let mut e = string_of("invalid options for function_in_impl, this filter accepts not options, but got ");
            push_str(&mut e, s);
            return Err(e);
        }
        Ok(FilterFunction::InImpl)
    }
}

/// Keeps the functions that a tree-sitter query matches.
#[derive(Debug, Clone, Copy, PartialEq, Eq, Structural)]
pub struct TreeSitterQueryFilter;

impl HasFilterInformation for TreeSitterQueryFilter {
    type Supports = All;

    open spec fn name_of(&self) -> Seq<char> {
        "tree_sitter_query"@
    }

    open spec fn description_of(&self) -> Seq<char> {
        "filter using an arbritrary tree sitter query"@
    }

    open spec fn supports_of(&self, s: All) -> bool {
        true
    }

    open spec fn attributes_of(&self) -> Seq<(Seq<char>, AttributeType)> {
        seq![("query"@, AttributeType::String)]
    }

    fn filter_name(&self) -> (r: String) {
        string_of("tree_sitter_query")
    }

    fn description(&self) -> (r: String)
        ensures
            r@ == "filter using an arbritrary tree sitter query"@,
    {
        string_of("filter using an arbritrary tree sitter query")
    }

    fn supports(&self) -> (r: All) {
        All
    }

    fn attributes(&self) -> (r: Vec<(Attribute, AttributeType)>)
        ensures
            r@.len() == 1,
            r@[0].0.0@ == "query"@ && r@[0].1 is String,
    {
        let mut v = Vec::new();
        v.push((Attribute(string_of("query")), AttributeType::String));
        assert(attribute_views(v@) =~= self.attributes_of());
        v
    }
}

/// The query the options of `tree_sitter_query` give: the words joined by
/// spaces, without a first word `query:`.
pub open spec fn query_options(s: Seq<char>) -> Result<FilterSpec, Seq<char>> {
    let ws = words(s);
    if ws.len() == 0 {
        Err("invalid options for tree_sitter_query filter\nexpected [string] or name: [string]"@)
    } else if ws[0] == "query:"@ {
        Ok(FilterSpec::Query(join(ws.skip(1), seq![' '])))
    } else {
        Ok(FilterSpec::Query(join(ws, seq![' '])))
    }
}

impl Filter for TreeSitterQueryFilter {
    open spec fn parse_spec(&self, s: Seq<char>) -> Result<FilterSpec, Seq<char>> {
        query_options(s)
    }

    fn parse_filter(&self, s: &str) -> (r: Result<FilterFunction, String>) {
        let ws = split_char(s, ' ');
        proof {
            lemma_split_nonempty(seq![], s@, ' ');
        }
        if ws.len() == 0 {
            return Err(string_of("invalid options for tree_sitter_query filter\nexpected [string] or name: [string]"));
        }
        if str_eq(ws[0].as_str(), "query:") {
            Ok(FilterFunction::Query(join_with_space(&ws, 1)))
        } else {
            assert(views(ws@).skip(0) =~= views(ws@));
            Ok(FilterFunction::Query(join_with_space(&ws, 0)))
        }
    }
}

/// What the options of `function_with_parameter` are read as: the name of
/// the parameter, or the error.
pub open spec fn parameter_options(s: Seq<char>) -> Result<Seq<char>, Seq<char>> {
    let ws = words(s);
    let filter = parameters_filter();
    if ws.len() == 0 {
        Err("invalid options for function_with_parameter filter\nexpected [string] or name: [string]"@)
    } else if ws[0] == "name:"@ {
        let format = "name: [string]"@;
        match string_at(ws, 1, format, "name:"@) {
            Err(e) => Err(e),
            Ok(name) => match extra_at(ws, 2, format, filter) {
                Err(e) => Err(e),
                Ok(_) => Ok(name),
            },
        }
    } else {
        match extra_at(ws, 1, "[string]"@, filter) {
            Err(e) => Err(e),
            Ok(_) => Ok(ws[0]),
        }
    }
}

/// Reads the options of `function_with_parameter`: `[string]` or
/// `name: [string]`.
pub fn parse_with_param(s: &str) -> (r: Result<String, String>)
    ensures
        crate::filters::text_result(r) == parameter_options(s@),
{
    let ws = split_char(s, ' ');
    proof {
        lemma_split_nonempty(seq![], s@, ' ');
    }
    if ws.len() == 0 {
        return Err(string_of("invalid options for function_with_parameter filter\nexpected [string] or name: [string]"));
    }
    let filter = "function_with_parameters";
    let mut pos: usize = 1;
    if str_eq(ws[0].as_str(), "name:") {
        let format = "name: [string]";
        let name = match string(&ws, &mut pos, format, "name:", filter) {
            Ok(n) => n,
            Err(e) => return Err(e),
        };
        match extra(&ws, &mut pos, format, filter) {
            Ok(_) => {},
            Err(e) => return Err(e),
        }
        Ok(name)
    } else {
        match extra(&ws, &mut pos, "[string]", filter) {
            Ok(_) => {},
            Err(e) => return Err(e),
        }
        Ok(clone_string(&ws[0]))
    }
}

/// The query that finds the parameters of Rust functions and closures.
pub open spec fn rust_parameter_query() -> Seq<char> {
    RUST_PARAMETER_QUERY@
}

/// The tree-sitter query that captures the parameter names of Rust
/// functions and closures.
pub const RUST_PARAMETER_QUERY: &'static str = "((function_item\n  parameters: (parameters (parameter pattern: (identifier) @param)))\n)\n((let_declaration\n  value: (closure_expression\n  parameters: (closure_parameters [((identifier) @param)\n                                   (parameter pattern: (identifier) @param)])\n  ))\n)\n((const_item\n  value: (closure_expression\n  (closure_parameters [((identifier) @param)\n                                   (parameter pattern: (identifier) @param)])\n  )) \n)\n((static_item\n  value: (closure_expression\n  (closure_parameters [((identifier) @param)\n                                   (parameter pattern: (identifier) @param)])\n  )) \n)";

/// Keeps the Rust functions with a parameter of a given name.
#[derive(Debug, Clone, Copy, PartialEq, Eq, Structural)]
pub struct FunctionWithParameterRust;

/// Keeps the Python functions with a parameter of a given name.
#[derive(Debug, Clone, Copy, PartialEq, Eq, Structural)]
pub struct FunctionWithParameterPython;

impl HasFilterInformation for FunctionWithParameterRust {
    type Supports = Language;

    open spec fn name_of(&self) -> Seq<char> {
        "function_with_parameter"@
    }

    open spec fn description_of(&self) -> Seq<char> {
        "Find a function with a given parameter"@
    }

    open spec fn supports_of(&self, s: Language) -> bool {
        s.0@ == "Rust"@
    }

    open spec fn attributes_of(&self) -> Seq<(Seq<char>, AttributeType)> {
        seq![("name"@, AttributeType::String)]
    }

    fn filter_name(&self) -> (r: String) {
        string_of("function_with_parameter")
    }

    fn description(&self) -> (r: String)
        ensures
            r@ == "Find a function with a given parameter"@,
    {
        string_of("Find a function with a given parameter")
    }

    fn supports(&self) -> (r: Language)
        ensures
            r.0@ == "Rust"@,
    {
        Language(string_of("Rust"))
    }

    fn attributes(&self) -> (r: Vec<(Attribute, AttributeType)>)
        ensures
            r@.len() == 1,
            r@[0].0.0@ == "name"@ && r@[0].1 is String,
    {
        let mut v = Vec::new();
        v.push((Attribute(string_of("name")), AttributeType::String));
        assert(attribute_views(v@) =~= self.attributes_of());
        v
    }
}

impl Filter for FunctionWithParameterRust {
    open spec fn parse_spec(&self, s: Seq<char>) -> Result<FilterSpec, Seq<char>> {
        if !rust_query_compiles(rust_parameter_query()) {
            Err("Could not create tree sitter filter"@)
        } else {
            match parameter_options(s) {
                Ok(name) => Ok(FilterSpec::WithParameter(name)),
                Err(e) => Err(e),
            }
        }
    }

    fn parse_filter(&self, s: &str) -> (r: Result<FilterFunction, String>) {
        if !rust_query_valid(RUST_PARAMETER_QUERY) {
            return Err(string_of("Could not create tree sitter filter"));
        }
        match parse_with_param(s) {
            Ok(name) => Ok(FilterFunction::WithParameter(name)),
            Err(e) => Err(e),
        }
    }
}

impl HasFilterInformation for FunctionWithParameterPython {
    type Supports = Language;

    open spec fn name_of(&self) -> Seq<char> {
        "function_with_parameter"@
    }

    open spec fn description_of(&self) -> Seq<char> {
        "Find a function with a given parameter"@
    }

    open spec fn supports_of(&self, s: Language) -> bool {
        s.0@ == "Python"@
    }

    open spec fn attributes_of(&self) -> Seq<(Seq<char>, AttributeType)> {
        seq![("name"@, AttributeType::String)]
    }

    fn filter_name(&self) -> (r: String) {
        string_of("function_with_parameter")
    }

    fn description(&self) -> (r: String)
        ensures
            r@ == "Find a function with a given parameter"@,
    {
        string_of("Find a function with a given parameter")
    }

    fn supports(&self) -> (r: Language)
        ensures
            r.0@ == "Python"@,
    {
        Language(string_of("Python"))
    }

    fn attributes(&self) -> (r: Vec<(Attribute, AttributeType)>)
        ensures
            r@.len() == 1,
            r@[0].0.0@ == "name"@ && r@[0].1 is String,
    {
        let mut v = Vec::new();
        v.push((Attribute(string_of("name")), AttributeType::String));
        assert(attribute_views(v@) =~= self.attributes_of());
        v
    }
}

/// A word that is a number is not a label.
proof fn lemma_number_not_label(a: Seq<char>)
    requires
        crate::text::parse_usize(a) is Some,
    ensures
        a != "start:"@,
        a != "end:"@,
{
    reveal_strlit("start:");
    reveal_strlit("end:");
    if a == "start:"@ || a == "end:"@ {
        assert(crate::text::unsigned_digits(a) == a);
        assert(!crate::text::is_digit(a[0]));
    }
}

/// The words of `x y` are `x` and `y`, when neither holds a space.
proof fn lemma_two_words(x: Seq<char>, y: Seq<char>)
    requires
        !x.contains(' '),
        !y.contains(' '),
    ensures
        words(x + " "@ + y) == seq![x, y],
{
    reveal_strlit(" ");
    assert(x + " "@ + y =~= x + seq![' '] + y);
    crate::text::lemma_split_piece(seq![], x, y, ' ');
    crate::text::lemma_split_end(seq![], y, ' ');
    assert(seq![] + x =~= x);
    assert(seq![] + y =~= y);
    assert(seq![x] + seq![y] =~= seq![x, y]);
}

/// The words of `w x y z` are those four, when none holds a space.
proof fn lemma_four_words(w: Seq<char>, x: Seq<char>, y: Seq<char>, z: Seq<char>)
    requires
        !w.contains(' '),
        !x.contains(' '),
        !y.contains(' '),
        !z.contains(' '),
    ensures
        words(w + " "@ + x + " "@ + y + " "@ + z) == seq![w, x, y, z],
{
    reveal_strlit(" ");
    let sp = seq![' '];
    assert(w + " "@ + x + " "@ + y + " "@ + z =~= w + sp + (x + sp + (y + sp + z)));
    crate::text::lemma_split_piece(seq![], w, x + sp + (y + sp + z), ' ');
    crate::text::lemma_split_piece(seq![], x, y + sp + z, ' ');
    crate::text::lemma_split_piece(seq![], y, z, ' ');
    crate::text::lemma_split_end(seq![], z, ' ');
    assert(seq![] + w =~= w);
    assert(seq![] + x =~= x);
    assert(seq![] + y =~= y);
    assert(seq![] + z =~= z);
    assert(seq![w] + (seq![x] + (seq![y] + seq![z])) =~= seq![w, x, y, z]);
}

/// The three ways of giving `function_in_lines` its lines agree: `a b`,
/// `start: a end: b` and `end: b start: a` all read as the lines from `a`
/// to `b`.
pub proof fn law_lines_formats_agree(a: Seq<char>, b: Seq<char>)
    requires
        crate::text::parse_usize(a) is Some,
        crate::text::parse_usize(b) is Some,
        !a.contains(' '),
        !b.contains(' '),
    ensures
        lines_options(a + " "@ + b) == Ok::<(usize, usize), Seq<char>>(
            (crate::text::parse_usize(a)->Some_0, crate::text::parse_usize(b)->Some_0),
        ),
        lines_options("start: "@ + a + " end: "@ + b) == lines_options(a + " "@ + b),
        lines_options("end: "@ + b + " start: "@ + a) == lines_options(a + " "@ + b),
{
    reveal_strlit("start: ");
    reveal_strlit(" end: ");
    reveal_strlit("end: ");
    reveal_strlit(" start: ");
    reveal_strlit("start:");
    reveal_strlit("end:");
    reveal_strlit(" ");
    lemma_number_not_label(a);
    lemma_number_not_label(b);
    lemma_two_words(a, b);
    assert("start: "@ + a + " end: "@ + b =~= "start:"@ + " "@ + a + " "@ + "end:"@ + " "@ + b);
    assert("end: "@ + b + " start: "@ + a =~= "end:"@ + " "@ + b + " "@ + "start:"@ + " "@ + a);
    assert(!"start:"@.contains(' ')) by {
        assert forall|k: int| 0 <= k < "start:"@.len() implies "start:"@[k] != ' ' by {}
    }
    assert(!"end:"@.contains(' ')) by {
        assert forall|k: int| 0 <= k < "end:"@.len() implies "end:"@[k] != ' ' by {}
    }
    lemma_four_words("start:"@, a, "end:"@, b);
    lemma_four_words("end:"@, b, "start:"@, a);
}

/// A word followed by a space and a text splits into the word and the words
/// of the text.
proof fn lemma_first_word(w: Seq<char>, rest: Seq<char>)
    requires
        !w.contains(' '),
    ensures
        words(w + " "@ + rest) == seq![w] + words(rest),
{
    reveal_strlit(" ");
    assert(w + " "@ + rest =~= w + seq![' '] + rest);
    crate::text::lemma_split_piece(seq![], w, rest, ' ');
    assert(seq![] + w =~= w);
}

/// A tree-sitter query is passed on as it is given, with or without the
/// label `query:` in front of it.
pub proof fn law_query_passes_through(q: Seq<char>)
    requires
        words(q)[0] != "query:"@,
    ensures
        query_options(q) == Ok::<FilterSpec, Seq<char>>(FilterSpec::Query(q)),
        query_options("query: "@ + q) == Ok::<FilterSpec, Seq<char>>(FilterSpec::Query(q)),
{
    reveal_strlit("query: ");
    reveal_strlit("query:");
    reveal_strlit(" ");
    lemma_split_nonempty(seq![], q, ' ');
    crate::text::lemma_join_split(seq![], q, ' ');
    assert(seq![] + q =~= q);
    assert(!"query:"@.contains(' ')) by {
        assert forall|k: int| 0 <= k < "query:"@.len() implies "query:"@[k] != ' ' by {}
    }
    assert("query: "@ + q =~= "query:"@ + " "@ + q);
    lemma_first_word("query:"@, q);
    assert((seq!["query:"@] + words(q)).skip(1) =~= words(q));
}

/// The two ways of naming the parameter of `function_with_parameter` agree:
/// `x` and `name: x` both read as `x`.
pub proof fn law_parameter_formats_agree(x: Seq<char>)
    requires
        !x.contains(' '),
        x != "name:"@,
    ensures
        parameter_options(x) == Ok::<Seq<char>, Seq<char>>(x),
        parameter_options("name: "@ + x) == Ok::<Seq<char>, Seq<char>>(x),
{
    reveal_strlit("name: ");
    reveal_strlit("name:");
    reveal_strlit(" ");
    crate::text::lemma_split_end(seq![], x, ' ');
    assert(seq![] + x =~= x);
    assert(words(x) =~= seq![x]);
    assert(!"name:"@.contains(' ')) by {
        assert forall|k: int| 0 <= k < "name:"@.len() implies "name:"@[k] != ' ' by {}
    }
    lemma_two_words("name:"@, x);
    assert("name: "@ + x =~= "name:"@ + " "@ + x);
}

} // verus!
