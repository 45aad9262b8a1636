//! Finding functions in source text with tree-sitter queries, the files
//! where they were found, and how those files are shown.
use vstd::prelude::*;

use tree_sitter::{Parser, Query, QueryCursor, StreamingIterator};
use tree_sitter_rust::LANGUAGE;
use self::TreeSearchError::{GrammarRefused, NoTree, QueryRefused};

use crate::filters::general_filters::{rust_parameter_query, RUST_PARAMETER_QUERY};
use crate::filters::{FilterFunction, FilterSpec};
use crate::text::{
    byte_slice, str_get, char_len_utf8, char_range, clone_string, decimal, join, join_strings, lines, lines_of, push_decimal,
    push_str, split_last, str_chars, string_of, utf8_len, views,
};

verus! {

/// Where a found function lies in its file: its bytes and its rows (the
/// first row is 0).
#[derive(Debug, Clone, Copy, PartialEq, Eq, Structural)]
pub struct FoundRange {
    /// the offset of its first byte
    pub start_byte: usize,
    /// the offset just past its last byte
    pub end_byte: usize,
    /// the row it starts on
    pub start_row: usize,
    /// the row it ends on
    pub end_row: usize,
}

/// Errors that we may give back.
#[derive(Debug)]
pub enum GrepError {
    /// If there is no language that has this file extension or the file does not have a file
    /// extension.
    FileTypeUnkown(String),
    /// If tree sitter fails to parse the file.
    ParseError(String),
    /// If tree sitter doesn't like the grammer for given language
    GrammarLoad(String, String),
    /// If tree sitter doesn't like the query from a given language.
    InvalidQuery(String, String),
    /// If there are no result after filtering.
    NoSuchResultsForFilter,
    /// If there are no result after searching.
    NoResultsForSearch,
}

/// The languages whose functions can be searched with a tree-sitter grammar.
#[derive(Debug, Clone, Copy, PartialEq, Eq, Structural)]
pub enum SupportedLanguage {
    /// Rust, with `tree-sitter-rust`
    Rust,
}

/// The file extensions of a language.
pub open spec fn language_exts(l: SupportedLanguage) -> Seq<Seq<char>> {
    match l {
        SupportedLanguage::Rust => seq!["rs"@],
    }
}

/// The name of a language.
pub open spec fn grep_language_name(l: SupportedLanguage) -> Seq<char> {
    match l {
        SupportedLanguage::Rust => "rust"@,
    }
}

/// The query text that finds the functions called `name` in a language.
pub open spec fn query_text(l: SupportedLanguage, name: Seq<char>) -> Seq<char> {
    match l {
        SupportedLanguage::Rust => "((function_item\n  name: (identifier) @method-name)\n  @method-definition\n(#eq? @method-name "@
            + name + ")) \n((let_declaration\n  pattern: (identifier) @method-name\n  value: (closure_expression)) @method-definition\n(#eq? @method-name "@
            + name + ")) \n((const_item\n  name: (identifier) @method-name\n  value: (closure_expression)) @method-definition\n(#eq? @method-name "@
            + name + ")) \n((static_item\n  name: (identifier) @method-name\n  value: (closure_expression)) @method-definition\n(#eq? @method-name "@
            + name + "))"@,
    }
}

/// An exact-equality test of the captured name against `name`, closing its pattern.
pub open spec fn name_equals_test(name: Seq<char>) -> Seq<char> {
    "(#eq? @method-name "@ + name + "))"@
}

/// Whether a text holds no `#`, so no predicate of a tree-sitter query.
pub open spec fn no_predicate(s: Seq<char>) -> bool {
    forall|i: int| 0 <= i < s.len() ==> s[i] != '#'
}

/// Whether a query is four patterns, with heads `heads` that hold no
/// predicate, each closed by an exact-equality test against `name`.
pub open spec fn exact_name_patterns(q: Seq<char>, name: Seq<char>, heads: Seq<Seq<char>>) -> bool {
    &&& heads.len() == 4
    &&& forall|i: int| 0 <= i < 4 ==> no_predicate(#[trigger] heads[i])
    &&& q == heads[0] + name_equals_test(name) + heads[1] + name_equals_test(name) + heads[2] + name_equals_test(
        name,
    ) + heads[3] + name_equals_test(name)
}

/// The query that finds the functions called `name` is made of patterns
/// each closed by an exact-equality test of the captured name against
/// `name`, and holds no other predicate: a function whose name merely
/// contains `name` is not what it asks for.
pub proof fn law_query_tests_exact_name(l: SupportedLanguage, name: Seq<char>)
    ensures
        exists|heads: Seq<Seq<char>>| #[trigger] exact_name_patterns(query_text(l, name), name, heads),
{
    reveal_strlit("((function_item\n  name: (identifier) @method-name)\n  @method-definition\n(#eq? @method-name ");
    reveal_strlit(")) \n((let_declaration\n  pattern: (identifier) @method-name\n  value: (closure_expression)) @method-definition\n(#eq? @method-name ");
    reveal_strlit(")) \n((const_item\n  name: (identifier) @method-name\n  value: (closure_expression)) @method-definition\n(#eq? @method-name ");
    reveal_strlit(")) \n((static_item\n  name: (identifier) @method-name\n  value: (closure_expression)) @method-definition\n(#eq? @method-name ");
    reveal_strlit("))");
    reveal_strlit("((function_item\n  name: (identifier) @method-name)\n  @method-definition\n");
    reveal_strlit(" \n((let_declaration\n  pattern: (identifier) @method-name\n  value: (closure_expression)) @method-definition\n");
    reveal_strlit(" \n((const_item\n  name: (identifier) @method-name\n  value: (closure_expression)) @method-definition\n");
    reveal_strlit(" \n((static_item\n  name: (identifier) @method-name\n  value: (closure_expression)) @method-definition\n");
    reveal_strlit("(#eq? @method-name ");
    let h0 = "((function_item\n  name: (identifier) @method-name)\n  @method-definition\n"@;
    let h1 = " \n((let_declaration\n  pattern: (identifier) @method-name\n  value: (closure_expression)) @method-definition\n"@;
    let h2 = " \n((const_item\n  name: (identifier) @method-name\n  value: (closure_expression)) @method-definition\n"@;
    let h3 = " \n((static_item\n  name: (identifier) @method-name\n  value: (closure_expression)) @method-definition\n"@;
    let e = "(#eq? @method-name "@;
    let c = "))"@;
    assert("((function_item\n  name: (identifier) @method-name)\n  @method-definition\n(#eq? @method-name "@ =~= h0 + e);
    assert(")) \n((let_declaration\n  pattern: (identifier) @method-name\n  value: (closure_expression)) @method-definition\n(#eq? @method-name "@ =~= c + h1 + e);
    assert(")) \n((const_item\n  name: (identifier) @method-name\n  value: (closure_expression)) @method-definition\n(#eq? @method-name "@ =~= c + h2 + e);
    assert(")) \n((static_item\n  name: (identifier) @method-name\n  value: (closure_expression)) @method-definition\n(#eq? @method-name "@ =~= c + h3 + e);
    assert(no_predicate(h0));
    assert(no_predicate(h1));
    assert(no_predicate(h2));
    assert(no_predicate(h3));
    let heads = seq![h0, h1, h2, h3];
    assert(heads[0] == h0 && heads[1] == h1 && heads[2] == h2 && heads[3] == h3);
    assert(forall|i: int| 0 <= i < 4 ==> no_predicate(#[trigger] heads[i]));
    assert(name_equals_test(name) =~= e + name + c);
    assert(query_text(l, name) =~= heads[0] + name_equals_test(name) + heads[1] + name_equals_test(name) + heads[2]
        + name_equals_test(name) + heads[3] + name_equals_test(name));
    assert(exact_name_patterns(query_text(l, name), name, heads));
}

impl SupportedLanguage {
    /// The name of this language
    pub fn name(&self) -> (r: String)
        ensures
            r@ == grep_language_name(*self),
    {
        match self {
            SupportedLanguage::Rust => string_of("rust"),
        }
    }

    /// The list of file extensions used for this language.
    pub fn file_exts(&self) -> (r: Vec<String>)
        ensures
            views(r@) == language_exts(*self),
    {
        match self {
            SupportedLanguage::Rust => {
                let mut v: Vec<String> = Vec::new();
                crate::text::push_string(&mut v, string_of("rs"));
                assert(views(v@) =~= seq!["rs"@]);
                v
            },
        }
    }

    /// The query that finds all function-like things called `name`.
    pub fn query(&self, name: &str) -> (r: String)
        ensures
            r@ == query_text(*self, name@),
    {
        match self {
            SupportedLanguage::Rust => {
                let mut q = string_of(
                    "((function_item\n  name: (identifier) @method-name)\n  @method-definition\n(#eq? @method-name ",
                );
                push_str(&mut q, name);
                push_str(
                    &mut q,
                    ")) \n((let_declaration\n  pattern: (identifier) @method-name\n  value: (closure_expression)) @method-definition\n(#eq? @method-name ",
                );
                push_str(&mut q, name);
                push_str(
                    &mut q,
                    ")) \n((const_item\n  name: (identifier) @method-name\n  value: (closure_expression)) @method-definition\n(#eq? @method-name ",
                );
                push_str(&mut q, name);
                push_str(
                    &mut q,
                    ")) \n((static_item\n  name: (identifier) @method-name\n  value: (closure_expression)) @method-definition\n(#eq? @method-name ",
                );
                push_str(&mut q, name);
                push_str(&mut q, "))");
                q
            },
        }
    }
}

/// Whether a list of extensions holds the extension.
pub open spec fn has_ext(exts: Seq<Seq<char>>, ext: Seq<char>) -> bool {
    exists|i: int| 0 <= i < exts.len() && exts[i] == ext
}

/// The first language of the list that has the file extension.
pub open spec fn language_for_ext_from(langs: Seq<SupportedLanguage>, ext: Seq<char>, i: int) -> Option<
    SupportedLanguage,
>
    decreases langs.len() - i,
{
    if i < 0 || i >= langs.len() {
        None
    } else if has_ext(language_exts(langs[i]), ext) {
        Some(langs[i])
    } else {
        language_for_ext_from(langs, ext, i + 1)
    }
}

/// Tries to find the appropiate language for the given file extension `ext`
/// based on the list of languages `langs` provided: the first that has it.
pub fn get_file_type_from_file_ext(ext: &str, langs: &Vec<SupportedLanguage>) -> (r: Result<
    SupportedLanguage,
    GrepError,
>)
    ensures
        match language_for_ext_from(langs@, ext@, 0) {
            Some(l) => r matches Ok(x) && x == l,
            None => r matches Err(GrepError::FileTypeUnkown(e)) && e@ == ext@,
        },
{
    let mut i: usize = 0;
    while i < langs.len()
        invariant
            i <= langs.len(),
            language_for_ext_from(langs@, ext@, 0) == language_for_ext_from(langs@, ext@, i as int),
        decreases langs.len() - i,
    {
        let exts = langs[i].file_exts();
        let mut k: usize = 0;
        let mut found = false;
        while k < exts.len()
            invariant
                k <= exts.len(),
                views(exts@) == language_exts(langs@[i as int]),
                found ==> has_ext(language_exts(langs@[i as int]), ext@),
                !found ==> forall|j: int| 0 <= j < k ==> language_exts(langs@[i as int])[j] != ext@,
            decreases exts.len() - k,
        {
            if crate::languages::str_eq(exts[k].as_str(), ext) {
                assert(views(exts@)[k as int] == ext@);
                found = true;
            }
            k += 1;
        }
        if found {
            return Ok(langs[i]);
        }
        i += 1;
    }
    Err(GrepError::FileTypeUnkown(string_of(ext)))
}

/// The language of a file found from its name: the text after its last `.`
/// is its extension.
pub open spec fn language_for_file(file_name: Seq<char>, langs: Seq<SupportedLanguage>) -> Option<
    SupportedLanguage,
> {
    match split_last(file_name, seq!['.']) {
        Some((_, ext)) => language_for_ext_from(langs, ext, 0),
        None => None,
    }
}

/// Tries to find the appropiate language for the given file `file_name`
/// based on the list of languages `langs` provided, by its extension.
pub fn get_file_type_from_file(file_name: &str, langs: &Vec<SupportedLanguage>) -> (r: Result<
    SupportedLanguage,
    GrepError,
>)
    ensures
        match language_for_file(file_name@, langs@) {
            Some(l) => r matches Ok(x) && x == l,
            None => r is Err,
        },
        split_last(file_name@, seq!['.']) is None ==> (r matches Err(GrepError::FileTypeUnkown(e))
            && e@ == file_name@),
{
    proof {
        reveal_strlit(".");
        assert("."@ =~= seq!['.']);
    }
    match crate::text::rsplit_once_str(file_name, ".") {
        Some((_, ext)) => get_file_type_from_file_ext(ext.as_str(), langs),
        None => Err(GrepError::FileTypeUnkown(string_of(file_name))),
    }
}

/// What searching Rust code with a tree-sitter query gives, by its view.
pub enum TreeSearch {
    /// the grammar was refused, with the error
    Grammar(Seq<char>),
    /// the code gave no tree
    NoTree,
    /// the query was refused, with the error
    Query(Seq<char>),
    /// for each match, in order, the start and end bytes of its first
    /// capture (nothing for a match without captures)
    Found(Seq<Option<(usize, usize)>>),
}

/// Why searching Rust code with a tree-sitter query failed.
pub enum TreeSearchError {
    /// the grammar was refused, with the error
    GrammarRefused(String),
    /// the code gave no tree
    NoTree,
    /// the query was refused, with the error
    QueryRefused(String),
}

/// The view of what a search gives.
pub open spec fn tree_search_view(r: Result<Vec<Option<(usize, usize)>>, TreeSearchError>) -> TreeSearch {
    match r {
        Err(TreeSearchError::GrammarRefused(e)) => TreeSearch::Grammar(e@),
        Err(TreeSearchError::NoTree) => TreeSearch::NoTree,
        Err(TreeSearchError::QueryRefused(e)) => TreeSearch::Query(e@),
        Ok(v) => TreeSearch::Found(v@),
    }
}

/// The row (from 0) of a byte offset of a text: the number of newlines
/// that start before it.
pub open spec fn row_at(s: Seq<char>, b: int) -> nat
    decreases s.len(),
{
    if s.len() == 0 {
        0
    } else {
        row_at(s.drop_last(), b) + if s.last() == '\n' && utf8_len(s.drop_last()) < b {
            1nat
        } else {
            0nat
        }
    }
}

/// The range of a function found in `code` from its start and end bytes.
pub open spec fn range_in(code: Seq<char>, bytes: (usize, usize)) -> FoundRange {
    FoundRange {
        start_byte: bytes.0,
        end_byte: bytes.1,
        start_row: row_at(code, bytes.0 as int) as usize,
        end_row: row_at(code, bytes.1 as int) as usize,
    }
}

/// The ranges in `code` of the matches that have a capture, in order.
pub open spec fn captured(code: Seq<char>, v: Seq<Option<(usize, usize)>>) -> Seq<FoundRange>
    decreases v.len(),
{
    if v.len() == 0 {
        seq![]
    } else {
        match v.last() {
            Some(x) => captured(code, v.drop_last()).push(range_in(code, x)),
            None => captured(code, v.drop_last()),
        }
    }
}

/// There are no more newlines before a byte than characters in the text.
proof fn lemma_row_at_le(s: Seq<char>, b: int)
    ensures
        row_at(s, b) <= s.len(),
    decreases s.len(),
{
    if s.len() > 0 {
        lemma_row_at_le(s.drop_last(), b);
    }
}

/// The row of a byte offset of a text (executable).
fn row_of_byte(chars: &Vec<char>, b: usize) -> (r: usize)
    requires
        utf8_len(chars@) <= usize::MAX,
    ensures
        r == row_at(chars@, b as int),
{
    let mut row: usize = 0;
    let mut off: usize = 0;
    let mut i: usize = 0;
    while i < chars.len()
        invariant
            i <= chars.len(),
            utf8_len(chars@) <= usize::MAX,
            row == row_at(chars@.take(i as int), b as int),
            off == utf8_len(chars@.take(i as int)),
            row <= i,
        decreases chars.len() - i,
    {
        assert(chars@.take(i + 1).drop_last() =~= chars@.take(i as int));
        proof {
            lemma_row_at_le(chars@.take(i as int), b as int);
            crate::text::lemma_utf8_len_prefix(chars@, i + 1);
        }
        if chars[i] == '\n' && off < b {
            row = row + 1;
        }
        off = off + char_len_utf8(chars[i]);
        i += 1;
    }
    assert(chars@.take(chars.len() as int) =~= chars@);
    row
}

/// The ranges in the code of the matches that have a capture, in order (executable).
fn captured_ranges(code: &str, v: &Vec<Option<(usize, usize)>>) -> (r: Vec<FoundRange>)
    ensures
        r@ == captured(code@, v@),
{
    let chars = str_chars(code);
    let total: usize = crate::text::str_byte_len(code);
    assert(total == utf8_len(code@));
    let mut r: Vec<FoundRange> = Vec::new();
    let mut i: usize = 0;
    while i < v.len()
        invariant
            i <= v.len(),
            chars@ == code@,
            utf8_len(code@) <= usize::MAX,
            r@ == captured(code@, v@.take(i as int)),
        decreases v.len() - i,
    {
        assert(v@.take(i + 1).drop_last() =~= v@.take(i as int));
        if let Some(x) = v[i] {
            r.push(found_range(x.0, x.1, row_of_byte(&chars, x.0), row_of_byte(&chars, x.1)));
        }
        i += 1;
    }
    assert(v@.take(v.len() as int) =~= v@);
    r
}

/// What tree-sitter gives for Rust code searched with a query.
pub uninterp spec fn rust_tree_search(code: Seq<char>, query: Seq<char>) -> TreeSearch;

/// What a search of Rust code with a query gives: no tree for code too
/// large for tree-sitter's 32-bit offsets, else what tree-sitter gives.
pub open spec fn tree_search_of(code: Seq<char>, query: Seq<char>) -> TreeSearch {
    if utf8_len(code) > u32::MAX {
        TreeSearch::NoTree
    } else {
        rust_tree_search(code, query)
    }
}

/// Searches Rust code with a tree-sitter query: `Parser::set_language` with
/// `tree_sitter_rust::LANGUAGE`, `Parser::parse`, `Query::new`, then
/// `QueryCursor::matches` from the root node, giving for each match the
/// start and end bytes of its first capture, or nothing when it has none
/// (the rows are worked out from the bytes here). What it gives
/// is named, not stated: it depends on the code and the query alone.
#[verifier::external_body]
fn ts_search_rust(code: &str, query: &str) -> (r: Result<Vec<Option<(usize, usize)>>, TreeSearchError>)
    requires
        utf8_len(code@) <= u32::MAX,
    ensures
        tree_search_view(r) == rust_tree_search(code@, query@),
{
    let lang = LANGUAGE.into();
    let mut parser = Parser::new();
    parser.set_language(&lang).map_err(|e| GrammarRefused(e.to_string()))?;
    let tree = parser.parse(code, None).ok_or(NoTree)?;
    let q = Query::new(&lang, query).map_err(|e| QueryRefused(e.to_string()))?;
    let mut cursor = QueryCursor::new();
    let mut ms = cursor.matches(&q, tree.root_node(), code.as_bytes());
    let mut out = Vec::new();
    while let Some(m) = ms.next() {
        out.push(m.captures().first().map(|c| (c.node.start_byte(), c.node.end_byte())));
    }
    Ok(out)
}

/// What tree-sitter gives, in Rust code, for the smallest node spanning
/// the bytes of each range: the node's start and end bytes and the grammar
/// name of the node two levels above it, if there is one; nothing when the
/// code gives no tree.
pub uninterp spec fn rust_nodes_at(code: Seq<char>, ranges: Seq<FoundRange>) -> Option<
    Seq<Option<(usize, usize, Option<String>)>>,
>;

/// Parses Rust code with `tree-sitter-rust` and, for each range, takes the
/// root's `descendant_for_byte_range` over the range's bytes: the node's
/// start and end bytes and the `grammar_name` of its parent's parent.
/// What it gives is named by `rust_nodes_at`: it depends on the code and
/// the ranges alone. Tree-sitter keeps offsets in 32 bits, so the code must
/// fit in them.
#[verifier::external_body]
fn ts_nodes_at(code: &str, ranges: &Vec<FoundRange>) -> (r: Option<Vec<Option<(usize, usize, Option<String>)>>>)
    requires
        utf8_len(code@) <= u32::MAX,
    ensures
        match r {
            Some(v) => rust_nodes_at(code@, ranges@) == Some(v@),
            None => rust_nodes_at(code@, ranges@) is None,
        },
{
    let mut parser = Parser::new();
    parser.set_language(&LANGUAGE.into()).ok()?;
    let tree = parser.parse(code, None)?;
    Some(ranges.iter().map(|x| tree.root_node().descendant_for_byte_range(x.start_byte, x.end_byte).map(|n| {
        let up = n.parent().and_then(|p| p.parent()).map(|g| g.grammar_name().to_string());
        (n.start_byte(), n.end_byte(), up)
    })).collect())
}

/// What tree-sitter gives for a query run, in Rust code, on the smallest
/// node spanning the given bytes, with matches starting at that node only:
/// for each match, the start and end bytes of each of its captures; nothing
/// when the code gives no tree, no node spans the bytes, or the query is refused.
pub uninterp spec fn rust_captures_at(code: Seq<char>, start: usize, end: usize, query: Seq<char>) -> Option<
    Seq<Seq<(usize, usize)>>,
>;

/// Parses Rust code with `tree-sitter-rust`, takes the root's
/// `descendant_for_byte_range(start, end)`, builds the query with
/// `Query::new`, and runs `QueryCursor::matches` on the node with
/// `set_max_start_depth(Some(0))`: the byte ranges of the captures of each
/// match. What it gives is named by `rust_captures_at`.
#[verifier::external_body]
fn ts_captures_at(code: &str, start: usize, end: usize, query: &str) -> (r: Option<Vec<Vec<(usize, usize)>>>)
    requires
        utf8_len(code@) <= u32::MAX,
    ensures
        match r {
            Some(v) => rust_captures_at(code@, start, end, query@) == Some(Seq::new(v@.len(), |i: int| v@[i]@)),
            None => rust_captures_at(code@, start, end, query@) is None,
        },
{
    let mut parser = Parser::new();
    parser.set_language(&LANGUAGE.into()).ok()?;
    let tree = parser.parse(code, None)?;
    let node = tree.root_node().descendant_for_byte_range(start, end)?;
    let q = Query::new(&LANGUAGE.into(), query).ok()?;
    let mut cursor = QueryCursor::new();
    cursor.set_max_start_depth(Some(0));
    let mut ms = cursor.matches(&q, node, code.as_bytes());
    let mut out = Vec::new();
    while let Some(m) = ms.next() {
        out.push(m.captures().iter().map(|c| (c.node.start_byte(), c.node.end_byte())).collect());
    }
    Some(out)
}

/// The text of a capture (its bytes of the code), or nothing when its
/// bytes do not bound characters.
pub open spec fn capture_text(code: Seq<char>, c: (usize, usize)) -> Seq<char> {
    match byte_slice(code, c.0 as int, c.1 as int) {
        Some(t) => t,
        None => seq![],
    }
}

/// Whether a filter of the function finder keeps a syntax node of Rust code
/// (its start and end bytes, and the grammar name two levels above it):
/// by its rows; by standing in an `impl_item`; by a query matching at the
/// node; or by a parameter of the given name, as the parameter query
/// captures it at the node.
pub open spec fn node_kept(code: Seq<char>, n: (usize, usize, Option<String>), f: FilterSpec) -> bool {
    match f {
        FilterSpec::InLines(a, b) => row_at(code, n.0 as int) >= a && row_at(code, n.1 as int) <= b,
        FilterSpec::InImpl => n.2 matches Some(k) && k@ == "impl_item"@,
        FilterSpec::Query(q) => rust_captures_at(code, n.0, n.1, q) matches Some(ms) && ms.len() > 0,
        FilterSpec::WithParameter(p) => match rust_captures_at(code, n.0, n.1, rust_parameter_query()) {
            Some(ms) => some_capture_is(code, ms, p),
            None => false,
        },
    }
}

/// Whether some capture of some match has the given text.
pub open spec fn some_capture_is(code: Seq<char>, ms: Seq<Seq<(usize, usize)>>, p: Seq<char>) -> bool {
    exists|i: int, j: int| 0 <= i < ms.len() && 0 <= j < ms[i].len() && capture_text(code, #[trigger] ms[i][j]) == p
}

/// The ranges of the nodes a filter keeps, in order.
pub open spec fn filter_kept(code: Seq<char>, nodes: Seq<Option<(usize, usize, Option<String>)>>, f: FilterSpec) -> Seq<
    FoundRange,
>
    decreases nodes.len(),
{
    if nodes.len() == 0 {
        seq![]
    } else {
        let rest = filter_kept(code, nodes.drop_last(), f);
        match nodes.last() {
            Some(n) => if node_kept(code, n, f) {
                rest.push(range_in(code, (n.0, n.1)))
            } else {
                rest
            },
            None => rest,
        }
    }
}

/// What filtering the found functions of Rust code with a filter of the
/// function finder keeps: the ranges of the kept nodes, when there are
/// any; nothing when the code is too large for tree-sitter, gives no tree,
/// or no node is kept.
pub open spec fn file_filter_result(code: Seq<char>, found: Seq<FoundRange>, f: FilterSpec) -> Option<Seq<FoundRange>> {
    if utf8_len(code) > u32::MAX {
        None
    } else {
        match rust_nodes_at(code, found) {
            Some(nodes) => {
                let k = filter_kept(code, nodes, f);
                if k.len() > 0 {
                    Some(k)
                } else {
                    None
                }
            },
            None => None,
        }
    }
}

/// A node is kept by a parameter filter when a capture at it has the name.
proof fn lemma_parameter_kept(
    code: Seq<char>,
    n: (usize, usize, Option<String>),
    p: Seq<char>,
    ms: Seq<Seq<(usize, usize)>>,
    i: int,
    j: int,
)
    requires
        rust_captures_at(code, n.0, n.1, rust_parameter_query()) == Some(ms),
        0 <= i < ms.len(),
        0 <= j < ms[i].len(),
        capture_text(code, ms[i][j]) == p,
    ensures
        node_kept(code, n, FilterSpec::WithParameter(p)),
{
    assert(some_capture_is(code, ms, p));
}

/// Whether a filter of the function finder keeps a syntax node (executable).
fn node_keeps(code: &str, n: &(usize, usize, Option<String>), f: &FilterFunction) -> (r: bool)
    requires
        utf8_len(code@) <= u32::MAX,
    ensures
        r == node_kept(code@, *n, f@),
{
    match f {
        FilterFunction::InLines(a, b) => {
            let chars = str_chars(code);
            row_of_byte(&chars, n.0) >= *a && row_of_byte(&chars, n.1) <= *b
        },
        FilterFunction::InImpl => match &n.2 {
            Some(k) => crate::languages::str_eq(k.as_str(), "impl_item"),
            None => false,
        },
        FilterFunction::Query(q) => match ts_captures_at(code, n.0, n.1, q.as_str()) {
            Some(ms) => ms.len() > 0,
            None => false,
        },
        FilterFunction::WithParameter(p) => match ts_captures_at(code, n.0, n.1, RUST_PARAMETER_QUERY) {
            Some(ms) => {
                let ghost mv = Seq::new(ms@.len(), |i: int| ms@[i]@);
                let mut i: usize = 0;
                while i < ms.len()
                    invariant
                        i <= ms.len(),
                        mv == Seq::new(ms@.len(), |k: int| ms@[k]@),
                        rust_captures_at(code@, n.0, n.1, rust_parameter_query()) == Some(mv),
                        f@ == FilterSpec::WithParameter(p@),
                        forall|x: int, y: int|
                            0 <= x < i && 0 <= y < mv[x].len() ==> capture_text(code@, #[trigger] mv[x][y]) != p@,
                    decreases ms.len() - i,
                {
                    let mut j: usize = 0;
                    while j < ms[i].len()
                        invariant
                            i < ms.len(),
                            j <= ms@[i as int]@.len(),
                            mv == Seq::new(ms@.len(), |k: int| ms@[k]@),
                            rust_captures_at(code@, n.0, n.1, rust_parameter_query()) == Some(mv),
                            f@ == FilterSpec::WithParameter(p@),
                        rust_captures_at(code@, n.0, n.1, rust_parameter_query()) == Some(mv),
                        f@ == FilterSpec::WithParameter(p@),
                            forall|x: int, y: int|
                                0 <= x < i && 0 <= y < mv[x].len() ==> capture_text(code@, #[trigger] mv[x][y]) != p@,
                            forall|y: int| 0 <= y < j ==> capture_text(code@, #[trigger] mv[i as int][y]) != p@,
                        decreases ms@[i as int]@.len() - j,
                    {
                        let c = ms[i][j];
                        let t = match str_get(code, c.0, c.1) {
                            Some(t) => t,
                            None => String::new(),
                        };
                        assert(mv[i as int][j as int] == c);
                        assert(t@ == capture_text(code@, c));
                        if crate::languages::str_eq(t.as_str(), p.as_str()) {
                            proof {
                                lemma_parameter_kept(code@, *n, p@, mv, i as int, j as int);
                            }
                            return true;
                        }
                        j += 1;
                    }
                    i += 1;
                }
                false
            },
            None => false,
        },
    }
}

/// A found range from its bytes and rows.
fn found_range(start_byte: usize, end_byte: usize, start_row: usize, end_row: usize) -> (r: FoundRange)
    ensures
        r == (FoundRange { start_byte, end_byte, start_row, end_row }),
{
    FoundRange { start_byte, end_byte, start_row, end_row }
}

/// Whether a query compiles against the tree-sitter Rust grammar.
pub uninterp spec fn rust_query_compiles(query: Seq<char>) -> bool;

/// `tree_sitter::Query::new` on the Rust grammar of `tree-sitter-rust`:
/// whether it accepts the query. Whether it does is named, not stated.
#[verifier::external_body]
pub(crate) fn rust_query_valid(query: &str) -> (r: bool)
    ensures
        r == rust_query_compiles(query@),
{
    tree_sitter::Query::new(&tree_sitter_rust::LANGUAGE.into(), query).is_ok()
}

/// The functions with a given name found in one file.
#[derive(Debug)]
pub struct ParsedFile {
    file: String,
    file_name: Option<String>,
    function_name: String,
    language_type: String,
    results: Vec<FoundRange>,
}

/// A numbered line: its number (counting from 1), a colon, a space and the line.
pub open spec fn numbered_line(ls: Seq<Seq<char>>, k: int) -> Seq<char> {
    decimal((k + 1) as nat) + seq![':', ' '] + ls[k]
}

/// The numbered lines of a file from row `a` up to row `b`, both included
/// (rows past the end are left out), joined by newlines.
pub open spec fn rows_shown(ls: Seq<Seq<char>>, a: int, b: int) -> Seq<char> {
    let lo = a;
    let hi = if b + 1 < ls.len() {
        b + 1
    } else {
        ls.len() as int
    };
    if lo >= hi {
        seq![]
    } else {
        join(Seq::new((hi - lo) as nat, |k: int| numbered_line(ls, lo + k)), seq!['\n'])
    }
}

/// How the found functions of a file are shown: for each, its numbered
/// lines; the functions separated by `\n...\n`.
pub open spec fn parsed_shown(file: Seq<char>, results: Seq<FoundRange>) -> Seq<char> {
    let ls = lines(file);
    join(
        Seq::new(
            results.len(),
            |i: int| rows_shown(ls, results[i].start_row as int, results[i].end_row as int),
        ),
        seq!['\n', '.', '.', '.', '\n'],
    )
}

impl ParsedFile {
    /// The code of the file.
    pub closed spec fn code(&self) -> Seq<char> {
        self.file@
    }

    /// The name of the file, if it is known.
    pub closed spec fn name_of_file(&self) -> Option<Seq<char>> {
        match self.file_name {
            Some(n) => Some(n@),
            None => None,
        }
    }

    /// The name that was searched for.
    pub closed spec fn searched(&self) -> Seq<char> {
        self.function_name@
    }

    /// The name of the language of the file.
    pub closed spec fn language_name(&self) -> Seq<char> {
        self.language_type@
    }

    /// Where the found functions lie.
    pub closed spec fn found(&self) -> Seq<FoundRange> {
        self.results@
    }

    /// A file of found functions.
    pub fn new(file: String, function_name: String, language_type: String, results: Vec<FoundRange>) -> (r: Self)
        ensures
            r.code() == file@,
            r.name_of_file() is None,
            r.searched() == function_name@,
            r.language_name() == language_type@,
            r.found() == results@,
    {
        ParsedFile { file, file_name: None, function_name, language_type, results }
    }

    /// Get the name of the language used to parse this file
    pub fn language(&self) -> (r: String)
        ensures
            r@ == self.language_name(),
    {
        clone_string(&self.language_type)
    }

    /// Get the name of the function that was searched for to make this file
    pub fn search_name(&self) -> (r: String)
        ensures
            r@ == self.searched(),
    {
        clone_string(&self.function_name)
    }

    /// Get the file name of this file.
    pub fn file_name(&self) -> (r: Option<String>)
        ensures
            match (r, self.name_of_file()) {
                (Some(x), Some(n)) => x@ == n,
                (None, None) => true,
                _ => false,
            },
    {
        match &self.file_name {
            Some(n) => Some(clone_string(n)),
            None => None,
        }
    }

    /// Get the range of each found function.
    pub fn results(&self) -> (r: Vec<FoundRange>)
        ensures
            r@ == self.found(),
    {
        let mut r: Vec<FoundRange> = Vec::new();
        let mut i: usize = 0;
        while i < self.results.len()
            invariant
                i <= self.results.len(),
                r@ == self.results@.take(i as int),
            decreases self.results.len() - i,
        {
            r.push(self.results[i]);
            assert(r@ =~= self.results@.take(i + 1));
            i += 1;
        }
        assert(self.results@.take(self.results.len() as int) =~= self.results@);
        r
    }

    /// A copy of the file.
    pub fn duplicate(&self) -> (r: Self)
        ensures
            r.code() == self.code(),
            r.name_of_file() == self.name_of_file(),
            r.searched() == self.searched(),
            r.language_name() == self.language_name(),
            r.found() == self.found(),
    {
        ParsedFile {
            file: clone_string(&self.file),
            file_name: match &self.file_name {
                Some(n) => Some(clone_string(n)),
                None => None,
            },
            function_name: clone_string(&self.function_name),
            language_type: clone_string(&self.language_type),
            results: self.results(),
        }
    }

    /// The same file with its name set.
    pub fn set_file_name(self, file_name: String) -> (r: Self)
        ensures
            r.code() == self.code(),
            r.name_of_file() == Some(file_name@),
            r.searched() == self.searched(),
            r.language_name() == self.language_name(),
            r.found() == self.found(),
    {
        ParsedFile {
            file: self.file,
            file_name: Some(file_name),
            function_name: self.function_name,
            language_type: self.language_type,
            results: self.results,
        }
    }

    /// Keeps only the functions that lie within the rows `start` to `end`
    /// (a function starting at row `start` or later and ending at row `end`
    /// or earlier).
    ///
    /// # Errors
    /// If no function lies within the rows.
    pub fn filter_in_rows(&self, start: usize, end: usize) -> (r: Result<Self, GrepError>)
        ensures
            match r {
                Ok(f) => f.code() == self.code() && f.name_of_file() == self.name_of_file()
                    && f.searched() == self.searched() && f.language_name() == self.language_name()
                    && f.found() == self.found().filter(
                    |x: FoundRange| x.start_row >= start && x.end_row <= end,
                ) && f.found().len() > 0,
                Err(e) => e is NoSuchResultsForFilter && self.found().filter(
                    |x: FoundRange| x.start_row >= start && x.end_row <= end,
                ).len() == 0,
            },
    {
        let ghost keep = |x: FoundRange| x.start_row >= start && x.end_row <= end;
        let mut kept: Vec<FoundRange> = Vec::new();
        let mut i: usize = 0;
        while i < self.results.len()
            invariant
                i <= self.results.len(),
                kept@ == self.results@.take(i as int).filter(keep),
                keep == (|x: FoundRange| x.start_row >= start && x.end_row <= end),
            decreases self.results.len() - i,
        {
            let x = self.results[i];
            proof {
                assert(self.results@.take(i + 1).drop_last() =~= self.results@.take(i as int));
                reveal(Seq::filter);
                assert(self.results@.take(i + 1).last() == x);
            }
            if x.start_row >= start && x.end_row <= end {
                kept.push(x);
            }
            i += 1;
        }
        assert(self.results@.take(self.results.len() as int) =~= self.results@);
        if kept.len() == 0 {
            return Err(GrepError::NoSuchResultsForFilter);
        }
        Ok(
            ParsedFile {
                file: clone_string(&self.file),
                file_name: match &self.file_name {
                    Some(n) => Some(clone_string(n)),
                    None => None,
                },
                function_name: clone_string(&self.function_name),
                language_type: clone_string(&self.language_type),
                results: kept,
            },
        )
    }

    /// Filters the found functions with a filter of the function finder:
    /// for each, the smallest syntax node spanning it is taken, and kept,
    /// with its own range, when the filter keeps it (see `node_kept`).
    ///
    /// # Errors
    /// If the filter keeps none of them, or the code gives no syntax tree.
    pub fn filter(&self, f: &FilterFunction) -> (r: Result<Self, GrepError>)
        ensures
            match file_filter_result(self.code(), self.found(), f@) {
                Some(k) => r matches Ok(g) && g.code() == self.code() && g.name_of_file() == self.name_of_file()
                    && g.searched() == self.searched() && g.language_name() == self.language_name()
                    && g.found() == k,
                None => r matches Err(e) && e is NoSuchResultsForFilter,
            },
    {
        let total: usize = crate::text::str_byte_len(self.file.as_str());
        if total as u64 > 4294967295u64 {
            return Err(GrepError::NoSuchResultsForFilter);
        }
        let nodes = match ts_nodes_at(self.file.as_str(), &self.results) {
            Some(v) => v,
            None => return Err(GrepError::NoSuchResultsForFilter),
        };
        let chars = str_chars(self.file.as_str());
        let ghost code = self.file@;
        let mut kept: Vec<FoundRange> = Vec::new();
        let mut i: usize = 0;
        while i < nodes.len()
            invariant
                i <= nodes.len(),
                code == self.file@,
                chars@ == code,
                utf8_len(code) <= u32::MAX,
                kept@ == filter_kept(code, nodes@.take(i as int), f@),
            decreases nodes.len() - i,
        {
            assert(nodes@.take(i + 1).drop_last() =~= nodes@.take(i as int));
            match &nodes[i] {
                Some(n) => {
                    if node_keeps(self.file.as_str(), n, f) {
                        kept.push(found_range(n.0, n.1, row_of_byte(&chars, n.0), row_of_byte(&chars, n.1)));
                    }
                },
                None => {},
            }
            i += 1;
        }
        assert(nodes@.take(nodes.len() as int) =~= nodes@);
        if kept.len() == 0 {
            return Err(GrepError::NoSuchResultsForFilter);
        }
        Ok(
            ParsedFile {
                file: clone_string(&self.file),
                file_name: match &self.file_name {
                    Some(n) => Some(clone_string(n)),
                    None => None,
                },
                function_name: clone_string(&self.function_name),
                language_type: clone_string(&self.language_type),
                results: kept,
            },
        )
    }

    /// The code of each found function, with where it lies.
    pub fn texts(&self) -> (r: Vec<(FoundRange, Option<String>)>)
        ensures
            r@.len() == self.found().len(),
            forall|i: int|
                0 <= i < r@.len() ==> (#[trigger] r@[i]).0 == self.found()[i] && match (
                    r@[i].1,
                    crate::text::byte_slice(
                        self.code(),
                        self.found()[i].start_byte as int,
                        self.found()[i].end_byte as int,
                    ),
                ) {
                    (Some(t), Some(c)) => t@ == c,
                    (None, None) => true,
                    _ => false,
                },
    {
        let mut r: Vec<(FoundRange, Option<String>)> = Vec::new();
        let mut i: usize = 0;
        while i < self.results.len()
            invariant
                i <= self.results.len(),
                r@.len() == i,
                forall|j: int|
                    0 <= j < i ==> (#[trigger] r@[j]).0 == self.results@[j] && match (
                        r@[j].1,
                        crate::text::byte_slice(
                            self.file@,
                            self.results@[j].start_byte as int,
                            self.results@[j].end_byte as int,
                        ),
                    ) {
                        (Some(t), Some(c)) => t@ == c,
                        (None, None) => true,
                        _ => false,
                    },
            decreases self.results.len() - i,
        {
            let x = self.results[i];
            let t = crate::text::str_get(self.file.as_str(), x.start_byte, x.end_byte);
            r.push((x, t));
            i += 1;
        }
        r
    }

    /// How the found functions are shown: each one's numbered lines, the
    /// functions separated by `\n...\n`.
    pub fn to_string(&self) -> (r: String)
        ensures
            r@ == parsed_shown(self.code(), self.found()),
    {
        let chars = str_chars(self.file.as_str());
        let ls = lines_of(&chars);
        let ghost lsv = lines(self.file@);
        let mut parts: Vec<String> = Vec::new();
        let mut i: usize = 0;
        while i < self.results.len()
            invariant
                i <= self.results.len(),
                lsv == lines(self.file@),
                ls@.len() == lsv.len(),
                forall|j: int| 0 <= j < ls@.len() ==> #[trigger] ls@[j]@ == lsv[j],
                views(parts@) == Seq::new(
                    i as nat,
                    |j: int| rows_shown(lsv, self.results@[j].start_row as int, self.results@[j].end_row as int),
                ),
            decreases self.results.len() - i,
        {
            let x = self.results[i];
            let shown = show_rows(&ls, Ghost(lsv), x.start_row, x.end_row);
            crate::text::push_string(&mut parts, shown);
            assert(views(parts@) =~= Seq::new(
                (i + 1) as nat,
                |j: int| rows_shown(lsv, self.results@[j].start_row as int, self.results@[j].end_row as int),
            ));
            i += 1;
        }
        let r = join_strings(&parts, "\n...\n");
        proof {
            reveal_strlit("\n...\n");
            assert("\n...\n"@ =~= seq!['\n', '.', '.', '.', '\n']);
            assert(views(parts@) =~= Seq::new(
                self.results@.len(),
                |j: int| rows_shown(lsv, self.results@[j].start_row as int, self.results@[j].end_row as int),
            ));
        }
        r
    }
}

/// The numbered lines from row `a` up to row `b`, joined by newlines.
fn show_rows(ls: &Vec<Vec<char>>, Ghost(lsv): Ghost<Seq<Seq<char>>>, a: usize, b: usize) -> (r: String)
    requires
        ls@.len() == lsv.len(),
        forall|j: int| 0 <= j < ls@.len() ==> #[trigger] ls@[j]@ == lsv[j],
    ensures
        r@ == rows_shown(lsv, a as int, b as int),
{
    let hi = if b < ls.len() {
        b + 1
    } else {
        ls.len()
    };
    assert(hi as int == (if b + 1 < lsv.len() { b + 1 } else { lsv.len() as int }));
    if a >= hi {
        return String::new();
    }
    let mut parts: Vec<String> = Vec::new();
    let mut k: usize = a;
    while k < hi
        invariant
            a <= k <= hi <= ls@.len(),
            ls@.len() == lsv.len(),
            forall|j: int| 0 <= j < ls@.len() ==> #[trigger] ls@[j]@ == lsv[j],
            views(parts@) == Seq::new((k - a) as nat, |j: int| numbered_line(lsv, a + j)),
        decreases hi - k,
    {
        let mut line = String::new();
        push_decimal(&mut line, k + 1);
        push_str(&mut line, ": ");
        crate::text::push_chars(&mut line, ls[k].as_slice());
        proof {
            reveal_strlit(": ");
            assert(": "@ =~= seq![':', ' ']);
            assert(line@ =~= numbered_line(lsv, k as int));
        }
        crate::text::push_string(&mut parts, line);
        assert(views(parts@) =~= Seq::new((k + 1 - a) as nat, |j: int| numbered_line(lsv, a + j)));
        k += 1;
    }
    let r = join_strings(&parts, "\n");
    proof {
        reveal_strlit("\n");
        assert("\n"@ =~= seq!['\n']);
    }
    r
}

impl ParsedFile {
    /// Search for all function with the name `name`, in string `code` with the
    /// specified language `language`.
    ///
    /// # Errors
    /// If the grammar or the query is refused, if the code cannot be parsed
    /// (or is too large for tree-sitter's 32-bit offsets), or if no results
    /// are found for this function name.
    pub fn search_file(name: &str, code: &str, language: SupportedLanguage) -> (r: Result<Self, GrepError>)
        ensures
            match tree_search_of(code@, query_text(language, name@)) {
                TreeSearch::Grammar(e) => r matches Err(GrepError::GrammarLoad(l, x)) && l@ == grep_language_name(language)
                    && x@ == e,
                TreeSearch::NoTree => r matches Err(GrepError::ParseError(c)) && c@ == code@,
                TreeSearch::Query(e) => r matches Err(GrepError::InvalidQuery(l, x)) && l@ == grep_language_name(language)
                    && x@ == e,
                TreeSearch::Found(v) => if captured(code@, v).len() == 0 {
                    r matches Err(GrepError::NoResultsForSearch)
                } else {
                    r matches Ok(f) && f.code() == code@ && f.searched() == name@ && f.language_name()
                        == grep_language_name(language) && f.found() == captured(code@, v) && f.name_of_file() is None
                },
            },
    {
        let total: usize = crate::text::str_byte_len(code);
        if total as u64 > 4294967295u64 {
            return Err(GrepError::ParseError(string_of(code)));
        }
        let query = language.query(name);
        match ts_search_rust(code, query.as_str()) {
            Err(TreeSearchError::GrammarRefused(e)) => Err(GrepError::GrammarLoad(language.name(), e)),
            Err(TreeSearchError::NoTree) => Err(GrepError::ParseError(string_of(code))),
            Err(TreeSearchError::QueryRefused(e)) => Err(GrepError::InvalidQuery(language.name(), e)),
            Ok(all) => {
                let ranges = captured_ranges(code, &all);
                if ranges.len() == 0 {
                    return Err(GrepError::NoResultsForSearch);
                }
                Ok(ParsedFile::new(string_of(code), string_of(name), language.name(), ranges))
            },
        }
    }

    /// Search for all function with the name `name`, in string `code` with a
    /// language found from the file name `file_name` and the languages `langs`.
    ///
    /// # Errors
    /// If there is no language found for the given file name, or as `search_file`.
    pub fn search_file_with_name(name: &str, code: &str, file_name: &str, langs: &Vec<SupportedLanguage>) -> (r:
        Result<Self, GrepError>)
        ensures
            language_for_file(file_name@, langs@) is None ==> r is Err,
            r matches Ok(f) ==> f.code() == code@ && f.searched() == name@ && f.found().len() > 0
                && f.name_of_file() == Some(file_name@) && (language_for_file(file_name@, langs@)
                matches Some(l) && f.language_name() == grep_language_name(l) && (tree_search_of(
                code@,
                query_text(l, name@),
            ) matches TreeSearch::Found(v) && captured(code@, v) == f.found())),
            language_for_file(file_name@, langs@) matches Some(l) ==> (tree_search_of(code@, query_text(l, name@))
                matches TreeSearch::Found(v) && captured(code@, v).len() > 0 <==> r is Ok),
    {
        let language = match get_file_type_from_file(file_name, langs) {
            Ok(l) => l,
            Err(e) => return Err(e),
        };
        match ParsedFile::search_file(name, code, language) {
            Ok(f) => Ok(f.set_file_name(string_of(file_name))),
            Err(e) => Err(e),
        }
    }
}

} // verus!
