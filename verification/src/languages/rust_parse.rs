//! Finding Rust functions in source text: the syntax tree comes from
//! `ra_ap_syntax`; lines, headings, bodies and parents are worked out here.
use vstd::prelude::*;

use ra_ap_syntax::ast;
use ra_ap_syntax::ast::{HasAttrs, HasDocComments, HasGenericParams, HasName};
use ra_ap_syntax::AstNode;

use super::rust::{Block, BlockType, RustFunction, RustParentFunction};
use super::{
    get_from_index, line_holding, line_index, line_starts, lined, make_lined, newline_starts,
    turn_into_index, index_view,
};
use crate::text::{
    assoc_insert, byte_slice, is_boundary, char_width, clone_opt_string, clone_string, clone_strings,
    distinct_names, lines, lines_of, named_map, rsplit_once_str, split_last, str_byte_len,
    str_chars, str_get, string_of, utf8_len, views,
};

verus! {

#[verifier::external_type_specification]
#[verifier::external_body]
pub struct ExSourceFile(ast::SourceFile);

#[verifier::external_type_specification]
#[verifier::external_body]
pub struct ExFn(ast::Fn);

#[verifier::external_type_specification]
#[verifier::external_body]
pub struct ExImpl(ast::Impl);

#[verifier::external_type_specification]
#[verifier::external_body]
pub struct ExTrait(ast::Trait);

#[verifier::external_type_specification]
#[verifier::external_body]
pub struct ExExternBlock(ast::ExternBlock);

/// A node around a function in the syntax tree, by its kind.
pub enum RustAncestor {
    /// a function
    Function(ast::Fn),
    /// an `impl` block
    Impl(ast::Impl),
    /// a `trait` block
    Trait(ast::Trait),
    /// an `extern` block
    Extern(ast::ExternBlock),
    /// the whole file
    SourceFile,
    /// any other node
    Other,
}

/// What `ra_ap_syntax` parses a Rust source text into: its function nodes,
/// in preorder, each as its plain values with the plain values of the nodes
/// around it, innermost first.
pub uninterp spec fn rust_fn_nodes(text: Seq<char>) -> Seq<(RustSyntaxItem, Seq<RustEnclosing>)>;

/// A list of function nodes with the nodes around each, by its view.
pub open spec fn node_views(v: Seq<(RustSyntaxItem, Vec<RustEnclosing>)>) -> Seq<(RustSyntaxItem, Seq<RustEnclosing>)> {
    Seq::new(v.len(), |i: int| (v[i].0, v[i].1@))
}

/// `SourceFile::parse(text, Edition::Edition2021).tree()`, then the function
/// nodes among the descendants of the file node, in preorder
/// (`syntax().descendants().filter_map(ast::Fn::cast)`), each with the nodes
/// around it, as plain values. What it gives is named by `rust_fn_nodes`:
/// the parse depends on the text alone. The syntax tree keeps its offsets
/// and lengths in 32 bits (converting with `unwrap`), so the text must fit
/// in them.
#[verifier::external_body]
fn rust_syntax_nodes(text: &str) -> (r: Vec<(RustSyntaxItem, Vec<RustEnclosing>)>)
    requires
        utf8_len(text@) <= u32::MAX,
    ensures
        node_views(r@) == rust_fn_nodes(text@),
{
    let tree = ast::SourceFile::parse(text, ra_ap_syntax::Edition::Edition2021).tree();
    tree.syntax().descendants().filter_map(ast::Fn::cast).map(|f| fn_node(&f)).collect()
}

/// The ancestors of a function node, innermost first (`syntax().ancestors()`
/// without the node itself), each told apart by its kind with
/// `ast::Fn::cast`, `ast::Impl::cast`, `ast::Trait::cast`,
/// `ast::ExternBlock::cast` and `ast::SourceFile::cast`. Nothing is stated of them.
#[verifier::external_body]
fn fn_ancestors(f: &ast::Fn) -> (r: Vec<RustAncestor>) {
    f.syntax().ancestors().skip(1).map(|p| {
        if let Some(x) = ast::Fn::cast(p.clone()) { RustAncestor::Function(x) }
        else if let Some(x) = ast::Impl::cast(p.clone()) { RustAncestor::Impl(x) }
        else if let Some(x) = ast::Trait::cast(p.clone()) { RustAncestor::Trait(x) }
        else if let Some(x) = ast::ExternBlock::cast(p.clone()) { RustAncestor::Extern(x) }
        else if ast::SourceFile::cast(p).is_some() { RustAncestor::SourceFile }
        else { RustAncestor::Other }
    }).collect()
}

/// `f.name()`, as text. Nothing is stated of it.
#[verifier::external_body]
fn fn_name(f: &ast::Fn) -> (r: Option<String>) {
    f.name().map(|n| n.text().to_string())
}

/// The start and end byte offsets of a function node (`syntax().text_range()`);
/// a text range never ends before it starts.
#[verifier::external_body]
fn fn_range(f: &ast::Fn) -> (r: (usize, usize))
    ensures
        r.0 <= r.1,
{
    let r = f.syntax().text_range();
    (r.start().into(), r.end().into())
}

/// The text of the return type of a function (`ret_type()?.ty()?`). Nothing is stated of it.
#[verifier::external_body]
fn fn_ret_type(f: &ast::Fn) -> (r: Option<String>) {
    f.ret_type().and_then(|ret| ret.ty().map(|ty| ty.to_string()))
}

/// The text of each parameter of a function (`param_list()?.params()`). Nothing is stated of them.
#[verifier::external_body]
fn fn_params(f: &ast::Fn) -> (r: Vec<String>) {
    f.param_list().map_or_else(Vec::new, |l| l.params().map(|p| p.to_string()).collect())
}

/// The text of each type or const generic parameter of a function
/// (`generic_param_list()?.type_or_const_params()`). Nothing is stated of them.
#[verifier::external_body]
fn fn_type_params(f: &ast::Fn) -> (r: Vec<String>) {
    f.generic_param_list().map_or_else(Vec::new, |g| {
        g.type_or_const_params().map(|p| match p {
            ast::TypeOrConstParam::Type(ty) => ty.to_string(),
            ast::TypeOrConstParam::Const(c) => c.to_string(),
        }).collect()
    })
}

/// The text of each lifetime parameter of a function
/// (`generic_param_list()?.lifetime_params()`). Nothing is stated of them.
#[verifier::external_body]
fn fn_lifetime_params(f: &ast::Fn) -> (r: Vec<String>) {
    f.generic_param_list().map_or_else(Vec::new, |g| g.lifetime_params().map(|p| p.to_string()).collect())
}

/// The text of each doc comment of a function (`doc_comments()`). Nothing is stated of them.
#[verifier::external_body]
fn fn_doc_comments(f: &ast::Fn) -> (r: Vec<String>) {
    f.doc_comments().map(|c| c.to_string()).collect()
}

/// The text of each attribute of a function (`attrs()`). Nothing is stated of them.
#[verifier::external_body]
fn fn_attrs(f: &ast::Fn) -> (r: Vec<String>) {
    f.attrs().map(|c| c.to_string()).collect()
}

/// The start and end byte offsets of an `impl` block (`syntax().text_range()`);
/// a text range never ends before it starts.
#[verifier::external_body]
fn impl_range(b: &ast::Impl) -> (r: (usize, usize))
    ensures
        r.0 <= r.1,
{
    let r = b.syntax().text_range();
    (r.start().into(), r.end().into())
}

/// The text of the type an `impl` block is for (`self_ty()`). Nothing is stated of it.
#[verifier::external_body]
fn impl_self_ty(b: &ast::Impl) -> (r: Option<String>) {
    b.self_ty().map(|ty| ty.to_string())
}

/// The type or const generic parameters of an `impl` block, as text. Nothing is stated of them.
#[verifier::external_body]
fn impl_type_params(b: &ast::Impl) -> (r: Vec<String>) {
    b.generic_param_list().map_or_else(Vec::new, |g| {
        g.type_or_const_params().map(|p| match p {
            ast::TypeOrConstParam::Type(ty) => ty.to_string(),
            ast::TypeOrConstParam::Const(c) => c.to_string(),
        }).collect()
    })
}

/// The lifetime parameters of an `impl` block, as text. Nothing is stated of them.
#[verifier::external_body]
fn impl_lifetime_params(b: &ast::Impl) -> (r: Vec<String>) {
    b.generic_param_list().map_or_else(Vec::new, |g| g.lifetime_params().map(|p| p.to_string()).collect())
}

/// The doc comments of an `impl` block, as text. Nothing is stated of them.
#[verifier::external_body]
fn impl_doc_comments(b: &ast::Impl) -> (r: Vec<String>) {
    b.doc_comments().map(|c| c.to_string()).collect()
}

/// The attributes of an `impl` block, as text. Nothing is stated of them.
#[verifier::external_body]
fn impl_attrs(b: &ast::Impl) -> (r: Vec<String>) {
    b.attrs().map(|c| c.to_string()).collect()
}

/// The start and end byte offsets of a `trait` block (`syntax().text_range()`);
/// a text range never ends before it starts.
#[verifier::external_body]
fn trait_range(b: &ast::Trait) -> (r: (usize, usize))
    ensures
        r.0 <= r.1,
{
    let r = b.syntax().text_range();
    (r.start().into(), r.end().into())
}

/// The name of a `trait` block (`name()`), as text. Nothing is stated of it.
#[verifier::external_body]
fn trait_name(b: &ast::Trait) -> (r: Option<String>) {
    b.name().map(|n| n.to_string())
}

/// The type or const generic parameters of a `trait` block, as text. Nothing is stated of them.
#[verifier::external_body]
fn trait_type_params(b: &ast::Trait) -> (r: Vec<String>) {
    b.generic_param_list().map_or_else(Vec::new, |g| {
        g.type_or_const_params().map(|p| match p {
            ast::TypeOrConstParam::Type(ty) => ty.to_string(),
            ast::TypeOrConstParam::Const(c) => c.to_string(),
        }).collect()
    })
}

/// The lifetime parameters of a `trait` block, as text. Nothing is stated of them.
#[verifier::external_body]
fn trait_lifetime_params(b: &ast::Trait) -> (r: Vec<String>) {
    b.generic_param_list().map_or_else(Vec::new, |g| g.lifetime_params().map(|p| p.to_string()).collect())
}

/// The doc comments of a `trait` block, as text. Nothing is stated of them.
#[verifier::external_body]
fn trait_doc_comments(b: &ast::Trait) -> (r: Vec<String>) {
    b.doc_comments().map(|c| c.to_string()).collect()
}

/// The attributes of a `trait` block, as text. Nothing is stated of them.
#[verifier::external_body]
fn trait_attrs(b: &ast::Trait) -> (r: Vec<String>) {
    b.attrs().map(|c| c.to_string()).collect()
}

/// The start and end byte offsets of an `extern` block (`syntax().text_range()`);
/// a text range never ends before it starts.
#[verifier::external_body]
fn extern_range(b: &ast::ExternBlock) -> (r: (usize, usize))
    ensures
        r.0 <= r.1,
{
    let r = b.syntax().text_range();
    (r.start().into(), r.end().into())
}

/// The doc comments of an `extern` block, as text. Nothing is stated of them.
#[verifier::external_body]
fn extern_doc_comments(b: &ast::ExternBlock) -> (r: Vec<String>) {
    b.doc_comments().map(|c| c.to_string()).collect()
}

/// The attributes of an `extern` block, as text. Nothing is stated of them.
#[verifier::external_body]
fn extern_attrs(b: &ast::ExternBlock) -> (r: Vec<String>) {
    b.attrs().map(|c| c.to_string()).collect()
}

// ---------------------------------------------------------------- plain syntax

/// What the syntax tree says of a function or of a block around it.
pub struct RustSyntaxItem {
    /// the name of the item (for an `impl` block: the type it is for)
    pub name: Option<String>,
    /// the start and end byte offsets of the item
    pub range: (usize, usize),
    /// the type or const generic parameters
    pub type_params: Vec<String>,
    /// the lifetime parameters
    pub lifetime_params: Vec<String>,
    /// the doc comments
    pub doc_comments: Vec<String>,
    /// the attributes
    pub attributes: Vec<String>,
    /// the return type (functions only)
    pub return_type: Option<String>,
    /// the parameters, each as text (functions only)
    pub params: Vec<String>,
}

/// A node around a function, as plain values.
pub enum RustEnclosing {
    /// a function
    Function(RustSyntaxItem),
    /// a block of the given type
    Block(RustSyntaxItem, BlockType),
    /// the whole file: the walk outward stops here
    SourceFile,
    /// any other node
    Other,
}

/// Gathers what the syntax tree says of a function.
fn fn_item(f: &ast::Fn) -> (r: RustSyntaxItem)
    ensures
        r.range.0 <= r.range.1,
{
    RustSyntaxItem {
        name: fn_name(f),
        range: fn_range(f),
        type_params: fn_type_params(f),
        lifetime_params: fn_lifetime_params(f),
        doc_comments: fn_doc_comments(f),
        attributes: fn_attrs(f),
        return_type: fn_ret_type(f),
        params: fn_params(f),
    }
}

/// Gathers what the syntax tree says of a function and of the nodes around
/// it, innermost first.
fn fn_node(f: &ast::Fn) -> (r: (RustSyntaxItem, Vec<RustEnclosing>))
    ensures
        r.0.range.0 <= r.0.range.1,
{
    let ancestors = fn_ancestors(f);
    let mut enclosing: Vec<RustEnclosing> = Vec::new();
    let mut k: usize = 0;
    while k < ancestors.len()
        invariant
            k <= ancestors.len(),
            enclosing@.len() == k,
        decreases ancestors.len() - k,
    {
        enclosing.push(enclosing_item(&ancestors[k]));
        k += 1;
    }
    (fn_item(f), enclosing)
}

/// Gathers what the syntax tree says of a node around a function.
fn enclosing_item(a: &RustAncestor) -> (r: RustEnclosing)
    ensures
        match *a {
            RustAncestor::Function(_) => r is Function,
            RustAncestor::Impl(_) => r matches RustEnclosing::Block(i, BlockType::Impl) && i.return_type is None
                && i.params@.len() == 0,
            RustAncestor::Trait(_) => r matches RustEnclosing::Block(i, BlockType::Trait) && i.return_type is None
                && i.params@.len() == 0,
            RustAncestor::Extern(_) => r matches RustEnclosing::Block(i, BlockType::Extern) && i.name is None
                && i.type_params@.len() == 0 && i.lifetime_params@.len() == 0 && i.return_type is None
                && i.params@.len() == 0,
            RustAncestor::SourceFile => r is SourceFile,
            RustAncestor::Other => r is Other,
        },
{
    match a {
        RustAncestor::Function(f) => RustEnclosing::Function(fn_item(f)),
        RustAncestor::Impl(b) => RustEnclosing::Block(
            RustSyntaxItem {
                name: impl_self_ty(b),
                range: impl_range(b),
                type_params: impl_type_params(b),
                lifetime_params: impl_lifetime_params(b),
                doc_comments: impl_doc_comments(b),
                attributes: impl_attrs(b),
                return_type: None,
                params: Vec::new(),
            },
            BlockType::Impl,
        ),
        RustAncestor::Trait(b) => RustEnclosing::Block(
            RustSyntaxItem {
                name: trait_name(b),
                range: trait_range(b),
                type_params: trait_type_params(b),
                lifetime_params: trait_lifetime_params(b),
                doc_comments: trait_doc_comments(b),
                attributes: trait_attrs(b),
                return_type: None,
                params: Vec::new(),
            },
            BlockType::Trait,
        ),
        RustAncestor::Extern(b) => RustEnclosing::Block(
            RustSyntaxItem {
                name: None,
                range: extern_range(b),
                type_params: Vec::new(),
                lifetime_params: Vec::new(),
                doc_comments: extern_doc_comments(b),
                attributes: extern_attrs(b),
                return_type: None,
                params: Vec::new(),
            },
            BlockType::Extern,
        ),
        RustAncestor::SourceFile => RustEnclosing::SourceFile,
        RustAncestor::Other => RustEnclosing::Other,
    }
}


// ---------------------------------------------------------------- headings and lines

/// The character index of the first `{` at or after character index `from`.
pub open spec fn first_brace(s: Seq<char>, from: int) -> Option<int>
    decreases s.len() - from,
{
    if from < 0 || from >= s.len() {
        None
    } else if s[from] == '{' {
        Some(from)
    } else {
        first_brace(s, from + 1)
    }
}

/// Where the heading of an item ends: the first `{` after its start (the
/// start's byte offset taken as a character index), or else the start.
pub open spec fn heading_end(s: Seq<char>, start: usize) -> int {
    match first_brace(s, start + 1) {
        Some(i) => i,
        None => start as int,
    }
}

/// The text the closing of an item is read from: its last line, or `}` when
/// there is no such line.
pub open spec fn line_or_brace(s: Seq<char>, k: nat) -> Seq<char> {
    let ls = lines(s);
    if 1 <= k <= ls.len() {
        ls[k - 1]
    } else {
        seq!['}']
    }
}

/// The lines of an item (first, last), its line-numbered heading (from the
/// start of its first line up to and including the first `{` after its
/// start, without one leading newline) and its line-numbered last line;
/// nothing when a line or a slice cannot be found.
pub open spec fn stuff(s: Seq<char>, start: usize, end: usize) -> Option<
    ((nat, nat), (Seq<char>, Seq<char>)),
> {
    let idx = line_index(s);
    if end == 0 {
        None
    } else {
        match (line_holding(idx, (end - 1) as usize), line_holding(idx, start)) {
            (Some(el), Some(sl)) => {
                let starts = newline_starts(s);
                if sl < 1 || sl - 1 >= starts.len() {
                    None
                } else {
                    match byte_slice(s, starts[sl - 1] as int, heading_end(s, start) + 1) {
                        Some(c) => if c.len() == 0 || char_width(c[0]) != 1 {
                            None
                        } else {
                            let content = if c[0] == '\n' {
                                c.drop_first()
                            } else {
                                c
                            };
                            Some(((sl, el), (lined(content, sl), lined(line_or_brace(s, el), el))))
                        },
                        None => None,
                    }
                }
            },
            _ => None,
        }
    }
}

/// What a text is worked on with: its characters, its line index and its
/// line starts, for a text small enough that line numbers cannot overflow.
pub open spec fn text_tables(
    file: Seq<char>,
    chars: Seq<char>,
    index: Seq<Vec<usize>>,
    starts: Seq<usize>,
) -> bool {
    &&& chars == file
    &&& index_view(index) == line_index(file)
    &&& starts.len() == newline_starts(file).len()
    &&& forall|i: int| 0 <= i < starts.len() ==> starts[i] == #[trigger] newline_starts(file)[i]
    &&& utf8_len(file) <= usize::MAX / 4
}

/// Works out the lines, heading and last line of an item from its byte range.
pub fn get_stuff(
    file: &str,
    chars: &Vec<char>,
    index: &Vec<Vec<usize>>,
    starts: &Vec<usize>,
    start: usize,
    end: usize,
) -> (r: Option<((usize, usize), (String, String))>)
    requires
        text_tables(file@, chars@, index@, starts@),
    ensures
        match stuff(file@, start, end) {
            Some(((sl, el), (top, bottom))) => r matches Some(x) && x.0.0 == sl && x.0.1 == el
                && x.1.0@ == top && x.1.1@ == bottom,
            None => r is None,
        },
{
    let ghost s = file@;
    proof {
        crate::text::lemma_chars_le_bytes(s);
        super::lemma_line_index_len_bound(s);
    }
    if end == 0 {
        return None;
    }
    let el = match get_from_index(index, end - 1) {
        Some(k) => k,
        None => return None,
    };
    let sl = match get_from_index(index, start) {
        Some(k) => k,
        None => return None,
    };
    proof {
        super::lemma_line_holding_bound(line_index(s), 0, (end - 1) as usize);
        super::lemma_line_holding_bound(line_index(s), 0, start);
    }
    let mut found: Option<usize> = None;
    if start < chars.len() {
        let mut i: usize = start + 1;
        while i < chars.len()
            invariant_except_break
                start < i <= chars.len(),
                chars@ == s,
                found is None,
                first_brace(s, start + 1) == first_brace(s, i as int),
            ensures
                found matches Some(b) ==> first_brace(s, start + 1) == Some(b as int) && b
                    < chars.len(),
                found is None ==> first_brace(s, start + 1) is None,
            decreases chars.len() - i,
        {
            if chars[i] == '{' {
                found = Some(i);
                break;
            }
            i += 1;
        }
    }
    let brace = match found {
        Some(b) => b,
        None => start,
    };
    assert(brace as int == heading_end(s, start));
    if sl - 1 >= starts.len() {
        return None;
    }
    let sidx = starts[sl - 1];
    if brace >= usize::MAX / 2 {
        proof {
            if is_boundary(s, brace + 1) {
                let k = crate::text::index_at(s, brace + 1);
                crate::text::lemma_offset_mono(s, k, s.len() as int);
                assert(s.take(s.len() as int) =~= s);
            }
        }
        return None;
    }
    let c = match str_get(file, sidx, brace + 1) {
        Some(c) => c,
        None => return None,
    };
    let cv = str_chars(c.as_str());
    if cv.len() == 0 {
        return None;
    }
    if crate::text::char_len_utf8(cv[0]) != 1 {
        return None;
    }
    let content = if cv[0] == '\n' {
        crate::text::char_range(&cv, 1, cv.len())
    } else {
        c
    };
    proof {
        let a0 = starts[sl - 1] as int;
        let b0 = brace + 1;
        assert(is_boundary(s, a0) && is_boundary(s, b0) && a0 <= b0);
        let i0 = crate::text::index_at(s, a0);
        let j0 = crate::text::index_at(s, b0);
        if j0 < i0 {
            crate::text::lemma_offset_strict(s, j0, i0);
        }
        assert(c@.len() <= s.len());
        crate::text::lemma_lines_len(seq![], content@);
        assert(lines(content@) == crate::text::lines_from(seq![], content@));
        if cv@[0] == '\n' {
            assert(content@ =~= cv@.drop_first());
        }
    }
    let top = make_lined(content.as_str(), sl);
    let ls = lines_of(chars);
    let last = if el - 1 < ls.len() {
        crate::text::chars_to_string(ls[el - 1].as_slice())
    } else {
        string_of("}")
    };
    proof {
        reveal_strlit("}");
        assert("}"@ =~= seq!['}']);
        assert(last@ == line_or_brace(s, el as nat));
        if el - 1 < ls.len() {
            crate::text::lemma_lines_elem_len(seq![], s, el - 1);
        }
        crate::text::lemma_lines_len(seq![], last@);
    }
    let bottom = make_lined(last.as_str(), el);
    Some(((sl, el), (top, bottom)))
}


// ---------------------------------------------------------------- functions, parents, blocks

/// The (name, type) of the parameters, each split at its last `": "`
/// (parameters without one are left out); a later parameter of the same name
/// replaces an earlier one.
pub open spec fn param_entries(ps: Seq<String>) -> Map<Seq<char>, Seq<char>>
    decreases ps.len(),
{
    if ps.len() == 0 {
        Map::empty()
    } else {
        match split_last(ps.last()@, ": "@) {
            Some((a, b)) => param_entries(ps.drop_last()).insert(a, b),
            None => param_entries(ps.drop_last()),
        }
    }
}

/// The (name, type) of each parameter.
pub fn arguments_of(params: &Vec<String>) -> (r: Vec<(String, String)>)
    ensures
        distinct_names(r@),
        named_map(r@) == param_entries(params@),
{
    let mut r: Vec<(String, String)> = Vec::new();
    let mut i: usize = 0;
    proof {
        assert(params@.take(0) =~= seq![]);
        assert(named_map(r@) =~= Map::empty());
    }
    while i < params.len()
        invariant
            i <= params.len(),
            distinct_names(r@),
            named_map(r@) == param_entries(params@.take(i as int)),
        decreases params.len() - i,
    {
        proof {
            assert(params@.take(i + 1).drop_last() =~= params@.take(i as int));
        }
        match rsplit_once_str(params[i].as_str(), ": ") {
            Some(pair) => assoc_insert(&mut r, pair),
            None => {},
        }
        i += 1;
    }
    proof {
        assert(params@.take(params.len() as int) =~= params@);
    }
    r
}

/// The lines of an item and what it is shown with, when they can be found.
pub open spec fn item_stuff(file: Seq<char>, item: RustSyntaxItem) -> Option<
    ((nat, nat), (Seq<char>, Seq<char>)),
> {
    stuff(file, item.range.0, item.range.1)
}

/// Whether `x` is the parent function that enclosing function `p` stands
/// for in text `s`, with arguments `args`.
pub open spec fn parent_is(s: Seq<char>, p: RustSyntaxItem, args: Seq<(String, String)>, x: RustParentFunction) -> bool {
    match (item_stuff(s, p), p.name) {
        (Some(((sl, el), (top, bottom))), Some(n)) => x.name@ == n@ && x.top@ == top && x.bottom@
            == bottom && x.lines == (sl as usize, el as usize) && x.lifetime@ == p.lifetime_params@
            && x.generics@ == p.type_params@ && x.arguments@ == args && x.return_type
            == p.return_type && x.attributes@ == p.attributes@ && x.doc_comments@
            == p.doc_comments@,
        _ => false,
    }
}

/// Whether `x` is the block that enclosing block `b` of type `t` stands for in text `s`.
pub open spec fn block_is(s: Seq<char>, b: RustSyntaxItem, t: BlockType, x: Block) -> bool {
    match item_stuff(s, b) {
        Some(((sl, el), (top, bottom))) => x.name == b.name && x.top@ == top && x.bottom@ == bottom
            && x.lines == (sl as usize, el as usize) && x.block_type == t && x.lifetime@
            == b.lifetime_params@ && x.generics@ == b.type_params@ && x.attributes@
            == b.attributes@ && x.doc_comments@ == b.doc_comments@,
        None => false,
    }
}

/// The index of the first file node among the enclosing nodes from `i` on
/// (the walk outward stops there), or their number.
pub open spec fn file_at(enc: Seq<RustEnclosing>, i: int) -> int
    decreases enc.len() - i,
{
    if i < 0 || i >= enc.len() {
        enc.len() as int
    } else if enc[i] is SourceFile {
        i
    } else {
        file_at(enc, i + 1)
    }
}

/// The walk outward stops no earlier than where it starts.
proof fn lemma_file_at_ge(enc: Seq<RustEnclosing>, i: int)
    requires
        0 <= i,
    ensures
        i <= enc.len() ==> i <= file_at(enc, i),
    decreases enc.len() - i,
{
    if i < enc.len() && !(enc[i] is SourceFile) {
        lemma_file_at_ge(enc, i + 1);
    }
}

/// The enclosing functions whose lines and name can be found, innermost first.
pub open spec fn parents_kept(s: Seq<char>, enc: Seq<RustEnclosing>) -> Seq<RustSyntaxItem>
    decreases enc.len(),
{
    if enc.len() == 0 {
        seq![]
    } else {
        let rest = parents_kept(s, enc.drop_last());
        match enc.last() {
            RustEnclosing::Function(p) => if item_stuff(s, p) is Some && p.name is Some {
                rest.push(p)
            } else {
                rest
            },
            _ => rest,
        }
    }
}

/// The outermost enclosing block whose lines can be found.
pub open spec fn block_kept(s: Seq<char>, enc: Seq<RustEnclosing>) -> Option<(RustSyntaxItem, BlockType)>
    decreases enc.len(),
{
    if enc.len() == 0 {
        None
    } else {
        match enc.last() {
            RustEnclosing::Block(b, t) => if item_stuff(s, b) is Some {
                Some((b, t))
            } else {
                block_kept(s, enc.drop_last())
            },
            _ => block_kept(s, enc.drop_last()),
        }
    }
}

/// Whether the parents and block of `x` are those that the enclosing nodes
/// `enc` (innermost first, up to the file node) give in text `s`.
pub open spec fn enclosing_are(s: Seq<char>, enc: Seq<RustEnclosing>, x: RustFunction) -> bool {
    let walked = enc.take(file_at(enc, 0));
    let ps = parents_kept(s, walked);
    &&& x.function@.len() == ps.len()
    &&& forall|i: int| 0 <= i < ps.len() ==> parent_is(s, ps[i], x.arguments@, #[trigger] x.function@[i])
    &&& match (block_kept(s, walked), x.block) {
        (Some((b, t)), Some(k)) => block_is(s, b, t, k),
        (None, None) => true,
        _ => false,
    }
}

/// The parent function an enclosing function stands for, when its lines and
/// its name can be found. Its arguments are the given ones.
pub fn rust_parent(
    file: &str,
    chars: &Vec<char>,
    index: &Vec<Vec<usize>>,
    starts: &Vec<usize>,
    p: &RustSyntaxItem,
    arguments: &Vec<(String, String)>,
) -> (r: Option<RustParentFunction>)
    requires
        text_tables(file@, chars@, index@, starts@),
    ensures
        match (item_stuff(file@, *p), p.name) {
            (Some(_), Some(_)) => r matches Some(x) && parent_is(file@, *p, arguments@, x),
            _ => r is None,
        },
{
    let stuff = match get_stuff(file, chars, index, starts, p.range.0, p.range.1) {
        Some(x) => x,
        None => return None,
    };
    let name = match &p.name {
        Some(n) => clone_string(n),
        None => return None,
    };
    let ((sl, el), (top, bottom)) = stuff;
    Some(
        RustParentFunction {
            name,
            top,
            bottom,
            lines: (sl, el),
            lifetime: clone_strings(&p.lifetime_params),
            generics: clone_strings(&p.type_params),
            arguments: crate::text::clone_pairs(arguments),
            return_type: clone_opt_string(&p.return_type),
            attributes: clone_strings(&p.attributes),
            doc_comments: clone_strings(&p.doc_comments),
        },
    )
}

/// The block an enclosing block stands for, when its lines can be found.
pub fn rust_block(
    file: &str,
    chars: &Vec<char>,
    index: &Vec<Vec<usize>>,
    starts: &Vec<usize>,
    b: &RustSyntaxItem,
    block_type: BlockType,
) -> (r: Option<Block>)
    requires
        text_tables(file@, chars@, index@, starts@),
    ensures
        match item_stuff(file@, *b) {
            Some(_) => r matches Some(x) && block_is(file@, *b, block_type, x),
            None => r is None,
        },
{
    let stuff = match get_stuff(file, chars, index, starts, b.range.0, b.range.1) {
        Some(x) => x,
        None => return None,
    };
    let ((sl, el), (top, bottom)) = stuff;
    Some(
        Block {
            name: clone_opt_string(&b.name),
            top,
            bottom,
            block_type,
            lines: (sl, el),
            lifetime: clone_strings(&b.lifetime_params),
            generics: clone_strings(&b.type_params),
            attributes: clone_strings(&b.attributes),
            doc_comments: clone_strings(&b.doc_comments),
        },
    )
}

/// The byte offset the code of a function is taken from: the start of its
/// first line (just after the newline that ends the line before).
pub open spec fn body_start(file: Seq<char>, sl: nat) -> Option<nat> {
    let starts = newline_starts(file);
    if sl < 1 || sl - 1 >= starts.len() {
        None
    } else if starts[sl - 1] == 0 {
        Some(0)
    } else {
        Some(starts[sl - 1] + 1)
    }
}

/// Whether `x` is the function that function node `f`, with enclosing nodes
/// `enc` (innermost first), stands for in text `s`.
pub open spec fn rust_function_is(s: Seq<char>, f: RustSyntaxItem, enc: Seq<RustEnclosing>, x: RustFunction) -> bool {
    match item_stuff(s, f) {
        Some(((sl, el), _)) => match body_start(s, sl) {
            Some(b) => match byte_slice(s, b as int, f.range.1 as int) {
                Some(code) => match f.name {
                    Some(n) => {
                        &&& x.name@ == n@
                        &&& x.body@ == lined(code, sl)
                        &&& x.lines == (sl as usize, el as usize)
                        &&& x.return_type == f.return_type
                        &&& x.lifetime@ == f.lifetime_params@
                        &&& x.generics@ == f.type_params@
                        &&& distinct_names(x.arguments@)
                        &&& named_map(x.arguments@) == param_entries(f.params@)
                        &&& x.attributes@ == f.attributes@
                        &&& x.doc_comments@ == f.doc_comments@
                        &&& enclosing_are(s, enc, x)
                    },
                    None => false,
                },
                None => false,
            },
            None => false,
        },
        None => false,
    }
}

/// The function a function node with the given enclosing nodes stands for:
/// its lines, its code (numbered from its first line), its parents (each
/// enclosing function whose lines and name can be found, innermost first,
/// up to the file node) and its block (the outermost enclosing block whose
/// lines can be found). `Ok(None)` when it has no name; `Err` when its lines
/// or code cannot be found.
pub fn rust_function_from_syntax(
    file: &str,
    chars: &Vec<char>,
    index: &Vec<Vec<usize>>,
    starts: &Vec<usize>,
    f: &RustSyntaxItem,
    enclosing: &Vec<RustEnclosing>,
) -> (r: Result<Option<RustFunction>, String>)
    requires
        text_tables(file@, chars@, index@, starts@),
    ensures
        item_stuff(file@, *f) is None ==> r is Err,
        match item_stuff(file@, *f) {
            Some(((sl, el), _)) => match body_start(file@, sl) {
                None => r is Err,
                Some(b) => match byte_slice(file@, b as int, f.range.1 as int) {
                    None => r is Err,
                    Some(code) => match f.name {
                        None => r == Ok::<Option<RustFunction>, String>(None),
                        Some(_) => r matches Ok(Some(x)) && rust_function_is(file@, *f, enclosing@, x),
                    },
                },
            },
            None => true,
        },
{
    let ghost s = file@;
    let stuff = match get_stuff(file, chars, index, starts, f.range.0, f.range.1) {
        Some(x) => x,
        None => return Err(string_of("could not get endline")),
    };
    let arguments = arguments_of(&f.params);
    let mut parents: Vec<RustParentFunction> = Vec::new();
    let mut block: Option<Block> = None;
    let ghost enc = enclosing@;
    let mut i: usize = 0;
    proof {
        lemma_file_at_ge(enc, 0);
    }
    while i < enclosing.len()
        invariant_except_break
            i <= enclosing.len(),
            file_at(enc, 0) == file_at(enc, i as int),
        invariant
            text_tables(file@, chars@, index@, starts@),
            enc == enclosing@,
            s == file@,
            i <= file_at(enc, 0),
            ({
                let ps = parents_kept(s, enc.take(i as int));
                &&& parents@.len() == ps.len()
                &&& forall|j: int| 0 <= j < ps.len() ==> parent_is(s, ps[j], arguments@, #[trigger] parents@[j])
                &&& match (block_kept(s, enc.take(i as int)), block) {
                    (Some((b, t)), Some(k)) => block_is(s, b, t, k),
                    (None, None) => true,
                    _ => false,
                }
            }),
        ensures
            i == file_at(enc, 0),
        decreases enclosing.len() - i,
    {
        proof {
            assert(enc.take(i + 1).drop_last() =~= enc.take(i as int));
            lemma_file_at_ge(enc, i + 1);
        }
        match &enclosing[i] {
            RustEnclosing::SourceFile => {
                break;
            },
            RustEnclosing::Function(p) => {
                if let Some(pf) = rust_parent(file, chars, index, starts, p, &arguments) {
                    parents.push(pf);
                }
            },
            RustEnclosing::Block(b, t) => {
                if let Some(bl) = rust_block(file, chars, index, starts, b, *t) {
                    block = Some(bl);
                }
            },
            RustEnclosing::Other => {},
        }
        i += 1;
    }
    let ((sl, el), _) = stuff;
    proof {
        crate::text::lemma_chars_le_bytes(s);
        super::lemma_line_index_len_bound(s);
        super::lemma_line_holding_bound(line_index(s), 0, f.range.0);
    }
    if sl - 1 >= starts.len() {
        return Err(string_of("could not get start index for function based off line number"));
    }
    proof {
        super::lemma_newline_starts_bound(s, sl - 1);
    }
    let start_idx = if starts[sl - 1] == 0 {
        0
    } else {
        starts[sl - 1] + 1
    };
    let contents = match str_get(file, start_idx, f.range.1) {
        Some(c) => c,
        None => return Err(
            string_of("could not function text based off of start and stop indexes"),
        ),
    };
    proof {
        let b0 = start_idx as int;
        let e0 = f.range.1 as int;
        assert(is_boundary(s, b0) && is_boundary(s, e0) && b0 <= e0);
        let i0 = crate::text::index_at(s, b0);
        let j0 = crate::text::index_at(s, e0);
        if j0 < i0 {
            crate::text::lemma_offset_strict(s, j0, i0);
        }
        assert(contents@.len() <= s.len());
        crate::text::lemma_lines_len(seq![], contents@);
    }
    let body = make_lined(contents.as_str(), sl);
    let name = match &f.name {
        Some(n) => clone_string(n),
        None => return Ok(None),
    };
    Ok(
        Some(
            RustFunction {
                name,
                body,
                block,
                function: parents,
                lines: (sl, el),
                lifetime: clone_strings(&f.lifetime_params),
                generics: clone_strings(&f.type_params),
                arguments,
                return_type: clone_opt_string(&f.return_type),
                attributes: clone_strings(&f.attributes),
                doc_comments: clone_strings(&f.doc_comments),
            },
        ),
    )
}

/// Whether some function node named `name`, with some enclosing nodes, stands for `x` in text `s`.
pub open spec fn declared_rust_function(s: Seq<char>, name: Seq<char>, x: RustFunction) -> bool {
    exists|f: RustSyntaxItem, enc: Seq<RustEnclosing>|
        f.name matches Some(n) && n@ == name && #[trigger] rust_function_is(s, f, enc, x)
}

/// Whether a syntax item is a function called `name`.
pub open spec fn item_named(f: RustSyntaxItem, name: Seq<char>) -> bool {
    f.name matches Some(n) && n@ == name
}

/// Whether the lines or the code of an item cannot be worked out from the text.
pub open spec fn item_unreadable(s: Seq<char>, f: RustSyntaxItem) -> bool {
    match item_stuff(s, f) {
        None => true,
        Some(((sl, _), _)) => match body_start(s, sl) {
            None => true,
            Some(b) => byte_slice(s, b as int, f.range.1 as int) is None,
        },
    }
}

/// The function nodes called `name` among `items` (each with the nodes
/// around it), in order.
pub open spec fn named_items(items: Seq<(RustSyntaxItem, Seq<RustEnclosing>)>, name: Seq<char>) -> Seq<
    (RustSyntaxItem, Seq<RustEnclosing>),
>
    decreases items.len(),
{
    if items.len() == 0 {
        seq![]
    } else if item_named(items.last().0, name) {
        named_items(items.drop_last(), name).push(items.last())
    } else {
        named_items(items.drop_last(), name)
    }
}

/// What a search for the functions called `name` gives when the syntax tree
/// of text `s` holds the function nodes `items`, in order: `Err` when the
/// lines or code of one called `name` cannot be worked out; else `Err` "no
/// function found" when none is called `name`; else, in order, what each
/// function node called `name` stands for.
pub open spec fn rust_search_result(
    s: Seq<char>,
    name: Seq<char>,
    items: Seq<(RustSyntaxItem, Seq<RustEnclosing>)>,
    r: Result<Vec<RustFunction>, String>,
) -> bool {
    let w = named_items(items, name);
    if exists|i: int| 0 <= i < w.len() && item_unreadable(s, #[trigger] w[i].0) {
        r is Err
    } else if w.len() == 0 {
        r matches Err(e) && e@ == "no function found"@
    } else {
        r matches Ok(v) && v@.len() == w.len() && forall|i: int|
            0 <= i < w.len() ==> rust_function_is(s, w[i].0, w[i].1, #[trigger] v@[i])
    }
}

/// Finds the functions called `name` in Rust source text: the result is
/// what `rust_search_result` gives for the function nodes of the syntax
/// tree (so each function found is what a function node of that name stands
/// for: its lines, code, parameters, generics, attributes, parents and
/// block); `Err` "file too large" when the text is too large for the
/// parser's 32-bit offsets or to number its lines.
pub fn find_function_in_file(file_contents: &str, name: &str) -> (r: Result<
    Vec<RustFunction>,
    String,
>)
    ensures
        r matches Ok(v) ==> v@.len() > 0 && forall|i: int|
            0 <= i < v@.len() ==> declared_rust_function(file_contents@, name@, #[trigger] v@[i]),
        !super::parser_fits(file_contents@) ==> (r matches Err(e) && e@ == "file too large"@),
        super::parser_fits(file_contents@) ==> rust_search_result(
            file_contents@,
            name@,
            rust_fn_nodes(file_contents@),
            r,
        ),
{
    if !super::fits_parser(file_contents) {
        return Err(string_of("file too large"));
    }
    let total = str_byte_len(file_contents);
    let chars = str_chars(file_contents);
    let index = match turn_into_index(file_contents) {
        Ok(x) => x,
        Err(e) => return Err(e),
    };
    let starts = line_starts(file_contents);
    let nodes = rust_syntax_nodes(file_contents);
    let ghost all = rust_fn_nodes(file_contents@);
    let mut hist: Vec<RustFunction> = Vec::new();
    let mut i: usize = 0;
    while i < nodes.len()
        invariant
            i <= nodes.len(),
            all == node_views(nodes@),
            all == rust_fn_nodes(file_contents@),
            super::parser_fits(file_contents@),
            text_tables(file_contents@, chars@, index@, starts@),
            forall|j: int|
                0 <= j < hist@.len() ==> declared_rust_function(file_contents@, name@, #[trigger] hist@[j]),
            hist@.len() == named_items(all.take(i as int), name@).len(),
            forall|j: int| 0 <= j < named_items(all.take(i as int), name@).len() ==> !item_unreadable(
                file_contents@,
                #[trigger] named_items(all.take(i as int), name@)[j].0,
            ),
            forall|j: int| 0 <= j < named_items(all.take(i as int), name@).len() ==> rust_function_is(
                file_contents@,
                named_items(all.take(i as int), name@)[j].0,
                named_items(all.take(i as int), name@)[j].1,
                #[trigger] hist@[j],
            ),
        decreases nodes.len() - i,
    {
        let ghost old_seen = all.take(i as int);
        let ghost seen = all.take(i + 1);
        assert(seen.drop_last() =~= old_seen);
        assert(seen.last() == (nodes@[i as int].0, nodes@[i as int].1@));
        let item = &nodes[i].0;
        let enclosing = &nodes[i].1;
        let wanted = match &item.name {
            Some(n) => super::str_eq(n.as_str(), name),
            None => false,
        };
        assert(wanted == item_named(*item, name@));
        if wanted {
            assert(named_items(seen, name@) == named_items(old_seen, name@).push((*item, enclosing@)));
            match rust_function_from_syntax(
                file_contents,
                &chars,
                &index,
                &starts,
                item,
                enclosing,
            ) {
                Ok(Some(func)) => {
                    proof {
                        assert(rust_function_is(file_contents@, *item, enclosing@, func));
                    }
                    let ghost before = hist@;
                    hist.push(func);
                    proof {
                        let w = named_items(seen, name@);
                        assert forall|j: int| 0 <= j < w.len() implies rust_function_is(
                            file_contents@,
                            w[j].0,
                            w[j].1,
                            #[trigger] hist@[j],
                        ) by {
                            if j < before.len() {
                                assert(hist@[j] == before[j]);
                            }
                        }
                    }
                },
                Ok(None) => {},
                Err(e) => {
                    proof {
                        lemma_named_items_prefix(all, name@, i + 1);
                        let w = named_items(seen, name@);
                        assert(item_unreadable(file_contents@, w[w.len() - 1].0));
                        let wa = named_items(all, name@);
                        assert(wa[w.len() - 1] == w[w.len() - 1]);
                        assert(rust_search_result(file_contents@, name@, all, Err(e)));
                    }
                    return Err(e);
                },
            }
        } else {
            assert(named_items(seen, name@) == named_items(old_seen, name@));
        }
        i += 1;
    }
    assert(all.take(nodes@.len() as int) =~= all);
    if hist.len() == 0 {
        let r = Err(string_of("no function found"));
        assert(rust_search_result(file_contents@, name@, all, r));
        return r;
    }
    assert(rust_search_result(file_contents@, name@, all, Ok(hist)));
    Ok(hist)
}

/// The function nodes of a name among the first `n` nodes come first, in
/// the same order, among those of all the nodes.
proof fn lemma_named_items_prefix(items: Seq<(RustSyntaxItem, Seq<RustEnclosing>)>, name: Seq<char>, n: int)
    requires
        0 <= n <= items.len(),
    ensures
        named_items(items.take(n), name).len() <= named_items(items, name).len(),
        forall|j: int| 0 <= j < named_items(items.take(n), name).len() ==> named_items(items, name)[j]
            == #[trigger] named_items(items.take(n), name)[j],
    decreases items.len() - n,
{
    if n < items.len() {
        lemma_named_items_prefix(items, name, n + 1);
        let t = items.take(n + 1);
        assert(t.drop_last() =~= items.take(n));
        let a = named_items(items.take(n), name);
        let b = named_items(t, name);
        assert(b.len() >= a.len());
        assert forall|j: int| 0 <= j < a.len() implies named_items(items, name)[j] == #[trigger] a[j] by {
            assert(b[j] == a[j]);
        }
    } else {
        assert(items.take(n) =~= items);
    }
}

} // verus!
