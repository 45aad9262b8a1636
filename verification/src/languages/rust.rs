//! Rust functions, the blocks (`impl`, `trait`, `extern`) and parent
//! functions around them, and the filters over them.
use vstd::prelude::*;

use super::{FunctionTrait, Language, LanguageFilter, LanguageFunction};
use crate::text::{
    clone_opt_string, clone_pairs, clone_string, clone_strings, has_str, join, join_strings,
    pair_views, push_decimal, push_str, some_contains, string_of, vec_has_str,
    vec_some_contains, views,
};

verus! {

/// The kind of block a function is in: used to filter for functions in, say,
/// `impl` blocks and not in `extern` or `trait` blocks.
#[derive(Debug, PartialEq, Eq, Copy, Clone, Structural)]
pub enum BlockType {
    /// This is for `impl` blocks
    Impl,
    /// This is for `extern` blocks
    Extern,
    /// This is for `trait` blocks
    Trait,
    /// This is for code that gets labeled as a block but no block type can be found for it
    Unknown,
}

/// The block type a keyword stands for.
pub open spec fn block_type_of(s: Seq<char>) -> BlockType {
    if s == "impl"@ {
        BlockType::Impl
    } else if s == "extern"@ {
        BlockType::Extern
    } else if s == "trait"@ {
        BlockType::Trait
    } else {
        BlockType::Unknown
    }
}

/// The keyword a block type is displayed as.
pub open spec fn block_type_name(b: BlockType) -> Seq<char> {
    match b {
        BlockType::Impl => "impl"@,
        BlockType::Extern => "extern"@,
        BlockType::Trait => "trait"@,
        BlockType::Unknown => "unknown"@,
    }
}

impl BlockType {
    /// This is used to get the block type from its keyword
    pub fn from_string(s: &str) -> (r: Self)
        ensures
            r == block_type_of(s@),
    {
        if super::str_eq(s, "impl") {
            BlockType::Impl
        } else if super::str_eq(s, "extern") {
            BlockType::Extern
        } else if super::str_eq(s, "trait") {
            BlockType::Trait
        } else {
            BlockType::Unknown
        }
    }

    /// The keyword of the block type.
    pub fn to_string(&self) -> (r: String)
        ensures
            r@ == block_type_name(*self),
    {
        match self {
            BlockType::Impl => string_of("impl"),
            BlockType::Extern => string_of("extern"),
            BlockType::Trait => string_of("trait"),
            BlockType::Unknown => string_of("unknown"),
        }
    }
}

/// Displaying a block type and reading it back gives the same block type.
pub proof fn law_block_type_roundtrip(b: BlockType)
    ensures
        block_type_of(block_type_name(b)) == b,
{
    reveal_strlit("impl");
    reveal_strlit("extern");
    reveal_strlit("trait");
    reveal_strlit("unknown");
    assert("impl"@.len() == 4 && "extern"@.len() == 6 && "trait"@.len() == 5
        && "unknown"@.len() == 7);
}

/// A block (`impl`, `trait` or `extern`) that a function is in.
#[derive(Debug)]
pub struct Block {
    /// The name of the block ie for `impl` it would be the type were impling for
    pub name: Option<String>,
    /// The signature of the block
    pub top: String,
    /// The last line of the block
    pub bottom: String,
    /// the type of block ie `impl` `trait` `extern`
    pub block_type: BlockType,
    /// The line number the block starts and ends on
    pub lines: (usize, usize),
    /// The lifetimes of the block
    pub lifetime: Vec<String>,
    /// The generic types of the block
    pub generics: Vec<String>,
    /// The blocks atrributes
    pub attributes: Vec<String>,
    /// the blocks doc comments
    pub doc_comments: Vec<String>,
}

/// An outer function that encloses the function that was looked up.
#[derive(Debug)]
pub struct RustParentFunction {
    /// The name of the function (parent function)
    pub name: String,
    /// what the signature of the function is
    pub top: String,
    /// what the last line of the function is
    pub bottom: String,
    /// The line number the function starts and ends on
    pub lines: (usize, usize),
    /// The lifetimes of the function
    pub lifetime: Vec<String>,
    /// The generic types of the function
    pub generics: Vec<String>,
    /// The arguments of the function, each as (name, type)
    pub arguments: Vec<(String, String)>,
    /// The return type of the function
    pub return_type: Option<String>,
    /// the function atrributes
    pub attributes: Vec<String>,
    /// the functions doc comments
    pub doc_comments: Vec<String>,
}

/// A single Rust function that was found; each commit has several of these.
#[derive(Debug)]
pub struct RustFunction {
    /// The name of the function
    pub name: String,
    /// The actual (line numbered) code of the function
    pub body: String,
    /// is the function in a block ie `impl` `trait` etc
    pub block: Option<Block>,
    /// optional parent functions, outermost first
    pub function: Vec<RustParentFunction>,
    /// The line number the function starts and ends on
    pub lines: (usize, usize),
    /// The lifetimes of the function
    pub lifetime: Vec<String>,
    /// The generic types of the function
    pub generics: Vec<String>,
    /// The arguments of the function, each as (name, type)
    pub arguments: Vec<(String, String)>,
    /// The return type of the function
    pub return_type: Option<String>,
    /// The functions atrributes
    pub attributes: Vec<String>,
    /// the functions doc comments
    pub doc_comments: Vec<String>,
}

impl Block {
    /// Whether two blocks hold the same values.
    pub open spec fn same(&self, o: &Block) -> bool {
        &&& self.name == o.name
        &&& self.top == o.top
        &&& self.bottom == o.bottom
        &&& self.block_type == o.block_type
        &&& self.lines == o.lines
        &&& self.lifetime@ == o.lifetime@
        &&& self.generics@ == o.generics@
        &&& self.attributes@ == o.attributes@
        &&& self.doc_comments@ == o.doc_comments@
    }

    /// A copy of the block.
    pub fn duplicate(&self) -> (r: Block)
        ensures
            r.same(self),
    {
        Block {
            name: clone_opt_string(&self.name),
            top: clone_string(&self.top),
            bottom: clone_string(&self.bottom),
            block_type: self.block_type,
            lines: self.lines,
            lifetime: clone_strings(&self.lifetime),
            generics: clone_strings(&self.generics),
            attributes: clone_strings(&self.attributes),
            doc_comments: clone_strings(&self.doc_comments),
        }
    }

    /// The metadata of this block: the name of the block, the type of block,
    /// the lines it starts and ends on, and so on, as (key, value) entries.
    pub fn get_metadata(&self) -> (r: Vec<(String, String)>)
        ensures
            metadata_view(r@) == block_metadata(*self),
    {
        let mut map: Vec<(String, String)> = Vec::new();
        if let Some(name) = &self.name {
            map.push((string_of("name"), clone_string(name)));
        }
        map.push((string_of("block"), self.block_type.to_string()));
        map.push((string_of("lines"), lines_debug(self.lines)));
        map.push((string_of("signature"), clone_string(&self.top)));
        map.push((string_of("bottom"), clone_string(&self.bottom)));
        map.push((string_of("generics"), join_strings(&self.generics, ",")));
        map.push((string_of("lifetime generics"), join_strings(&self.lifetime, ",")));
        map.push((string_of("attributes"), join_strings(&self.attributes, ",")));
        map.push((string_of("doc comments"), join_strings(&self.doc_comments, ",")));
        proof {
            assert(metadata_view(map@) =~= block_metadata(*self));
        }
        map
    }
}

/// The views of (key, value) entries.
pub open spec fn metadata_view(v: Seq<(String, String)>) -> Seq<(Seq<char>, Seq<char>)> {
    Seq::new(v.len(), |i: int| (v[i].0@, v[i].1@))
}

/// How a pair of lines is shown: `(start, end)`.
pub open spec fn lines_debug_spec(l: (usize, usize)) -> Seq<char> {
    seq!['('] + crate::text::decimal(l.0 as nat) + seq![',', ' '] + crate::text::decimal(
        l.1 as nat,
    ) + seq![')']
}

/// `format!("{:?}", lines)` for a pair of line numbers.
pub fn lines_debug(l: (usize, usize)) -> (r: String)
    ensures
        r@ == lines_debug_spec(l),
{
    let mut s = string_of("(");
    push_decimal(&mut s, l.0);
    push_str(&mut s, ", ");
    push_decimal(&mut s, l.1);
    push_str(&mut s, ")");
    proof {
        reveal_strlit("(");
        reveal_strlit(", ");
        reveal_strlit(")");
        assert(s@ =~= lines_debug_spec(l));
    }
    s
}

/// The metadata entries of a block.
pub open spec fn block_metadata(b: Block) -> Seq<(Seq<char>, Seq<char>)> {
    let rest = seq![
        ("block"@, block_type_name(b.block_type)),
        ("lines"@, lines_debug_spec(b.lines)),
        ("signature"@, b.top@),
        ("bottom"@, b.bottom@),
        ("generics"@, join(views(b.generics@), ","@)),
        ("lifetime generics"@, join(views(b.lifetime@), ","@)),
        ("attributes"@, join(views(b.attributes@), ","@)),
        ("doc comments"@, join(views(b.doc_comments@), ","@)),
    ];
    match b.name {
        Some(n) => seq![("name"@, n@)] + rest,
        None => rest,
    }
}

/// How the arguments of a function are shown: `name: type` joined by `,`.
pub open spec fn arguments_shown(a: Seq<(String, String)>) -> Seq<char> {
    join(Seq::new(a.len(), |i: int| a[i].0@ + ": "@ + a[i].1@), ","@)
}

/// The metadata entries of a parent function.
pub open spec fn parent_metadata(p: RustParentFunction) -> Seq<(Seq<char>, Seq<char>)> {
    let base = seq![
        ("name"@, p.name@),
        ("lines"@, lines_debug_spec(p.lines)),
        ("signature"@, p.top@),
        ("bottom"@, p.bottom@),
        ("generics"@, join(views(p.generics@), ","@)),
        ("arguments"@, arguments_shown(p.arguments@)),
        ("lifetime generics"@, join(views(p.lifetime@), ","@)),
        ("attributes"@, join(views(p.attributes@), ","@)),
        ("doc comments"@, join(views(p.doc_comments@), ","@)),
    ];
    match p.return_type {
        Some(t) => base.push(("return type"@, t@)),
        None => base,
    }
}

/// The arguments shown as `name: type` joined by `,`.
fn show_arguments(a: &Vec<(String, String)>) -> (r: String)
    ensures
        r@ == arguments_shown(a@),
{
    let mut parts: Vec<String> = Vec::new();
    let mut i: usize = 0;
    while i < a.len()
        invariant
            i <= a.len(),
            parts@.len() == i,
            forall|j: int| 0 <= j < i ==> (#[trigger] parts@[j])@ == a@[j].0@ + ": "@ + a@[j].1@,
        decreases a.len() - i,
    {
        let mut p = clone_string(&a[i].0);
        push_str(&mut p, ": ");
        push_str(&mut p, a[i].1.as_str());
        parts.push(p);
        i += 1;
    }
    let r = join_strings(&parts, ",");
    assert(views(parts@) =~= Seq::new(a@.len(), |i: int| a@[i].0@ + ": "@ + a@[i].1@));
    r
}

impl RustParentFunction {
    /// Whether two parent functions hold the same values.
    pub open spec fn same(&self, o: &RustParentFunction) -> bool {
        &&& self.name == o.name
        &&& self.top == o.top
        &&& self.bottom == o.bottom
        &&& self.lines == o.lines
        &&& self.lifetime@ == o.lifetime@
        &&& self.generics@ == o.generics@
        &&& self.arguments@ == o.arguments@
        &&& self.return_type == o.return_type
        &&& self.attributes@ == o.attributes@
        &&& self.doc_comments@ == o.doc_comments@
    }

    /// A copy of the parent function.
    pub fn duplicate(&self) -> (r: RustParentFunction)
        ensures
            r.same(self),
    {
        RustParentFunction {
            name: clone_string(&self.name),
            top: clone_string(&self.top),
            bottom: clone_string(&self.bottom),
            lines: self.lines,
            lifetime: clone_strings(&self.lifetime),
            generics: clone_strings(&self.generics),
            arguments: clone_pairs(&self.arguments),
            return_type: clone_opt_string(&self.return_type),
            attributes: clone_strings(&self.attributes),
            doc_comments: clone_strings(&self.doc_comments),
        }
    }

    /// The metadata of this parent function: its name, lines, signature and
    /// so on, as (key, value) entries.
    pub fn get_metadata(&self) -> (r: Vec<(String, String)>)
        ensures
            metadata_view(r@) == parent_metadata(*self),
    {
        let mut map: Vec<(String, String)> = Vec::new();
        map.push((string_of("name"), clone_string(&self.name)));
        map.push((string_of("lines"), lines_debug(self.lines)));
        map.push((string_of("signature"), clone_string(&self.top)));
        map.push((string_of("bottom"), clone_string(&self.bottom)));
        map.push((string_of("generics"), join_strings(&self.generics, ",")));
        map.push((string_of("arguments"), show_arguments(&self.arguments)));
        map.push((string_of("lifetime generics"), join_strings(&self.lifetime, ",")));
        map.push((string_of("attributes"), join_strings(&self.attributes, ",")));
        map.push((string_of("doc comments"), join_strings(&self.doc_comments, ",")));
        if let Some(t) = &self.return_type {
            map.push((string_of("return type"), clone_string(t)));
        }
        proof {
            assert(metadata_view(map@) =~= parent_metadata(*self));
        }
        map
    }
}

/// Whether two sequences of parent functions hold the same values.
pub open spec fn same_parents(a: Seq<RustParentFunction>, b: Seq<RustParentFunction>) -> bool {
    a.len() == b.len() && forall|i: int| 0 <= i < a.len() ==> (#[trigger] a[i]).same(&b[i])
}

/// A copy of a sequence of parent functions.
fn duplicate_parents(v: &Vec<RustParentFunction>) -> (r: Vec<RustParentFunction>)
    ensures
        same_parents(r@, v@),
{
    let mut r: Vec<RustParentFunction> = Vec::new();
    let mut i: usize = 0;
    while i < v.len()
        invariant
            i <= v.len(),
            r@.len() == i,
            forall|j: int| 0 <= j < i ==> (#[trigger] r@[j]).same(&v@[j]),
        decreases v.len() - i,
    {
        r.push(v[i].duplicate());
        i += 1;
    }
    r
}

impl RustFunction {
    /// get the parent functions
    pub fn get_parent_function(&self) -> (r: Vec<RustParentFunction>)
        ensures
            same_parents(r@, self.function@),
    {
        duplicate_parents(&self.function)
    }

    /// get the block of the function
    pub fn get_block(&self) -> (r: Option<Block>)
        ensures
            r is Some == self.block is Some,
            r is Some ==> r->0.same(&self.block->0),
    {
        match &self.block {
            Some(b) => Some(b.duplicate()),
            None => None,
        }
    }
}

/// filters for rust functions
pub enum RustFilter {
    /// when you want to filter by function that are in a specific block (impl, trait, extern)
    InBlock(BlockType),
    /// when you want filter by a function that has a parent function of a specific name
    HasParentFunction(String),
    /// when you want to filter by a function that has a has a specific return type
    HasReturnType(String),
    /// when you want to filter by a function that has a specific parameter type
    HasParameterType(String),
    /// when you want to filter by a function that has a specific parameter name
    HasParameterName(String),
    /// when you want to filter by a function that has a specific lifetime
    HasLifetime(String),
    /// when you want to filter by a function that has a specific generic with name
    HasGeneric(String),
    /// when you want to filter by a function that has a specific attribute
    HasAttribute(String),
    /// when you want to filter by a function that has or contains a specific doc comment
    HasDocComment(String),
    /// when you want to filter by a function that's block has a specific attribute
    BlockHasAttribute(String),
    /// when you want to filter by a function that's block has a specific doc comment
    BlockHasDocComment(String),
    /// when you want to filter by a function that's block has a specific lifetime
    BlockHasLifetime(String),
    /// when you want to filter by a function that's block has a specific generic with name
    BlockHasGeneric(String),
    /// when you want to filter by a function that's parent function has a specific attribute
    ParentFunctionHasAttribute(String),
    /// when you want to filter by a function that's parent function has a specific doc comment
    ParentFunctionHasDocComment(String),
    /// when you want to filter by a function that's parent function has a specific lifetime
    ParentFunctionHasLifetime(String),
    /// when you want to filter by a function that's parent function has a specific generic with name
    ParentFunctionHasGeneric(String),
    /// when you want to filter by a function that's parent function has a specific return type
    ParentFunctionHasReturnType(String),
    /// when you want to filter by a function that's parent function has a specific parameter type
    ParentFunctionHasParameterType(String),
    /// when you want to filter by a function that's parent function has a specific parameter name
    ParentFunctionHasParameterName(String),
}

/// Whether some argument has the given type.
pub open spec fn has_arg_type(a: Seq<(String, String)>, t: Seq<char>) -> bool {
    exists|i: int| 0 <= i < a.len() && (#[trigger] a[i]).1@ == t
}

/// A parameter-type filter matches a Rust function exactly when one of its
/// parameters, looked up by name, has that type; a parameter-name filter
/// exactly when it has a parameter of that name. (A function's parameters
/// have distinct names.)
pub proof fn law_parameter_filters(f: RustFunction, t: String)
    requires
        crate::text::distinct_names(f.arguments@),
    ensures
        rust_matches(RustFilter::HasParameterType(t), f) <==> exists|n: Seq<char>|
            crate::text::named_map(f.arguments@).contains_key(n) && #[trigger] crate::text::named_map(
                f.arguments@,
            )[n] == t@,
        rust_matches(RustFilter::HasParameterName(t), f) <==> crate::text::named_map(f.arguments@).contains_key(
            t@,
        ),
{
    let a = f.arguments@;
    crate::text::lemma_named_map(a);
    let m = crate::text::named_map(a);
    if has_arg_type(a, t@) {
        let i = choose|i: int| 0 <= i < a.len() && (#[trigger] a[i]).1@ == t@;
        assert(m[a[i].0@] == t@);
        assert(crate::text::names_of(a).contains(a[i].0@));
    }
    if exists|n: Seq<char>| m.contains_key(n) && #[trigger] m[n] == t@ {
        let n = choose|n: Seq<char>| m.contains_key(n) && #[trigger] m[n] == t@;
        assert(crate::text::names_of(a).contains(n));
        let i = choose|i: int| 0 <= i < a.len() && (#[trigger] a[i]).0@ == n;
        assert(m[a[i].0@] == a[i].1@);
        assert(a[i].1@ == t@);
    }
    if has_arg_name(a, t@) {
        let i = choose|i: int| 0 <= i < a.len() && (#[trigger] a[i]).0@ == t@;
        assert(crate::text::names_of(a).contains(a[i].0@));
    }
    if m.contains_key(t@) {
        assert(crate::text::names_of(a).contains(t@));
    }
}

/// Whether some argument has the given name.
pub open spec fn has_arg_name(a: Seq<(String, String)>, n: Seq<char>) -> bool {
    exists|i: int| 0 <= i < a.len() && (#[trigger] a[i]).0@ == n
}

/// Whether an optional type is the given one.
pub open spec fn opt_is(o: Option<String>, t: Seq<char>) -> bool {
    o matches Some(x) && x@ == t
}

/// Whether some parent function has the property.
pub open spec fn some_parent(ps: Seq<RustParentFunction>, p: spec_fn(RustParentFunction) -> bool) -> bool {
    exists|i: int| 0 <= i < ps.len() && p(#[trigger] ps[i])
}

/// Whether a Rust function matches a filter.
pub open spec fn rust_matches(flt: RustFilter, f: RustFunction) -> bool {
    match flt {
        RustFilter::InBlock(bt) => f.block matches Some(b) && b.block_type == bt,
        RustFilter::HasParentFunction(p) => some_parent(
            f.function@,
            |x: RustParentFunction| x.name@ == p@,
        ),
        RustFilter::HasReturnType(t) => opt_is(f.return_type, t@),
        RustFilter::HasParameterType(t) => has_arg_type(f.arguments@, t@),
        RustFilter::HasParameterName(n) => has_arg_name(f.arguments@, n@),
        RustFilter::HasLifetime(l) => has_str(f.lifetime@, l@),
        RustFilter::HasGeneric(g) => has_str(f.generics@, g@),
        RustFilter::HasAttribute(a) => has_str(f.attributes@, a@),
        RustFilter::HasDocComment(c) => some_contains(f.doc_comments@, c@),
        RustFilter::BlockHasAttribute(a) => f.block matches Some(b) && has_str(
            b.attributes@,
            a@,
        ),
        RustFilter::BlockHasDocComment(c) => f.block matches Some(b) && some_contains(
            b.doc_comments@,
            c@,
        ),
        RustFilter::BlockHasLifetime(l) => f.block matches Some(b) && has_str(b.lifetime@, l@),
        RustFilter::BlockHasGeneric(g) => f.block matches Some(b) && has_str(b.generics@, g@),
        RustFilter::ParentFunctionHasAttribute(a) => some_parent(
            f.function@,
            |x: RustParentFunction| has_str(x.attributes@, a@),
        ),
        RustFilter::ParentFunctionHasDocComment(c) => some_parent(
            f.function@,
            |x: RustParentFunction| some_contains(x.doc_comments@, c@),
        ),
        RustFilter::ParentFunctionHasLifetime(l) => some_parent(
            f.function@,
            |x: RustParentFunction| has_str(x.lifetime@, l@),
        ),
        RustFilter::ParentFunctionHasGeneric(g) => some_parent(
            f.function@,
            |x: RustParentFunction| has_str(x.generics@, g@),
        ),
        RustFilter::ParentFunctionHasReturnType(t) => some_parent(
            f.function@,
            |x: RustParentFunction| opt_is(x.return_type, t@),
        ),
        RustFilter::ParentFunctionHasParameterType(t) => some_parent(
            f.function@,
            |x: RustParentFunction| has_arg_type(x.arguments@, t@),
        ),
        RustFilter::ParentFunctionHasParameterName(n) => some_parent(
            f.function@,
            |x: RustParentFunction| has_arg_name(x.arguments@, n@),
        ),
    }
}

/// Whether some argument has the given type (executable).
fn args_have_type(a: &Vec<(String, String)>, t: &str) -> (r: bool)
    ensures
        r == has_arg_type(a@, t@),
{
    let mut i: usize = 0;
    while i < a.len()
        invariant
            i <= a.len(),
            forall|j: int| 0 <= j < i ==> (#[trigger] a@[j]).1@ != t@,
        decreases a.len() - i,
    {
        if super::str_eq(a[i].1.as_str(), t) {
            return true;
        }
        i += 1;
    }
    false
}

/// Whether some argument has the given name (executable).
fn args_have_name(a: &Vec<(String, String)>, n: &str) -> (r: bool)
    ensures
        r == has_arg_name(a@, n@),
{
    let mut i: usize = 0;
    while i < a.len()
        invariant
            i <= a.len(),
            forall|j: int| 0 <= j < i ==> (#[trigger] a@[j]).0@ != n@,
        decreases a.len() - i,
    {
        if super::str_eq(a[i].0.as_str(), n) {
            return true;
        }
        i += 1;
    }
    false
}

/// Whether an optional type is the given one (executable).
fn opt_equals(o: &Option<String>, t: &str) -> (r: bool)
    ensures
        r == opt_is(*o, t@),
{
    match o {
        Some(x) => super::str_eq(x.as_str(), t),
        None => false,
    }
}

/// The property of a parent function that a filter asks about, if it asks about one.
pub open spec fn parent_property(flt: RustFilter, x: RustParentFunction) -> bool {
    match flt {
        RustFilter::HasParentFunction(p) => x.name@ == p@,
        RustFilter::ParentFunctionHasAttribute(a) => has_str(x.attributes@, a@),
        RustFilter::ParentFunctionHasDocComment(c) => some_contains(x.doc_comments@, c@),
        RustFilter::ParentFunctionHasLifetime(l) => has_str(x.lifetime@, l@),
        RustFilter::ParentFunctionHasGeneric(g) => has_str(x.generics@, g@),
        RustFilter::ParentFunctionHasReturnType(t) => opt_is(x.return_type, t@),
        RustFilter::ParentFunctionHasParameterType(t) => has_arg_type(x.arguments@, t@),
        RustFilter::ParentFunctionHasParameterName(n) => has_arg_name(x.arguments@, n@),
        _ => false,
    }
}

/// Whether a parent function has the property a filter asks about (executable).
fn parent_has(flt: &RustFilter, x: &RustParentFunction) -> (r: bool)
    ensures
        r == parent_property(*flt, *x),
{
    match flt {
        RustFilter::HasParentFunction(p) => super::str_eq(x.name.as_str(), p.as_str()),
        RustFilter::ParentFunctionHasAttribute(a) => vec_has_str(&x.attributes, a.as_str()),
        RustFilter::ParentFunctionHasDocComment(c) => vec_some_contains(
            &x.doc_comments,
            c.as_str(),
        ),
        RustFilter::ParentFunctionHasLifetime(l) => vec_has_str(&x.lifetime, l.as_str()),
        RustFilter::ParentFunctionHasGeneric(g) => vec_has_str(&x.generics, g.as_str()),
        RustFilter::ParentFunctionHasReturnType(t) => opt_equals(&x.return_type, t.as_str()),
        RustFilter::ParentFunctionHasParameterType(t) => args_have_type(&x.arguments, t.as_str()),
        RustFilter::ParentFunctionHasParameterName(n) => args_have_name(&x.arguments, n.as_str()),
        _ => false,
    }
}

/// Whether some parent function has the property a filter asks about (executable).
fn any_parent_has(flt: &RustFilter, ps: &Vec<RustParentFunction>) -> (r: bool)
    ensures
        r == (exists|i: int| 0 <= i < ps@.len() && parent_property(*flt, #[trigger] ps@[i])),
{
    let mut i: usize = 0;
    while i < ps.len()
        invariant
            i <= ps.len(),
            forall|j: int| 0 <= j < i ==> !parent_property(*flt, #[trigger] ps@[j]),
        decreases ps.len() - i,
    {
        if parent_has(flt, &ps[i]) {
            return true;
        }
        i += 1;
    }
    false
}

impl RustFilter {
    /// checks if a function matches the filter
    pub fn matches(&self, function: &RustFunction) -> (r: bool)
        ensures
            r == rust_matches(*self, *function),
    {
        match self {
            RustFilter::InBlock(block_type) => match &function.block {
                Some(b) => b.block_type == *block_type,
                None => false,
            },
            RustFilter::HasReturnType(t) => opt_equals(&function.return_type, t.as_str()),
            RustFilter::HasParameterType(t) => args_have_type(&function.arguments, t.as_str()),
            RustFilter::HasParameterName(n) => args_have_name(&function.arguments, n.as_str()),
            RustFilter::HasLifetime(l) => vec_has_str(&function.lifetime, l.as_str()),
            RustFilter::HasGeneric(g) => vec_has_str(&function.generics, g.as_str()),
            RustFilter::HasAttribute(a) => vec_has_str(&function.attributes, a.as_str()),
            RustFilter::HasDocComment(c) => vec_some_contains(
                &function.doc_comments,
                c.as_str(),
            ),
            RustFilter::BlockHasAttribute(a) => match &function.block {
                Some(b) => vec_has_str(&b.attributes, a.as_str()),
                None => false,
            },
            RustFilter::BlockHasDocComment(c) => match &function.block {
                Some(b) => vec_some_contains(&b.doc_comments, c.as_str()),
                None => false,
            },
            RustFilter::BlockHasLifetime(l) => match &function.block {
                Some(b) => vec_has_str(&b.lifetime, l.as_str()),
                None => false,
            },
            RustFilter::BlockHasGeneric(g) => match &function.block {
                Some(b) => vec_has_str(&b.generics, g.as_str()),
                None => false,
            },
            _ => {
                let r = any_parent_has(self, &function.function);
                proof {
                    if r {
                        let i = choose|i: int|
                            0 <= i < function.function@.len() && parent_property(
                                *self,
                                #[trigger] function.function@[i],
                            );
                        assert(function.function@[i] == function.function@[i]);
                    }
                }
                r
            },
        }
    }
}

/// The headings around a Rust function: its block's first, then its parents', outermost first.
pub open spec fn rust_tops(f: RustFunction) -> Seq<(Seq<char>, usize)> {
    let ps = Seq::new(f.function@.len(), |i: int| (f.function@[i].top@, f.function@[i].lines.0));
    match f.block {
        Some(b) => seq![(b.top@, b.lines.0)] + ps,
        None => ps,
    }
}

/// The closings around a Rust function: its block's first, then its parents'.
pub open spec fn rust_bottoms(f: RustFunction) -> Seq<(Seq<char>, usize)> {
    let ps = Seq::new(
        f.function@.len(),
        |i: int| (f.function@[i].bottom@, f.function@[i].lines.1),
    );
    match f.block {
        Some(b) => seq![(b.bottom@, b.lines.1)] + ps,
        None => ps,
    }
}

/// The lines of the outermost of the parents that start before `start`, scanning in order.
pub open spec fn outer_lines(ps: Seq<RustParentFunction>, lines: (usize, usize)) -> (usize, usize)
    decreases ps.len(),
{
    if ps.len() == 0 {
        lines
    } else {
        let acc = outer_lines(ps.drop_last(), lines);
        if ps.last().lines.0 < acc.0 {
            ps.last().lines
        } else {
            acc
        }
    }
}

/// The lines of a Rust function with what encloses it: its block's lines, or else
/// the lines of the parent that starts first.
pub open spec fn rust_total_lines(f: RustFunction) -> (usize, usize) {
    match f.block {
        Some(b) => b.lines,
        None => outer_lines(f.function@, f.lines),
    }
}

/// The parts a Rust function is shown with.
pub open spec fn rust_display(f: RustFunction) -> Seq<char> {
    let sep = seq!['\n', '.', '.', '.', '\n'];
    let ps = f.function@;
    let tops = crate::text::concat_all(Seq::new(ps.len(), |i: int| ps[i].top@ + sep));
    let bottoms = crate::text::concat_all(Seq::new(ps.len(), |i: int| sep + ps[i].bottom@));
    match f.block {
        Some(b) => b.top@ + sep + tops + f.body@ + bottoms + sep + b.bottom@,
        None => tops + f.body@ + bottoms,
    }
}

impl FunctionTrait for RustFunction {
    open spec fn same(&self, o: &Self) -> bool {
        &&& self.name == o.name
        &&& self.body == o.body
        &&& (self.block is Some <==> o.block is Some)
        &&& (self.block is Some ==> self.block->0.same(&o.block->0))
        &&& same_parents(self.function@, o.function@)
        &&& self.lines == o.lines
        &&& self.lifetime@ == o.lifetime@
        &&& self.generics@ == o.generics@
        &&& self.arguments@ == o.arguments@
        &&& self.return_type == o.return_type
        &&& self.attributes@ == o.attributes@
        &&& self.doc_comments@ == o.doc_comments@
    }

    open spec fn lines_spec(&self) -> (usize, usize) {
        self.lines
    }

    open spec fn total_lines_spec(&self) -> (usize, usize) {
        rust_total_lines(*self)
    }

    open spec fn name_spec(&self) -> Seq<char> {
        self.name@
    }

    open spec fn body_spec(&self) -> Seq<char> {
        self.body@
    }

    open spec fn tops_spec(&self) -> Seq<(Seq<char>, usize)> {
        rust_tops(*self)
    }

    open spec fn bottoms_spec(&self) -> Seq<(Seq<char>, usize)> {
        rust_bottoms(*self)
    }

    open spec fn display_spec(&self) -> Seq<char> {
        rust_display(*self)
    }

    proof fn lemma_same(&self, other: &Self) {
        let ps = self.function@;
        let qs = other.function@;
        assert forall|i: int| 0 <= i < qs.len() implies (#[trigger] qs[i]).same(&ps[i]) by {
            assert(ps[i].same(&qs[i]));
        }
        assert(Seq::new(ps.len(), |i: int| (ps[i].top@, ps[i].lines.0)) =~= Seq::new(
            qs.len(),
            |i: int| (qs[i].top@, qs[i].lines.0),
        ));
        assert(Seq::new(ps.len(), |i: int| (ps[i].bottom@, ps[i].lines.1)) =~= Seq::new(
            qs.len(),
            |i: int| (qs[i].bottom@, qs[i].lines.1),
        ));
        lemma_outer_lines_same(ps, qs, self.lines);
        let sep = seq!['\n', '.', '.', '.', '\n'];
        assert(Seq::new(ps.len(), |i: int| ps[i].top@ + sep) =~= Seq::new(
            qs.len(),
            |i: int| qs[i].top@ + sep,
        ));
        assert(Seq::new(ps.len(), |i: int| sep + ps[i].bottom@) =~= Seq::new(
            qs.len(),
            |i: int| sep + qs[i].bottom@,
        ));
    }

    fn get_lines(&self) -> (r: (usize, usize)) {
        self.lines
    }

    fn get_total_lines(&self) -> (r: (usize, usize)) {
        match &self.block {
            Some(b) => b.lines,
            None => {
                let mut acc = self.lines;
                let mut i: usize = 0;
                while i < self.function.len()
                    invariant
                        i <= self.function.len(),
                        acc == outer_lines(self.function@.take(i as int), self.lines),
                    decreases self.function.len() - i,
                {
                    assert(self.function@.take(i + 1).drop_last() =~= self.function@.take(
                        i as int,
                    ));
                    if self.function[i].lines.0 < acc.0 {
                        acc = self.function[i].lines;
                    }
                    i += 1;
                }
                assert(self.function@.take(self.function.len() as int) =~= self.function@);
                acc
            },
        }
    }

    fn get_name(&self) -> (r: String) {
        clone_string(&self.name)
    }

    fn get_body(&self) -> (r: String) {
        clone_string(&self.body)
    }

    fn get_tops(&self) -> (r: Vec<(String, usize)>) {
        let mut tops: Vec<(String, usize)> = Vec::new();
        if let Some(b) = &self.block {
            tops.push((clone_string(&b.top), b.lines.0));
        }
        let k = tops.len();
        let mut i: usize = 0;
        while i < self.function.len()
            invariant
                i <= self.function.len(),
                k <= 1,
                tops@.len() == k + i,
                self.block is Some ==> k == 1 && tops@[0].0@ == self.block->0.top@ && tops@[0].1
                    == self.block->0.lines.0,
                self.block is None ==> k == 0,
                forall|j: int|
                    0 <= j < i ==> (#[trigger] tops@[k + j]).0@ == self.function@[j].top@
                        && tops@[k + j].1 == self.function@[j].lines.0,
            decreases self.function.len() - i,
        {
            tops.push((clone_string(&self.function[i].top), self.function[i].lines.0));
            i += 1;
        }
        proof {
            let ps = Seq::new(
                self.function@.len(),
                |j: int| (self.function@[j].top@, self.function@[j].lines.0),
            );
            assert forall|j: int| 0 <= j < ps.len() implies #[trigger] ps[j] == pair_views(
                tops@,
            )[k + j] by {
                assert(tops@[k + j].0@ == self.function@[j].top@);
            }
            if self.block is Some {
                let b = self.block->0;
                assert(pair_views(tops@) =~= seq![(b.top@, b.lines.0)] + ps);
            } else {
                assert(pair_views(tops@) =~= ps);
            }
        }
        tops
    }

    fn get_bottoms(&self) -> (r: Vec<(String, usize)>) {
        let mut bottoms: Vec<(String, usize)> = Vec::new();
        if let Some(b) = &self.block {
            bottoms.push((clone_string(&b.bottom), b.lines.1));
        }
        let k = bottoms.len();
        let mut i: usize = 0;
        while i < self.function.len()
            invariant
                i <= self.function.len(),
                k <= 1,
                bottoms@.len() == k + i,
                self.block is Some ==> k == 1 && bottoms@[0].0@ == self.block->0.bottom@
                    && bottoms@[0].1 == self.block->0.lines.1,
                self.block is None ==> k == 0,
                forall|j: int|
                    0 <= j < i ==> (#[trigger] bottoms@[k + j]).0@ == self.function@[j].bottom@
                        && bottoms@[k + j].1 == self.function@[j].lines.1,
            decreases self.function.len() - i,
        {
            bottoms.push((clone_string(&self.function[i].bottom), self.function[i].lines.1));
            i += 1;
        }
        proof {
            let ps = Seq::new(
                self.function@.len(),
                |j: int| (self.function@[j].bottom@, self.function@[j].lines.1),
            );
            assert forall|j: int| 0 <= j < ps.len() implies #[trigger] ps[j] == pair_views(
                bottoms@,
            )[k + j] by {
                assert(bottoms@[k + j].0@ == self.function@[j].bottom@);
            }
            if self.block is Some {
                let b = self.block->0;
                assert(pair_views(bottoms@) =~= seq![(b.bottom@, b.lines.1)] + ps);
            } else {
                assert(pair_views(bottoms@) =~= ps);
            }
        }
        bottoms
    }

    fn to_string(&self) -> (r: String) {
        let ghost sep = seq!['\n', '.', '.', '.', '\n'];
        let ghost ps = self.function@;
        let mut s = String::new();
        if let Some(b) = &self.block {
            push_str(&mut s, b.top.as_str());
            push_str(&mut s, "\n...\n");
        }
        let ghost start = s@;
        let mut i: usize = 0;
        while i < self.function.len()
            invariant
                i <= self.function.len(),
                ps == self.function@,
                sep == seq!['\n', '.', '.', '.', '\n'],
                s@ == start + crate::text::concat_all(
                    Seq::new(i as nat, |j: int| ps[j].top@ + sep),
                ),
            decreases self.function.len() - i,
        {
            proof {
                reveal_strlit("\n...\n");
                crate::text::lemma_concat_all_push(
                    Seq::new(i as nat, |j: int| ps[j].top@ + sep),
                    ps[i as int].top@ + sep,
                );
                assert(Seq::new(i as nat, |j: int| ps[j].top@ + sep).push(ps[i as int].top@ + sep)
                    =~= Seq::new((i + 1) as nat, |j: int| ps[j].top@ + sep));
            }
            push_str(&mut s, self.function[i].top.as_str());
            push_str(&mut s, "\n...\n");
            i += 1;
        }
        push_str(&mut s, self.body.as_str());
        let ghost mid = s@;
        let mut i: usize = 0;
        while i < self.function.len()
            invariant
                i <= self.function.len(),
                ps == self.function@,
                sep == seq!['\n', '.', '.', '.', '\n'],
                s@ == mid + crate::text::concat_all(
                    Seq::new(i as nat, |j: int| sep + ps[j].bottom@),
                ),
            decreases self.function.len() - i,
        {
            proof {
                reveal_strlit("\n...\n");
                crate::text::lemma_concat_all_push(
                    Seq::new(i as nat, |j: int| sep + ps[j].bottom@),
                    sep + ps[i as int].bottom@,
                );
                assert(Seq::new(i as nat, |j: int| sep + ps[j].bottom@).push(
                    sep + ps[i as int].bottom@,
                ) =~= Seq::new((i + 1) as nat, |j: int| sep + ps[j].bottom@));
            }
            push_str(&mut s, "\n...\n");
            push_str(&mut s, self.function[i].bottom.as_str());
            i += 1;
        }
        if let Some(b) = &self.block {
            push_str(&mut s, "\n...\n");
            push_str(&mut s, b.bottom.as_str());
        }
        proof {
            reveal_strlit("\n...\n");
            assert(Seq::new(ps.len(), |j: int| ps[j].top@ + sep) =~= Seq::new(
                self.function@.len() as nat,
                |j: int| ps[j].top@ + sep,
            ));
            if self.block is Some {
                assert(s@ =~= rust_display(*self));
            } else {
                assert(s@ =~= rust_display(*self));
            }
        }
        s
    }

    fn duplicate(&self) -> (r: Self) {
        RustFunction {
            name: clone_string(&self.name),
            body: clone_string(&self.body),
            block: match &self.block {
                Some(b) => Some(b.duplicate()),
                None => None,
            },
            function: duplicate_parents(&self.function),
            lines: self.lines,
            lifetime: clone_strings(&self.lifetime),
            generics: clone_strings(&self.generics),
            arguments: clone_pairs(&self.arguments),
            return_type: clone_opt_string(&self.return_type),
            attributes: clone_strings(&self.attributes),
            doc_comments: clone_strings(&self.doc_comments),
        }
    }
}

proof fn lemma_outer_lines_same(
    ps: Seq<RustParentFunction>,
    qs: Seq<RustParentFunction>,
    l: (usize, usize),
)
    requires
        same_parents(ps, qs),
    ensures
        outer_lines(ps, l) == outer_lines(qs, l),
    decreases ps.len(),
{
    if ps.len() > 0 {
        assert(same_parents(ps.drop_last(), qs.drop_last())) by {
            assert forall|i: int| 0 <= i < ps.drop_last().len() implies (
            #[trigger] ps.drop_last()[i]).same(&qs.drop_last()[i]) by {
                assert(ps[i].same(&qs[i]));
            }
        }
        lemma_outer_lines_same(ps.drop_last(), qs.drop_last(), l);
        assert(ps.last().same(&qs.last()));
    }
}

impl LanguageFunction for RustFunction {
    open spec fn language_spec() -> Language {
        Language::Rust
    }

    open spec fn pl_match(&self, f: LanguageFilter) -> Option<bool> {
        match f {
            LanguageFilter::Rust(flt) => Some(rust_matches(flt, *self)),
            _ => None,
        }
    }

    proof fn lemma_same_match(&self, other: &Self, f: LanguageFilter) {
        let ps = self.function@;
        let qs = other.function@;
        assert(same_parents(ps, qs));
        if let LanguageFilter::Rust(flt) = f {
            if self.block is Some {
                assert(self.block->0.same(&other.block->0));
            }
            match flt {
                RustFilter::HasParentFunction(_) | RustFilter::ParentFunctionHasAttribute(_)
                | RustFilter::ParentFunctionHasDocComment(_)
                | RustFilter::ParentFunctionHasLifetime(_)
                | RustFilter::ParentFunctionHasGeneric(_)
                | RustFilter::ParentFunctionHasReturnType(_)
                | RustFilter::ParentFunctionHasParameterType(_)
                | RustFilter::ParentFunctionHasParameterName(_) => {
                    assert(rust_matches(flt, *self) == (exists|i: int|
                        0 <= i < ps.len() && parent_property(flt, #[trigger] ps[i])));
                    assert(rust_matches(flt, *other) == (exists|i: int|
                        0 <= i < qs.len() && parent_property(flt, #[trigger] qs[i])));
                    if rust_matches(flt, *self) {
                        let i = choose|i: int| 0 <= i < ps.len() && parent_property(flt, #[trigger] ps[i]);
                        assert(ps[i].same(&qs[i]));
                        assert(parent_property(flt, qs[i]));
                    }
                    if rust_matches(flt, *other) {
                        let i = choose|i: int| 0 <= i < qs.len() && parent_property(flt, #[trigger] qs[i]);
                        assert(ps[i].same(&qs[i]));
                        assert(parent_property(flt, ps[i]));
                    }
                },
                _ => {},
            }
        }
    }

    fn language() -> (l: Language) {
        Language::Rust
    }

    fn pl_matches(&self, f: &LanguageFilter) -> (r: Option<bool>) {
        match f {
            LanguageFilter::Rust(flt) => Some(flt.matches(self)),
            _ => None,
        }
    }
}


/// Finds the functions called `name` in the Rust code of one file of a
/// commit (see `rust_parse::find_function_in_file`).
pub fn find_function_in_commit(file_contents: &str, name: &str) -> (r: Result<
    Vec<RustFunction>,
    String,
>)
    ensures
        r matches Ok(v) ==> v@.len() > 0 && forall|i: int|
            0 <= i < v@.len() ==> super::rust_parse::declared_rust_function(
                file_contents@,
                name@,
                #[trigger] v@[i],
            ),
        !super::parser_fits(file_contents@) ==> (r matches Err(e) && e@ == "file too large"@),
        super::parser_fits(file_contents@) ==> super::rust_parse::rust_search_result(
            file_contents@,
            name@,
            super::rust_parse::rust_fn_nodes(file_contents@),
            r,
        ),
{
    super::rust_parse::find_function_in_file(file_contents, name)
}


/// The texts of a list of strings hold `x`.
proof fn lemma_has_str_views(v: Seq<String>, x: Seq<char>)
    ensures
        has_str(v, x) == views(v).contains(x),
{
    if has_str(v, x) {
        let i = choose|i: int| 0 <= i < v.len() && (#[trigger] v[i])@ == x;
        assert(views(v)[i] == x);
    }
    if views(v).contains(x) {
        let i = choose|i: int| 0 <= i < views(v).len() && views(v)[i] == x;
        assert(v[i]@ == x);
    }
}

/// Some text of a list of strings holds `c`.
proof fn lemma_some_contains_views(v: Seq<String>, c: Seq<char>)
    ensures
        some_contains(v, c) == (exists|d: Seq<char>| views(v).contains(d) && #[trigger] crate::text::contains_seq(d, c)),
{
    if some_contains(v, c) {
        let i = choose|i: int| 0 <= i < v.len() && crate::text::contains_seq((#[trigger] v[i])@, c);
        assert(views(v)[i] == v[i]@);
        assert(views(v).contains(v[i]@));
    }
    if exists|d: Seq<char>| views(v).contains(d) && #[trigger] crate::text::contains_seq(d, c) {
        let d = choose|d: Seq<char>| views(v).contains(d) && #[trigger] crate::text::contains_seq(d, c);
        let i = choose|i: int| 0 <= i < views(v).len() && views(v)[i] == d;
        assert(v[i]@ == d);
    }
}

/// The types of a list of (name, type) arguments.
pub open spec fn arg_types(a: Seq<(String, String)>) -> Seq<Seq<char>> {
    Seq::new(a.len(), |i: int| a[i].1@)
}

/// The names of a list of (name, type) arguments.
pub open spec fn arg_names(a: Seq<(String, String)>) -> Seq<Seq<char>> {
    Seq::new(a.len(), |i: int| a[i].0@)
}

/// Arguments have a type or a name exactly when it is among their types or names.
proof fn lemma_args_views(a: Seq<(String, String)>, t: Seq<char>)
    ensures
        has_arg_type(a, t) == arg_types(a).contains(t),
        has_arg_name(a, t) == arg_names(a).contains(t),
{
    if has_arg_type(a, t) {
        let i = choose|i: int| 0 <= i < a.len() && (#[trigger] a[i]).1@ == t;
        assert(arg_types(a)[i] == t);
    }
    if arg_types(a).contains(t) {
        let i = choose|i: int| 0 <= i < arg_types(a).len() && arg_types(a)[i] == t;
        assert(a[i].1@ == t);
    }
    if has_arg_name(a, t) {
        let i = choose|i: int| 0 <= i < a.len() && (#[trigger] a[i]).0@ == t;
        assert(arg_names(a)[i] == t);
    }
    if arg_names(a).contains(t) {
        let i = choose|i: int| 0 <= i < arg_names(a).len() && arg_names(a)[i] == t;
        assert(a[i].0@ == t);
    }
}

/// Whether some text among `v` holds `c`.
pub open spec fn some_text_holds(v: Seq<Seq<char>>, c: Seq<char>) -> bool {
    exists|d: Seq<char>| v.contains(d) && #[trigger] crate::text::contains_seq(d, c)
}

/// What a filter about parent functions asks of one parent function.
pub open spec fn parent_asks(flt: RustFilter, x: RustParentFunction) -> bool {
    match flt {
        RustFilter::HasParentFunction(p) => x.name@ == p@,
        RustFilter::ParentFunctionHasAttribute(a) => views(x.attributes@).contains(a@),
        RustFilter::ParentFunctionHasDocComment(c) => some_text_holds(views(x.doc_comments@), c@),
        RustFilter::ParentFunctionHasLifetime(l) => views(x.lifetime@).contains(l@),
        RustFilter::ParentFunctionHasGeneric(g) => views(x.generics@).contains(g@),
        RustFilter::ParentFunctionHasReturnType(t) => x.return_type is Some && x.return_type->0@ == t@,
        RustFilter::ParentFunctionHasParameterType(t) => arg_types(x.arguments@).contains(t@),
        RustFilter::ParentFunctionHasParameterName(n) => arg_names(x.arguments@).contains(n@),
        _ => false,
    }
}

/// What each filter asks of a Rust function, by its fields: the block it is
/// in and that block's attributes, doc comments (one holding the text),
/// lifetimes and generics; its return type, parameter types and names,
/// lifetimes, generics, attributes and doc comments (one holding the text);
/// or, for the filters about parent functions, that some function it is
/// nested in has the property.
pub open spec fn rust_filter_asks(flt: RustFilter, f: RustFunction) -> bool {
    match flt {
        RustFilter::InBlock(bt) => f.block is Some && f.block->0.block_type == bt,
        RustFilter::HasReturnType(t) => f.return_type is Some && f.return_type->0@ == t@,
        RustFilter::HasParameterType(t) => arg_types(f.arguments@).contains(t@),
        RustFilter::HasParameterName(n) => arg_names(f.arguments@).contains(n@),
        RustFilter::HasLifetime(l) => views(f.lifetime@).contains(l@),
        RustFilter::HasGeneric(g) => views(f.generics@).contains(g@),
        RustFilter::HasAttribute(a) => views(f.attributes@).contains(a@),
        RustFilter::HasDocComment(c) => some_text_holds(views(f.doc_comments@), c@),
        RustFilter::BlockHasAttribute(a) => f.block is Some && views(f.block->0.attributes@).contains(a@),
        RustFilter::BlockHasDocComment(c) => f.block is Some && some_text_holds(views(f.block->0.doc_comments@), c@),
        RustFilter::BlockHasLifetime(l) => f.block is Some && views(f.block->0.lifetime@).contains(l@),
        RustFilter::BlockHasGeneric(g) => f.block is Some && views(f.block->0.generics@).contains(g@),
        _ => exists|i: int| 0 <= i < f.function@.len() && parent_asks(flt, #[trigger] f.function@[i]),
    }
}

/// A Rust function matches each filter exactly when it has what the filter
/// asks for (see `rust_filter_asks`).
pub proof fn law_rust_filters_ask(flt: RustFilter, f: RustFunction)
    ensures
        rust_matches(flt, f) == rust_filter_asks(flt, f),
{
    lemma_args_views(f.arguments@, match flt {
        RustFilter::HasParameterType(t) => t@,
        RustFilter::HasParameterName(n) => n@,
        _ => seq![],
    });
    match flt {
        RustFilter::HasLifetime(l) => lemma_has_str_views(f.lifetime@, l@),
        RustFilter::HasGeneric(g) => lemma_has_str_views(f.generics@, g@),
        RustFilter::HasAttribute(a) => lemma_has_str_views(f.attributes@, a@),
        RustFilter::HasDocComment(c) => lemma_some_contains_views(f.doc_comments@, c@),
        RustFilter::BlockHasAttribute(a) => if let Some(b) = f.block {
            lemma_has_str_views(b.attributes@, a@);
        },
        RustFilter::BlockHasDocComment(c) => if let Some(b) = f.block {
            lemma_some_contains_views(b.doc_comments@, c@);
        },
        RustFilter::BlockHasLifetime(l) => if let Some(b) = f.block {
            lemma_has_str_views(b.lifetime@, l@);
        },
        RustFilter::BlockHasGeneric(g) => if let Some(b) = f.block {
            lemma_has_str_views(b.generics@, g@);
        },
        RustFilter::InBlock(_) | RustFilter::HasReturnType(_) | RustFilter::HasParameterType(_)
        | RustFilter::HasParameterName(_) => {},
        _ => {
            assert forall|i: int| 0 <= i < f.function@.len() implies parent_asks(flt, #[trigger] f.function@[i])
                == parent_property(flt, f.function@[i]) by {
                let x = f.function@[i];
                match flt {
                    RustFilter::ParentFunctionHasAttribute(a) => lemma_has_str_views(x.attributes@, a@),
                    RustFilter::ParentFunctionHasDocComment(c) => lemma_some_contains_views(x.doc_comments@, c@),
                    RustFilter::ParentFunctionHasLifetime(l) => lemma_has_str_views(x.lifetime@, l@),
                    RustFilter::ParentFunctionHasGeneric(g) => lemma_has_str_views(x.generics@, g@),
                    RustFilter::ParentFunctionHasParameterType(t) => lemma_args_views(x.arguments@, t@),
                    RustFilter::ParentFunctionHasParameterName(n) => lemma_args_views(x.arguments@, n@),
                    _ => {},
                }
            }
            if rust_matches(flt, f) {
                let i = choose|i: int| 0 <= i < f.function@.len() && parent_property(flt, #[trigger] f.function@[i]);
                assert(parent_asks(flt, f.function@[i]));
            }
            if rust_filter_asks(flt, f) {
                let i = choose|i: int| 0 <= i < f.function@.len() && parent_asks(flt, #[trigger] f.function@[i]);
                assert(parent_property(flt, f.function@[i]));
            }
        },
    }
}
} // verus!
