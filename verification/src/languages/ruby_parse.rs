//! Finding Ruby methods in source text: the syntax tree comes from
//! `lib_ruby_parser`; which definitions are found, the classes around them,
//! their lines, their code and their parameters are worked out here.
use vstd::prelude::*;

use lib_ruby_parser::nodes::{Class, Def};
use lib_ruby_parser::{Node, Parser, ParserOptions};

use super::ruby::{params_of, RubyArg, RubyClass, RubyFunction, RubyParams};
use super::rust_parse::text_tables;
use super::{
    get_from_index, line_holding, line_index, line_starts, lined, make_lined, newline_starts,
    turn_into_index,
};
use crate::text::{
    byte_slice, char_range, clone_opt_string, clone_string, drop_newlines, lines, str_byte_len,
    str_chars, str_get, string_of, utf8_len,
};

verus! {

#[verifier::external_type_specification]
#[verifier::external_body]
pub struct ExRubyNode(Node);

#[verifier::external_type_specification]
#[verifier::external_body]
pub struct ExRubyDef(Def);

#[verifier::external_type_specification]
#[verifier::external_body]
pub struct ExRubyClass(Class);

/// A syntax tree node, told apart by the kinds the search goes through.
pub enum RubyNodeRef {
    /// a method definition
    Def(Def),
    /// a class
    Class(Class),
    /// a sequence of statements
    Begin(Vec<Node>),
    /// any other node
    Other,
}

/// A method definition, as plain values.
pub struct RubyDefInfo {
    /// the name of the method
    pub name: String,
    /// the byte offset where the definition starts
    pub begin: usize,
    /// the byte offset where the definition ends
    pub end: usize,
    /// its parameters
    pub args: Vec<RubyArg>,
}

/// A class, as plain values.
pub struct RubyClassInfo {
    /// its name, where it is a constant
    pub name: Option<String>,
    /// the class it inherits from, where that is a constant
    pub superclass: Option<String>,
    /// the byte offset where the class starts
    pub begin: usize,
    /// the byte offset where the class ends
    pub end: usize,
    /// the byte offset where its `end` keyword ends
    pub end_kw_end: usize,
    /// the byte offset where its body starts, if it has one
    pub body_begin: Option<usize>,
    /// the byte offset where the expression of its superclass ends, if it has one
    pub superclass_end: Option<usize>,
    /// the byte offset where its name ends
    pub name_end: usize,
}

/// A syntax tree, as plain values, with only the kinds the search goes through.
pub enum RubyNode {
    /// a method definition
    Def(RubyDefInfo),
    /// a class and the statements of its body
    Class(RubyClassInfo, Vec<RubyNode>),
    /// a sequence of statements
    Begin(Vec<RubyNode>),
    /// any other node
    Other,
}

/// What parsing a Ruby source text gives: the rendered message of its first
/// error diagnostic; or its syntax tree as plain values, if there is one.
pub uninterp spec fn ruby_parse_tree(src: Seq<char>) -> Result<Option<RubyNode>, Seq<char>>;

/// `Parser::new(src, ParserOptions::default()).do_parse()`: the rendered
/// message of the first error diagnostic, if there is one; else the syntax
/// tree, if there is one, as plain values (`plain_tree`; a tree nested more
/// than `usize::MAX` levels deep, which cannot be built, would count as
/// none). What it gives is named by `ruby_parse_tree`. The lexer converts
/// the length of a magic comment to `i32` with `unwrap`, so the text is kept
/// within `i32::MAX` bytes.
#[verifier::external_body]
fn ruby_syntax_tree(src: &str) -> (r: Result<Option<RubyNode>, String>)
    requires
        utf8_len(src@) <= i32::MAX,
    ensures
        match r {
            Ok(t) => ruby_parse_tree(src@) == Ok::<Option<RubyNode>, Seq<char>>(t),
            Err(e) => ruby_parse_tree(src@) == Err::<Option<RubyNode>, Seq<char>>(e@),
        },
{
    let parsed = Parser::new(src, ParserOptions::default()).do_parse();
    match parsed.diagnostics.iter().find(|d| d.is_error()) {
        Some(d) => Err(d.message.render()),
        None => Ok(parsed.ast.and_then(|b| plain_tree(&b, usize::MAX))),
    }
}

/// The kind of a node: `Node::Def`, `Node::Class`, `Node::Begin` (with its
/// statements) or another. Nothing is stated of it.
#[verifier::external_body]
fn ruby_node_kind(n: &Node) -> (r: RubyNodeRef) {
    match n {
        Node::Def(d) => RubyNodeRef::Def(d.clone()),
        Node::Class(c) => RubyNodeRef::Class(c.clone()),
        Node::Begin(b) => RubyNodeRef::Begin(b.statements.clone()),
        _ => RubyNodeRef::Other,
    }
}

/// The name of a method definition and the byte range of its expression
/// (`expression_l`). Nothing is stated of them.
#[verifier::external_body]
fn def_span(d: &Def) -> (r: (String, usize, usize)) {
    (d.name.clone(), d.expression_l.begin, d.expression_l.end)
}

/// The parameter nodes of a method definition (the `args` of its
/// `Node::Args`), each told apart by its kind, with its name and, for a
/// keyword parameter with a default, the byte range of the default
/// (`expression()`). Nothing is stated of them.
#[verifier::external_body]
fn def_args(d: &Def) -> (r: Vec<RubyArg>) {
    match d.args.as_deref() {
        Some(Node::Args(a)) => a.args.iter().map(|x| match x {
            Node::Arg(v) => RubyArg::Arg(v.name.clone()),
            Node::Kwarg(v) => RubyArg::Kwarg(v.name.clone()),
            Node::Kwoptarg(v) => RubyArg::Kwoptarg(v.name.clone(), v.default.expression().begin, v.default.expression().end),
            Node::Restarg(v) => RubyArg::Restarg(v.name.clone()),
            Node::Kwrestarg(v) => RubyArg::Kwrestarg(v.name.clone()),
            Node::ForwardArg(_) => RubyArg::ForwardArg,
            Node::Kwnilarg(_) => RubyArg::Kwnilarg,
            _ => RubyArg::Other,
        }).collect(),
        _ => Vec::new(),
    }
}

/// What a class node says of where it stands: the name and superclass where
/// they are constants (`Node::Const`), the byte ranges of the class and of its
/// `end` keyword, where its body starts, where its superclass and its name end.
/// Nothing is stated of them.
#[verifier::external_body]
fn class_info(c: &Class) -> (r: RubyClassInfo) {
    let konst = |n: &Node| match n { Node::Const(k) => Some(k.name.clone()), _ => None };
    RubyClassInfo {
        name: konst(&c.name),
        superclass: c.superclass.as_deref().and_then(konst),
        begin: c.expression_l.begin,
        end: c.expression_l.end,
        end_kw_end: c.end_l.end,
        body_begin: c.body.as_ref().map(|b| b.expression().begin),
        superclass_end: c.superclass.as_ref().map(|s| s.expression().end),
        name_end: c.name.expression().end,
    }
}

/// The body of a class node, if it has one. Nothing is stated of it.
#[verifier::external_body]
fn class_body(c: &Class) -> (r: Option<Node>) {
    c.body.as_deref().cloned()
}

/// Whether a plain tree is nested no more than `fuel` levels deep.
pub open spec fn within_depth(t: RubyNode, fuel: nat) -> bool
    decreases fuel,
{
    fuel > 0 && match t {
        RubyNode::Class(_, kids) => forall|i: int|
            0 <= i < kids@.len() ==> within_depth(#[trigger] kids@[i], (fuel - 1) as nat),
        RubyNode::Begin(kids) => forall|i: int|
            0 <= i < kids@.len() ==> within_depth(#[trigger] kids@[i], (fuel - 1) as nat),
        _ => true,
    }
}

/// The plain tree of a node, down through classes and statement sequences;
/// nothing when the tree is nested more than `fuel` levels deep.
fn plain_tree(n: &Node, fuel: usize) -> (r: Option<RubyNode>)
    ensures
        fuel == 0 ==> r is None,
        r matches Some(t) ==> within_depth(t, fuel as nat),
    decreases fuel,
{
    if fuel == 0 {
        return None;
    }
    match ruby_node_kind(n) {
        RubyNodeRef::Def(d) => {
            let (name, begin, end) = def_span(&d);
            Some(RubyNode::Def(RubyDefInfo { name, begin, end, args: def_args(&d) }))
        },
        RubyNodeRef::Class(c) => {
            let info = class_info(&c);
            let mut kids: Vec<RubyNode> = Vec::new();
            match class_body(&c) {
                Some(b) => match plain_tree(&b, fuel - 1) {
                    Some(t) => kids.push(t),
                    None => return None,
                },
                None => {},
            }
            Some(RubyNode::Class(info, kids))
        },
        RubyNodeRef::Begin(stmts) => {
            let mut kids: Vec<RubyNode> = Vec::new();
            let mut i: usize = 0;
            while i < stmts.len()
                invariant
                    fuel > 0,
                    forall|j: int| 0 <= j < kids@.len() ==> within_depth(#[trigger] kids@[j], (fuel - 1) as nat),
                decreases stmts.len() - i,
            {
                match plain_tree(&stmts[i], fuel - 1) {
                    Some(t) => kids.push(t),
                    None => return None,
                }
                i += 1;
            }
            Some(RubyNode::Begin(kids))
        },
        RubyNodeRef::Other => Some(RubyNode::Other),
    }
}

// ---------------------------------------------------------------- text

/// The text without its trailing newlines.
pub open spec fn drop_trailing_newlines(s: Seq<char>) -> Seq<char>
    decreases s.len(),
{
    if s.len() > 0 && s.last() == '\n' {
        drop_trailing_newlines(s.drop_last())
    } else {
        s
    }
}

/// `s.trim_matches('\n')`.
pub open spec fn trim_newlines(s: Seq<char>) -> Seq<char> {
    drop_trailing_newlines(drop_newlines(s))
}

/// Trimming newlines keeps a part of the text.
proof fn lemma_trim_newlines_len(s: Seq<char>)
    ensures
        trim_newlines(s).len() <= s.len(),
{
    lemma_drop_newlines_len(s);
    lemma_drop_trailing_len(drop_newlines(s));
}

proof fn lemma_drop_newlines_len(s: Seq<char>)
    ensures
        drop_newlines(s).len() <= s.len(),
    decreases s.len(),
{
    if s.len() > 0 && s[0] == '\n' {
        lemma_drop_newlines_len(s.drop_first());
    }
}

proof fn lemma_drop_trailing_len(s: Seq<char>)
    ensures
        drop_trailing_newlines(s).len() <= s.len(),
    decreases s.len(),
{
    if s.len() > 0 && s.last() == '\n' {
        lemma_drop_trailing_len(s.drop_last());
    }
}

/// `s.trim_matches('\n')`.
fn trim_newlines_of(s: &String) -> (r: String)
    ensures
        r@ == trim_newlines(s@),
{
    let v = str_chars(s.as_str());
    let mut a: usize = 0;
    assert(v@.skip(0) =~= v@);
    while a < v.len() && v[a] == '\n'
        invariant
            a <= v.len(),
            v@ == s@,
            drop_newlines(s@) == drop_newlines(v@.skip(a as int)),
        decreases v.len() - a,
    {
        assert(v@.skip(a as int).drop_first() =~= v@.skip(a + 1));
        a += 1;
    }
    assert(drop_newlines(v@.skip(a as int)) == v@.skip(a as int));
    let mut b: usize = v.len();
    assert(v@.subrange(a as int, b as int) =~= v@.skip(a as int));
    while b > a && v[b - 1] == '\n'
        invariant
            a <= b <= v.len(),
            v@ == s@,
            trim_newlines(s@) == drop_trailing_newlines(v@.subrange(a as int, b as int)),
        decreases b,
    {
        assert(v@.subrange(a as int, b as int).drop_last() =~= v@.subrange(a as int, b - 1));
        b -= 1;
    }
    char_range(&v, a, b)
}

// ---------------------------------------------------------------- classes and methods

/// The name of a class as text.
pub open spec fn class_name(c: RubyClassInfo) -> Seq<char> {
    match c.name {
        Some(n) => n@,
        None => seq![],
    }
}

/// Where the heading of a class ends: just before its body, or else at the
/// end of its superclass, or else at the end of its name.
pub open spec fn top_anchor(c: RubyClassInfo) -> usize {
    match c.body_begin {
        Some(b) => b,
        None => match c.superclass_end {
            Some(e) => e,
            None => c.name_end,
        },
    }
}

/// The lines of a class (first, last), its line-numbered heading (from the
/// start of its first line to just before its body) and its line-numbered
/// closing (from the start of its last line through its `end`); nothing
/// when a line or a piece of text cannot be found.
pub open spec fn class_found(s: Seq<char>, c: RubyClassInfo) -> Option<(nat, nat, Seq<char>, Seq<char>)> {
    let idx = line_index(s);
    let starts = newline_starts(s);
    match (line_holding(idx, c.begin), line_holding(idx, c.end)) {
        (Some(sl), Some(el)) => if sl < 1 || sl - 1 >= starts.len() || top_anchor(c) == 0 {
            None
        } else {
            match byte_slice(s, starts[sl - 1] as int, top_anchor(c) - 1) {
                None => None,
                Some(top) => if el < 1 || el - 1 >= starts.len() {
                    None
                } else {
                    match byte_slice(s, starts[el - 1] as int, c.end_kw_end as int) {
                        None => None,
                        Some(bottom) => Some(
                            (sl, el, lined(trim_newlines(top), sl), lined(trim_newlines(bottom), el)),
                        ),
                    }
                },
            }
        },
        _ => None,
    }
}

/// Whether `k` is the class that `c` gives in text `s`.
pub open spec fn class_is(s: Seq<char>, c: RubyClassInfo, k: RubyClass) -> bool {
    match class_found(s, c) {
        Some((sl, el, top, bottom)) => {
            &&& k.name@ == class_name(c)
            &&& k.lines.0 == sl
            &&& k.lines.1 == el
            &&& match (k.superclass, c.superclass) {
                (Some(a), Some(b)) => a@ == b@,
                (None, None) => true,
                _ => false,
            }
            &&& k.top@ == top
            &&& k.bottom@ == bottom
        },
        None => false,
    }
}

/// The classes around a method whose lines and text can be found, outermost first.
pub open spec fn classes_kept(s: Seq<char>, chain: Seq<RubyClassInfo>) -> Seq<RubyClassInfo>
    decreases chain.len(),
{
    if chain.len() == 0 {
        seq![]
    } else {
        let rest = classes_kept(s, chain.drop_last());
        if class_found(s, chain.last()) is Some {
            rest.push(chain.last())
        } else {
            rest
        }
    }
}

/// The lines of a method (first, last) and its line-numbered code (from the
/// start of its first line through its end); nothing when a line or its
/// text cannot be found.
pub open spec fn method_found(s: Seq<char>, d: RubyDefInfo) -> Option<(nat, nat, Seq<char>)> {
    let idx = line_index(s);
    let starts = newline_starts(s);
    match (line_holding(idx, d.begin), line_holding(idx, d.end)) {
        (Some(sl), Some(el)) => {
            let b: int = if 1 <= sl && sl - 1 < starts.len() {
                starts[sl - 1] as int
            } else {
                0
            };
            match byte_slice(s, b, d.end as int) {
                Some(t) => Some((sl, el, lined(trim_newlines(t), sl))),
                None => None,
            }
        },
        _ => None,
    }
}

/// Whether `f` is the method that definition `d` inside classes `chain` gives in text `s`.
pub open spec fn method_is(s: Seq<char>, d: RubyDefInfo, chain: Seq<RubyClassInfo>, f: RubyFunction) -> bool {
    match method_found(s, d) {
        Some((sl, el, body)) => {
            let ks = classes_kept(s, chain);
            &&& f.name@ == d.name@
            &&& f.lines.0 == sl
            &&& f.lines.1 == el
            &&& f.body@ == body
            &&& f.args.model() == params_of(d.args@, s)
            &&& f.class@.len() == ks.len()
            &&& forall|i: int| 0 <= i < ks.len() ==> class_is(s, ks[i], #[trigger] f.class@[i])
        },
        None => false,
    }
}

/// The definitions named `name` in a tree, each with the classes around it
/// (outermost first), in order, keeping those whose method can be found in the text.
pub open spec fn tree_methods(s: Seq<char>, name: Seq<char>, t: RubyNode, chain: Seq<RubyClassInfo>) -> Seq<
    (RubyDefInfo, Seq<RubyClassInfo>),
>
    decreases t,
{
    match t {
        RubyNode::Def(d) => if d.name@ == name && method_found(s, d) is Some {
            seq![(d, chain)]
        } else {
            seq![]
        },
        RubyNode::Class(c, kids) => list_methods(s, name, kids@, chain.push(c)),
        RubyNode::Begin(kids) => list_methods(s, name, kids@, chain),
        RubyNode::Other => seq![],
    }
}

/// The definitions found in a list of trees, in order.
pub open spec fn list_methods(s: Seq<char>, name: Seq<char>, ts: Seq<RubyNode>, chain: Seq<RubyClassInfo>) -> Seq<
    (RubyDefInfo, Seq<RubyClassInfo>),
>
    decreases ts,
{
    if ts.len() == 0 {
        seq![]
    } else {
        list_methods(s, name, ts.drop_last(), chain) + tree_methods(s, name, ts.last(), chain)
    }
}

/// A copy of a class.
fn duplicate_class(k: &RubyClass) -> (r: RubyClass)
    ensures
        r.name@ == k.name@,
        r.lines == k.lines,
        r.top@ == k.top@,
        r.bottom@ == k.bottom@,
        match (r.superclass, k.superclass) {
            (Some(a), Some(b)) => a@ == b@,
            (None, None) => true,
            _ => false,
        },
{
    RubyClass {
        name: clone_string(&k.name),
        lines: k.lines,
        superclass: clone_opt_string(&k.superclass),
        top: clone_string(&k.top),
        bottom: clone_string(&k.bottom),
    }
}

/// Line numbers and the pieces of a text stay small enough to number.
proof fn lemma_lined_fits(s: Seq<char>, t: Seq<char>, start: nat)
    requires
        t.len() <= s.len(),
        start <= s.len() + 1,
        utf8_len(s) <= usize::MAX / 4,
    ensures
        start + lines(trim_newlines(t)).len() <= usize::MAX,
{
    crate::text::lemma_chars_le_bytes(s);
    lemma_trim_newlines_len(t);
    crate::text::lemma_lines_len(seq![], trim_newlines(t));
}

/// A piece of a text is no longer than the text.
proof fn lemma_slice_len(s: Seq<char>, a: int, b: int)
    requires
        byte_slice(s, a, b) is Some,
    ensures
        byte_slice(s, a, b)->0.len() <= s.len(),
{
    let i = crate::text::index_at(s, a);
    let j = crate::text::index_at(s, b);
    if j < i {
        crate::text::lemma_offset_strict(s, j, i);
    }
}

/// Works out a class from its plain values.
fn class_from(
    file: &str,
    chars: &Vec<char>,
    index: &Vec<Vec<usize>>,
    starts: &Vec<usize>,
    c: &RubyClassInfo,
) -> (r: Option<RubyClass>)
    requires
        text_tables(file@, chars@, index@, starts@),
    ensures
        match class_found(file@, *c) {
            Some(_) => r matches Some(k) && class_is(file@, *c, k),
            None => r is None,
        },
{
    let ghost s = file@;
    proof {
        super::lemma_line_index_len_bound(s);
        super::lemma_line_holding_bound(line_index(s), 0, c.begin);
        super::lemma_line_holding_bound(line_index(s), 0, c.end);
    }
    let sl = match get_from_index(index, c.begin) {
        Some(k) => k,
        None => return None,
    };
    let el = match get_from_index(index, c.end) {
        Some(k) => k,
        None => return None,
    };
    let anchor = match c.body_begin {
        Some(b) => b,
        None => match c.superclass_end {
            Some(e) => e,
            None => c.name_end,
        },
    };
    if sl - 1 >= starts.len() || anchor == 0 {
        return None;
    }
    let top = match str_get(file, starts[sl - 1], anchor - 1) {
        Some(t) => t,
        None => return None,
    };
    if el - 1 >= starts.len() {
        return None;
    }
    let bottom = match str_get(file, starts[el - 1], c.end_kw_end) {
        Some(t) => t,
        None => return None,
    };
    proof {
        lemma_slice_len(s, starts[sl - 1] as int, anchor - 1);
        lemma_slice_len(s, starts[el - 1] as int, c.end_kw_end as int);
        lemma_lined_fits(s, top@, sl as nat);
        lemma_lined_fits(s, bottom@, el as nat);
    }
    let top_t = trim_newlines_of(&top);
    let bottom_t = trim_newlines_of(&bottom);
    let name = match &c.name {
        Some(n) => clone_string(n),
        None => String::new(),
    };
    Some(RubyClass {
        name,
        lines: (sl, el),
        superclass: clone_opt_string(&c.superclass),
        top: make_lined(top_t.as_str(), sl),
        bottom: make_lined(bottom_t.as_str(), el),
    })
}

/// Works out a method from its plain values and the classes around it.
fn method_from(
    file: &str,
    chars: &Vec<char>,
    index: &Vec<Vec<usize>>,
    starts: &Vec<usize>,
    d: &RubyDefInfo,
    chain: &Vec<&RubyClassInfo>,
) -> (r: Option<RubyFunction>)
    requires
        text_tables(file@, chars@, index@, starts@),
    ensures
        match method_found(file@, *d) {
            Some(_) => r matches Some(f) && method_is(file@, *d, chain_view(chain@), f),
            None => r is None,
        },
{
    let ghost s = file@;
    proof {
        super::lemma_line_index_len_bound(s);
        super::lemma_line_holding_bound(line_index(s), 0, d.begin);
        super::lemma_line_holding_bound(line_index(s), 0, d.end);
    }
    let sl = match get_from_index(index, d.begin) {
        Some(k) => k,
        None => return None,
    };
    let el = match get_from_index(index, d.end) {
        Some(k) => k,
        None => return None,
    };
    let b = if sl - 1 < starts.len() {
        starts[sl - 1]
    } else {
        0
    };
    let code = match str_get(file, b, d.end) {
        Some(t) => t,
        None => return None,
    };
    proof {
        lemma_slice_len(s, b as int, d.end as int);
        lemma_lined_fits(s, code@, sl as nat);
    }
    let code_t = trim_newlines_of(&code);
    let body = make_lined(code_t.as_str(), sl);
    let mut class: Vec<RubyClass> = Vec::new();
    let mut i: usize = 0;
    while i < chain.len()
        invariant
            i <= chain.len(),
            s == file@,
            text_tables(file@, chars@, index@, starts@),
            ({
                let ks = classes_kept(s, chain_view(chain@).take(i as int));
                &&& class@.len() == ks.len()
                &&& forall|j: int| 0 <= j < ks.len() ==> class_is(s, ks[j], #[trigger] class@[j])
            }),
        decreases chain.len() - i,
    {
        proof {
            assert(chain_view(chain@).take(i + 1).drop_last() =~= chain_view(chain@).take(i as int));
            assert(chain_view(chain@).take(i + 1).last() == *chain@[i as int]);
        }
        match class_from(file, chars, index, starts, chain[i]) {
            Some(k) => class.push(k),
            None => {},
        }
        i += 1;
    }
    proof {
        assert(chain_view(chain@).take(chain.len() as int) =~= chain_view(chain@));
    }
    let name = clone_string(&d.name);
    Some(RubyFunction::new(name, (sl, el), class, RubyParams::from_args(&d.args, file), body))
}

/// The classes of a chain of references.
pub open spec fn chain_view(chain: Seq<&RubyClassInfo>) -> Seq<RubyClassInfo> {
    Seq::new(chain.len(), |i: int| *chain[i])
}

/// Whether `out` holds, after `before`, the methods that `found` lists.
pub open spec fn methods_listed(
    s: Seq<char>,
    found: Seq<(RubyDefInfo, Seq<RubyClassInfo>)>,
    before: Seq<RubyFunction>,
    out: Seq<RubyFunction>,
) -> bool {
    &&& out.len() == before.len() + found.len()
    &&& forall|j: int| 0 <= j < before.len() ==> #[trigger] out[j] == before[j]
    &&& forall|j: int|
        0 <= j < found.len() ==> method_is(s, found[j].0, found[j].1, #[trigger] out[before.len() + j])
}

/// Collects the methods named `name` in a tree.
fn search_tree<'a>(
    file: &str,
    chars: &Vec<char>,
    index: &Vec<Vec<usize>>,
    starts: &Vec<usize>,
    name: &str,
    t: &'a RubyNode,
    chain: &mut Vec<&'a RubyClassInfo>,
    out: &mut Vec<RubyFunction>,
)
    requires
        text_tables(file@, chars@, index@, starts@),
    ensures
        final(chain)@ == old(chain)@,
        methods_listed(
            file@,
            tree_methods(file@, name@, *t, chain_view(old(chain)@)),
            old(out)@,
            final(out)@,
        ),
    decreases *t,
{
    let ghost s = file@;
    match t {
        RubyNode::Def(d) => {
            if super::str_eq(d.name.as_str(), name) {
                match method_from(file, chars, index, starts, d, chain) {
                    Some(f) => {
                        out.push(f);
                    },
                    None => {},
                }
            }
        },
        RubyNode::Class(c, kids) => {
            let ghost c0 = chain@;
            chain.push(c);
            assert(chain_view(chain@) =~= chain_view(c0).push(*c));
            search_list(file, chars, index, starts, name, kids, chain, out);
            chain.pop();
            assert(chain@ =~= c0);
        },
        RubyNode::Begin(kids) => {
            search_list(file, chars, index, starts, name, kids, chain, out);
        },
        RubyNode::Other => {},
    }
}

/// Collects the methods named `name` in a list of trees.
fn search_list<'a>(
    file: &str,
    chars: &Vec<char>,
    index: &Vec<Vec<usize>>,
    starts: &Vec<usize>,
    name: &str,
    ts: &'a Vec<RubyNode>,
    chain: &mut Vec<&'a RubyClassInfo>,
    out: &mut Vec<RubyFunction>,
)
    requires
        text_tables(file@, chars@, index@, starts@),
    ensures
        final(chain)@ == old(chain)@,
        methods_listed(
            file@,
            list_methods(file@, name@, ts@, chain_view(old(chain)@)),
            old(out)@,
            final(out)@,
        ),
    decreases ts@,
{
    let ghost s = file@;
    let ghost cv = chain_view(chain@);
    let ghost out0 = out@;
    let ghost ch0 = chain@;
    let mut i: usize = 0;
    proof {
        assert(ts@.take(0) =~= seq![]);
    }
    while i < ts.len()
        invariant
            i <= ts.len(),
            text_tables(file@, chars@, index@, starts@),
            chain@ == ch0,
            s == file@,
            cv == chain_view(ch0),
            methods_listed(s, list_methods(s, name@, ts@.take(i as int), cv), out0, out@),
        decreases ts.len() - i,
    {
        let ghost before = out@;
        let ghost ch = chain@;
        proof {
            assert(ts@.take(i + 1).drop_last() =~= ts@.take(i as int));
            assert(decreases_to!(ts@ => ts@[i as int]));
        }
        search_tree(file, chars, index, starts, name, &ts[i], chain, out);
        proof {
            assert(chain@ == ch);
            let a = list_methods(s, name@, ts@.take(i as int), cv);
            let b = tree_methods(s, name@, ts@[i as int], cv);
            assert(list_methods(s, name@, ts@.take(i + 1), cv) == a + b);
            assert forall|j: int| 0 <= j < out0.len() implies #[trigger] out@[j] == out0[j] by {
                assert(before[j] == out0[j]);
            }
            assert forall|j: int| 0 <= j < (a + b).len() implies method_is(
                s,
                (a + b)[j].0,
                (a + b)[j].1,
                #[trigger] out@[out0.len() + j],
            ) by {
                if j < a.len() {
                    assert(out@[out0.len() + j] == before[out0.len() + j]);
                } else {
                    let k = j - a.len();
                    assert(out0.len() + j == before.len() + k);
                    assert(method_is(s, b[k].0, b[k].1, out@[before.len() + k]));
                }
            }
        }
        i += 1;
    }
    proof {
        assert(ts@.take(ts.len() as int) =~= ts@);
    }
}

/// Whether a text is small enough for the Ruby parser and the line arithmetic.
pub open spec fn ruby_fits(s: Seq<char>) -> bool {
    utf8_len(s) <= usize::MAX / 4 && utf8_len(s) <= i32::MAX
}

/// What a search for the methods named `name` in text `s` gives when its
/// syntax tree is `tree`: the methods found, in order; an error when there
/// is none.
pub open spec fn ruby_search_result(s: Seq<char>, name: Seq<char>, tree: RubyNode, r: Result<
    Vec<RubyFunction>,
    String,
>) -> bool {
    let found = tree_methods(s, name, tree, seq![]);
    match r {
        Ok(v) => found.len() > 0 && methods_listed(s, found, seq![], v@),
        Err(e) => found.len() == 0 && e@ == "No functions with this name was found in the this file"@,
    }
}

/// The methods named `name` in a plain syntax tree of a text, in order,
/// each with the classes around it that can be found; an error when there is none.
pub fn methods_in_tree(file_contents: &str, name: &str, tree: &RubyNode) -> (r: Result<
    Vec<RubyFunction>,
    String,
>)
    requires
        utf8_len(file_contents@) <= usize::MAX / 4,
    ensures
        ruby_search_result(file_contents@, name@, *tree, r),
{
    let chars = str_chars(file_contents);
    let index = match turn_into_index(file_contents) {
        Ok(x) => x,
        Err(e) => return Err(e),
    };
    let starts = line_starts(file_contents);
    let mut chain: Vec<&RubyClassInfo> = Vec::new();
    let mut out: Vec<RubyFunction> = Vec::new();
    assert(chain_view(chain@) =~= seq![]);
    search_tree(file_contents, &chars, &index, &starts, name, tree, &mut chain, &mut out);
    if out.len() == 0 {
        return Err(string_of("No functions with this name was found in the this file"));
    }
    Ok(out)
}

/// Whether some plain syntax tree gives exactly the methods `v` named `name` in text `s`.
pub open spec fn methods_of_some_tree(s: Seq<char>, name: Seq<char>, v: Seq<RubyFunction>) -> bool {
    exists|t: RubyNode| #[trigger] methods_listed(s, tree_methods(s, name, t, seq![]), seq![], v)
        && tree_methods(s, name, t, seq![]).len() > 0
}

/// Finds the methods named `name` in Ruby source text: the text is parsed by
/// `lib_ruby_parser`, and each definition of that name, at the top level or
/// inside classes, gives its lines, its code, its parameters and the classes
/// around it. An error when the text does not parse (the first error's
/// message), when it has no syntax tree, when no such method is found, or
/// when the text is too large to number its lines.
pub fn find_function_in_file(file_contents: &str, name: &str) -> (r: Result<
    Vec<RubyFunction>,
    String,
>)
    ensures
        r matches Ok(v) ==> methods_of_some_tree(file_contents@, name@, v@),
        ruby_fits(file_contents@) ==> match ruby_parse_tree(file_contents@) {
            Err(m) => r matches Err(e) && e@ == m,
            Ok(None) => r matches Err(e) && e@ == "Failed to parse file"@,
            Ok(Some(t)) => ruby_search_result(file_contents@, name@, t, r),
        },
        !ruby_fits(file_contents@) ==> (r matches Err(e) && e@ == "file too large"@),
{
    let total: usize = str_byte_len(file_contents);
    if total > usize::MAX / 4 || total as u64 > 2147483647u64 {
        return Err(string_of("file too large"));
    }
    let tree = match ruby_syntax_tree(file_contents) {
        Ok(Some(t)) => t,
        Ok(None) => return Err(string_of("Failed to parse file")),
        Err(e) => return Err(e),
    };
    let r = methods_in_tree(file_contents, name, &tree);
    assert(ruby_search_result(file_contents@, name@, tree, r));
    proof {
        if r is Ok {
            let v = r->Ok_0;
            assert(methods_listed(
                file_contents@,
                tree_methods(file_contents@, name@, tree, seq![]),
                seq![],
                v@,
            ));
        }
    }
    r
}

} // verus!
