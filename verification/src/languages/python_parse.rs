//! Finding Python functions in source text: the statements come from
//! `rustpython_parser`; which statements are searched, the classes and
//! parent functions around a function, its lines and its code are worked
//! out here.
use vstd::prelude::*;

use rustpython_parser::ast;
use rustpython_parser::ast::Ranged;
use rustpython_parser::Parse;

use super::python::{Param, PythonClass, PythonFunction, PythonParams, PythonParentFunction};
use super::{lined, line_starts, make_lined, newline_starts, str_eq};
use crate::text::{
    byte_slice, clone_opt_string, clone_string, decimal, is_boundary, lines, lines_of, push_char,
    push_decimal, push_str, str_byte_len, str_chars, str_get, string_of, trim_end, utf8_len,
};

verus! {

#[verifier::external_type_specification]
#[verifier::external_body]
#[verifier::reject_recursive_types(R)]
pub struct ExStmt<R>(ast::Stmt<R>);

#[verifier::external_type_specification]
#[verifier::external_body]
pub struct ExTextRange(rustpython_parser::text_size::TextRange);

/// The kinds of statement the search tells apart.
pub enum PyStmtKind {
    /// `def`
    FunctionDef,
    /// `async def`
    AsyncFunctionDef,
    /// `class`
    ClassDef,
    /// `if`
    If,
    /// `while`
    While,
    /// `for`
    For,
    /// `async for`
    AsyncFor,
    /// `with`
    With,
    /// `async with`
    AsyncWith,
    /// `try`
    Try,
    /// any other statement
    Other,
}

/// What `rustpython_parser` gives for a module's text (with the given path):
/// its statements as plain trees, or its error as text.
pub uninterp spec fn python_syntax_tree(text: Seq<char>, path: Seq<char>) -> Result<Seq<PyStmt>, Seq<char>>;

/// `ast::Suite::parse(text, path)`: the statements of a Python module, as
/// plain trees (`plain_stmt`; a statement nested more than `usize::MAX`
/// levels deep, which cannot be built, would count as another statement),
/// or the parse error as text. What it gives is named by
/// `python_syntax_tree`. The offsets in the trees are 32-bit, as
/// `stmt_range` and `stmt_decorators` state. The lexer keeps its position
/// in 32 bits, so the text must fit in them.
#[verifier::external_body]
fn python_syntax(text: &str, path: &str) -> (r: Result<Vec<PyStmt>, String>)
    requires
        utf8_len(text@) <= u32::MAX,
    ensures
        match r {
            Ok(v) => python_syntax_tree(text@, path@) == Ok::<Seq<PyStmt>, Seq<char>>(v@) && stmts_ok(v@),
            Err(e) => python_syntax_tree(text@, path@) == Err::<Seq<PyStmt>, Seq<char>>(e@),
        },
{
    match ast::Suite::parse(text, path) {
        Ok(v) => Ok(v.iter().map(|x| plain_stmt(x, usize::MAX)).collect()),
        Err(e) => Err(e.to_string()),
    }
}

/// The kind of a statement, by its `ast::Stmt` variant. Nothing is stated of it.
#[verifier::external_body]
fn stmt_kind(s: &ast::Stmt) -> (r: PyStmtKind) {
    match s {
        ast::Stmt::FunctionDef(_) => PyStmtKind::FunctionDef,
        ast::Stmt::AsyncFunctionDef(_) => PyStmtKind::AsyncFunctionDef,
        ast::Stmt::ClassDef(_) => PyStmtKind::ClassDef,
        ast::Stmt::If(_) => PyStmtKind::If,
        ast::Stmt::While(_) => PyStmtKind::While,
        ast::Stmt::For(_) => PyStmtKind::For,
        ast::Stmt::AsyncFor(_) => PyStmtKind::AsyncFor,
        ast::Stmt::With(_) => PyStmtKind::With,
        ast::Stmt::AsyncWith(_) => PyStmtKind::AsyncWith,
        ast::Stmt::Try(_) => PyStmtKind::Try,
        _ => PyStmtKind::Other,
    }
}

/// The `body` of a statement, by its variant (`if`, `while`, `for`,
/// `async for`, `with`, `async with`, `try`, `def`, `async def`, `class`);
/// none for any other statement. Nothing is stated of it.
#[verifier::external_body]
fn stmt_body(s: &ast::Stmt) -> (r: Vec<ast::Stmt>) {
    match s {
        ast::Stmt::If(x) => x.body.clone(),
        ast::Stmt::While(x) => x.body.clone(),
        ast::Stmt::For(x) => x.body.clone(),
        ast::Stmt::AsyncFor(x) => x.body.clone(),
        ast::Stmt::With(x) => x.body.clone(),
        ast::Stmt::AsyncWith(x) => x.body.clone(),
        ast::Stmt::Try(x) => x.body.clone(),
        ast::Stmt::FunctionDef(x) => x.body.clone(),
        ast::Stmt::AsyncFunctionDef(x) => x.body.clone(),
        ast::Stmt::ClassDef(x) => x.body.clone(),
        _ => vec![],
    }
}

/// The `orelse` block of an `if`, `while`, `for`, `async for` or `try`
/// statement; none for any other statement. Nothing is stated of it.
#[verifier::external_body]
fn stmt_orelse(s: &ast::Stmt) -> (r: Vec<ast::Stmt>) {
    match s {
        ast::Stmt::If(x) => x.orelse.clone(),
        ast::Stmt::While(x) => x.orelse.clone(),
        ast::Stmt::For(x) => x.orelse.clone(),
        ast::Stmt::AsyncFor(x) => x.orelse.clone(),
        ast::Stmt::Try(x) => x.orelse.clone(),
        _ => vec![],
    }
}

/// The `finalbody` block of a `try` statement; none for any other
/// statement. Nothing is stated of it.
#[verifier::external_body]
fn stmt_finalbody(s: &ast::Stmt) -> (r: Vec<ast::Stmt>) {
    match s {
        ast::Stmt::Try(x) => x.finalbody.clone(),
        _ => vec![],
    }
}

/// The name of a `def`, `async def` or `class` statement. Nothing is stated of it.
#[verifier::external_body]
fn stmt_name(s: &ast::Stmt) -> (r: Option<String>) {
    match s {
        ast::Stmt::FunctionDef(x) => Some(x.name.to_string()),
        ast::Stmt::AsyncFunctionDef(x) => Some(x.name.to_string()),
        ast::Stmt::ClassDef(x) => Some(x.name.to_string()),
        _ => None,
    }
}

/// The start and end byte offsets of a statement (`range()`): a text range
/// never ends before it starts, and its offsets are 32-bit.
#[verifier::external_body]
fn stmt_range(s: &ast::Stmt) -> (r: (usize, usize))
    ensures
        r.0 <= r.1 <= u32::MAX,
{
    (s.start().to_usize(), s.end().to_usize())
}

/// The decorators of a `def`, `async def` or `class` statement, each as its
/// start offset and the name of its expression's kind (`python_name()`);
/// offsets are 32-bit. Nothing else is stated of them.
#[verifier::external_body]
fn stmt_decorators(s: &ast::Stmt) -> (r: Vec<(usize, String)>)
    ensures
        forall|i: int| 0 <= i < r@.len() ==> (#[trigger] r@[i]).0 <= u32::MAX,
{
    let list = match s {
        ast::Stmt::FunctionDef(x) => &x.decorator_list,
        ast::Stmt::AsyncFunctionDef(x) => &x.decorator_list,
        ast::Stmt::ClassDef(x) => &x.decorator_list,
        _ => return vec![],
    };
    list.iter().map(|d| (d.start().to_usize(), d.python_name().to_string())).collect()
}

/// The ordinary, keyword-only and positional-only parameters of a `def` or
/// `async def` statement, each as its name and type comment; none for any
/// other statement. Nothing is stated of them.
#[verifier::external_body]
fn stmt_param_lists(s: &ast::Stmt) -> (r: (Vec<Param>, Vec<Param>, Vec<Param>)) {
    let a = match s {
        ast::Stmt::FunctionDef(x) => &x.args,
        ast::Stmt::AsyncFunctionDef(x) => &x.args,
        _ => return (vec![], vec![], vec![]),
    };
    let conv = |p: &ast::ArgWithDefault| Param { name: p.def.arg.to_string(), param_type: p.def.type_comment.clone() };
    (a.args.iter().map(conv).collect(), a.kwonlyargs.iter().map(conv).collect(), a.posonlyargs.iter().map(conv).collect())
}

/// The `*args` and `**kwargs` parameters of a `def` or `async def`
/// statement, each as its name and type comment. Nothing is stated of them.
#[verifier::external_body]
fn stmt_param_rests(s: &ast::Stmt) -> (r: (Option<Param>, Option<Param>)) {
    let a = match s {
        ast::Stmt::FunctionDef(x) => &x.args,
        ast::Stmt::AsyncFunctionDef(x) => &x.args,
        _ => return (None, None),
    };
    let conv = |p: &ast::Arg| Param { name: p.arg.to_string(), param_type: p.type_comment.clone() };
    (a.vararg.as_deref().map(conv), a.kwarg.as_deref().map(conv))
}

/// The one-indexed (row, column) of a byte offset of a Python source text,
/// as `rustpython_parser`'s locator computes it.
pub uninterp spec fn python_location_of(text: Seq<char>, offset: usize) -> (usize, usize);

/// `RandomLocator::new(text).locate(offset)`: the one-indexed row and
/// column of a byte offset; both are at least 1. The offset is a character
/// boundary of the text, and the text fits in 32-bit offsets (building the
/// locator's line index asserts that it does).
#[verifier::external_body]
fn python_location(text: &str, offset: usize) -> (r: (usize, usize))
    requires
        utf8_len(text@) <= u32::MAX,
        offset <= u32::MAX,
        is_boundary(text@, offset as int),
    ensures
        r == python_location_of(text@, offset),
        r.0 >= 1,
        r.1 >= 1,
{
    let l = rustpython_parser::source_code::RandomLocator::new(text).locate((offset as u32).into());
    (l.row.to_usize(), l.column.to_usize())
}


// ---------------------------------------------------------------- plain syntax

/// What the syntax tree says of a `def`, `async def` or `class` statement.
pub struct PyDefSyntax {
    /// its name
    pub name: String,
    /// its start and end byte offsets
    pub range: (usize, usize),
    /// its decorators, each as its start offset and the kind of its expression
    pub decorators: Vec<(usize, String)>,
    /// its parameters (none for a class)
    pub parameters: PythonParams,
    /// its return type (the field that holds it in `rustpython_parser`'s tree
    /// cannot be named in this crate, so it is not read)
    pub return_type: Option<String>,
}

/// A function that was found, with the classes and functions around it,
/// outermost first.
pub struct PyFound {
    /// the function
    pub def: PyDefSyntax,
    /// the classes around it
    pub classes: Vec<PyDefSyntax>,
    /// the functions around it
    pub parents: Vec<PyDefSyntax>,
}

/// Gathers what the syntax tree says of a `def`, `async def` or `class` statement.
fn def_syntax(s: &ast::Stmt, name: String) -> (r: PyDefSyntax)
    ensures
        r.name == name,
        def_offsets_ok(r),
{
    PyDefSyntax {
        name,
        range: stmt_range(s),
        decorators: stmt_decorators(s),
        parameters: {
            let (args, kwargs, posonlyargs) = stmt_param_lists(s);
            let (varargs, varkwargs) = stmt_param_rests(s);
            PythonParams { args, kwargs, posonlyargs, varargs, varkwargs }
        },
        return_type: None,
    }
}

/// Whether the decorator offsets and the range of a definition are 32-bit.
pub open spec fn def_offsets_ok(d: PyDefSyntax) -> bool {
    &&& d.range.0 <= d.range.1 <= u32::MAX
    &&& forall|i: int| 0 <= i < d.decorators@.len() ==> (#[trigger] d.decorators@[i]).0 <= u32::MAX
}

/// A copy of a definition.
fn duplicate_def(d: &PyDefSyntax) -> (r: PyDefSyntax)
    ensures
        def_same(r, *d),
        def_offsets_ok(*d) ==> def_offsets_ok(r),
{
    let mut decorators: Vec<(usize, String)> = Vec::new();
    let mut i: usize = 0;
    while i < d.decorators.len()
        invariant
            i <= d.decorators.len(),
            decorators@ == d.decorators@.take(i as int),
        decreases d.decorators.len() - i,
    {
        decorators.push((d.decorators[i].0, clone_string(&d.decorators[i].1)));
        assert(decorators@ =~= d.decorators@.take(i + 1));
        i += 1;
    }
    assert(d.decorators@.take(d.decorators.len() as int) =~= d.decorators@);
    PyDefSyntax {
        name: clone_string(&d.name),
        range: d.range,
        decorators,
        parameters: d.parameters.duplicate(),
        return_type: clone_opt_string(&d.return_type),
    }
}

/// Whether every definition of a list has 32-bit offsets.
pub open spec fn defs_ok(v: Seq<PyDefSyntax>) -> bool {
    forall|i: int| 0 <= i < v.len() ==> def_offsets_ok(#[trigger] v[i])
}

/// Whether a found function is called `name` and its offsets, and those of
/// the definitions around it, are 32-bit.
pub open spec fn found_ok(f: PyFound, name: Seq<char>) -> bool {
    &&& f.def.name@ == name
    &&& def_offsets_ok(f.def)
    &&& defs_ok(f.classes@)
    &&& defs_ok(f.parents@)
}

/// A statement as a plain tree: its kind, what it says as a definition
/// (its name, range, decorators and parameters; empty for other
/// statements) and its blocks.
pub struct PyStmt {
    /// the kind of statement
    pub kind: PyStmtKind,
    /// what it says as a definition
    pub def: PyDefSyntax,
    /// its `body`
    pub body: Vec<PyStmt>,
    /// its `orelse` block
    pub orelse: Vec<PyStmt>,
    /// its `finalbody` block
    pub finalbody: Vec<PyStmt>,
}

/// Whether the offsets of a statement tree are 32-bit.
pub open spec fn stmt_ok(s: PyStmt) -> bool
    decreases s,
{
    &&& def_offsets_ok(s.def)
    &&& stmts_ok_rec(s.body@)
    &&& stmts_ok_rec(s.orelse@)
    &&& stmts_ok_rec(s.finalbody@)
}

/// Whether the offsets of a list of statement trees are 32-bit.
pub open spec fn stmts_ok_rec(ss: Seq<PyStmt>) -> bool
    decreases ss,
{
    if ss.len() == 0 {
        true
    } else {
        stmts_ok_rec(ss.drop_last()) && stmt_ok(ss.last())
    }
}

/// Whether the offsets of a list of statement trees are 32-bit.
pub open spec fn stmts_ok(ss: Seq<PyStmt>) -> bool {
    stmts_ok_rec(ss)
}

/// The plain tree of a statement; a statement deeper than `fuel` levels
/// counts as another statement.
fn plain_stmt(s: &ast::Stmt, fuel: usize) -> (r: PyStmt)
    ensures
        stmt_ok(r),
    decreases fuel, 0nat,
{
    let name = match stmt_name(s) {
        Some(n) => n,
        None => String::new(),
    };
    let def = def_syntax(s, name);
    if fuel == 0 {
        let r = PyStmt { kind: PyStmtKind::Other, def, body: Vec::new(), orelse: Vec::new(), finalbody: Vec::new() };
        assert(r.body@ =~= seq![] && r.orelse@ =~= seq![] && r.finalbody@ =~= seq![]);
        return r;
    }
    let body = plain_list(&stmt_body(s), fuel - 1);
    let orelse = plain_list(&stmt_orelse(s), fuel - 1);
    let finalbody = plain_list(&stmt_finalbody(s), fuel - 1);
    PyStmt { kind: stmt_kind(s), def, body, orelse, finalbody }
}

/// The plain trees of a list of statements.
fn plain_list(ss: &Vec<ast::Stmt>, fuel: usize) -> (r: Vec<PyStmt>)
    ensures
        stmts_ok_rec(r@),
    decreases fuel, 1nat,
{
    let mut r: Vec<PyStmt> = Vec::new();
    let mut i: usize = 0;
    while i < ss.len()
        invariant
            i <= ss.len(),
            stmts_ok_rec(r@),
        decreases ss.len() - i,
    {
        let t = plain_stmt(&ss[i], fuel);
        let ghost before = r@;
        r.push(t);
        assert(r@.drop_last() =~= before);
        i += 1;
    }
    r
}

/// Whether a statement is a `def` or `async def`.
pub open spec fn is_def_kind(k: PyStmtKind) -> bool {
    k is FunctionDef || k is AsyncFunctionDef
}

/// Whether the blocks of a statement are searched: a `def`, `async def`,
/// `class`, `if`, `while`, `for`, `async for`, `with`, `async with` or `try`.
pub open spec fn is_searched_kind(k: PyStmtKind) -> bool {
    !(k is Other)
}

/// Whether two definitions hold the same values.
pub open spec fn def_same(a: PyDefSyntax, b: PyDefSyntax) -> bool {
    &&& a.name == b.name
    &&& a.range == b.range
    &&& a.decorators@ == b.decorators@
    &&& a.parameters.same(&b.parameters)
    &&& a.return_type == b.return_type
}

/// Whether two lists of definitions hold the same values.
pub open spec fn defs_same(a: Seq<PyDefSyntax>, b: Seq<PyDefSyntax>) -> bool {
    a.len() == b.len() && forall|i: int| 0 <= i < a.len() ==> def_same(#[trigger] a[i], b[i])
}

/// The functions called `name` found in a statement tree, each with the
/// classes and the functions around it (outermost first): a `def` or `async
/// def` of that name is found (and not searched further); in any other
/// statement the blocks are searched, a `def` or `async def` added to the
/// functions around, a `class` to the classes around.
pub open spec fn stmt_found(name: Seq<char>, s: PyStmt, cs: Seq<PyDefSyntax>, ps: Seq<PyDefSyntax>) -> Seq<
    (PyDefSyntax, Seq<PyDefSyntax>, Seq<PyDefSyntax>),
>
    decreases s,
{
    if is_def_kind(s.kind) && s.def.name@ == name {
        seq![(s.def, cs, ps)]
    } else if is_searched_kind(s.kind) {
        let cs2 = if s.kind is ClassDef {
            cs.push(s.def)
        } else {
            cs
        };
        let ps2 = if is_def_kind(s.kind) {
            ps.push(s.def)
        } else {
            ps
        };
        list_found(name, s.body@, cs2, ps2) + list_found(name, s.orelse@, cs2, ps2) + list_found(
            name,
            s.finalbody@,
            cs2,
            ps2,
        )
    } else {
        seq![]
    }
}

/// The functions called `name` found in a list of statement trees, in order.
pub open spec fn list_found(name: Seq<char>, ss: Seq<PyStmt>, cs: Seq<PyDefSyntax>, ps: Seq<PyDefSyntax>) -> Seq<
    (PyDefSyntax, Seq<PyDefSyntax>, Seq<PyDefSyntax>),
>
    decreases ss,
{
    if ss.len() == 0 {
        seq![]
    } else {
        list_found(name, ss.drop_last(), cs, ps) + stmt_found(name, ss.last(), cs, ps)
    }
}

/// Whether a found function holds the same values as an entry of the search.
pub open spec fn found_is(f: PyFound, e: (PyDefSyntax, Seq<PyDefSyntax>, Seq<PyDefSyntax>)) -> bool {
    def_same(f.def, e.0) && defs_same(f.classes@, e.1) && defs_same(f.parents@, e.2)
}

/// Whether `out` is `before` followed by found functions that hold the
/// same values as the entries `es`.
pub open spec fn found_after(before: Seq<PyFound>, es: Seq<(PyDefSyntax, Seq<PyDefSyntax>, Seq<PyDefSyntax>)>, out: Seq<PyFound>) -> bool {
    &&& out.len() == before.len() + es.len()
    &&& forall|j: int| 0 <= j < before.len() ==> #[trigger] out[j] == before[j]
    &&& forall|j: int| 0 <= j < es.len() ==> found_is(#[trigger] out[before.len() + j], es[j])
}

/// The values of a list of references to definitions.
pub open spec fn ref_defs(v: Seq<&PyDefSyntax>) -> Seq<PyDefSyntax> {
    Seq::new(v.len(), |i: int| *v[i])
}

/// Definitions that hold the same values as definitions with 32-bit
/// offsets have them too.
proof fn lemma_same_defs_ok(a: Seq<PyDefSyntax>, b: Seq<PyDefSyntax>)
    requires
        defs_same(a, b),
        defs_ok(b),
    ensures
        defs_ok(a),
{
    assert forall|i: int| 0 <= i < a.len() implies def_offsets_ok(#[trigger] a[i]) by {
        assert(def_same(a[i], b[i]));
        assert(def_offsets_ok(b[i]));
    }
}

/// Copies of the definitions of a list of references.
fn copy_defs(v: &Vec<&PyDefSyntax>) -> (r: Vec<PyDefSyntax>)
    ensures
        defs_same(r@, ref_defs(v@)),
{
    let mut r: Vec<PyDefSyntax> = Vec::new();
    let mut i: usize = 0;
    while i < v.len()
        invariant
            i <= v.len(),
            r@.len() == i,
            forall|j: int| 0 <= j < i ==> def_same(#[trigger] r@[j], *v@[j]),
        decreases v.len() - i,
    {
        r.push(duplicate_def(v[i]));
        i += 1;
    }
    r
}

/// Searches a statement tree for the functions called `name`.
fn collect_stmt<'a>(
    s: &'a PyStmt,
    name: &str,
    cs: &mut Vec<&'a PyDefSyntax>,
    ps: &mut Vec<&'a PyDefSyntax>,
    found: &mut Vec<PyFound>,
)
    requires
        stmt_ok(*s),
        defs_ok(ref_defs(old(cs)@)),
        defs_ok(ref_defs(old(ps)@)),
    ensures
        final(cs)@ == old(cs)@,
        final(ps)@ == old(ps)@,
        found_after(old(found)@, stmt_found(name@, *s, ref_defs(old(cs)@), ref_defs(old(ps)@)), final(found)@),
        forall|j: int| old(found)@.len() <= j < final(found)@.len() ==> found_ok(#[trigger] final(found)@[j], name@),
    decreases *s,
{
    let ghost f0 = found@;
    let ghost c0 = cs@;
    let ghost p0 = ps@;
    let is_def = match s.kind {
        PyStmtKind::FunctionDef | PyStmtKind::AsyncFunctionDef => true,
        _ => false,
    };
    let is_class = match s.kind {
        PyStmtKind::ClassDef => true,
        _ => false,
    };
    let searched = match s.kind {
        PyStmtKind::Other => false,
        _ => true,
    };
    if is_def && str_eq(s.def.name.as_str(), name) {
        let fnd = PyFound { def: duplicate_def(&s.def), classes: copy_defs(cs), parents: copy_defs(ps) };
        proof {
            lemma_same_defs_ok(fnd.classes@, ref_defs(c0));
            lemma_same_defs_ok(fnd.parents@, ref_defs(p0));
        }
        found.push(fnd);
        assert(found_is(found@[f0.len() as int], stmt_found(name@, *s, ref_defs(c0), ref_defs(p0))[0]));
    } else if searched {
        if is_class {
            cs.push(&s.def);
        }
        if is_def {
            ps.push(&s.def);
        }
        assert(ref_defs(cs@) =~= if s.kind is ClassDef { ref_defs(c0).push(s.def) } else { ref_defs(c0) });
        assert(ref_defs(ps@) =~= if is_def_kind(s.kind) { ref_defs(p0).push(s.def) } else { ref_defs(p0) });
        let ghost cs2 = ref_defs(cs@);
        let ghost ps2 = ref_defs(ps@);
        collect_list(&s.body, name, cs, ps, found);
        let ghost f1 = found@;
        collect_list(&s.orelse, name, cs, ps, found);
        let ghost f2 = found@;
        collect_list(&s.finalbody, name, cs, ps, found);
        proof {
            let a = list_found(name@, s.body@, cs2, ps2);
            let b = list_found(name@, s.orelse@, cs2, ps2);
            let c = list_found(name@, s.finalbody@, cs2, ps2);
            lemma_found_after_join(f0, a, f1, b, f2);
            lemma_found_after_join(f0, a + b, f2, c, found@);
        }
        if is_def {
            ps.pop();
        }
        if is_class {
            cs.pop();
        }
        assert(cs@ =~= c0);
        assert(ps@ =~= p0);
    } else {
        assert(found@ =~= f0);
    }
}

/// Each tree of a list with 32-bit offsets has them.
proof fn lemma_stmts_ok_at(ss: Seq<PyStmt>, i: int)
    requires
        stmts_ok_rec(ss),
        0 <= i < ss.len(),
    ensures
        stmt_ok(ss[i]),
    decreases ss.len(),
{
    if i < ss.len() - 1 {
        lemma_stmts_ok_at(ss.drop_last(), i);
    }
}

/// Two successive additions make one.
proof fn lemma_found_after_join(
    f0: Seq<PyFound>,
    a: Seq<(PyDefSyntax, Seq<PyDefSyntax>, Seq<PyDefSyntax>)>,
    f1: Seq<PyFound>,
    b: Seq<(PyDefSyntax, Seq<PyDefSyntax>, Seq<PyDefSyntax>)>,
    f2: Seq<PyFound>,
)
    requires
        found_after(f0, a, f1),
        found_after(f1, b, f2),
    ensures
        found_after(f0, a + b, f2),
{
    assert forall|j: int| 0 <= j < (a + b).len() implies found_is(#[trigger] f2[f0.len() + j], (a + b)[j]) by {
        if j < a.len() {
            assert(f2[f0.len() + j] == f1[f0.len() + j]);
        } else {
            assert(f0.len() + j == f1.len() + (j - a.len()));
        }
    }
    assert forall|j: int| 0 <= j < f0.len() implies #[trigger] f2[j] == f0[j] by {
        assert(f2[j] == f1[j]);
    }
}

/// Searches a list of statement trees for the functions called `name`.
fn collect_list<'a>(
    ss: &'a Vec<PyStmt>,
    name: &str,
    cs: &mut Vec<&'a PyDefSyntax>,
    ps: &mut Vec<&'a PyDefSyntax>,
    found: &mut Vec<PyFound>,
)
    requires
        stmts_ok_rec(ss@),
        defs_ok(ref_defs(old(cs)@)),
        defs_ok(ref_defs(old(ps)@)),
    ensures
        final(cs)@ == old(cs)@,
        final(ps)@ == old(ps)@,
        found_after(old(found)@, list_found(name@, ss@, ref_defs(old(cs)@), ref_defs(old(ps)@)), final(found)@),
        forall|j: int| old(found)@.len() <= j < final(found)@.len() ==> found_ok(#[trigger] final(found)@[j], name@),
    decreases ss@,
{
    let ghost f0 = found@;
    let ghost c0 = cs@;
    let ghost p0 = ps@;
    let mut i: usize = 0;
    assert(found_after(f0, list_found(name@, ss@.take(0), ref_defs(c0), ref_defs(p0)), found@)) by {
        assert(ss@.take(0) =~= seq![]);
    }
    while i < ss.len()
        invariant
            i <= ss.len(),
            cs@ == c0,
            ps@ == p0,
            found_after(f0, list_found(name@, ss@.take(i as int), ref_defs(c0), ref_defs(p0)), found@),
            stmts_ok_rec(ss@),
            defs_ok(ref_defs(c0)),
            defs_ok(ref_defs(p0)),
            forall|j: int| f0.len() <= j < found@.len() ==> found_ok(#[trigger] found@[j], name@),
        decreases ss.len() - i,
    {
        proof {
            lemma_stmts_ok_at(ss@, i as int);
        }
        let ghost f1 = found@;
        assert(ss@.take(i + 1).drop_last() =~= ss@.take(i as int));
        assert(ss@.take(i + 1).last() == ss@[i as int]);
        collect_stmt(&ss[i], name, cs, ps, found);
        proof {
            lemma_found_after_join(
                f0,
                list_found(name@, ss@.take(i as int), ref_defs(c0), ref_defs(p0)),
                f1,
                stmt_found(name@, ss@[i as int], ref_defs(c0), ref_defs(p0)),
                found@,
            );
        }
        i += 1;
    }
    assert(ss@.take(ss.len() as int) =~= ss@);
}

// ---------------------------------------------------------------- building functions

/// The row of a byte offset, when it is a boundary of the text.
fn row_of(file: &str, chars: &Vec<char>, off: usize) -> (r: Option<usize>)
    requires
        chars@ == file@,
        utf8_len(file@) <= usize::MAX,
        utf8_len(file@) <= u32::MAX,
        off <= u32::MAX,
    ensures
        is_boundary(file@, off as int) ==> r == Some(python_location_of(file@, off).0),
        !is_boundary(file@, off as int) ==> r is None,
        r matches Some(x) ==> x >= 1,
{
    match crate::text::boundary_index(chars, off) {
        Some(_) => Some(python_location(file, off).0),
        None => None,
    }
}

/// Whether `e` is how decorator `d` (its start offset and the kind of its
/// expression) is shown in `file`: its row with its line, numbered; or, when
/// its line cannot be found, its row, a colon, its column in spaces and the
/// kind of its expression; row 0 and nothing when its offset is not a boundary.
pub open spec fn decorator_is(file: Seq<char>, d: (usize, String), e: (usize, String)) -> bool {
    if !is_boundary(file, d.0 as int) {
        e.0 == 0 && e.1@ == Seq::<char>::empty()
    } else {
        let (row, col) = python_location_of(file, d.0);
        &&& e.0 == row
        &&& if 1 <= row <= lines(file).len() {
            e.1@ == lined(lines(file)[row - 1], row as nat)
        } else {
            e.1@ == decimal(row as nat) + seq![':'] + Seq::new(col as nat, |i: int| ' ')
                + "decorator with "@ + d.1@
        }
    }
}

/// Whether `es` shows the decorators `ds`, one for one.
pub open spec fn decorators_are(file: Seq<char>, ds: Seq<(usize, String)>, es: Seq<(usize, String)>) -> bool {
    es.len() == ds.len() && forall|i: int| 0 <= i < ds.len() ==> decorator_is(file, ds[i], #[trigger] es[i])
}

/// How a decorator is shown: its line, numbered; or, when its line cannot be
/// found, its row, its column in spaces and the kind of its expression.
fn decorator_entry(
    file: &str,
    chars: &Vec<char>,
    file_lines: &Vec<Vec<char>>,
    d: &(usize, String),
) -> (r: (usize, String))
    requires
        chars@ == file@,
        super::parser_fits(file@),
        d.0 <= u32::MAX,
        file_lines@.len() == lines(file@).len(),
        forall|i: int| 0 <= i < file_lines@.len() ==> #[trigger] file_lines@[i]@ == lines(file@)[i],
    ensures
        decorator_is(file@, *d, r),
{
    if crate::text::boundary_index(chars, d.0).is_none() {
        let e = String::new();
        assert(e@ =~= Seq::<char>::empty());
        return (0, e);
    }
    let (row, col) = python_location(file, d.0);
    if row - 1 < file_lines.len() {
        proof {
            crate::text::lemma_chars_le_bytes(file@);
            crate::text::lemma_lines_len(seq![], file@);
            crate::text::lemma_lines_elem_len(seq![], file@, row - 1);
            crate::text::lemma_lines_len(seq![], lines(file@)[row - 1]);
        }
        let line = crate::text::chars_to_string(file_lines[row - 1].as_slice());
        (row, make_lined(line.as_str(), row))
    } else {
        let mut shown = String::new();
        push_decimal(&mut shown, row);
        push_char(&mut shown, ':');
        let ghost head = shown@;
        let mut k: usize = 0;
        while k < col
            invariant
                k <= col,
                shown@ == head + Seq::new(k as nat, |i: int| ' '),
            decreases col - k,
        {
            assert(Seq::new((k + 1) as nat, |i: int| ' ') =~= Seq::new(k as nat, |i: int| ' ').push(' '));
            push_char(&mut shown, ' ');
            k += 1;
        }
        push_str(&mut shown, "decorator with ");
        push_str(&mut shown, d.1.as_str());
        assert(shown@ =~= decimal(row as nat) + seq![':'] + Seq::new(col as nat, |i: int| ' ')
            + "decorator with "@ + d.1@);
        (row, shown)
    }
}

/// How all decorators of a definition are shown.
fn decorator_entries(
    file: &str,
    chars: &Vec<char>,
    file_lines: &Vec<Vec<char>>,
    ds: &Vec<(usize, String)>,
) -> (r: Vec<(usize, String)>)
    requires
        chars@ == file@,
        super::parser_fits(file@),
        forall|i: int| 0 <= i < ds@.len() ==> (#[trigger] ds@[i]).0 <= u32::MAX,
        file_lines@.len() == lines(file@).len(),
        forall|i: int| 0 <= i < file_lines@.len() ==> #[trigger] file_lines@[i]@ == lines(file@)[i],
    ensures
        decorators_are(file@, ds@, r@),
{
    let mut r: Vec<(usize, String)> = Vec::new();
    let mut i: usize = 0;
    while i < ds.len()
        invariant
            i <= ds.len(),
            r@.len() == i,
            forall|j: int| 0 <= j < i ==> decorator_is(file@, ds@[j], #[trigger] r@[j]),
            chars@ == file@,
            super::parser_fits(file@),
            forall|j: int| 0 <= j < ds@.len() ==> (#[trigger] ds@[j]).0 <= u32::MAX,
            file_lines@.len() == lines(file@).len(),
            forall|j: int| 0 <= j < file_lines@.len() ==> #[trigger] file_lines@[j]@ == lines(file@)[j],
        decreases ds.len() - i,
    {
        r.push(decorator_entry(file, chars, file_lines, &ds[i]));
        i += 1;
    }
    r
}

/// The heading a class or parent function is shown with: its first line,
/// numbered, without trailing whitespace.
pub open spec fn heading(file: Seq<char>, row: nat) -> Seq<char> {
    decimal(row) + seq![':', ' '] + trim_end(lines(file)[row - 1])
}

/// The rows of the start and end of a definition, when both offsets are
/// boundaries of the text and its first row is one of its lines.
pub open spec fn heading_found(file: Seq<char>, d: PyDefSyntax) -> Option<(usize, usize)> {
    if is_boundary(file, d.range.0 as int) && is_boundary(file, d.range.1 as int) {
        let a = python_location_of(file, d.range.0).0;
        let b = python_location_of(file, d.range.1).0;
        if 1 <= a <= lines(file).len() {
            Some((a, b))
        } else {
            None
        }
    } else {
        None
    }
}

/// The definitions of a list whose rows can be found, in order.
pub open spec fn defs_kept(file: Seq<char>, ds: Seq<PyDefSyntax>) -> Seq<PyDefSyntax>
    decreases ds.len(),
{
    if ds.len() == 0 {
        seq![]
    } else {
        let rest = defs_kept(file, ds.drop_last());
        if heading_found(file, ds.last()) is Some {
            rest.push(ds.last())
        } else {
            rest
        }
    }
}

/// Whether `k` is the class that definition `c` gives, for a function called `name`.
pub open spec fn py_class_is(file: Seq<char>, name: Seq<char>, c: PyDefSyntax, k: PythonClass) -> bool {
    match heading_found(file, c) {
        Some((a, b)) => {
            &&& k.name@ == name
            &&& k.top@ == heading(file, a as nat)
            &&& k.lines == (a, b)
            &&& decorators_are(file, c.decorators@, k.decorators@)
        },
        None => false,
    }
}

/// Whether `k` is the parent function that definition `p` gives, for a function called `name`.
pub open spec fn py_parent_is(file: Seq<char>, name: Seq<char>, p: PyDefSyntax, k: PythonParentFunction) -> bool {
    match heading_found(file, p) {
        Some((a, b)) => {
            &&& k.name@ == name
            &&& k.top@ == heading(file, a as nat)
            &&& k.lines == (a, b)
            &&& k.parameters.same(&p.parameters)
            &&& k.return_type == p.return_type
            &&& decorators_are(file, p.decorators@, k.decorators@)
        },
        None => false,
    }
}

/// The row, first line and end row of a definition around the function.
fn def_heading(file: &str, chars: &Vec<char>, file_lines: &Vec<Vec<char>>, d: &PyDefSyntax) -> (r:
    Option<((usize, usize), String)>)
    requires
        chars@ == file@,
        super::parser_fits(file@),
        def_offsets_ok(*d),
        file_lines@.len() == lines(file@).len(),
        forall|i: int| 0 <= i < file_lines@.len() ==> #[trigger] file_lines@[i]@ == lines(file@)[i],
    ensures
        match heading_found(file@, *d) {
            Some((a, b)) => r matches Some(((x, y), top)) && x == a && y == b && top@ == heading(
                file@,
                a as nat,
            ),
            None => r is None,
        },
{
    let start = match row_of(file, chars, d.range.0) {
        Some(x) => x,
        None => return None,
    };
    let end = match row_of(file, chars, d.range.1) {
        Some(x) => x,
        None => return None,
    };
    if start - 1 >= file_lines.len() {
        return None;
    }
    let mut top = String::new();
    push_decimal(&mut top, start);
    push_str(&mut top, ": ");
    let trimmed = crate::text::trim_end_chars(&file_lines[start - 1]);
    crate::text::push_chars(&mut top, trimmed.as_slice());
    proof {
        reveal_strlit(": ");
        assert(": "@ =~= seq![':', ' ']);
        assert(top@ =~= heading(file@, start as nat));
    }
    Some(((start, end), top))
}

/// The code of a definition: from the start of the line of its start to
/// the end of the line of its end, when its offsets are boundaries and
/// those lines can be found.
pub open spec fn py_code(file: Seq<char>, d: PyDefSyntax) -> Option<Seq<char>> {
    if is_boundary(file, d.range.0 as int) && is_boundary(file, d.range.1 as int) {
        let sl = python_location_of(file, d.range.0).0;
        let el = python_location_of(file, d.range.1).0;
        let st = newline_starts(file);
        if 1 <= sl && sl - 1 < st.len() && el < st.len() {
            byte_slice(file, st[sl - 1] as int, st[el as int] as int)
        } else {
            None
        }
    } else {
        None
    }
}

/// Whether `f` is the function that found definition `found` gives in `file`,
/// for a function called `name`.
pub open spec fn py_function_is(file: Seq<char>, name: Seq<char>, found: PyFound, f: PythonFunction) -> bool {
    let sl = python_location_of(file, found.def.range.0).0;
    let el = python_location_of(file, found.def.range.1).0;
    &&& f.name@ == name
    &&& f.lines == (sl, el)
    &&& 1 <= sl && sl - 1 < newline_starts(file).len() && el < newline_starts(
        file,
    ).len()
    &&& byte_slice(
        file,
        newline_starts(file)[sl - 1] as int,
        newline_starts(file)[el as int] as int,
    ) matches Some(code) && f.body@ == lined(crate::text::drop_newlines(code), sl as nat)
    &&& f.parameters.same(&found.def.parameters)
    &&& f.return_type == found.def.return_type
    &&& decorators_are(file, found.def.decorators@, f.decorators@)
    &&& f.class@.len() == defs_kept(file, found.classes@).len()
    &&& forall|i: int| 0 <= i < f.class@.len() ==> py_class_is(file, name, defs_kept(file, found.classes@)[i], #[trigger] f.class@[i])
    &&& f.parent@.len() == defs_kept(file, found.parents@).len()
    &&& forall|i: int| 0 <= i < f.parent@.len() ==> py_parent_is(file, name, defs_kept(file, found.parents@)[i], #[trigger] f.parent@[i])
}

/// The function a found definition stands for: its lines are the rows of
/// its start and end; its code runs from the start of its first line to the
/// end of its last line, without leading newlines, numbered from its first
/// line; its classes and parents are those whose first line can be found.
/// Nothing when its lines or its code cannot be found.
pub fn python_function_from_syntax(
    file: &str,
    chars: &Vec<char>,
    starts: &Vec<usize>,
    file_lines: &Vec<Vec<char>>,
    name: &str,
    found: &PyFound,
) -> (r: Option<PythonFunction>)
    requires
        chars@ == file@,
        super::parser_fits(file@),
        starts@.len() == newline_starts(file@).len(),
        forall|i: int| 0 <= i < starts@.len() ==> starts@[i] == #[trigger] newline_starts(file@)[i],
        file_lines@.len() == lines(file@).len(),
        forall|i: int| 0 <= i < file_lines@.len() ==> #[trigger] file_lines@[i]@ == lines(file@)[i],
        found_ok(*found, name@),
    ensures
        r is Some <==> py_code(file@, found.def) is Some,
        r matches Some(f) ==> py_function_is(file@, name@, *found, f),
{
    let start = match row_of(file, chars, found.def.range.0) {
        Some(x) => x,
        None => return None,
    };
    let end = match row_of(file, chars, found.def.range.1) {
        Some(x) => x,
        None => return None,
    };
    if start - 1 >= starts.len() || end >= starts.len() {
        return None;
    }
    let code = match str_get(file, starts[start - 1], starts[end]) {
        Some(c) => c,
        None => return None,
    };
    let code = crate::text::trim_start_newlines(code.as_str());
    proof {
        crate::text::lemma_chars_le_bytes(file@);
        super::lemma_line_index_len_bound(file@);
        let a0 = newline_starts(file@)[start - 1] as int;
        let b0 = newline_starts(file@)[end as int] as int;
        let whole = byte_slice(file@, a0, b0)->0;
        let i0 = crate::text::index_at(file@, a0);
        let j0 = crate::text::index_at(file@, b0);
        if j0 < i0 {
            crate::text::lemma_offset_strict(file@, j0, i0);
        }
        lemma_drop_newlines_len(whole);
        crate::text::lemma_lines_len(seq![], code@);
    }
    let body = make_lined(code.as_str(), start);
    let mut class: Vec<PythonClass> = Vec::new();
    let mut i: usize = 0;
    while i < found.classes.len()
        invariant
            i <= found.classes.len(),
            class@.len() == defs_kept(file@, found.classes@.take(i as int)).len(),
            forall|j: int| 0 <= j < class@.len() ==> py_class_is(file@, name@, defs_kept(file@, found.classes@.take(i as int))[j], #[trigger] class@[j]),
            chars@ == file@,
            super::parser_fits(file@),
            found_ok(*found, name@),
            file_lines@.len() == lines(file@).len(),
            forall|j: int| 0 <= j < file_lines@.len() ==> #[trigger] file_lines@[j]@ == lines(file@)[j],
        decreases found.classes.len() - i,
    {
        let c = &found.classes[i];
        assert(def_offsets_ok(found.classes@[i as int]));
        assert(found.classes@.take(i + 1).drop_last() =~= found.classes@.take(i as int));
        if let Some(((cs, ce), top)) = def_heading(file, chars, file_lines, c) {
            class.push(
                PythonClass {
                    name: string_of_str(name),
                    top,
                    lines: (cs, ce),
                    decorators: decorator_entries(file, chars, file_lines, &c.decorators),
                },
            );
        }
        i += 1;
    }
    assert(found.classes@.take(found.classes@.len() as int) =~= found.classes@);
    let mut parent: Vec<PythonParentFunction> = Vec::new();
    let mut i: usize = 0;
    while i < found.parents.len()
        invariant
            i <= found.parents.len(),
            parent@.len() == defs_kept(file@, found.parents@.take(i as int)).len(),
            forall|j: int| 0 <= j < parent@.len() ==> py_parent_is(file@, name@, defs_kept(file@, found.parents@.take(i as int))[j], #[trigger] parent@[j]),
            chars@ == file@,
            super::parser_fits(file@),
            found_ok(*found, name@),
            file_lines@.len() == lines(file@).len(),
            forall|j: int| 0 <= j < file_lines@.len() ==> #[trigger] file_lines@[j]@ == lines(file@)[j],
        decreases found.parents.len() - i,
    {
        let p = &found.parents[i];
        assert(def_offsets_ok(found.parents@[i as int]));
        assert(found.parents@.take(i + 1).drop_last() =~= found.parents@.take(i as int));
        if let Some(((ps, pe), top)) = def_heading(file, chars, file_lines, p) {
            parent.push(
                PythonParentFunction {
                    name: string_of_str(name),
                    top,
                    lines: (ps, pe),
                    parameters: p.parameters.duplicate(),
                    decorators: decorator_entries(file, chars, file_lines, &p.decorators),
                    return_type: clone_opt_string(&p.return_type),
                },
            );
        }
        i += 1;
    }
    assert(found.parents@.take(found.parents@.len() as int) =~= found.parents@);
    Some(
        PythonFunction {
            name: string_of_str(name),
            parameters: found.def.parameters.duplicate(),
            parent,
            decorators: decorator_entries(file, chars, file_lines, &found.def.decorators),
            return_type: clone_opt_string(&found.def.return_type),
            class,
            body,
            lines: (start, end),
        },
    )
}

/// A string holding the slice.
fn string_of_str(s: &str) -> (r: String)
    ensures
        r@ == s@,
{
    string_of(s)
}

/// Dropping leading newlines never lengthens a text.
proof fn lemma_drop_newlines_len(s: Seq<char>)
    ensures
        crate::text::drop_newlines(s).len() <= s.len(),
    decreases s.len(),
{
    if s.len() > 0 && s[0] == '\n' {
        lemma_drop_newlines_len(s.drop_first());
    }
}

/// The found definitions whose code can be found in `file`, in order.
pub open spec fn readable_found(file: Seq<char>, found: Seq<PyFound>) -> Seq<PyFound>
    decreases found.len(),
{
    if found.len() == 0 {
        seq![]
    } else if py_code(file, found.last().def) is Some {
        readable_found(file, found.drop_last()).push(found.last())
    } else {
        readable_found(file, found.drop_last())
    }
}

/// What a search for the functions called `name` gives when it found the
/// definitions `found`: `Err` "no functions found" when the code of none
/// can be found; else, in order, the function each such definition gives.
pub open spec fn py_search_result(
    file: Seq<char>,
    name: Seq<char>,
    found: Seq<PyFound>,
    r: Result<Vec<PythonFunction>, String>,
) -> bool {
    let k = readable_found(file, found);
    if k.len() == 0 {
        r matches Err(e) && e@ == "no functions found"@
    } else {
        r matches Ok(v) && v@.len() == k.len() && forall|i: int|
            0 <= i < k.len() ==> py_function_is(file, name, k[i], #[trigger] v@[i])
    }
}

/// Whether some definition called `name`, found with some classes and
/// functions around it, gives `f` in `file`.
pub open spec fn declared_py_function(file: Seq<char>, name: Seq<char>, f: PythonFunction) -> bool {
    exists|found: PyFound| found_ok(found, name) && #[trigger] py_function_is(file, name, found, f)
}

/// Finds the functions called `name` in Python source text (parsed with
/// `name` as its path): each function found is what a definition of that
/// name in the syntax tree gives (its lines, code, parameters, decorators,
/// classes and parent functions); `Err` when the text does not parse, holds
/// no statement, holds no such function, or is too large to number its lines.
pub fn find_function_in_file(file_contents: &str, name: &str) -> (r: Result<
    Vec<PythonFunction>,
    String,
>)
    ensures
        r matches Ok(v) ==> v@.len() > 0 && forall|i: int|
            0 <= i < v@.len() ==> declared_py_function(file_contents@, name@, #[trigger] v@[i]),
        super::parser_fits(file_contents@) ==> match python_syntax_tree(file_contents@, name@) {
            Err(m) => r matches Err(e) && e@ == "error parsing file: "@ + m,
            Ok(ss) => if ss.len() == 0 {
                r matches Err(e) && e@ == "no code found"@
            } else {
                exists|found: Seq<PyFound>|
                    found_after(seq![], list_found(name@, ss, seq![], seq![]), found) && (forall|i: int|
                        0 <= i < found.len() ==> found_ok(#[trigger] found[i], name@))
                        && #[trigger] py_search_result(file_contents@, name@, found, r)
            },
        },
        !super::parser_fits(file_contents@) ==> (r matches Err(e) && e@ == "file too large"@),
{
    if !super::fits_parser(file_contents) {
        return Err(string_of("file too large"));
    }
    let total = str_byte_len(file_contents);
    let chars = str_chars(file_contents);
    let starts = line_starts(file_contents);
    let file_lines = lines_of(&chars);
    let ast = match python_syntax(file_contents, name) {
        Ok(a) => a,
        Err(e) => {
            let mut msg = string_of("error parsing file: ");
            push_str(&mut msg, e.as_str());
            return Err(msg);
        },
    };
    if ast.len() == 0 {
        return Err(string_of("no code found"));
    }
    let mut classes: Vec<&PyDefSyntax> = Vec::new();
    let mut parents: Vec<&PyDefSyntax> = Vec::new();
    let mut found: Vec<PyFound> = Vec::new();
    assert(ref_defs(classes@) =~= seq![]);
    assert(ref_defs(parents@) =~= seq![]);
    collect_list(&ast, name, &mut classes, &mut parents, &mut found);
    assert(found_after(seq![], list_found(name@, ast@, seq![], seq![]), found@));
    let mut new: Vec<PythonFunction> = Vec::new();
    let mut i: usize = 0;
    while i < found.len()
        invariant
            i <= found.len(),
            chars@ == file_contents@,
            super::parser_fits(file_contents@),
            starts@.len() == newline_starts(file_contents@).len(),
            forall|j: int| 0 <= j < starts@.len() ==> starts@[j] == #[trigger] newline_starts(
                file_contents@,
            )[j],
            file_lines@.len() == lines(file_contents@).len(),
            forall|j: int| 0 <= j < file_lines@.len() ==> #[trigger] file_lines@[j]@ == lines(
                file_contents@,
            )[j],
            forall|j: int| 0 <= j < found@.len() ==> found_ok(#[trigger] found@[j], name@),
            forall|j: int| 0 <= j < new@.len() ==> declared_py_function(file_contents@, name@, #[trigger] new@[j]),
            new@.len() == readable_found(file_contents@, found@.take(i as int)).len(),
            forall|j: int| 0 <= j < new@.len() ==> py_function_is(
                file_contents@,
                name@,
                readable_found(file_contents@, found@.take(i as int))[j],
                #[trigger] new@[j],
            ),
        decreases found.len() - i,
    {
        assert(found_ok(found@[i as int], name@));
        assert(found@.take(i + 1).drop_last() =~= found@.take(i as int));
        assert(found@.take(i + 1).last() == found@[i as int]);
        let ghost before = new@;
        match python_function_from_syntax(
            file_contents,
            &chars,
            &starts,
            &file_lines,
            name,
            &found[i],
        ) {
            Some(f) => {
                proof {
                    assert(py_function_is(file_contents@, name@, found@[i as int], f));
                }
                new.push(f);
                proof {
                    let k = readable_found(file_contents@, found@.take(i + 1));
                    assert forall|j: int| 0 <= j < new@.len() implies py_function_is(
                        file_contents@,
                        name@,
                        k[j],
                        #[trigger] new@[j],
                    ) by {
                        if j < before.len() {
                            assert(new@[j] == before[j]);
                        }
                    }
                }
            },
            None => {},
        }
        i += 1;
    }
    assert(found@.take(found@.len() as int) =~= found@);
    if new.len() == 0 {
        let r = Err(string_of("no functions found"));
        assert(py_search_result(file_contents@, name@, found@, r));
        return r;
    }
    assert(py_search_result(file_contents@, name@, found@, Ok(new)));
    Ok(new)
}

} // verus!
