//! Finding UMPL functions in the syntax tree of a UMPL file: the tree as the
//! library holds it, and the search through it.
use vstd::prelude::*;

use super::umpl::{UMPLFunction, UMPLParentFunction};
use super::{lined, make_lined};
use crate::text::{chars_to_string, clone_string, lemma_lines_len, lines, lines_of, push_chars, push_str, str_chars, string_of};

verus! {

/// A function of a UMPL syntax tree.
pub struct UmplFunctionNode {
    /// its name, one character
    pub name: char,
    /// how many arguments it takes
    pub num_arguments: usize,
    /// what it holds
    pub body: Vec<UmplThing>,
    /// its first line (the first line of the file is 1)
    pub line: usize,
    /// its last line
    pub end_line: usize,
}

/// A node of a UMPL syntax tree, as the search sees it.
pub enum UmplThing {
    /// a function
    Function(UmplFunctionNode),
    /// an `if`: what runs when the condition holds, what runs otherwise, and
    /// its line
    IfStatement(Vec<UmplThing>, Vec<UmplThing>, usize),
    /// a loop: what it repeats, and its line
    LoopStatement(Vec<UmplThing>, usize),
    /// anything else (an identifier, an expression, `break`, `continue`,
    /// `return`), with its line
    Other(usize),
}

/// The line a node starts on.
pub open spec fn thing_line(t: UmplThing) -> usize {
    match t {
        UmplThing::Function(f) => f.line,
        UmplThing::IfStatement(_, _, l) => l,
        UmplThing::LoopStatement(_, l) => l,
        UmplThing::Other(l) => l,
    }
}

/// A function around a found function, by its view.
pub struct ParentView {
    /// first and last line
    pub lines: (usize, usize),
    /// name
    pub name: Seq<char>,
    /// numbered first lines
    pub top: Seq<char>,
    /// numbered last line
    pub bottom: Seq<char>,
    /// number of arguments
    pub args_count: usize,
}

/// A found function, by its view.
pub struct FoundView {
    /// first and last line
    pub lines: (usize, usize),
    /// name
    pub name: Seq<char>,
    /// numbered code
    pub body: Seq<char>,
    /// number of arguments
    pub args_count: usize,
    /// the functions around it, outermost first
    pub parents: Seq<ParentView>,
}

/// The view of a function around a found function.
pub open spec fn parent_view(p: UMPLParentFunction) -> ParentView {
    ParentView { lines: p.lines, name: p.name@, top: p.top@, bottom: p.bottom@, args_count: p.args_count }
}

/// The views of the functions around a found function.
pub open spec fn parent_views(ps: Seq<UMPLParentFunction>) -> Seq<ParentView> {
    Seq::new(ps.len(), |i: int| parent_view(ps[i]))
}

/// The view of a found function.
pub open spec fn found_view(f: UMPLFunction) -> FoundView {
    FoundView { lines: f.lines, name: f.name@, body: f.body@, args_count: f.args_count, parents: parent_views(f.parents@) }
}

/// The views of found functions.
pub open spec fn found_views(fs: Seq<UMPLFunction>) -> Seq<FoundView> {
    Seq::new(fs.len(), |i: int| found_view(fs[i]))
}

/// Lines `a` to `b` (not included) of a file, each followed by a newline.
pub open spec fn lines_text(ls: Seq<Seq<char>>, a: int, b: int) -> Seq<char>
    decreases b - a,
{
    if a < 0 || a >= b || a >= ls.len() {
        seq![]
    } else {
        ls[a] + seq!['\n'] + lines_text(ls, a + 1, b)
    }
}

/// The first line, from line `i` on (counting from 0), that holds `⧼`.
pub open spec fn first_marked(ls: Seq<Seq<char>>, i: int) -> Option<int>
    decreases ls.len() - i,
{
    if i < 0 || i >= ls.len() {
        None
    } else if ls[i].contains('⧼') {
        Some(i)
    } else {
        first_marked(ls, i + 1)
    }
}

/// Where the first lines of a function end: the first line from its own on
/// that holds `⧼`, else the line its body starts on.
pub open spec fn top_end(ls: Seq<Seq<char>>, f: UmplFunctionNode) -> Option<int> {
    match first_marked(ls, f.line - 1) {
        Some(k) => Some(k),
        None => if f.body@.len() > 0 {
            Some(thing_line(f.body@[0]) as int)
        } else {
            None
        },
    }
}

/// The functions called `name` in the nodes, with the functions around
/// them, node by node.
pub open spec fn umpl_search(name: Seq<char>, ls: Seq<Seq<char>>, ast: Seq<UmplThing>, cur: Seq<ParentView>) -> Seq<FoundView>
    decreases ast,
{
    if ast.len() == 0 {
        seq![]
    } else {
        umpl_search(name, ls, ast.drop_last(), cur) + node_search(name, ls, ast.last(), cur)
    }
}

/// The functions called `name` in one node: a function of that name is
/// recorded (and not searched further); another function is searched with
/// itself added around, when its last line and the end of its first lines
/// can be found, and without otherwise; the blocks of loops and `if`s are
/// searched too.
pub open spec fn node_search(name: Seq<char>, ls: Seq<Seq<char>>, t: UmplThing, cur: Seq<ParentView>) -> Seq<FoundView>
    decreases t,
{
    match t {
        UmplThing::Function(f) => if seq![f.name] == name {
            seq![
                FoundView {
                    lines: (f.line, f.end_line),
                    name: seq![f.name],
                    body: lined(lines_text(ls, f.line - 1, f.end_line as int), f.line as nat),
                    args_count: f.num_arguments,
                    parents: cur,
                },
            ]
        } else if f.end_line - 1 >= ls.len() {
            umpl_search(name, ls, f.body@, cur)
        } else {
            match top_end(ls, f) {
                None => umpl_search(name, ls, f.body@, cur),
                Some(e) => umpl_search(
                    name,
                    ls,
                    f.body@,
                    cur.push(
                        ParentView {
                            lines: (f.line, f.end_line),
                            name: seq![f.name],
                            top: lined(lines_text(ls, f.line - 1, e + 1), f.line as nat),
                            bottom: lined(ls[f.end_line - 1], f.end_line as nat),
                            args_count: f.num_arguments,
                        },
                    ),
                ),
            }
        },
        UmplThing::IfStatement(a, b, _) => umpl_search(name, ls, a@, cur) + umpl_search(name, ls, b@, cur),
        UmplThing::LoopStatement(b, _) => umpl_search(name, ls, b@, cur),
        UmplThing::Other(_) => seq![],
    }
}

/// Whether the line numbers of every function of the nodes are those of a
/// parser (from 1) and leave room for numbering `total` more lines.
pub open spec fn lines_fit(ast: Seq<UmplThing>, total: nat) -> bool
    decreases ast,
{
    if ast.len() == 0 {
        true
    } else {
        lines_fit(ast.drop_last(), total) && node_fits(ast.last(), total)
    }
}

/// Whether the line numbers of every function of a node fit (see
/// [`lines_fit`]).
pub open spec fn node_fits(t: UmplThing, total: nat) -> bool
    decreases t,
{
    match t {
        UmplThing::Function(f) => {
            &&& 1 <= f.line
            &&& 1 <= f.end_line
            &&& f.line + total + 1 <= usize::MAX
            &&& f.end_line + total + 1 <= usize::MAX
            &&& lines_fit(f.body@, total)
        },
        UmplThing::IfStatement(a, b, _) => lines_fit(a@, total) && lines_fit(b@, total),
        UmplThing::LoopStatement(b, _) => lines_fit(b@, total),
        UmplThing::Other(_) => true,
    }
}

/// Any run of lines is no longer than all the lines from the first of them on.
pub proof fn lemma_lines_text_le(ls: Seq<Seq<char>>, a: int, b: int)
    ensures
        lines_text(ls, a, b).len() <= lines_text(ls, a, ls.len() as int).len(),
    decreases b - a,
{
    if !(a < 0 || a >= b || a >= ls.len()) {
        lemma_lines_text_le(ls, a + 1, b);
    }
}

/// The lines from `a` on are no longer than all the lines.
pub proof fn lemma_lines_text_suffix(ls: Seq<Seq<char>>, a: int)
    requires
        0 <= a,
    ensures
        lines_text(ls, a, ls.len() as int).len() <= lines_text(ls, 0, ls.len() as int).len(),
    decreases a,
{
    if a > 0 && a <= ls.len() {
        lemma_lines_text_suffix(ls, a - 1);
    }
}

/// Builds lines `a` to `b` (not included), each followed by a newline.
fn lines_text_of(ls: &Vec<Vec<char>>, a: usize, b: usize) -> (r: String)
    ensures
        r@ == lines_text(ls@.map_values(|l: Vec<char>| l@), a as int, b as int),
{
    let ghost lv = ls@.map_values(|l: Vec<char>| l@);
    let end = if b < ls.len() {
        b
    } else {
        ls.len()
    };
    let mut s = String::new();
    let mut k: usize = a;
    proof {
        lemma_lines_text_split(lv, a as int, b as int, a as int);
    }
    while k < end
        invariant
            a <= k,
            end <= ls@.len(),
            end == if b < ls@.len() { b as int } else { ls@.len() as int },
            lv == ls@.map_values(|l: Vec<char>| l@),
            s@ + lines_text(lv, k as int, b as int) == lines_text(lv, a as int, b as int),
        decreases end - k,
    {
        let ghost before = s@;
        push_chars(&mut s, ls[k].as_slice());
        crate::text::push_char(&mut s, '\n');
        assert(lv[k as int] == ls@[k as int]@);
        assert(s@ + lines_text(lv, k + 1, b as int) =~= before + lines_text(lv, k as int, b as int));
        k += 1;
    }
    assert(lines_text(lv, k as int, b as int) == Seq::<char>::empty());
    assert(s@ + Seq::<char>::empty() =~= s@);
    s
}

/// Splitting the lines at `k` changes nothing.
proof fn lemma_lines_text_split(ls: Seq<Seq<char>>, a: int, b: int, k: int)
    requires
        a == k,
    ensures
        seq![] + lines_text(ls, k, b) == lines_text(ls, a, b),
{
    assert(seq![] + lines_text(ls, k, b) =~= lines_text(ls, k, b));
}

/// Whether a line holds `⧼`.
fn marked(l: &Vec<char>) -> (r: bool)
    ensures
        r == l@.contains('⧼'),
{
    let mut i: usize = 0;
    while i < l.len()
        invariant
            i <= l.len(),
            forall|j: int| 0 <= j < i ==> l@[j] != '⧼',
        decreases l.len() - i,
    {
        if l[i] == '⧼' {
            assert(l@[i as int] == '⧼');
            return true;
        }
        i += 1;
    }
    false
}

/// The first line from line `i` on that holds `⧼`.
fn first_marked_of(ls: &Vec<Vec<char>>, i: usize) -> (r: Option<usize>)
    ensures
        match r {
            Some(k) => first_marked(ls@.map_values(|l: Vec<char>| l@), i as int) == Some(k as int),
            None => first_marked(ls@.map_values(|l: Vec<char>| l@), i as int) is None,
        },
{
    let ghost lv = ls@.map_values(|l: Vec<char>| l@);
    let mut k: usize = i;
    while k < ls.len()
        invariant
            i <= k,
            lv == ls@.map_values(|l: Vec<char>| l@),
            first_marked(lv, i as int) == first_marked(lv, k as int),
        decreases ls.len() - k,
    {
        assert(lv[k as int] == ls@[k as int]@);
        if marked(&ls[k]) {
            return Some(k);
        }
        k += 1;
    }
    None
}

/// A copy of the functions around, field by field.
fn clone_parents(v: &Vec<UMPLParentFunction>) -> (r: Vec<UMPLParentFunction>)
    ensures
        parent_views(r@) == parent_views(v@),
{
    let mut r: Vec<UMPLParentFunction> = Vec::new();
    let mut i: usize = 0;
    while i < v.len()
        invariant
            i <= v.len(),
            r@.len() == i,
            parent_views(r@) == parent_views(v@).take(i as int),
        decreases v.len() - i,
    {
        let ghost old_r = r@;
        let p = UMPLParentFunction {
            lines: v[i].lines,
            name: clone_string(&v[i].name),
            top: clone_string(&v[i].top),
            bottom: clone_string(&v[i].bottom),
            args_count: v[i].args_count,
        };
        assert(parent_view(p) == parent_view(v@[i as int]));
        r.push(p);
        assert forall|j: int| 0 <= j < i + 1 implies #[trigger] parent_views(r@)[j] == parent_views(v@).take(i + 1)[j] by {
            if j < i {
                assert(parent_views(old_r)[j] == parent_views(v@).take(i as int)[j]);
                assert(r@[j] == old_r[j]);
            }
        }
        assert(parent_views(r@) =~= parent_views(v@).take(i + 1));
        i += 1;
    }
    assert(parent_views(v@).take(v@.len() as int) =~= parent_views(v@));
    r
}

/// A node of well-numbered nodes is well numbered.
proof fn lemma_lines_fit_elem(ast: Seq<UmplThing>, total: nat, i: int)
    requires
        lines_fit(ast, total),
        0 <= i < ast.len(),
    ensures
        node_fits(ast[i], total),
    decreases ast.len(),
{
    if i + 1 < ast.len() {
        lemma_lines_fit_elem(ast.drop_last(), total, i);
    }
}

/// Lines asked for past the end are not there.
proof fn lemma_lines_text_cap(ls: Seq<Seq<char>>, a: int, b: int)
    requires
        b >= ls.len(),
    ensures
        lines_text(ls, a, b) == lines_text(ls, a, ls.len() as int),
    decreases ls.len() - a,
{
    if !(a < 0 || a >= ls.len()) {
        lemma_lines_text_cap(ls, a + 1, b);
    }
}

/// One line is no longer than all the lines.
proof fn lemma_line_le_total(ls: Seq<Seq<char>>, k: int)
    requires
        0 <= k < ls.len(),
    ensures
        ls[k].len() <= lines_text(ls, 0, ls.len() as int).len(),
{
    lemma_lines_text_suffix(ls, k);
}

/// Appends copies of found functions.
fn append_found(results: &mut Vec<UMPLFunction>, found: &Vec<UMPLFunction>)
    ensures
        found_views(final(results)@) == found_views(old(results)@) + found_views(found@),
{
    let ghost before = found_views(results@);
    let ghost fv = found_views(found@);
    let mut k: usize = 0;
    while k < found.len()
        invariant
            k <= found@.len(),
            fv == found_views(found@),
            found_views(results@) == before + fv.take(k as int),
        decreases found@.len() - k,
    {
        let ghost prev = results@;
        let copy = duplicate_found(&found[k]);
        results.push(copy);
        assert(found_views(results@) =~= before + fv.take(k + 1)) by {
            assert(found_views(results@) =~= found_views(prev).push(found_view(copy)));
        }
        k += 1;
    }
    assert(fv.take(found@.len() as int) =~= fv);
}

/// Searches the nodes for the functions called `name`, with `cur` the
/// functions around them.
fn search(
    name: &str,
    ls: &Vec<Vec<char>>,
    ast: &Vec<UmplThing>,
    cur: &Vec<UMPLParentFunction>,
    Ghost(total): Ghost<nat>,
) -> (r: Vec<UMPLFunction>)
    requires
        lines_fit(ast@, total),
        total == lines_text(ls@.map_values(|l: Vec<char>| l@), 0, ls@.len() as int).len(),
    ensures
        found_views(r@) == umpl_search(name@, ls@.map_values(|l: Vec<char>| l@), ast@, parent_views(cur@)),
    decreases ast@,
{
    let ghost lv = ls@.map_values(|l: Vec<char>| l@);
    let ghost pv = parent_views(cur@);
    let mut results: Vec<UMPLFunction> = Vec::new();
    let mut i: usize = 0;
    assert(ast@.take(0) =~= seq![]);
    assert(found_views(results@) =~= seq![]);
    while i < ast.len()
        invariant
            i <= ast@.len(),
            lv == ls@.map_values(|l: Vec<char>| l@),
            pv == parent_views(cur@),
            lines_fit(ast@, total),
            total == lines_text(lv, 0, lv.len() as int).len(),
            found_views(results@) == umpl_search(name@, lv, ast@.take(i as int), pv),
        decreases ast@.len() - i,
    {
        proof {
            lemma_lines_fit_elem(ast@, total, i as int);
            assert(ast@.take(i + 1).drop_last() =~= ast@.take(i as int));
            assert(ast@.take(i + 1).last() == ast@[i as int]);
        }
        let found = search_node(name, ls, &ast[i], cur, Ghost(total));
        append_found(&mut results, &found);
        i += 1;
    }
    assert(ast@.take(ast@.len() as int) =~= ast@);
    results
}

/// Searches one node for the functions called `name`, with `cur` the
/// functions around it.
fn search_node(
    name: &str,
    ls: &Vec<Vec<char>>,
    t: &UmplThing,
    cur: &Vec<UMPLParentFunction>,
    Ghost(total): Ghost<nat>,
) -> (r: Vec<UMPLFunction>)
    requires
        node_fits(*t, total),
        total == lines_text(ls@.map_values(|l: Vec<char>| l@), 0, ls@.len() as int).len(),
    ensures
        found_views(r@) == node_search(name@, ls@.map_values(|l: Vec<char>| l@), *t, parent_views(cur@)),
    decreases *t,
{
    let ghost lv = ls@.map_values(|l: Vec<char>| l@);
    let ghost pv = parent_views(cur@);
    match t {
        UmplThing::Function(f) => {
            let nv = str_chars(name);
            let matching = nv.len() == 1 && nv[0] == f.name;
            assert(matching == (seq![f.name] == name@)) by {
                if nv@.len() == 1 {
                    assert(nv@ =~= seq![nv@[0]]);
                }
            }
            if matching {
                let body = lines_text_of(ls, f.line - 1, f.end_line);
                proof {
                    lemma_lines_len(seq![], body@);
                    lemma_lines_text_le(lv, f.line - 1, f.end_line as int);
                    lemma_lines_text_suffix(lv, f.line - 1);
                }
                let numbered = make_lined(body.as_str(), f.line);
                let mut one: Vec<UMPLFunction> = Vec::new();
                let found_fn = UMPLFunction {
                    lines: (f.line, f.end_line),
                    name: chars_to_string(nv.as_slice()),
                    body: numbered,
                    args_count: f.num_arguments,
                    parents: clone_parents(cur),
                };
                one.push(found_fn);
                assert(found_views(one@) =~= seq![found_view(found_fn)]);
                assert(found_view(found_fn).name == seq![f.name]);
                assert(found_view(found_fn).body == lined(lines_text(lv, f.line - 1, f.end_line as int), f.line as nat));
                assert(found_view(found_fn).parents == pv);
                assert(found_views(one@) == node_search(name@, lv, *t, pv));
                one
            } else if f.end_line - 1 >= ls.len() {
                search(name, ls, &f.body, cur, Ghost(total))
            } else {
                let line = chars_to_string(ls[f.end_line - 1].as_slice());
                assert(line@ == lv[f.end_line - 1]);
                proof {
                    lemma_lines_len(seq![], line@);
                    lemma_line_le_total(lv, f.end_line - 1);
                }
                let bottom = make_lined(line.as_str(), f.end_line);
                let end = match first_marked_of(ls, f.line - 1) {
                    Some(k) => Some(k),
                    None => if f.body.len() > 0 {
                        Some(
                            match &f.body[0] {
                                UmplThing::Function(g) => g.line,
                                UmplThing::IfStatement(_, _, l) => *l,
                                UmplThing::LoopStatement(_, l) => *l,
                                UmplThing::Other(l) => *l,
                            },
                        )
                    } else {
                        None
                    },
                };
                assert(match end {
                    Some(k) => top_end(lv, *f) == Some(k as int),
                    None => top_end(lv, *f) is None,
                });
                match end {
                    None => search(name, ls, &f.body, cur, Ghost(total)),
                    Some(e) => {
                        let stop = if e < ls.len() {
                            e + 1
                        } else {
                            ls.len()
                        };
                        proof {
                            if e >= ls.len() {
                                lemma_lines_text_cap(lv, f.line - 1, e + 1);
                                lemma_lines_text_cap(lv, f.line - 1, stop as int);
                            }
                        }
                        let top = lines_text_of(ls, f.line - 1, stop);
                        proof {
                            lemma_lines_len(seq![], top@);
                            lemma_lines_text_le(lv, f.line - 1, stop as int);
                            lemma_lines_text_suffix(lv, f.line - 1);
                        }
                        let top_numbered = make_lined(top.as_str(), f.line);
                        let mut next_cur = clone_parents(cur);
                        let mut own_name = String::new();
                        crate::text::push_char(&mut own_name, f.name);
                        assert(own_name@ =~= seq![f.name]);
                        let parent = UMPLParentFunction {
                            lines: (f.line, f.end_line),
                            name: own_name,
                            top: top_numbered,
                            bottom,
                            args_count: f.num_arguments,
                        };
                        next_cur.push(parent);
                        assert(parent_views(next_cur@) =~= pv.push(parent_view(parent)));
                        assert(parent_view(parent).top == lined(lines_text(lv, f.line - 1, e + 1), f.line as nat));
                        assert(parent_view(parent).bottom == lined(lv[f.end_line - 1], f.end_line as nat));
                        assert(parent_view(parent).name == seq![f.name]);
                        let r = search(name, ls, &f.body, &next_cur, Ghost(total));
                        assert(found_views(r@) == node_search(name@, lv, *t, pv));
                        r
                    },
                }
            }
        },
        UmplThing::IfStatement(a, b, _) => {
            let mut r = search(name, ls, a, cur, Ghost(total));
            let other = search(name, ls, b, cur, Ghost(total));
            append_found(&mut r, &other);
            r
        },
        UmplThing::LoopStatement(b, _) => search(name, ls, b, cur, Ghost(total)),
        UmplThing::Other(_) => {
            let r: Vec<UMPLFunction> = Vec::new();
            assert(found_views(r@) =~= seq![]);
            r
        },
    }
}

/// A copy of a found function, field by field.
fn duplicate_found(f: &UMPLFunction) -> (r: UMPLFunction)
    ensures
        found_view(r) == found_view(*f),
{
    UMPLFunction {
        lines: f.lines,
        name: clone_string(&f.name),
        body: clone_string(&f.body),
        args_count: f.args_count,
        parents: clone_parents(&f.parents),
    }
}

/// The numbered lines of a whole file, each followed by a newline.
pub open spec fn file_lines(file: Seq<char>) -> Seq<Seq<char>> {
    lines(file)
}

/// Finds the functions called `name` in the syntax tree of a UMPL file:
/// an error when there is none.
pub fn find_function_in_file(file_contents: &str, name: &str, ast: &Vec<UmplThing>) -> (r: Result<
    Vec<UMPLFunction>,
    String,
>)
    requires
        lines_fit(ast@, lines_text(lines(file_contents@), 0, lines(file_contents@).len() as int).len()),
    ensures
        match r {
            Ok(v) => found_views(v@) == umpl_search(name@, lines(file_contents@), ast@, seq![]) && v@.len() > 0,
            Err(e) => e@ == "Function not found"@ && umpl_search(name@, lines(file_contents@), ast@, seq![]).len() == 0,
        },
{
    let chars = str_chars(file_contents);
    let ls = lines_of(&chars);
    let ghost lv = ls@.map_values(|l: Vec<char>| l@);
    assert(lv =~= lines(file_contents@));
    let none: Vec<UMPLParentFunction> = Vec::new();
    assert(parent_views(none@) =~= seq![]);
    let res = search(name, &ls, ast, &none, Ghost(lines_text(lv, 0, lv.len() as int).len()));
    if res.len() > 0 {
        return Ok(res);
    }
    Err(string_of("Function not found"))
}

} // verus!
