//! The first model of what a lookup finds: functions with the blocks and
//! functions around them, the files they are in and the commits of those
//! files, and how they are shown one after the other.
use vstd::prelude::*;

use crate::languages::rust::BlockType;
use crate::languages::str_eq;
use crate::text::{clone_string, contains_seq, ends_with, push_str, str_contains, str_ends_with, string_of};
use crate::types::{
    date_text, date_to_rfc2822, direction, move_direction, parse_date, rfc2822_parse, CommitDate, Directions,
};

verus! {

/// A function around the function that was looked up.
pub struct FunctionBlock {
    /// its name
    pub name: String,
    /// its first line
    pub top: String,
    /// its last line
    pub bottom: String,
    /// its first and last line numbers
    pub lines: (usize, usize),
}

/// The impl, trait or extern block a function is in.
pub struct Block {
    /// its name, if it has one
    pub name: Option<String>,
    /// its first line
    pub top: String,
    /// its last line
    pub bottom: String,
    /// what kind of block it is
    pub block_type: BlockType,
    /// its first and last line numbers
    pub lines: (usize, usize),
}

/// A function that was found in one commit.
pub struct Function {
    /// its name
    pub name: String,
    /// its code
    pub contents: String,
    /// the block it is in
    pub block: Option<Block>,
    /// the functions it is nested in, outermost first
    pub function: Option<Vec<FunctionBlock>>,
    /// its first and last line numbers
    pub lines: (usize, usize),
}

/// The separator between the parts of what is shown.
pub open spec fn dots() -> Seq<char> {
    "\n...\n"@
}

/// The line numbers of the functions around a function, if it has any.
pub open spec fn parent_lines(f: Option<Function>) -> Seq<(usize, usize)> {
    match f {
        Some(g) => match g.function {
            Some(ps) => Seq::new(ps@.len(), |i: int| ps@[i].lines),
            None => seq![],
        },
        None => seq![],
    }
}

/// The function a neighbour refers to, if any.
pub open spec fn owned(o: Option<&Function>) -> Option<Function> {
    match o {
        Some(f) => Some(*f),
        None => None,
    }
}

/// Whether the neighbour is in a block with the same lines.
pub open spec fn same_block(b: Block, other: Option<Function>) -> bool {
    other matches Some(g) && g.block matches Some(ob) && ob.lines == b.lines
}

/// The first lines of the functions around, each followed by `...`, leaving
/// out those whose lines are in `skip`.
pub open spec fn tops_shown(ps: Seq<FunctionBlock>, skip: Seq<(usize, usize)>) -> Seq<char>
    decreases ps.len(),
{
    if ps.len() == 0 {
        seq![]
    } else {
        tops_shown(ps.drop_last(), skip) + if skip.contains(ps.last().lines) {
            seq![]
        } else {
            ps.last().top@ + dots()
        }
    }
}

/// The last lines of the functions around, innermost first, each after
/// `...`, leaving out those whose lines are in `skip`.
pub open spec fn bottoms_shown(ps: Seq<FunctionBlock>, skip: Seq<(usize, usize)>) -> Seq<char>
    decreases ps.len(),
{
    if ps.len() == 0 {
        seq![]
    } else {
        (if skip.contains(ps.last().lines) {
            seq![]
        } else {
            dots() + ps.last().bottom@
        }) + bottoms_shown(ps.drop_last(), skip)
    }
}

/// How a function is shown between the one before and the one after: the
/// first lines of its block and of the functions around it that the one
/// before does not already show, its code, and the last lines that the one
/// after does not show.
pub open spec fn shown_with_context(f: Function, previous: Option<Function>, next: Option<Function>) -> Seq<char> {
    let block_top = match f.block {
        Some(b) => if same_block(b, previous) {
            seq![]
        } else {
            b.top@ + dots()
        },
        None => seq![],
    };
    let parent_tops = match f.function {
        Some(ps) => tops_shown(ps@, parent_lines(previous)),
        None => seq![],
    };
    let parent_bottoms = match f.function {
        Some(ps) => bottoms_shown(ps@, parent_lines(next)),
        None => seq![],
    };
    let block_bottom = match f.block {
        Some(b) => if same_block(b, next) {
            seq![]
        } else {
            "\n..."@ + b.bottom@
        },
        None => seq![],
    };
    block_top + parent_tops + f.contents@ + parent_bottoms + block_bottom
}

/// Whether a pair of line numbers is among the line numbers of the blocks.
fn has_lines(ps: &Vec<FunctionBlock>, lines: (usize, usize)) -> (r: bool)
    ensures
        r == Seq::new(ps@.len(), |i: int| ps@[i].lines).contains(lines),
{
    let ghost ls = Seq::new(ps@.len(), |i: int| ps@[i].lines);
    let mut i: usize = 0;
    while i < ps.len()
        invariant
            i <= ps.len(),
            ls == Seq::new(ps@.len(), |i: int| ps@[i].lines),
            forall|j: int| 0 <= j < i ==> ls[j] != lines,
        decreases ps.len() - i,
    {
        if ps[i].lines.0 == lines.0 && ps[i].lines.1 == lines.1 {
            assert(ls[i as int] == lines);
            return true;
        }
        i += 1;
    }
    false
}

/// The line numbers of the functions around a neighbour, if any.
fn neighbour_has(other: Option<&Function>, lines: (usize, usize)) -> (r: bool)
    ensures
        r == parent_lines(owned(other)).contains(lines),
{
    match other {
        Some(g) => match &g.function {
            Some(ps) => has_lines(ps, lines),
            None => false,
        },
        None => false,
    }
}

/// Whether a neighbour is in a block with the same lines (executable).
fn neighbour_same_block(b: &Block, other: Option<&Function>) -> (r: bool)
    ensures
        r == same_block(*b, owned(other)),
{
    match other {
        Some(g) => match &g.block {
            Some(ob) => ob.lines.0 == b.lines.0 && ob.lines.1 == b.lines.1,
            None => false,
        },
        None => false,
    }
}

impl Function {
    /// This is a formater almost like the fmt you use fro println!, but it takes a previous and next function.
    /// This is usefull for printing `CommitHistory` or a vector of functions, because if you use plain old fmt, you can get repeated lines impls, and parent function in your output.
    pub fn fmt_with_context(&self, previous: Option<&Function>, next: Option<&Function>) -> (r: String)
        ensures
            r@ == shown_with_context(*self, owned(previous), owned(next)),
    {
        let mut s = String::new();
        if let Some(b) = &self.block {
            if !neighbour_same_block(b, previous) {
                push_str(&mut s, b.top.as_str());
                push_str(&mut s, "\n...\n");
            }
        }
        let ghost after_block = s@;
        if let Some(ps) = &self.function {
            let mut i: usize = 0;
            while i < ps.len()
                invariant
                    i <= ps.len(),
                    s@ == after_block + tops_shown(ps@.take(i as int), parent_lines(owned(previous))),
                decreases ps.len() - i,
            {
                assert(ps@.take(i + 1).drop_last() =~= ps@.take(i as int));
                if !neighbour_has(previous, ps[i].lines) {
                    push_str(&mut s, ps[i].top.as_str());
                    push_str(&mut s, "\n...\n");
                }
                i += 1;
            }
            assert(ps@.take(ps@.len() as int) =~= ps@);
        }
        let ghost after_tops = s@;
        push_str(&mut s, self.contents.as_str());
        let ghost after_contents = s@;
        if let Some(ps) = &self.function {
            let mut i: usize = ps.len();
            assert(ps@.take(ps@.len() as int) =~= ps@);
            while i > 0
                invariant
                    i <= ps.len(),
                    s@ + bottoms_shown(ps@.take(i as int), parent_lines(owned(next))) == after_contents
                        + bottoms_shown(ps@, parent_lines(owned(next))),
                decreases i,
            {
                let ghost before = s@;
                assert(ps@.take(i as int).drop_last() =~= ps@.take(i - 1));
                if !neighbour_has(next, ps[i - 1].lines) {
                    push_str(&mut s, "\n...\n");
                    push_str(&mut s, ps[i - 1].bottom.as_str());
                    proof {
                        reveal_strlit("\n...\n");
                    }
                }
                assert(s@ + bottoms_shown(ps@.take(i - 1), parent_lines(owned(next))) =~= before + bottoms_shown(
                    ps@.take(i as int),
                    parent_lines(owned(next)),
                ));
                i -= 1;
            }
            assert(s@ + bottoms_shown(ps@.take(0), parent_lines(owned(next))) =~= s@);
        }
        if let Some(b) = &self.block {
            if !neighbour_same_block(b, next) {
                push_str(&mut s, "\n...");
                push_str(&mut s, b.bottom.as_str());
            }
        }
        s
    }
}

/// The last lines of the functions around, outermost first, each after
/// `...`.
pub open spec fn bottoms_in_order(ps: Seq<FunctionBlock>) -> Seq<char>
    decreases ps.len(),
{
    if ps.len() == 0 {
        seq![]
    } else {
        bottoms_in_order(ps.drop_last()) + dots() + ps.last().bottom@
    }
}

/// How a function is shown on its own: the first lines of its block and of
/// the functions around it, its code, then their last lines.
pub open spec fn function_shown(f: Function) -> Seq<char> {
    (match f.block {
        Some(b) => b.top@ + dots(),
        None => seq![],
    }) + (match f.function {
        Some(ps) => tops_shown(ps@, seq![]),
        None => seq![],
    }) + f.contents@ + (match f.function {
        Some(ps) => bottoms_in_order(ps@),
        None => seq![],
    }) + (match f.block {
        Some(b) => "\n..."@ + b.bottom@,
        None => seq![],
    })
}

impl Function {
    /// How the function is shown on its own.
    pub fn to_string(&self) -> (r: String)
        ensures
            r@ == function_shown(*self),
    {
        let mut s = String::new();
        if let Some(b) = &self.block {
            push_str(&mut s, b.top.as_str());
            push_str(&mut s, "\n...\n");
        }
        let ghost after_block = s@;
        if let Some(ps) = &self.function {
            let mut i: usize = 0;
            while i < ps.len()
                invariant
                    i <= ps.len(),
                    s@ == after_block + tops_shown(ps@.take(i as int), seq![]),
                decreases ps.len() - i,
            {
                assert(ps@.take(i + 1).drop_last() =~= ps@.take(i as int));
                push_str(&mut s, ps[i].top.as_str());
                push_str(&mut s, "\n...\n");
                i += 1;
            }
            assert(ps@.take(ps@.len() as int) =~= ps@);
        }
        push_str(&mut s, self.contents.as_str());
        let ghost after_contents = s@;
        if let Some(ps) = &self.function {
            let mut i: usize = 0;
            while i < ps.len()
                invariant
                    i <= ps.len(),
                    s@ == after_contents + bottoms_in_order(ps@.take(i as int)),
                decreases ps.len() - i,
            {
                assert(ps@.take(i + 1).drop_last() =~= ps@.take(i as int));
                push_str(&mut s, "\n...\n");
                push_str(&mut s, ps[i].bottom.as_str());
                i += 1;
            }
            assert(ps@.take(ps@.len() as int) =~= ps@);
        }
        if let Some(b) = &self.block {
            push_str(&mut s, "\n...");
            push_str(&mut s, b.bottom.as_str());
        }
        s
    }

    /// A copy of the function, field by field.
    pub fn duplicate(&self) -> (r: Function)
        ensures
            same_function(r, *self),
    {
        let block = match &self.block {
            Some(b) => Some(Block {
                name: match &b.name {
                    Some(n) => Some(clone_string(n)),
                    None => None,
                },
                top: clone_string(&b.top),
                bottom: clone_string(&b.bottom),
                block_type: b.block_type,
                lines: b.lines,
            }),
            None => None,
        };
        let function = match &self.function {
            Some(ps) => {
                let mut v: Vec<FunctionBlock> = Vec::new();
                let mut i: usize = 0;
                while i < ps.len()
                    invariant
                        i <= ps.len(),
                        v@.len() == i,
                        forall|j: int| 0 <= j < i ==> same_parent(#[trigger] v@[j], ps@[j]),
                    decreases ps.len() - i,
                {
                    v.push(FunctionBlock {
                        name: clone_string(&ps[i].name),
                        top: clone_string(&ps[i].top),
                        bottom: clone_string(&ps[i].bottom),
                        lines: ps[i].lines,
                    });
                    i += 1;
                }
                Some(v)
            },
            None => None,
        };
        Function {
            name: clone_string(&self.name),
            contents: clone_string(&self.contents),
            block,
            function,
            lines: self.lines,
        }
    }
}

/// Whether two functions around a function are the same, text by text.
pub open spec fn same_parent(a: FunctionBlock, b: FunctionBlock) -> bool {
    a.name@ == b.name@ && a.top@ == b.top@ && a.bottom@ == b.bottom@ && a.lines == b.lines
}

/// Whether two functions are the same, text by text.
pub open spec fn same_function(a: Function, b: Function) -> bool {
    &&& a.name@ == b.name@
    &&& a.contents@ == b.contents@
    &&& a.lines == b.lines
    &&& match (a.block, b.block) {
        (Some(x), Some(y)) => x.top@ == y.top@ && x.bottom@ == y.bottom@ && x.block_type == y.block_type
            && x.lines == y.lines && match (x.name, y.name) {
            (Some(m), Some(n)) => m@ == n@,
            (None, None) => true,
            _ => false,
        },
        (None, None) => true,
        _ => false,
    }
    &&& match (a.function, b.function) {
        (Some(p), Some(q)) => p@.len() == q@.len() && forall|j: int|
            0 <= j < p@.len() ==> same_parent(#[trigger] p@[j], q@[j]),
        (None, None) => true,
        _ => false,
    }
}

/// The filters over the functions of a file or a commit, and over the
/// commits of a history.
pub enum Filter {
    /// functions in a block of this kind
    FunctionInBlock(BlockType),
    /// functions within these lines
    FunctionInLines(usize, usize),
    /// functions nested in a function of this name
    FunctionWithParent(String),
    /// files with this exact path
    FileAbsolute(String),
    /// files whose path ends with this
    FileRelative(String),
    /// files whose path holds this
    Directory(String),
    /// the commit with this hash
    CommitId(String),
    /// the commits of this date
    Date(String),
    /// the commits between two dates
    DateRange(String, String),
    /// nothing
    NoFilter,
}

/// Whether a function is kept by a filter over functions.
pub open spec fn function_kept(filter: Filter, f: Function) -> bool {
    match filter {
        Filter::FunctionInBlock(t) => f.block matches Some(b) && b.block_type == t,
        Filter::FunctionInLines(start, end) => f.lines.0 >= start && f.lines.1 <= end,
        Filter::FunctionWithParent(p) => f.function matches Some(ps) && exists|j: int|
            0 <= j < ps@.len() && (#[trigger] ps@[j]).name@ == p@,
        _ => false,
    }
}

/// Whether a filter looks at the functions.
pub open spec fn is_function_filter(filter: Filter) -> bool {
    filter is FunctionInBlock || filter is FunctionInLines || filter is FunctionWithParent
}

/// Whether a function is kept by a filter (executable).
#[verifier::loop_isolation(false)]
fn keeps_function(filter: &Filter, f: &Function) -> (r: bool)
    ensures
        r == function_kept(*filter, *f),
{
    match filter {
        Filter::FunctionInBlock(t) => match &f.block {
            Some(b) => b.block_type == *t,
            None => false,
        },
        Filter::FunctionInLines(start, end) => f.lines.0 >= *start && f.lines.1 <= *end,
        Filter::FunctionWithParent(p) => match &f.function {
            Some(ps) => {
                let mut i: usize = 0;
                while i < ps.len()
                    invariant
                        i <= ps.len(),
                        forall|j: int| 0 <= j < i ==> (#[trigger] ps@[j]).name@ != p@,
                    decreases ps.len() - i,
                {
                    if str_eq(ps[i].name.as_str(), p.as_str()) {
                        assert(ps@[i as int].name@ == p@);
                        return true;
                    }
                    i += 1;
                }
                false
            },
            None => false,
        },
        _ => false,
    }
}

/// The neighbour before function `i`, if any.
pub open spec fn before(fs: Seq<Function>, i: int) -> Option<Function> {
    if i > 0 {
        Some(fs[i - 1])
    } else {
        None
    }
}

/// The neighbour after function `i`, if any.
pub open spec fn after(fs: Seq<Function>, i: int) -> Option<Function> {
    if i + 1 < fs.len() {
        Some(fs[i + 1])
    } else {
        None
    }
}

/// The first `n` functions of a file shown one after the other, each with
/// its neighbours as context, separated by `...`.
pub open spec fn functions_shown(fs: Seq<Function>, n: int) -> Seq<char>
    decreases n,
{
    if n <= 0 {
        seq![]
    } else {
        functions_shown(fs, n - 1) + (if n - 1 == 0 {
            seq![]
        } else {
            dots()
        }) + shown_with_context(fs[n - 1], before(fs, n - 1), after(fs, n - 1))
    }
}

/// Whether `out` is the functions of `src` that the filter keeps, in order:
/// `m` gives the position in `src` of each.
pub open spec fn kept_selection(src: Seq<Function>, out: Seq<Function>, filter: Filter, m: Seq<int>) -> bool {
    &&& m.len() == out.len()
    &&& (forall|j: int| 0 <= j < m.len() ==> 0 <= #[trigger] m[j] < src.len())
    &&& (forall|j: int, k: int| 0 <= j < k < m.len() ==> m[j] < m[k])
    &&& (forall|j: int| 0 <= j < m.len() ==> same_function(#[trigger] out[j], src[m[j]]))
    &&& (forall|k: int| 0 <= k < src.len() && function_kept(filter, #[trigger] src[k]) ==> m.contains(k))
    &&& (forall|j: int| 0 <= j < m.len() ==> function_kept(filter, src[#[trigger] m[j]]))
}

/// What filtering the functions of a file gives: an error for a filter that
/// does not look at functions; else the file with the functions the filter
/// keeps, in order, or an error when it keeps none.
pub open spec fn file_filter_gives(f: File, filter: Filter, r: Result<File, String>) -> bool {
    &&& !is_function_filter(filter) ==> (r matches Err(e) && e@ == "Filter not available"@)
    &&& is_function_filter(filter) ==> match r {
        Ok(g) => {
            &&& g.name@ == f.name@
            &&& g.functions@.len() > 0
            &&& exists|m: Seq<int>| #[trigger] kept_selection(f.functions@, g.functions@, filter, m)
        },
        Err(e) => e@ == "No functions found for filter"@ && forall|k: int|
            0 <= k < f.functions@.len() ==> !function_kept(filter, #[trigger] f.functions@[k]),
    }
}

/// Whether a function is nested, at any depth, in a function called `p`.
pub open spec fn nested_in(fun: Function, p: Seq<char>) -> bool {
    match fun.function {
        Some(ps) => exists|j: int| 0 <= j < ps@.len() && (#[trigger] ps@[j]).name@ == p,
        None => false,
    }
}

/// Whether `out` is, in order, copies of the functions of `src` nested in
/// a function called `p`, and of all of them: `m` gives the position in
/// `src` of each.
pub open spec fn nested_selection(src: Seq<Function>, out: Seq<Function>, p: Seq<char>, m: Seq<int>) -> bool {
    &&& m.len() == out.len()
    &&& forall|i: int| 0 <= i < m.len() ==> 0 <= #[trigger] m[i] < src.len()
    &&& forall|i: int, j: int| 0 <= i < j < m.len() ==> m[i] < m[j]
    &&& forall|i: int| 0 <= i < m.len() ==> same_function(#[trigger] out[i], src[m[i]]) && nested_in(src[m[i]], p)
    &&& forall|k: int| 0 <= k < src.len() && nested_in(#[trigger] src[k], p) ==> m.contains(k)
}

/// Filtering a file by a parent function keeps exactly the functions that
/// are nested, at any depth, in a function of that name, in order; it fails
/// exactly when there is none.
pub proof fn law_parent_filter(f: File, p: String, r: Result<File, String>)
    requires
        file_filter_gives(f, Filter::FunctionWithParent(p), r),
    ensures
        r is Ok <==> exists|k: int| 0 <= k < f.functions@.len() && nested_in(#[trigger] f.functions@[k], p@),
        r matches Ok(g) ==> exists|m: Seq<int>| #[trigger] nested_selection(f.functions@, g.functions@, p@, m),
{
    let flt = Filter::FunctionWithParent(p);
    assert forall|k: int| 0 <= k < f.functions@.len() implies function_kept(flt, #[trigger] f.functions@[k])
        == nested_in(f.functions@[k], p@) by {
        let fun = f.functions@[k];
        match fun.function {
            Some(ps) => {
                if nested_in(fun, p@) {
                    let j = choose|j: int| 0 <= j < ps@.len() && (#[trigger] ps@[j]).name@ == p@;
                    assert(ps@[j].name@ == p@);
                }
            },
            None => {},
        }
    }
    match r {
        Ok(g) => {
            let m = choose|m: Seq<int>| #[trigger] kept_selection(f.functions@, g.functions@, flt, m);
            assert(g.functions@.len() > 0);
            assert(function_kept(flt, f.functions@[m[0]]));
            assert(nested_in(f.functions@[m[0]], p@));
            assert(nested_selection(f.functions@, g.functions@, p@, m));
        },
        Err(e) => {},
    }
}

/// Whether a function lies in a block of the given type, within the given
/// lines, or nested in a function of the given name, as a filter over
/// functions asks.
pub open spec fn fits_function_filter(filter: Filter, fun: Function) -> bool {
    match filter {
        Filter::FunctionInBlock(t) => match fun.block {
            Some(b) => b.block_type == t,
            None => false,
        },
        Filter::FunctionInLines(a, b) => a <= fun.lines.0 && fun.lines.1 <= b,
        Filter::FunctionWithParent(p) => nested_in(fun, p@),
        _ => false,
    }
}

/// A filter over functions keeps exactly the functions that fit it.
proof fn lemma_kept_is_fit(fs: Seq<Function>, filter: Filter)
    ensures
        forall|k: int| 0 <= k < fs.len() ==> function_kept(filter, #[trigger] fs[k]) == fits_function_filter(filter, fs[k]),
{
    assert forall|k: int| 0 <= k < fs.len() implies function_kept(filter, #[trigger] fs[k]) == fits_function_filter(
        filter,
        fs[k],
    ) by {
        let fun = fs[k];
        if let Filter::FunctionWithParent(p) = filter {
            match fun.function {
                Some(ps) => {
                    if nested_in(fun, p@) {
                        let j = choose|j: int| 0 <= j < ps@.len() && (#[trigger] ps@[j]).name@ == p@;
                        assert(ps@[j].name@ == p@);
                    }
                },
                None => {},
            }
        }
    }
}

/// Whether `out` is, in order, copies of the functions of `src` that fit a
/// filter, and of all of them: `m` gives the position in `src` of each.
pub open spec fn fitting_selection(src: Seq<Function>, out: Seq<Function>, filter: Filter, m: Seq<int>) -> bool {
    &&& m.len() == out.len()
    &&& forall|i: int| 0 <= i < m.len() ==> 0 <= #[trigger] m[i] < src.len()
    &&& forall|i: int, j: int| 0 <= i < j < m.len() ==> m[i] < m[j]
    &&& forall|i: int| 0 <= i < m.len() ==> same_function(#[trigger] out[i], src[m[i]])
    &&& forall|i: int| 0 <= i < m.len() ==> fits_function_filter(filter, src[#[trigger] m[i]])
    &&& forall|k: int| 0 <= k < src.len() && fits_function_filter(filter, #[trigger] src[k]) ==> m.contains(k)
}

/// Filtering the functions of a file by block, lines or parent keeps
/// copies of exactly the functions that fit the filter, in order, and
/// fails exactly when none does.
pub proof fn law_function_filters_fit(f: File, filter: Filter, r: Result<File, String>)
    requires
        is_function_filter(filter),
        file_filter_gives(f, filter, r),
    ensures
        r is Ok <==> exists|k: int| 0 <= k < f.functions@.len() && fits_function_filter(filter, #[trigger] f.functions@[k]),
        r matches Ok(g) ==> exists|m: Seq<int>| #[trigger] fitting_selection(f.functions@, g.functions@, filter, m),
{
    lemma_kept_is_fit(f.functions@, filter);
    match r {
        Ok(g) => {
            let m = choose|m: Seq<int>| #[trigger] kept_selection(f.functions@, g.functions@, filter, m);
            assert(function_kept(filter, f.functions@[m[0]]));
            assert(fitting_selection(f.functions@, g.functions@, filter, m));
        },
        Err(_) => {},
    }
}

/// A file of a commit and the functions found in it.
pub struct File {
    /// the path of the file
    pub name: String,
    /// the functions found in it
    pub functions: Vec<Function>,
    /// the position of the next function handed out
    pub current_pos: usize,
}

impl File {
    /// A file with the functions found in it.
    pub fn new(name: String, functions: Vec<Function>) -> (r: Self)
        ensures
            r.name == name,
            r.functions == functions,
            r.current_pos == 0,
    {
        File { name, functions, current_pos: 0 }
    }

    /// The functions of the file that a filter keeps: an error when the
    /// filter does not look at functions, or keeps none of them.
    pub fn filter_by(&self, filter: &Filter) -> (r: Result<Self, String>)
        ensures
            file_filter_gives(*self, *filter, r),
    {
        let is_function = match filter {
            Filter::FunctionInBlock(_) | Filter::FunctionInLines(_, _) | Filter::FunctionWithParent(_) => true,
            _ => false,
        };
        if !is_function {
            return Err(string_of("Filter not available"));
        }
        let mut kept: Vec<Function> = Vec::new();
        let ghost mut m: Seq<int> = seq![];
        let mut i: usize = 0;
        while i < self.functions.len()
            invariant
                i <= self.functions@.len(),
                m.len() == kept@.len(),
                forall|j: int| 0 <= j < m.len() ==> 0 <= #[trigger] m[j] < i,
                forall|j: int, k: int| 0 <= j < k < m.len() ==> m[j] < m[k],
                forall|j: int| 0 <= j < m.len() ==> same_function(#[trigger] kept@[j], self.functions@[m[j]]),
                forall|k: int| 0 <= k < i && function_kept(*filter, #[trigger] self.functions@[k]) ==> m.contains(k),
                forall|j: int| 0 <= j < m.len() ==> function_kept(*filter, self.functions@[#[trigger] m[j]]),
            decreases self.functions@.len() - i,
        {
            if keeps_function(filter, &self.functions[i]) {
                kept.push(self.functions[i].duplicate());
                proof {
                    let old_m = m;
                    m = m.push(i as int);
                    assert forall|k: int| 0 <= k < i + 1 && function_kept(*filter, #[trigger] self.functions@[k]) implies m.contains(k) by {
                        if k < i {
                            let w = choose|w: int| 0 <= w < old_m.len() && old_m[w] == k;
                            assert(m[w] == k);
                        } else {
                            assert(m[m.len() - 1] == k);
                        }
                    }
                }
            }
            i += 1;
        }
        if kept.len() == 0 {
            proof {
                assert forall|k: int| 0 <= k < self.functions@.len() implies !function_kept(*filter, #[trigger] self.functions@[k]) by {
                    if function_kept(*filter, self.functions@[k]) {
                        assert(m.contains(k));
                    }
                }
            }
            return Err(string_of("No functions found for filter"));
        }
        let r = File { name: clone_string(&self.name), functions: kept, current_pos: 0 };
        assert(kept_selection(self.functions@, r.functions@, *filter, m));
        assert(exists|m: Seq<int>| #[trigger] kept_selection(self.functions@, r.functions@, *filter, m));
        Ok(r)
    }

    /// How the file is shown: its functions, one after the other, each with
    /// its neighbours as context.
    pub fn to_string(&self) -> (r: String)
        ensures
            r@ == functions_shown(self.functions@, self.functions@.len() as int),
    {
        let mut s = String::new();
        let mut i: usize = 0;
        while i < self.functions.len()
            invariant
                i <= self.functions@.len(),
                s@ == functions_shown(self.functions@, i as int),
            decreases self.functions@.len() - i,
        {
            if i > 0 {
                push_str(&mut s, "\n...\n");
            }
            let previous = if i > 0 {
                Some(&self.functions[i - 1])
            } else {
                None
            };
            let next = if i + 1 < self.functions.len() {
                Some(&self.functions[i + 1])
            } else {
                None
            };
            let shown = self.functions[i].fmt_with_context(previous, next);
            push_str(&mut s, shown.as_str());
            i += 1;
        }
        s
    }
}

impl File {
    /// A copy of the file, function by function.
    pub fn duplicate(&self) -> (r: File)
        ensures
            same_file(r, *self),
    {
        let mut functions: Vec<Function> = Vec::new();
        let mut i: usize = 0;
        while i < self.functions.len()
            invariant
                i <= self.functions@.len(),
                functions@.len() == i,
                forall|j: int| 0 <= j < i ==> same_function(#[trigger] functions@[j], self.functions@[j]),
            decreases self.functions@.len() - i,
        {
            functions.push(self.functions[i].duplicate());
            i += 1;
        }
        File { name: clone_string(&self.name), functions, current_pos: self.current_pos }
    }
}

/// Whether two files are the same, text by text.
pub open spec fn same_file(a: File, b: File) -> bool {
    &&& a.name@ == b.name@
    &&& a.current_pos == b.current_pos
    &&& a.functions@.len() == b.functions@.len()
    &&& forall|j: int| 0 <= j < a.functions@.len() ==> same_function(#[trigger] a.functions@[j], b.functions@[j])
}

/// Whether a file is kept by a filter over files.
pub open spec fn file_kept(filter: Filter, f: File) -> bool {
    match filter {
        Filter::FileAbsolute(p) => f.name@ == p@,
        Filter::FileRelative(p) => ends_with(f.name@, p@),
        Filter::Directory(p) => contains_seq(f.name@, p@),
        _ => false,
    }
}

/// Whether a filter keeps a file of a commit: a filter over files keeps the
/// files it matches; a filter over functions keeps a file when it keeps one
/// of its functions.
pub open spec fn commit_file_kept(filter: Filter, f: File) -> bool {
    if is_function_filter(filter) {
        exists|k: int| 0 <= k < f.functions@.len() && function_kept(filter, #[trigger] f.functions@[k])
    } else {
        file_kept(filter, f)
    }
}

/// The positions of the files among the first `n` that a filter keeps, in order.
pub open spec fn commit_files_kept(filter: Filter, fs: Seq<File>, n: int) -> Seq<int>
    decreases n,
{
    if n <= 0 {
        seq![]
    } else {
        let rest = commit_files_kept(filter, fs, n - 1);
        if commit_file_kept(filter, fs[n - 1]) {
            rest.push(n - 1)
        } else {
            rest
        }
    }
}

/// Whether `out` is what a filter leaves of a kept file `src`: the file
/// itself for a filter over files; the file with the functions the filter
/// keeps, for a filter over functions.
pub open spec fn commit_file_result(filter: Filter, src: File, out: File) -> bool {
    if is_function_filter(filter) {
        &&& out.name@ == src.name@
        &&& out.functions@.len() > 0
        &&& exists|m: Seq<int>| #[trigger] kept_selection(src.functions@, out.functions@, filter, m)
    } else {
        same_file(out, src)
    }
}

/// Whether two commits hold the same values, at the same file.
pub open spec fn same_commit(a: CommitFunctions, b: CommitFunctions) -> bool {
    &&& a.id_spec() == b.id_spec()
    &&& a.date_spec() == b.date_spec()
    &&& a.pos() == b.pos()
    &&& a.files().len() == b.files().len()
    &&& forall|j: int| 0 <= j < a.files().len() ==> same_file(#[trigger] a.files()[j], b.files()[j])
}

/// This holds information like date and commit id and also the list of function found in the commit.
pub struct CommitFunctions {
    id: String,
    functions: Vec<File>,
    date: CommitDate,
    current_iter_pos: usize,
    current_pos: usize,
}

impl CommitFunctions {
    /// The hash of the commit.
    pub closed spec fn id_spec(&self) -> Seq<char> {
        self.id@
    }

    /// The files of the commit.
    pub closed spec fn files(&self) -> Seq<File> {
        self.functions@
    }

    /// The date of the commit.
    pub closed spec fn date_spec(&self) -> CommitDate {
        self.date
    }

    /// The file the commit is at.
    pub closed spec fn pos(&self) -> nat {
        self.current_pos as nat
    }

    /// A commit of the given hash, files and RFC 2822 date.
    pub(crate) fn new(id: String, functions: Vec<File>, date: &str) -> (r: Self)
        requires
            rfc2822_parse(date@) is Some,
        ensures
            r.id_spec() == id@,
            r.files() == functions@,
            Some(r.date_spec()) == rfc2822_parse(date@),
            r.pos() == 0,
    {
        let d = match parse_date(date) {
            Ok(d) => d,
            Err(_) => {
                assert(false);
                CommitDate { secs: 0, nanos: 0, offset: 0 }
            },
        };
        CommitFunctions { id, functions, date: d, current_pos: 0, current_iter_pos: 0 }
    }

    /// A commit of the given hash, files and RFC 2822 date; nothing when the
    /// date cannot be read.
    pub fn checked_new(id: String, functions: Vec<File>, date: &str) -> (r: Option<Self>)
        ensures
            rfc2822_parse(date@) is None ==> r is None,
            rfc2822_parse(date@) is Some ==> (r matches Some(c) && c.id_spec() == id@ && c.files() == functions@
                && Some(c.date_spec()) == rfc2822_parse(date@) && c.pos() == 0),
    {
        match parse_date(date) {
            Ok(_) => Some(Self::new(id, functions, date)),
            Err(_) => None,
        }
    }

    /// Moves to the next file, if there is one.
    pub fn move_forward(&mut self) -> (r: bool)
        requires
            old(self).files().len() > 0,
        ensures
            final(self).files() == old(self).files(),
            final(self).id_spec() == old(self).id_spec(),
            final(self).date_spec() == old(self).date_spec(),
            r == (old(self).pos() + 1 < old(self).files().len()),
            final(self).pos() == if r {
                old(self).pos() + 1
            } else {
                old(self).pos()
            },
    {
        if self.current_pos >= self.functions.len() - 1 {
            return false;
        }
        self.current_pos += 1;
        true
    }

    /// Moves to the previous file, if there is one.
    pub fn move_back(&mut self) -> (r: bool)
        ensures
            final(self).files() == old(self).files(),
            final(self).id_spec() == old(self).id_spec(),
            final(self).date_spec() == old(self).date_spec(),
            r == (old(self).pos() > 0),
            final(self).pos() == if r {
                (old(self).pos() - 1) as nat
            } else {
                old(self).pos()
            },
    {
        if self.current_pos == 0 {
            return false;
        }
        self.current_pos -= 1;
        true
    }

    /// The hash, the date and the current file of the commit, by name.
    pub fn get_metadata(&self) -> (r: Vec<(String, String)>)
        requires
            self.pos() < self.files().len(),
            date_text(self.date_spec()) is Some,
        ensures
            r@.len() == 3,
            r@[0].0@ == "commit hash"@ && r@[0].1@ == self.id_spec(),
            r@[1].0@ == "date"@ && Some(r@[1].1@) == date_text(self.date_spec()),
            r@[2].0@ == "file"@ && r@[2].1@ == self.files()[self.pos() as int].name@,
    {
        let mut map: Vec<(String, String)> = Vec::new();
        map.push((string_of("commit hash"), clone_string(&self.id)));
        let date = match date_to_rfc2822(self.date) {
            Some(t) => t,
            None => String::new(),
        };
        map.push((string_of("date"), date));
        map.push((string_of("file"), clone_string(&self.functions[self.current_pos].name)));
        map
    }

    /// A copy of the current file.
    pub fn get_file(&self) -> (r: File)
        requires
            self.pos() < self.files().len(),
        ensures
            same_file(r, self.files()[self.pos() as int]),
    {
        self.functions[self.current_pos].duplicate()
    }

    /// The ways one can move among the files.
    pub fn get_move_direction(&self) -> (r: Directions)
        ensures
            r == direction(self.pos(), self.files().len()),
    {
        move_direction(self.current_pos, self.functions.len())
    }

    /// The files of the commit that a filter keeps, in order: for filters
    /// over files, the files it keeps; for filters over functions, each file
    /// with the functions it keeps, when it keeps some. An error for another
    /// filter, or when nothing is kept.
    pub fn filter_by(&self, filter: &Filter) -> (r: Result<Self, String>)
        ensures
            match *filter {
                Filter::FileAbsolute(_) | Filter::FileRelative(_) | Filter::Directory(_) | Filter::FunctionInBlock(_)
                | Filter::FunctionInLines(_, _) | Filter::FunctionWithParent(_) => {
                    let ks = commit_files_kept(*filter, self.files(), self.files().len() as int);
                    match r {
                        Ok(c) => c.id_spec() == self.id_spec() && c.date_spec() == self.date_spec() && c.pos() == 0
                            && ks.len() > 0 && c.files().len() == ks.len() && forall|j: int|
                            0 <= j < ks.len() ==> commit_file_result(*filter, self.files()[ks[j]], #[trigger] c.files()[j]),
                        Err(e) => ks.len() == 0 && e@ == "No files found for filter"@,
                    }
                },
                _ => r matches Err(e) && e@ == "Invalid filter"@,
            },
    {
        let by_file = match filter {
            Filter::FileAbsolute(_) | Filter::FileRelative(_) | Filter::Directory(_) => true,
            Filter::FunctionInBlock(_) | Filter::FunctionInLines(_, _) | Filter::FunctionWithParent(_) => false,
            _ => {
                return Err(string_of("Invalid filter"));
            },
        };
        let ghost fs = self.functions@;
        let mut kept: Vec<File> = Vec::new();
        let mut i: usize = 0;
        while i < self.functions.len()
            invariant
                i <= self.functions@.len(),
                fs == self.functions@,
                by_file == !is_function_filter(*filter),
                ({
                    let ks = commit_files_kept(*filter, fs, i as int);
                    &&& kept@.len() == ks.len()
                    &&& forall|j: int| 0 <= j < ks.len() ==> commit_file_result(*filter, fs[ks[j]], #[trigger] kept@[j])
                }),
            decreases self.functions@.len() - i,
        {
            let f = &self.functions[i];
            if by_file {
                let keep = match filter {
                    Filter::FileAbsolute(p) => str_eq(f.name.as_str(), p.as_str()),
                    Filter::FileRelative(p) => str_ends_with(f.name.as_str(), p.as_str()),
                    Filter::Directory(p) => str_contains(f.name.as_str(), p.as_str()),
                    _ => false,
                };
                assert(keep == commit_file_kept(*filter, fs[i as int]));
                if keep {
                    kept.push(f.duplicate());
                }
            } else {
                match f.filter_by(filter) {
                    Ok(g) => {
                        proof {
                            let m = choose|m: Seq<int>| #[trigger] kept_selection(f.functions@, g.functions@, *filter, m);
                            assert(function_kept(*filter, f.functions@[m[0]]));
                            assert(commit_file_kept(*filter, fs[i as int]));
                        }
                        kept.push(g);
                    },
                    Err(_) => {
                        assert(!commit_file_kept(*filter, fs[i as int]));
                    },
                }
            }
            i += 1;
        }
        if kept.len() == 0 {
            return Err(string_of("No files found for filter"));
        }
        Ok(CommitFunctions {
            id: clone_string(&self.id),
            functions: kept,
            date: self.date,
            current_pos: 0,
            current_iter_pos: 0,
        })
    }

    /// A copy of the commit, at the same file.
    pub fn duplicate(&self) -> (r: Self)
        ensures
            same_commit(r, *self),
    {
        let mut functions: Vec<File> = Vec::new();
        let mut i: usize = 0;
        while i < self.functions.len()
            invariant
                i <= self.functions@.len(),
                functions@.len() == i,
                forall|j: int| 0 <= j < i ==> same_file(#[trigger] functions@[j], self.functions@[j]),
            decreases self.functions@.len() - i,
        {
            functions.push(self.functions[i].duplicate());
            i += 1;
        }
        CommitFunctions {
            id: clone_string(&self.id),
            functions,
            date: self.date,
            current_pos: self.current_pos,
            current_iter_pos: self.current_iter_pos,
        }
    }

    /// How the commit is shown: its current file and a newline.
    pub fn to_string(&self) -> (r: String)
        requires
            self.pos() < self.files().len(),
        ensures
            r@ == functions_shown(self.files()[self.pos() as int].functions@, self.files()[self.pos() as int].functions@.len() as int)
                + seq!['\n'],
    {
        let mut s = self.functions[self.current_pos].to_string();
        crate::text::push_char(&mut s, '\n');
        s
    }
}

/// Functions that are the same, text by text, are kept by the same filters.
pub proof fn lemma_same_function_kept(filter: Filter, a: Function, b: Function)
    requires
        same_function(a, b),
    ensures
        function_kept(filter, a) == function_kept(filter, b),
{
    if let Filter::FunctionWithParent(p) = filter {
        if let (Some(pa), Some(pb)) = (a.function, b.function) {
            if function_kept(filter, b) {
                let j = choose|j: int| 0 <= j < pb@.len() && (#[trigger] pb@[j]).name@ == p@;
                assert(same_parent(pa@[j], pb@[j]));
            }
            if function_kept(filter, a) {
                let j = choose|j: int| 0 <= j < pa@.len() && (#[trigger] pa@[j]).name@ == p@;
                assert(same_parent(pa@[j], pb@[j]));
            }
        }
    }
}

/// Whether a date is not earlier than another.
pub open spec fn date_not_before(a: CommitDate, b: CommitDate) -> bool {
    a.secs > b.secs || (a.secs == b.secs && a.nanos >= b.nanos)
}

/// Whether a filter over a history keeps a commit: by its hash, by its date
/// as RFC 2822 text, by being neither before the start nor after the end of
/// a range; a filter over files or functions keeps a commit when it keeps
/// some of its files.
pub open spec fn history_kept(filter: Filter, c: CommitFunctions) -> bool {
    match filter {
        Filter::CommitId(id) => c.id_spec() == id@,
        Filter::Date(d) => date_text(c.date_spec()) == Some(d@),
        Filter::DateRange(a, b) => match (rfc2822_parse(a@), rfc2822_parse(b@)) {
            (Some(x), Some(y)) => date_not_before(c.date_spec(), x) && date_not_before(y, c.date_spec()),
            _ => false,
        },
        Filter::NoFilter => false,
        _ => commit_files_kept(filter, c.files(), c.files().len() as int).len() > 0,
    }
}

/// Whether `out` is what a filter over a history makes of a kept commit
/// `src`: a copy, or the commit with the files the filter keeps.
pub open spec fn history_result(filter: Filter, src: CommitFunctions, out: CommitFunctions) -> bool {
    if filter is CommitId || filter is Date || filter is DateRange {
        same_commit(out, src)
    } else {
        let ks = commit_files_kept(filter, src.files(), src.files().len() as int);
        &&& out.id_spec() == src.id_spec()
        &&& out.date_spec() == src.date_spec()
        &&& out.pos() == 0
        &&& out.files().len() == ks.len()
        &&& forall|j: int| 0 <= j < ks.len() ==> commit_file_result(filter, src.files()[ks[j]], #[trigger] out.files()[j])
    }
}

/// The positions of the commits among the first `n` that a filter keeps, in order.
pub open spec fn history_kept_upto(filter: Filter, h: Seq<CommitFunctions>, n: int) -> Seq<int>
    decreases n,
{
    if n <= 0 {
        seq![]
    } else {
        let rest = history_kept_upto(filter, h, n - 1);
        if history_kept(filter, h[n - 1]) {
            rest.push(n - 1)
        } else {
            rest
        }
    }
}

/// What a filter needs to be applied to a history: every date written as
/// RFC 2822 text, for a date filter; both ends read, for a range.
pub open spec fn history_filter_ok(filter: Filter, h: Seq<CommitFunctions>) -> bool {
    match filter {
        Filter::Date(_) => forall|i: int| 0 <= i < h.len() ==> date_text((#[trigger] h[i]).date_spec()) is Some,
        Filter::DateRange(a, b) => rfc2822_parse(a@) is Some && rfc2822_parse(b@) is Some,
        _ => true,
    }
}

/// Whether a range filter has its start not before its end.
pub open spec fn range_reversed(filter: Filter) -> bool {
    match filter {
        Filter::DateRange(a, b) => match (rfc2822_parse(a@), rfc2822_parse(b@)) {
            (Some(x), Some(y)) => date_not_before(x, y),
            _ => false,
        },
        _ => false,
    }
}

/// This struct holds the a list of commits and the function that were looked up for each commit.
pub struct FunctionHistory {
    /// the name of the function looked up
    pub name: String,
    /// the commits, each with the files the function was found in
    pub history: Vec<CommitFunctions>,
    current_iter_pos: usize,
    current_pos: usize,
}

impl FunctionHistory {
    /// The commit the history is at.
    pub closed spec fn pos(&self) -> nat {
        self.current_pos as nat
    }

    /// The name of the function looked up.
    pub closed spec fn name_spec(&self) -> Seq<char> {
        self.name@
    }

    /// The commits of the history.
    pub closed spec fn commits(&self) -> Seq<CommitFunctions> {
        self.history@
    }

    /// A history of the given commits, at the first.
    pub fn new(name: String, history: Vec<CommitFunctions>) -> (r: Self)
        ensures
            r.name_spec() == name@,
            r.commits() == history@,
            r.pos() == 0,
    {
        FunctionHistory { name, history, current_iter_pos: 0, current_pos: 0 }
    }

    /// The hashes of the commits, in order.
    pub fn list_commit_ids(&self) -> (r: Vec<String>)
        ensures
            r@.len() == self.commits().len(),
            forall|i: int| 0 <= i < r@.len() ==> (#[trigger] r@[i])@ == self.commits()[i].id_spec(),
    {
        let mut r: Vec<String> = Vec::new();
        let mut i: usize = 0;
        while i < self.history.len()
            invariant
                i <= self.commits().len(),
                r@.len() == i,
                forall|j: int| 0 <= j < i ==> (#[trigger] r@[j])@ == self.commits()[j].id_spec(),
            decreases self.commits().len() - i,
        {
            r.push(clone_string(&self.history[i].id));
            i += 1;
        }
        r
    }

    /// Moves to the next commit, if there is one.
    pub fn move_forward(&mut self) -> (r: bool)
        requires
            old(self).commits().len() > 0,
        ensures
            final(self).commits() == old(self).commits(),
            final(self).name_spec() == old(self).name_spec(),
            r == (old(self).pos() + 1 < old(self).commits().len()),
            final(self).pos() == if r {
                old(self).pos() + 1
            } else {
                old(self).pos()
            },
    {
        if self.current_pos >= self.history.len() - 1 {
            return false;
        }
        self.current_pos += 1;
        true
    }

    /// Moves to the previous commit, if there is one.
    pub fn move_back(&mut self) -> (r: bool)
        ensures
            final(self).commits() == old(self).commits(),
            final(self).name_spec() == old(self).name_spec(),
            r == (old(self).pos() > 0),
            final(self).pos() == if r {
                (old(self).pos() - 1) as nat
            } else {
                old(self).pos()
            },
    {
        if self.current_pos == 0 {
            return false;
        }
        self.current_pos -= 1;
        true
    }

    /// Moves the current commit to its next file, if there is one.
    pub fn move_forward_file(&mut self) -> (r: bool)
        requires
            old(self).pos() < old(self).commits().len(),
            old(self).commits()[old(self).pos() as int].files().len() > 0,
        ensures
            final(self).name_spec() == old(self).name_spec(),
            final(self).pos() == old(self).pos(),
            final(self).commits().len() == old(self).commits().len(),
            forall|i: int| 0 <= i < old(self).commits().len() && i != old(self).pos() ==> #[trigger] final(self).commits()[i] == old(self).commits()[i],
            ({
                let (c0, c1) = (old(self).commits()[old(self).pos() as int], final(self).commits()[old(self).pos() as int]);
                &&& c1.files() == c0.files() && c1.id_spec() == c0.id_spec() && c1.date_spec() == c0.date_spec()
                &&& r == (c0.pos() + 1 < c0.files().len())
                &&& c1.pos() == if r { c0.pos() + 1 } else { c0.pos() }
            }),
    {
        let p = self.current_pos;
        let mut c = self.history.remove(p);
        let r = c.move_forward();
        self.history.insert(p, c);
        proof {
            assert forall|i: int| 0 <= i < old(self).commits().len() && i != p implies #[trigger] self.commits()[i] == old(self).commits()[i] by {
                if i < p {
                } else {
                }
            }
        }
        r
    }

    /// Moves the current commit to its previous file, if there is one.
    pub fn move_back_file(&mut self) -> (r: bool)
        requires
            old(self).pos() < old(self).commits().len(),
        ensures
            final(self).name_spec() == old(self).name_spec(),
            final(self).pos() == old(self).pos(),
            final(self).commits().len() == old(self).commits().len(),
            forall|i: int| 0 <= i < old(self).commits().len() && i != old(self).pos() ==> #[trigger] final(self).commits()[i] == old(self).commits()[i],
            ({
                let (c0, c1) = (old(self).commits()[old(self).pos() as int], final(self).commits()[old(self).pos() as int]);
                &&& c1.files() == c0.files() && c1.id_spec() == c0.id_spec() && c1.date_spec() == c0.date_spec()
                &&& r == (c0.pos() > 0)
                &&& c1.pos() == if r { (c0.pos() - 1) as nat } else { c0.pos() }
            }),
    {
        let p = self.current_pos;
        let mut c = self.history.remove(p);
        let r = c.move_back();
        self.history.insert(p, c);
        r
    }

    /// The hash, the date and the current file of the current commit, by name.
    pub fn get_metadata(&self) -> (r: Vec<(String, String)>)
        requires
            self.pos() < self.commits().len(),
            self.commits()[self.pos() as int].pos() < self.commits()[self.pos() as int].files().len(),
            date_text(self.commits()[self.pos() as int].date_spec()) is Some,
        ensures
            ({
                let c = self.commits()[self.pos() as int];
                &&& r@.len() == 3
                &&& r@[0].0@ == "commit hash"@ && r@[0].1@ == c.id_spec()
                &&& r@[1].0@ == "date"@ && Some(r@[1].1@) == date_text(c.date_spec())
                &&& r@[2].0@ == "file"@ && r@[2].1@ == c.files()[c.pos() as int].name@
            }),
    {
        self.history[self.current_pos].get_metadata()
    }

    /// The current commit.
    pub fn get_commit(&self) -> (r: &CommitFunctions)
        requires
            self.pos() < self.commits().len(),
        ensures
            *r == self.commits()[self.pos() as int],
    {
        &self.history[self.current_pos]
    }

    /// The ways one can move among the commits.
    pub fn get_move_direction(&self) -> (r: Directions)
        ensures
            r == direction(self.pos(), self.commits().len()),
    {
        move_direction(self.current_pos, self.history.len())
    }

    /// The commits that a filter keeps, in order: by hash, by date, by a
    /// range of dates (a commit not before the start or not after the end),
    /// or, for filters over files and functions, each commit with the files
    /// it keeps. An error for no filter, for a range whose start is not
    /// before its end, or when nothing is kept.
    pub fn filter_by(&self, filter: &Filter) -> (r: Result<Self, String>)
        requires
            history_filter_ok(*filter, self.commits()),
        ensures
            ({
                let ks = history_kept_upto(*filter, self.commits(), self.commits().len() as int);
                if *filter is NoFilter {
                    r matches Err(e) && e@ == "Invalid filter"@
                } else if range_reversed(*filter) {
                    r matches Err(e) && e@ == "Start date is after end date"@
                } else {
                    match r {
                        Ok(h) => ks.len() > 0 && h.name_spec() == self.name_spec() && h.pos() == 0 && h.commits().len() == ks.len()
                            && forall|j: int| 0 <= j < ks.len() ==> history_result(*filter, self.commits()[ks[j]], #[trigger] h.commits()[j]),
                        Err(e) => ks.len() == 0 && e@ == "No history found for the filter"@,
                    }
                }
            }),
    {
        let mut range: Option<(CommitDate, CommitDate)> = None;
        match filter {
            Filter::NoFilter => {
                return Err(string_of("Invalid filter"));
            },
            Filter::DateRange(a, b) => {
                let x = match parse_date(a.as_str()) {
                    Ok(x) => x,
                    Err(_) => {
                        return Err(string_of("Invalid filter"));
                    },
                };
                let y = match parse_date(b.as_str()) {
                    Ok(y) => y,
                    Err(_) => {
                        return Err(string_of("Invalid filter"));
                    },
                };
                if x.secs > y.secs || (x.secs == y.secs && x.nanos >= y.nanos) {
                    return Err(string_of("Start date is after end date"));
                }
                range = Some((x, y));
            },
            _ => {},
        }
        let ghost hs = self.commits();
        let mut kept: Vec<CommitFunctions> = Vec::new();
        let mut i: usize = 0;
        while i < self.history.len()
            invariant
                i <= self.commits().len(),
                hs == self.commits(),
                history_filter_ok(*filter, hs),
                !(*filter is NoFilter),
                *filter is DateRange ==> (range matches Some((x, y))
                    && rfc2822_parse(filter->DateRange_0@) == Some(x) && rfc2822_parse(filter->DateRange_1@) == Some(y)),
                ({
                    let ks = history_kept_upto(*filter, hs, i as int);
                    &&& kept@.len() == ks.len()
                    &&& forall|j: int| 0 <= j < ks.len() ==> history_result(*filter, hs[ks[j]], #[trigger] kept@[j])
                }),
            decreases self.commits().len() - i,
        {
            let c = &self.history[i];
            match filter {
                Filter::CommitId(id) => {
                    if str_eq(c.id.as_str(), id.as_str()) {
                        kept.push(c.duplicate());
                    }
                },
                Filter::Date(d) => {
                    let keep = match date_to_rfc2822(c.date) {
                        Some(t) => str_eq(t.as_str(), d.as_str()),
                        None => false,
                    };
                    if keep {
                        kept.push(c.duplicate());
                    }
                },
                Filter::DateRange(_, _) => {
                    let (x, y) = match range {
                        Some(p) => p,
                        None => (c.date, c.date),
                    };
                    let d = c.date;
                    if (d.secs > x.secs || (d.secs == x.secs && d.nanos >= x.nanos)) && (y.secs > d.secs || (
                    y.secs == d.secs && y.nanos >= d.nanos)) {
                        kept.push(c.duplicate());
                    }
                },
                _ => {
                    match c.filter_by(filter) {
                        Ok(x) => {
                            kept.push(x);
                        },
                        Err(_) => {},
                    }
                },
            }
            i += 1;
        }
        if kept.len() == 0 {
            return Err(string_of("No history found for the filter"));
        }
        Ok(FunctionHistory::new(clone_string(&self.name), kept))
    }

    /// Filters the history as `filter_by` does, when the filter can be
    /// applied to it (see `history_filter_ok`); nothing otherwise.
    pub fn checked_filter_by(&self, filter: &Filter) -> (r: Option<Result<Self, String>>)
        ensures
            history_filter_ok(*filter, self.commits()) <==> r is Some,
    {
        let ok = match filter {
            Filter::Date(_) => {
                let mut all = true;
                let mut i: usize = 0;
                while i < self.history.len()
                    invariant
                        i <= self.commits().len(),
                        all == forall|j: int| 0 <= j < i ==> date_text((#[trigger] self.commits()[j]).date_spec()) is Some,
                    decreases self.commits().len() - i,
                {
                    if date_to_rfc2822(self.history[i].date).is_none() {
                        all = false;
                    }
                    i += 1;
                }
                all
            },
            Filter::DateRange(a, b) => parse_date(a.as_str()).is_ok() && parse_date(b.as_str()).is_ok(),
            _ => true,
        };
        if ok {
            Some(self.filter_by(filter))
        } else {
            None
        }
    }

    /// How the history is shown: its current commit and a newline.
    pub fn to_string(&self) -> (r: String)
        requires
            self.pos() < self.commits().len(),
            self.commits()[self.pos() as int].pos() < self.commits()[self.pos() as int].files().len(),
        ensures
            ({
                let c = self.commits()[self.pos() as int];
                let f = c.files()[c.pos() as int];
                r@ == functions_shown(f.functions@, f.functions@.len() as int) + seq!['\n'] + seq!['\n']
            }),
    {
        let mut s = self.history[self.current_pos].to_string();
        crate::text::push_char(&mut s, '\n');
        s
    }
}

} // verus!
