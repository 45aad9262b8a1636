//! UMPL functions, the functions around them, and the filters over them.
use vstd::prelude::*;

use super::{str_eq, FunctionTrait, Language, LanguageFilter, LanguageFunction};
use crate::text::{clone_string, pair_views, push_str};

verus! {

/// A UMPL function that encloses the function that was looked up.
#[derive(Debug)]
pub struct UMPLParentFunction {
    /// the first and last line of the function
    pub lines: (usize, usize),
    /// the name of the function
    pub name: String,
    /// the (line numbered) first line of the function
    pub top: String,
    /// the (line numbered) last line of the function
    pub bottom: String,
    /// how many parameters the function takes
    pub args_count: usize,
}

/// A single UMPL function that was found.
#[derive(Debug)]
pub struct UMPLFunction {
    /// the first and last line of the function
    pub lines: (usize, usize),
    /// the name of the function
    pub name: String,
    /// the (line numbered) code of the function
    pub body: String,
    /// how many parameters the function takes
    pub args_count: usize,
    /// the functions this one is nested in, outermost first
    pub parents: Vec<UMPLParentFunction>,
}

/// filters for UMPL functions
pub enum UMPLFilter {
    /// functions that take this many parameters
    HasParameterCount(usize),
    /// functions with a parent that takes this many parameters
    HasParentWithParamCount(usize),
    /// functions with a parent of this name
    HasParentWithName(String),
    /// functions that are nested in another function
    HasParents,
}

/// Whether a UMPL function matches a filter.
pub open spec fn umpl_matches(flt: UMPLFilter, f: UMPLFunction) -> bool {
    match flt {
        UMPLFilter::HasParameterCount(c) => f.args_count == c,
        UMPLFilter::HasParentWithParamCount(c) => exists|i: int|
            0 <= i < f.parents@.len() && (#[trigger] f.parents@[i]).args_count == c,
        UMPLFilter::HasParentWithName(n) => exists|i: int|
            0 <= i < f.parents@.len() && (#[trigger] f.parents@[i]).name@ == n@,
        UMPLFilter::HasParents => f.parents@.len() > 0,
    }
}

impl UMPLFilter {
    /// checks if a function matches the filter
    #[verifier::loop_isolation(false)]
    pub fn matches(&self, function: &UMPLFunction) -> (r: bool)
        ensures
            r == umpl_matches(*self, *function),
    {
        match self {
            UMPLFilter::HasParameterCount(count) => function.args_count == *count,
            UMPLFilter::HasParents => function.parents.len() > 0,
            UMPLFilter::HasParentWithParamCount(count) => {
                let mut i: usize = 0;
                while i < function.parents.len()
                    invariant
                        i <= function.parents.len(),
                        forall|j: int|
                            0 <= j < i ==> (#[trigger] function.parents@[j]).args_count != *count,
                    decreases function.parents.len() - i,
                {
                    if function.parents[i].args_count == *count {
                        assert(function.parents@[i as int].args_count == *count);
                        return true;
                    }
                    i += 1;
                }
                false
            },
            UMPLFilter::HasParentWithName(name) => {
                let mut i: usize = 0;
                while i < function.parents.len()
                    invariant
                        i <= function.parents.len(),
                        forall|j: int| 0 <= j < i ==> (#[trigger] function.parents@[j]).name@ != name@,
                    decreases function.parents.len() - i,
                {
                    if str_eq(function.parents[i].name.as_str(), name.as_str()) {
                        assert(function.parents@[i as int].name@ == name@);
                        return true;
                    }
                    i += 1;
                }
                false
            },
        }
    }
}

/// The lines of a UMPL function with the functions around it: going
/// through them in order, one that starts before the lines so far replaces
/// them.
pub open spec fn umpl_total_lines(ps: Seq<UMPLParentFunction>, own: (usize, usize)) -> (usize, usize)
    decreases ps.len(),
{
    if ps.len() == 0 {
        own
    } else {
        let before = umpl_total_lines(ps.drop_last(), own);
        if ps.last().lines.0 < before.0 {
            ps.last().lines
        } else {
            before
        }
    }
}

/// The first lines of the functions around, each with its first line number.
pub open spec fn umpl_tops(ps: Seq<UMPLParentFunction>) -> Seq<(Seq<char>, usize)> {
    Seq::new(ps.len(), |i: int| (ps[i].top@, ps[i].lines.0))
}

/// The last lines of the functions around, each with its last line number.
pub open spec fn umpl_bottoms(ps: Seq<UMPLParentFunction>) -> Seq<(Seq<char>, usize)> {
    Seq::new(ps.len(), |i: int| (ps[i].bottom@, ps[i].lines.1))
}

/// The first lines of the functions around, each followed by `...`.
pub open spec fn umpl_tops_shown(ps: Seq<UMPLParentFunction>) -> Seq<char>
    decreases ps.len(),
{
    if ps.len() == 0 {
        seq![]
    } else {
        umpl_tops_shown(ps.drop_last()) + ps.last().top@ + "\n...\n"@
    }
}

/// The last lines of the functions around, each after `...`.
pub open spec fn umpl_bottoms_shown(ps: Seq<UMPLParentFunction>) -> Seq<char>
    decreases ps.len(),
{
    if ps.len() == 0 {
        seq![]
    } else {
        umpl_bottoms_shown(ps.drop_last()) + "\n...\n"@ + ps.last().bottom@
    }
}

/// Whether two functions around a function hold the same values.
pub open spec fn same_umpl_parent(a: UMPLParentFunction, b: UMPLParentFunction) -> bool {
    a.lines == b.lines && a.name@ == b.name@ && a.top@ == b.top@ && a.bottom@ == b.bottom@ && a.args_count == b.args_count
}

/// Whether two lists of functions around hold the same values.
pub open spec fn same_umpl_parents(a: Seq<UMPLParentFunction>, b: Seq<UMPLParentFunction>) -> bool {
    a.len() == b.len() && forall|i: int| 0 <= i < a.len() ==> same_umpl_parent(#[trigger] a[i], b[i])
}

/// Lists of functions around that hold the same values show the same.
proof fn lemma_same_umpl_parents(a: Seq<UMPLParentFunction>, b: Seq<UMPLParentFunction>)
    requires
        same_umpl_parents(a, b),
    ensures
        same_umpl_parents(b, a),
        umpl_total_lines(a, (0, 0)) == umpl_total_lines(b, (0, 0)),
        forall|own: (usize, usize)| umpl_total_lines(a, own) == umpl_total_lines(b, own),
        umpl_tops(a) == umpl_tops(b),
        umpl_bottoms(a) == umpl_bottoms(b),
        umpl_tops_shown(a) == umpl_tops_shown(b),
        umpl_bottoms_shown(a) == umpl_bottoms_shown(b),
    decreases a.len(),
{
    assert(umpl_tops(a) =~= umpl_tops(b));
    assert(umpl_bottoms(a) =~= umpl_bottoms(b));
    if a.len() > 0 {
        lemma_same_umpl_parents(a.drop_last(), b.drop_last());
        assert(same_umpl_parent(a.last(), b.last()));
        assert forall|own: (usize, usize)| umpl_total_lines(a, own) == umpl_total_lines(b, own) by {
            assert(umpl_total_lines(a.drop_last(), own) == umpl_total_lines(b.drop_last(), own));
        }
    }
}

/// How a UMPL function is shown: the first lines of the functions around,
/// its code, then their last lines.
pub open spec fn umpl_display(f: UMPLFunction) -> Seq<char> {
    umpl_tops_shown(f.parents@) + f.body@ + umpl_bottoms_shown(f.parents@)
}

impl FunctionTrait for UMPLFunction {
    open spec fn same(&self, o: &Self) -> bool {
        &&& self.lines == o.lines
        &&& self.name@ == o.name@
        &&& self.body@ == o.body@
        &&& self.args_count == o.args_count
        &&& same_umpl_parents(self.parents@, o.parents@)
    }

    open spec fn lines_spec(&self) -> (usize, usize) {
        self.lines
    }

    open spec fn total_lines_spec(&self) -> (usize, usize) {
        umpl_total_lines(self.parents@, self.lines)
    }

    open spec fn name_spec(&self) -> Seq<char> {
        self.name@
    }

    open spec fn body_spec(&self) -> Seq<char> {
        self.body@
    }

    open spec fn tops_spec(&self) -> Seq<(Seq<char>, usize)> {
        umpl_tops(self.parents@)
    }

    open spec fn bottoms_spec(&self) -> Seq<(Seq<char>, usize)> {
        umpl_bottoms(self.parents@)
    }

    open spec fn display_spec(&self) -> Seq<char> {
        umpl_display(*self)
    }

    proof fn lemma_same(&self, other: &Self) {
        lemma_same_umpl_parents(self.parents@, other.parents@);
    }

    fn get_lines(&self) -> (r: (usize, usize)) {
        self.lines
    }

    fn get_total_lines(&self) -> (r: (usize, usize)) {
        let mut start = self.lines.0;
        let mut end = self.lines.1;
        let mut i: usize = 0;
        while i < self.parents.len()
            invariant
                i <= self.parents@.len(),
                (start, end) == umpl_total_lines(self.parents@.take(i as int), self.lines),
            decreases self.parents@.len() - i,
        {
            assert(self.parents@.take(i + 1).drop_last() =~= self.parents@.take(i as int));
            if self.parents[i].lines.0 < start {
                start = self.parents[i].lines.0;
                end = self.parents[i].lines.1;
            }
            i += 1;
        }
        assert(self.parents@.take(self.parents@.len() as int) =~= self.parents@);
        (start, end)
    }

    fn get_name(&self) -> (r: String) {
        clone_string(&self.name)
    }

    fn get_body(&self) -> (r: String) {
        clone_string(&self.body)
    }

    fn get_tops(&self) -> (r: Vec<(String, usize)>) {
        let mut r: Vec<(String, usize)> = Vec::new();
        let mut i: usize = 0;
        while i < self.parents.len()
            invariant
                i <= self.parents@.len(),
                r@.len() == i,
                pair_views(r@) == umpl_tops(self.parents@).take(i as int),
            decreases self.parents@.len() - i,
        {
            r.push((clone_string(&self.parents[i].top), self.parents[i].lines.0));
            assert(pair_views(r@) =~= umpl_tops(self.parents@).take(i + 1));
            i += 1;
        }
        assert(umpl_tops(self.parents@).take(self.parents@.len() as int) =~= umpl_tops(self.parents@));
        r
    }

    fn get_bottoms(&self) -> (r: Vec<(String, usize)>) {
        let mut r: Vec<(String, usize)> = Vec::new();
        let mut i: usize = 0;
        while i < self.parents.len()
            invariant
                i <= self.parents@.len(),
                r@.len() == i,
                pair_views(r@) == umpl_bottoms(self.parents@).take(i as int),
            decreases self.parents@.len() - i,
        {
            r.push((clone_string(&self.parents[i].bottom), self.parents[i].lines.1));
            assert(pair_views(r@) =~= umpl_bottoms(self.parents@).take(i + 1));
            i += 1;
        }
        assert(umpl_bottoms(self.parents@).take(self.parents@.len() as int) =~= umpl_bottoms(self.parents@));
        r
    }

    fn to_string(&self) -> (r: String) {
        let mut s = String::new();
        let mut i: usize = 0;
        while i < self.parents.len()
            invariant
                i <= self.parents@.len(),
                s@ == umpl_tops_shown(self.parents@.take(i as int)),
            decreases self.parents@.len() - i,
        {
            assert(self.parents@.take(i + 1).drop_last() =~= self.parents@.take(i as int));
            push_str(&mut s, self.parents[i].top.as_str());
            push_str(&mut s, "\n...\n");
            i += 1;
        }
        assert(self.parents@.take(self.parents@.len() as int) =~= self.parents@);
        push_str(&mut s, self.body.as_str());
        let ghost mid = s@;
        let mut i: usize = 0;
        while i < self.parents.len()
            invariant
                i <= self.parents@.len(),
                s@ == mid + umpl_bottoms_shown(self.parents@.take(i as int)),
            decreases self.parents@.len() - i,
        {
            assert(self.parents@.take(i + 1).drop_last() =~= self.parents@.take(i as int));
            push_str(&mut s, "\n...\n");
            push_str(&mut s, self.parents[i].bottom.as_str());
            i += 1;
        }
        s
    }

    fn duplicate(&self) -> (r: Self) {
        let mut parents: Vec<UMPLParentFunction> = Vec::new();
        let mut i: usize = 0;
        while i < self.parents.len()
            invariant
                i <= self.parents@.len(),
                parents@.len() == i,
                forall|j: int| 0 <= j < i ==> same_umpl_parent(#[trigger] parents@[j], self.parents@[j]),
            decreases self.parents@.len() - i,
        {
            parents.push(UMPLParentFunction {
                lines: self.parents[i].lines,
                name: clone_string(&self.parents[i].name),
                top: clone_string(&self.parents[i].top),
                bottom: clone_string(&self.parents[i].bottom),
                args_count: self.parents[i].args_count,
            });
            i += 1;
        }
        UMPLFunction {
            lines: self.lines,
            name: clone_string(&self.name),
            body: clone_string(&self.body),
            args_count: self.args_count,
            parents,
        }
    }
}

impl LanguageFunction for UMPLFunction {
    open spec fn language_spec() -> Language {
        Language::UMPL
    }

    open spec fn pl_match(&self, f: LanguageFilter) -> Option<bool> {
        match f {
            LanguageFilter::UMPL(flt) => Some(umpl_matches(flt, *self)),
            _ => None,
        }
    }

    proof fn lemma_same_match(&self, other: &Self, f: LanguageFilter) {
        if let LanguageFilter::UMPL(flt) = f {
            let ps = self.parents@;
            let qs = other.parents@;
            match flt {
                UMPLFilter::HasParentWithParamCount(c) => {
                    if umpl_matches(flt, *self) {
                        let i = choose|i: int| 0 <= i < ps.len() && (#[trigger] ps[i]).args_count == c;
                        assert(same_umpl_parent(ps[i], qs[i]));
                    }
                    if umpl_matches(flt, *other) {
                        let i = choose|i: int| 0 <= i < qs.len() && (#[trigger] qs[i]).args_count == c;
                        assert(same_umpl_parent(ps[i], qs[i]));
                    }
                },
                UMPLFilter::HasParentWithName(n) => {
                    if umpl_matches(flt, *self) {
                        let i = choose|i: int| 0 <= i < ps.len() && (#[trigger] ps[i]).name@ == n@;
                        assert(same_umpl_parent(ps[i], qs[i]));
                    }
                    if umpl_matches(flt, *other) {
                        let i = choose|i: int| 0 <= i < qs.len() && (#[trigger] qs[i]).name@ == n@;
                        assert(same_umpl_parent(ps[i], qs[i]));
                    }
                },
                _ => {},
            }
        }
    }

    fn language() -> (l: Language) {
        Language::UMPL
    }

    fn pl_matches(&self, f: &LanguageFilter) -> (r: Option<bool>) {
        match f {
            LanguageFilter::UMPL(flt) => Some(flt.matches(self)),
            _ => None,
        }
    }
}

} // verus!
