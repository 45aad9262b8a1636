//! Files that hold the functions of one language, and functions shown with
//! or without what encloses them, depending on their neighbours.
use vstd::prelude::*;

use crate::languages::python::{PythonClass, PythonFunction, PythonParentFunction};
use crate::languages::rust::{rust_display, RustFunction, RustParentFunction};
use crate::text::{clone_string, join, join_strings, push_str, push_string, views};

verus! {

/// What a function offers to be shown among its neighbours: the headings
/// and closings of what encloses it, and the lines it spans with them.
pub trait FunctionTrait: crate::languages::FunctionTrait {
    /// The headings of what encloses the function, outermost first.
    spec fn context_tops(&self) -> Seq<Seq<char>>;

    /// The closings of what encloses the function.
    spec fn context_bottoms(&self) -> Seq<Seq<char>>;

    /// The first and last line of the function with what encloses it.
    spec fn context_total_lines(&self) -> (usize, usize);

    /// the headings of what encloses the function
    fn get_context_tops(&self) -> (r: Vec<String>)
        ensures
            views(r@) == self.context_tops(),
    ;

    /// the closings of what encloses the function
    fn get_context_bottoms(&self) -> (r: Vec<String>)
        ensures
            views(r@) == self.context_bottoms(),
    ;

    /// the first and last line of the function with what encloses it
    fn get_context_total_lines(&self) -> (r: (usize, usize))
        ensures
            r == self.context_total_lines(),
    ;
}

/// How a function is shown between its neighbours: when both neighbours lie
/// in the same enclosing lines, only its code; when only the one before
/// does, its code and the closings; when only the one after does, the
/// headings and its code; otherwise the function with what encloses it.
pub open spec fn context_shown<T: FunctionTrait>(current: T, prev: Option<T>, next: Option<T>) -> Seq<
    char,
> {
    let tl = current.context_total_lines();
    let body = current.body_spec();
    let shown = current.display_spec();
    match (prev, next) {
        (Some(p), Some(n)) => if p.context_total_lines() == tl && n.context_total_lines() == tl {
            body
        } else if p.context_total_lines() == tl {
            body + join(current.context_bottoms(), seq!['\n'])
        } else if n.context_total_lines() == tl {
            join(current.context_tops(), seq!['\n']) + body
        } else {
            shown
        },
        (Some(p), None) => if p.context_total_lines() == tl {
            body
        } else {
            shown
        },
        (None, Some(n)) => if n.context_total_lines() == tl {
            body
        } else {
            shown
        },
        (None, None) => shown,
    }
}

/// Whether two line pairs are equal.
fn lines_eq(a: (usize, usize), b: (usize, usize)) -> (r: bool)
    ensures
        r == (a == b),
{
    a.0 == b.0 && a.1 == b.1
}

/// Shows a function between its neighbours (see `context_shown`).
pub fn fmt_with_context<T: FunctionTrait>(current: T, prev: Option<T>, next: Option<T>) -> (r:
    String)
    ensures
        r@ == context_shown(current, prev, next),
{
    let tl = FunctionTrait::get_context_total_lines(&current);
    proof {
        reveal_strlit("\n");
        assert("\n"@ =~= seq!['\n']);
    }
    match (&prev, &next) {
        (Some(p), Some(n)) => {
            let same_prev = lines_eq(FunctionTrait::get_context_total_lines(p), tl);
            let same_next = lines_eq(FunctionTrait::get_context_total_lines(n), tl);
            if same_prev && same_next {
                current.get_body()
            } else if same_prev {
                let mut s = current.get_body();
                let bottoms = FunctionTrait::get_context_bottoms(&current);
                let joined = join_strings(&bottoms, "\n");
                push_str(&mut s, joined.as_str());
                s
            } else if same_next {
                let tops = FunctionTrait::get_context_tops(&current);
                let mut s = join_strings(&tops, "\n");
                let body = current.get_body();
                push_str(&mut s, body.as_str());
                s
            } else {
                current.to_string()
            }
        },
        (Some(p), None) => {
            if lines_eq(FunctionTrait::get_context_total_lines(p), tl) {
                current.get_body()
            } else {
                current.to_string()
            }
        },
        (None, Some(n)) => {
            if lines_eq(FunctionTrait::get_context_total_lines(n), tl) {
                current.get_body()
            } else {
                current.to_string()
            }
        },
        (None, None) => current.to_string(),
    }
}

/// The lines of the parent that starts first (scanning in order, a parent
/// replaces the current start only when it starts strictly earlier).
pub open spec fn earliest_parent_lines(ps: Seq<(usize, usize)>, lines: (usize, usize)) -> (
    usize,
    usize,
)
    decreases ps.len(),
{
    if ps.len() == 0 {
        lines
    } else {
        let acc = earliest_parent_lines(ps.drop_last(), lines);
        if ps.last().0 < acc.0 {
            ps.last()
        } else {
            acc
        }
    }
}

/// The lines of the parents of a Rust function.
pub open spec fn rust_parent_lines(ps: Seq<RustParentFunction>) -> Seq<(usize, usize)> {
    Seq::new(ps.len(), |i: int| ps[i].lines)
}

/// The lines of the parents of a Python function.
pub open spec fn python_parent_lines(ps: Seq<PythonParentFunction>) -> Seq<(usize, usize)> {
    Seq::new(ps.len(), |i: int| ps[i].lines)
}

/// The lines a function spans with what encloses it, from the lines of its
/// parents.
fn earliest_lines(ps: &Vec<(usize, usize)>, lines: (usize, usize)) -> (r: (usize, usize))
    ensures
        r == earliest_parent_lines(ps@, lines),
{
    let mut acc = lines;
    let mut i: usize = 0;
    while i < ps.len()
        invariant
            i <= ps.len(),
            acc == earliest_parent_lines(ps@.take(i as int), lines),
        decreases ps.len() - i,
    {
        assert(ps@.take(i + 1).drop_last() =~= ps@.take(i as int));
        if ps[i].0 < acc.0 {
            acc = ps[i];
        }
        i += 1;
    }
    assert(ps@.take(ps.len() as int) =~= ps@);
    acc
}

impl FunctionTrait for RustFunction {
    open spec fn context_tops(&self) -> Seq<Seq<char>> {
        let ps = Seq::new(self.function@.len(), |i: int| self.function@[i].top@);
        match self.block {
            Some(b) => seq![b.top@] + ps,
            None => ps,
        }
    }

    open spec fn context_bottoms(&self) -> Seq<Seq<char>> {
        let ps = Seq::new(self.function@.len(), |i: int| self.function@[i].bottom@);
        match self.block {
            Some(b) => seq![b.bottom@] + ps,
            None => ps,
        }
    }

    open spec fn context_total_lines(&self) -> (usize, usize) {
        match self.block {
            Some(b) => (b.lines.0, self.lines.1),
            None => earliest_parent_lines(rust_parent_lines(self.function@), self.lines),
        }
    }

    fn get_context_tops(&self) -> (r: Vec<String>) {
        let mut tops: Vec<String> = Vec::new();
        if let Some(b) = &self.block {
            push_string(&mut tops, clone_string(&b.top));
        }
        let ghost t0 = views(tops@);
        let mut i: usize = 0;
        while i < self.function.len()
            invariant
                i <= self.function.len(),
                views(tops@) == t0 + Seq::new(i as nat, |j: int| self.function@[j].top@),
            decreases self.function.len() - i,
        {
            push_string(&mut tops, clone_string(&self.function[i].top));
            assert(views(tops@) =~= t0 + Seq::new((i + 1) as nat, |j: int| self.function@[j].top@));
            i += 1;
        }
        assert(views(tops@) =~= self.context_tops());
        tops
    }

    fn get_context_bottoms(&self) -> (r: Vec<String>) {
        let mut bottoms: Vec<String> = Vec::new();
        if let Some(b) = &self.block {
            push_string(&mut bottoms, clone_string(&b.bottom));
        }
        let ghost t0 = views(bottoms@);
        let mut i: usize = 0;
        while i < self.function.len()
            invariant
                i <= self.function.len(),
                views(bottoms@) == t0 + Seq::new(i as nat, |j: int| self.function@[j].bottom@),
            decreases self.function.len() - i,
        {
            push_string(&mut bottoms, clone_string(&self.function[i].bottom));
            assert(views(bottoms@) =~= t0 + Seq::new(
                (i + 1) as nat,
                |j: int| self.function@[j].bottom@,
            ));
            i += 1;
        }
        assert(views(bottoms@) =~= self.context_bottoms());
        bottoms
    }

    fn get_context_total_lines(&self) -> (r: (usize, usize)) {
        match &self.block {
            Some(b) => (b.lines.0, self.lines.1),
            None => {
                let mut ls: Vec<(usize, usize)> = Vec::new();
                let mut i: usize = 0;
                while i < self.function.len()
                    invariant
                        i <= self.function.len(),
                        ls@ == rust_parent_lines(self.function@).take(i as int),
                    decreases self.function.len() - i,
                {
                    ls.push(self.function[i].lines);
                    assert(ls@ =~= rust_parent_lines(self.function@).take(i + 1));
                    i += 1;
                }
                assert(ls@ =~= rust_parent_lines(self.function@));
                earliest_lines(&ls, self.lines)
            },
        }
    }
}

/// The headings of the classes of a Python function.
pub open spec fn python_class_tops(cs: Seq<PythonClass>) -> Seq<Seq<char>> {
    Seq::new(cs.len(), |i: int| cs[i].top@)
}

impl FunctionTrait for PythonFunction {
    open spec fn context_tops(&self) -> Seq<Seq<char>> {
        python_class_tops(self.class@) + Seq::new(self.parent@.len(), |i: int| self.parent@[i].top@)
    }

    open spec fn context_bottoms(&self) -> Seq<Seq<char>> {
        seq![]
    }

    open spec fn context_total_lines(&self) -> (usize, usize) {
        if self.class@.len() > 0 {
            (self.class@[0].lines.0, self.lines.1)
        } else {
            earliest_parent_lines(python_parent_lines(self.parent@), self.lines)
        }
    }

    fn get_context_tops(&self) -> (r: Vec<String>) {
        let mut tops: Vec<String> = Vec::new();
        let mut i: usize = 0;
        while i < self.class.len()
            invariant
                i <= self.class.len(),
                views(tops@) == python_class_tops(self.class@).take(i as int),
            decreases self.class.len() - i,
        {
            push_string(&mut tops, clone_string(&self.class[i].top));
            assert(views(tops@) =~= python_class_tops(self.class@).take(i + 1));
            i += 1;
        }
        let ghost t0 = views(tops@);
        assert(t0 =~= python_class_tops(self.class@));
        let mut i: usize = 0;
        while i < self.parent.len()
            invariant
                i <= self.parent.len(),
                views(tops@) == t0 + Seq::new(i as nat, |j: int| self.parent@[j].top@),
            decreases self.parent.len() - i,
        {
            push_string(&mut tops, clone_string(&self.parent[i].top));
            assert(views(tops@) =~= t0 + Seq::new((i + 1) as nat, |j: int| self.parent@[j].top@));
            i += 1;
        }
        assert(views(tops@) =~= self.context_tops());
        tops
    }

    fn get_context_bottoms(&self) -> (r: Vec<String>) {
        let r: Vec<String> = Vec::new();
        assert(views(r@) =~= seq![]);
        r
    }

    fn get_context_total_lines(&self) -> (r: (usize, usize)) {
        if self.class.len() > 0 {
            (self.class[0].lines.0, self.lines.1)
        } else {
            let mut ls: Vec<(usize, usize)> = Vec::new();
            let mut i: usize = 0;
            while i < self.parent.len()
                invariant
                    i <= self.parent.len(),
                    ls@ == python_parent_lines(self.parent@).take(i as int),
                decreases self.parent.len() - i,
            {
                ls.push(self.parent[i].lines);
                assert(ls@ =~= python_parent_lines(self.parent@).take(i + 1));
                i += 1;
            }
            assert(ls@ =~= python_parent_lines(self.parent@));
            earliest_lines(&ls, self.lines)
        }
    }
}

/// The functions of one language found in one file.
#[derive(Debug)]
pub struct File<T> {
    /// the name of the file
    pub file_name: String,
    /// the functions found in it
    pub functions: Vec<T>,
}

impl<T: FunctionTrait> File<T> {
    /// returns the name of the file
    pub fn get_file_name(&self) -> (r: String)
        ensures
            r@ == self.file_name@,
    {
        clone_string(&self.file_name)
    }

    /// returns copies of the functions of the file
    pub fn get_functions(&self) -> (r: Vec<T>)
        ensures
            r@.len() == self.functions@.len(),
            forall|i: int| 0 <= i < r@.len() ==> (#[trigger] r@[i]).same(&self.functions@[i]),
    {
        let mut r: Vec<T> = Vec::new();
        let mut i: usize = 0;
        while i < self.functions.len()
            invariant
                i <= self.functions.len(),
                r@.len() == i,
                forall|j: int| 0 <= j < i ==> (#[trigger] r@[j]).same(&self.functions@[j]),
            decreases self.functions.len() - i,
        {
            r.push(self.functions[i].duplicate());
            i += 1;
        }
        r
    }
}

/// A file of one of the languages.
#[derive(Debug)]
pub enum FileType {
    /// a file of Rust functions
    Rust(File<RustFunction>),
    /// a file of Python functions
    Python(File<PythonFunction>),
}

/// The functions of a file, of its language.
#[derive(Debug)]
pub enum FileFunctions {
    /// Rust functions
    Rust(Vec<RustFunction>),
    /// Python functions
    Python(Vec<PythonFunction>),
}

impl FileType {
    /// The name of the file.
    pub open spec fn file_name_spec(&self) -> Seq<char> {
        match self {
            FileType::Rust(f) => f.file_name@,
            FileType::Python(f) => f.file_name@,
        }
    }

    /// returns the name of the file
    pub fn get_file_name(&self) -> (r: String)
        ensures
            r@ == self.file_name_spec(),
    {
        match self {
            FileType::Rust(f) => f.get_file_name(),
            FileType::Python(f) => f.get_file_name(),
        }
    }

    /// returns copies of the functions of the file
    pub fn get_functions(&self) -> (r: FileFunctions)
        ensures
            match (*self, r) {
                (FileType::Rust(f), FileFunctions::Rust(v)) => v@.len() == f.functions@.len()
                    && forall|i: int| 0 <= i < v@.len() ==> crate::languages::FunctionTrait::same(&#[trigger] v@[i], &f.functions@[i]),
                (FileType::Python(f), FileFunctions::Python(v)) => v@.len() == f.functions@.len()
                    && forall|i: int| 0 <= i < v@.len() ==> crate::languages::FunctionTrait::same(&#[trigger] v@[i], &f.functions@[i]),
                _ => false,
            },
    {
        match self {
            FileType::Rust(f) => FileFunctions::Rust(f.get_functions()),
            FileType::Python(f) => FileFunctions::Python(f.get_functions()),
        }
    }
}

} // verus!
