//! Python functions, the classes and parent functions around them, their
//! parameters, and the filters over them.
use vstd::prelude::*;

use super::{str_eq, FunctionTrait, Language, LanguageFilter, LanguageFunction};
use crate::text::contains_seq;
use crate::text::str_contains;
use crate::text::{
    clone_opt_string, clone_string, concat_all, lemma_concat_all_push, pair_views, push_str,
    sort_by_line, sort_entries_by_line,
};

verus! {

/// A single parameter of a python function
#[derive(Debug)]
pub struct Param {
    /// The name of the parameter
    pub name: String,
    /// The optional type of the parameter
    pub param_type: Option<String>,
}

/// The parameters of a python function
/// refer to python docs for more info
/// note: currently we don't save default values
#[derive(Debug)]
pub struct PythonParams {
    /// the ordinary parameters
    pub args: Vec<Param>,
    /// the keyword-only parameters
    pub kwargs: Vec<Param>,
    /// the positional-only parameters
    pub posonlyargs: Vec<Param>,
    /// the `*args` parameter
    pub varargs: Option<Param>,
    /// the `**kwargs` parameter
    pub varkwargs: Option<Param>,
}

/// A python class
#[derive(Debug)]
pub struct PythonClass {
    /// the name of the class
    pub name: String,
    /// the (line numbered) first line of the class
    pub top: String,
    /// the first and last line of the class
    pub lines: (usize, usize),
    /// the decorators of the class, each with its line
    pub decorators: Vec<(usize, String)>,
}

/// A python function that is a parent of another python function, we don't keep the body of the function
#[derive(Debug)]
pub struct PythonParentFunction {
    /// the name of the function
    pub name: String,
    /// the (line numbered) first line of the function
    pub top: String,
    /// the first and last line of the function
    pub lines: (usize, usize),
    /// the parameters of the function
    pub parameters: PythonParams,
    /// the decorators of the function, each with its line
    pub decorators: Vec<(usize, String)>,
    /// the return type of the function
    pub return_type: Option<String>,
}

/// A python function
#[derive(Debug)]
pub struct PythonFunction {
    /// the name of the function
    pub name: String,
    /// the (line numbered) code of the function
    pub body: String,
    /// the parameters of the function
    pub parameters: PythonParams,
    /// the functions this one is nested in, outermost first
    pub parent: Vec<PythonParentFunction>,
    /// the decorators of the function, each with its line
    pub decorators: Vec<(usize, String)>,
    /// the classes this function is in, outermost first
    pub class: Vec<PythonClass>,
    /// the first and last line of the function
    pub lines: (usize, usize),
    /// the return type of the function
    pub return_type: Option<String>,
}

/// Whether some parameter of the list has the name.
pub open spec fn param_named(ps: Seq<Param>, name: Seq<char>) -> bool {
    exists|i: int| 0 <= i < ps.len() && (#[trigger] ps[i]).name@ == name
}

/// Whether an optional parameter has the name.
pub open spec fn opt_param_named(p: Option<Param>, name: Seq<char>) -> bool {
    p matches Some(x) && x.name@ == name
}

/// Whether a parameter with the given name exists.
pub open spec fn params_have_name(p: PythonParams, name: Seq<char>) -> bool {
    ||| param_named(p.args@, name)
    ||| param_named(p.kwargs@, name)
    ||| param_named(p.posonlyargs@, name)
    ||| opt_param_named(p.varargs, name)
    ||| opt_param_named(p.varkwargs, name)
}

/// Whether some parameter of the list has the name (executable).
fn any_param_named(ps: &Vec<Param>, name: &str) -> (r: bool)
    ensures
        r == param_named(ps@, name@),
{
    let mut i: usize = 0;
    while i < ps.len()
        invariant
            i <= ps.len(),
            forall|j: int| 0 <= j < i ==> (#[trigger] ps@[j]).name@ != name@,
        decreases ps.len() - i,
    {
        if str_eq(ps[i].name.as_str(), name) {
            return true;
        }
        i += 1;
    }
    false
}

impl Param {
    /// Whether two parameters hold the same values.
    pub open spec fn same(&self, o: &Param) -> bool {
        self.name@ == o.name@ && self.param_type == o.param_type
    }

    /// A copy of the parameter.
    pub fn duplicate(&self) -> (r: Param)
        ensures
            r.same(self),
    {
        Param { name: clone_string(&self.name), param_type: clone_opt_string(&self.param_type) }
    }
}

/// Whether two lists of parameters hold the same values.
pub open spec fn same_params(a: Seq<Param>, b: Seq<Param>) -> bool {
    a.len() == b.len() && forall|i: int| 0 <= i < a.len() ==> (#[trigger] a[i]).same(&b[i])
}

/// A copy of a list of parameters.
fn duplicate_param_list(v: &Vec<Param>) -> (r: Vec<Param>)
    ensures
        same_params(r@, v@),
{
    let mut r: Vec<Param> = Vec::new();
    let mut i: usize = 0;
    while i < v.len()
        invariant
            i <= v.len(),
            r@.len() == i,
            forall|j: int| 0 <= j < i ==> (#[trigger] r@[j]).same(&v@[j]),
        decreases v.len() - i,
    {
        r.push(v[i].duplicate());
        i += 1;
    }
    r
}

/// A copy of an optional parameter.
fn duplicate_opt_param(p: &Option<Param>) -> (r: Option<Param>)
    ensures
        r is Some == p is Some,
        r is Some ==> r->0.same(&p->0),
{
    match p {
        Some(x) => Some(x.duplicate()),
        None => None,
    }
}

impl PythonParams {
    /// Whether two sets of parameters hold the same values.
    pub open spec fn same(&self, o: &PythonParams) -> bool {
        &&& same_params(self.args@, o.args@)
        &&& same_params(self.kwargs@, o.kwargs@)
        &&& same_params(self.posonlyargs@, o.posonlyargs@)
        &&& (self.varargs is Some <==> o.varargs is Some)
        &&& (self.varargs is Some ==> self.varargs->0.same(&o.varargs->0))
        &&& (self.varkwargs is Some <==> o.varkwargs is Some)
        &&& (self.varkwargs is Some ==> self.varkwargs->0.same(&o.varkwargs->0))
    }

    /// A copy of the parameters.
    pub fn duplicate(&self) -> (r: PythonParams)
        ensures
            r.same(self),
    {
        PythonParams {
            args: duplicate_param_list(&self.args),
            kwargs: duplicate_param_list(&self.kwargs),
            posonlyargs: duplicate_param_list(&self.posonlyargs),
            varargs: duplicate_opt_param(&self.varargs),
            varkwargs: duplicate_opt_param(&self.varkwargs),
        }
    }
}

impl PythonParams {
    /// Check if a parameter with the given name exists
    pub fn arg_has_name(&self, name: &str) -> (r: bool)
        ensures
            r == params_have_name(*self, name@),
    {
        any_param_named(&self.args, name) || any_param_named(&self.kwargs, name)
            || any_param_named(&self.posonlyargs, name) || match &self.varargs {
            Some(a) => str_eq(a.name.as_str(), name),
            None => false,
        } || match &self.varkwargs {
            Some(a) => str_eq(a.name.as_str(), name),
            None => false,
        }
    }
}

/// filters for python functions
pub enum PythonFilter {
    /// when you want to filter by function that are in a specific class
    InClass(String),
    /// when you want filter by a function that has a parent function of a specific name
    HasParentFunction(String),
    /// when you want to filter by a function that has a has a specific return type
    HasReturnType(String),
    /// when you want to filter by a function that has a specific parameter name
    HasParameterName(String),
    /// when you want to filter by a function that has a specific decorator
    HasDecorator(String),
    /// when you want to filter by a function thats class has a specific decorator
    HasClasswithDecorator(String),
    /// when you want to filter by a function that's parent function has a specific decorator
    HasParentFunctionwithDecorator(String),
    /// when you want to filter by a function that's parent function has a specific parameter name
    HasParentFunctionwithParameterName(String),
    /// when you want to filter by a function that's parent function has a specific return type
    HasParentFunctionwithReturnType(String),
}

/// Whether some decorator contains the text.
pub open spec fn decorator_contains(ds: Seq<(usize, String)>, d: Seq<char>) -> bool {
    exists|i: int| 0 <= i < ds.len() && contains_seq((#[trigger] ds[i]).1@, d)
}

/// Whether an optional return type is the given one.
pub open spec fn return_is(o: Option<String>, t: Seq<char>) -> bool {
    o matches Some(x) && x@ == t
}

/// Whether a python function matches a filter.
pub open spec fn python_matches(flt: PythonFilter, f: PythonFunction) -> bool {
    match flt {
        PythonFilter::InClass(c) => exists|i: int|
            0 <= i < f.class@.len() && (#[trigger] f.class@[i]).name@ == c@,
        PythonFilter::HasParentFunction(p) => exists|i: int|
            0 <= i < f.parent@.len() && (#[trigger] f.parent@[i]).name@ == p@,
        PythonFilter::HasReturnType(t) => return_is(f.return_type, t@),
        PythonFilter::HasParameterName(n) => params_have_name(f.parameters, n@),
        PythonFilter::HasDecorator(d) => decorator_contains(f.decorators@, d@),
        PythonFilter::HasClasswithDecorator(d) => exists|i: int|
            0 <= i < f.class@.len() && decorator_contains((#[trigger] f.class@[i]).decorators@, d@),
        PythonFilter::HasParentFunctionwithDecorator(d) => exists|i: int|
            0 <= i < f.parent@.len() && decorator_contains(
                (#[trigger] f.parent@[i]).decorators@,
                d@,
            ),
        PythonFilter::HasParentFunctionwithParameterName(n) => exists|i: int|
            0 <= i < f.parent@.len() && params_have_name((#[trigger] f.parent@[i]).parameters, n@),
        PythonFilter::HasParentFunctionwithReturnType(t) => exists|i: int|
            0 <= i < f.parent@.len() && return_is((#[trigger] f.parent@[i]).return_type, t@),
    }
}

/// Whether some decorator contains the text (executable).
fn any_decorator_contains(ds: &Vec<(usize, String)>, d: &str) -> (r: bool)
    ensures
        r == decorator_contains(ds@, d@),
{
    let mut i: usize = 0;
    while i < ds.len()
        invariant
            i <= ds.len(),
            forall|j: int| 0 <= j < i ==> !contains_seq((#[trigger] ds@[j]).1@, d@),
        decreases ds.len() - i,
    {
        if str_contains(ds[i].1.as_str(), d) {
            return true;
        }
        i += 1;
    }
    false
}

/// Whether an optional return type is the given one (executable).
fn return_equals(o: &Option<String>, t: &str) -> (r: bool)
    ensures
        r == return_is(*o, t@),
{
    match o {
        Some(x) => str_eq(x.as_str(), t),
        None => false,
    }
}

/// What a filter asks of one class.
pub open spec fn class_property(flt: PythonFilter, c: PythonClass) -> bool {
    match flt {
        PythonFilter::InClass(n) => c.name@ == n@,
        PythonFilter::HasClasswithDecorator(d) => decorator_contains(c.decorators@, d@),
        _ => false,
    }
}

/// What a filter asks of one parent function.
pub open spec fn parent_property(flt: PythonFilter, p: PythonParentFunction) -> bool {
    match flt {
        PythonFilter::HasParentFunction(n) => p.name@ == n@,
        PythonFilter::HasParentFunctionwithDecorator(d) => decorator_contains(p.decorators@, d@),
        PythonFilter::HasParentFunctionwithParameterName(n) => params_have_name(p.parameters, n@),
        PythonFilter::HasParentFunctionwithReturnType(t) => return_is(p.return_type, t@),
        _ => false,
    }
}

/// Whether some class has what the filter asks (executable).
fn any_class_has(flt: &PythonFilter, cs: &Vec<PythonClass>) -> (r: bool)
    ensures
        r == (exists|i: int| 0 <= i < cs@.len() && class_property(*flt, #[trigger] cs@[i])),
{
    let mut i: usize = 0;
    while i < cs.len()
        invariant
            i <= cs.len(),
            forall|j: int| 0 <= j < i ==> !class_property(*flt, #[trigger] cs@[j]),
        decreases cs.len() - i,
    {
        let c = &cs[i];
        let hit = match flt {
            PythonFilter::InClass(n) => str_eq(c.name.as_str(), n.as_str()),
            PythonFilter::HasClasswithDecorator(d) => any_decorator_contains(
                &c.decorators,
                d.as_str(),
            ),
            _ => false,
        };
        if hit {
            return true;
        }
        i += 1;
    }
    false
}

/// Whether some parent function has what the filter asks (executable).
fn any_parent_has(flt: &PythonFilter, ps: &Vec<PythonParentFunction>) -> (r: bool)
    ensures
        r == (exists|i: int| 0 <= i < ps@.len() && parent_property(*flt, #[trigger] ps@[i])),
{
    let mut i: usize = 0;
    while i < ps.len()
        invariant
            i <= ps.len(),
            forall|j: int| 0 <= j < i ==> !parent_property(*flt, #[trigger] ps@[j]),
        decreases ps.len() - i,
    {
        let p = &ps[i];
        let hit = match flt {
            PythonFilter::HasParentFunction(n) => str_eq(p.name.as_str(), n.as_str()),
            PythonFilter::HasParentFunctionwithDecorator(d) => any_decorator_contains(
                &p.decorators,
                d.as_str(),
            ),
            PythonFilter::HasParentFunctionwithParameterName(n) => p.parameters.arg_has_name(
                n.as_str(),
            ),
            PythonFilter::HasParentFunctionwithReturnType(t) => return_equals(
                &p.return_type,
                t.as_str(),
            ),
            _ => false,
        };
        if hit {
            return true;
        }
        i += 1;
    }
    false
}

impl PythonFilter {
    /// checks if a function matches the filter
    pub fn matches(&self, function: &PythonFunction) -> (r: bool)
        ensures
            r == python_matches(*self, *function),
    {
        match self {
            PythonFilter::HasReturnType(t) => return_equals(&function.return_type, t.as_str()),
            PythonFilter::HasParameterName(n) => function.parameters.arg_has_name(n.as_str()),
            PythonFilter::HasDecorator(d) => any_decorator_contains(
                &function.decorators,
                d.as_str(),
            ),
            PythonFilter::InClass(_) | PythonFilter::HasClasswithDecorator(_) => {
                let r = any_class_has(self, &function.class);
                proof {
                    if r {
                        let i = choose|i: int|
                            0 <= i < function.class@.len() && class_property(
                                *self,
                                #[trigger] function.class@[i],
                            );
                        assert(function.class@[i] == function.class@[i]);
                    }
                }
                r
            },
            _ => {
                let r = any_parent_has(self, &function.parent);
                proof {
                    if r {
                        let i = choose|i: int|
                            0 <= i < function.parent@.len() && parent_property(
                                *self,
                                #[trigger] function.parent@[i],
                            );
                        assert(function.parent@[i] == function.parent@[i]);
                    }
                }
                r
            },
        }
    }
}


// ---------------------------------------------------------------- shown and copied

/// Decorators as (text, line) entries.
pub open spec fn decorator_entries(ds: Seq<(usize, String)>) -> Seq<(Seq<char>, usize)> {
    Seq::new(ds.len(), |i: int| (ds[i].1@, ds[i].0))
}

/// What a class or parent function is shown with: its heading, its lines
/// and its decorators.
pub type HeadingView = (Seq<char>, (usize, usize), Seq<(usize, String)>);

/// The heading views of classes.
pub open spec fn class_views(cs: Seq<PythonClass>) -> Seq<HeadingView> {
    Seq::new(cs.len(), |i: int| (cs[i].top@, cs[i].lines, cs[i].decorators@))
}

/// The heading views of parent functions.
pub open spec fn parent_views(ps: Seq<PythonParentFunction>) -> Seq<HeadingView> {
    Seq::new(ps.len(), |i: int| (ps[i].top@, ps[i].lines, ps[i].decorators@))
}

/// Headings, each followed by its decorators, as (text, line) entries.
pub open spec fn heading_entries(hs: Seq<HeadingView>) -> Seq<(Seq<char>, usize)>
    decreases hs.len(),
{
    if hs.len() == 0 {
        seq![]
    } else {
        heading_entries(hs.drop_last()) + seq![(hs.last().0, hs.last().1.0)] + decorator_entries(
            hs.last().2,
        )
    }
}

/// The headings around a Python function, ordered by line: its classes
/// (each with its decorators), its own decorators, and its parent functions
/// (each with its decorators).
pub open spec fn python_tops(f: PythonFunction) -> Seq<(Seq<char>, usize)> {
    sort_by_line(
        heading_entries(class_views(f.class@)) + decorator_entries(f.decorators@)
            + heading_entries(parent_views(f.parent@)),
    )
}

/// The smaller of two (first, last) line pairs, first by first line.
pub open spec fn min_lines(a: (usize, usize), b: (usize, usize)) -> (usize, usize) {
    if b.0 < a.0 || (b.0 == a.0 && b.1 < a.1) {
        b
    } else {
        a
    }
}

/// The smallest line pair of a sequence, or `default` when it is empty.
pub open spec fn least_lines(ls: Seq<(usize, usize)>, default: (usize, usize)) -> (usize, usize)
    decreases ls.len(),
{
    if ls.len() == 0 {
        default
    } else if ls.len() == 1 {
        ls[0]
    } else {
        min_lines(least_lines(ls.drop_last(), default), ls.last())
    }
}

/// The lines of a Python function with what encloses it: the smallest line
/// pair of its classes and parent functions, or its own lines.
pub open spec fn python_total_lines(f: PythonFunction) -> (usize, usize) {
    let cs = class_views(f.class@);
    let ps = parent_views(f.parent@);
    least_lines(
        Seq::new(cs.len(), |i: int| cs[i].1) + Seq::new(ps.len(), |i: int| ps[i].1),
        f.lines,
    )
}

/// The separator between the parts of a shown function.
pub open spec fn sep() -> Seq<char> {
    seq!['\n', '.', '.', '.', '\n']
}

/// Decorators shown, each followed by the separator.
pub open spec fn decorators_shown(ds: Seq<(usize, String)>) -> Seq<char> {
    concat_all(Seq::new(ds.len(), |i: int| ds[i].1@ + sep()))
}

/// Headings shown: each one's decorators, then the heading, each followed
/// by the separator.
pub open spec fn headings_shown(hs: Seq<HeadingView>) -> Seq<char>
    decreases hs.len(),
{
    if hs.len() == 0 {
        seq![]
    } else {
        headings_shown(hs.drop_last()) + decorators_shown(hs.last().2) + hs.last().0 + sep()
    }
}

/// How a Python function is shown: its classes, its parents, its own
/// decorators, then its code.
pub open spec fn python_display(f: PythonFunction) -> Seq<char> {
    headings_shown(class_views(f.class@)) + headings_shown(parent_views(f.parent@))
        + decorators_shown(f.decorators@) + f.body@
}

impl PythonClass {
    /// Whether two classes hold the same values.
    pub open spec fn same(&self, o: &PythonClass) -> bool {
        self.name == o.name && self.top == o.top && self.lines == o.lines && self.decorators@
            == o.decorators@
    }

    /// A copy of the class.
    pub fn duplicate(&self) -> (r: PythonClass)
        ensures
            r.same(self),
    {
        PythonClass {
            name: clone_string(&self.name),
            top: clone_string(&self.top),
            lines: self.lines,
            decorators: duplicate_decorators(&self.decorators),
        }
    }
}

impl PythonParentFunction {
    /// Whether two parent functions hold the same values.
    pub open spec fn same(&self, o: &PythonParentFunction) -> bool {
        self.name == o.name && self.top == o.top && self.lines == o.lines
            && self.parameters.same(&o.parameters) && self.decorators@ == o.decorators@
            && self.return_type == o.return_type
    }

    /// A copy of the parent function.
    pub fn duplicate(&self) -> (r: PythonParentFunction)
        ensures
            r.same(self),
    {
        PythonParentFunction {
            name: clone_string(&self.name),
            top: clone_string(&self.top),
            lines: self.lines,
            parameters: self.parameters.duplicate(),
            decorators: duplicate_decorators(&self.decorators),
            return_type: clone_opt_string(&self.return_type),
        }
    }
}

/// A copy of decorators.
fn duplicate_decorators(v: &Vec<(usize, String)>) -> (r: Vec<(usize, String)>)
    ensures
        r@ == v@,
{
    let mut r: Vec<(usize, String)> = Vec::new();
    let mut i: usize = 0;
    while i < v.len()
        invariant
            i <= v.len(),
            r@ == v@.take(i as int),
        decreases v.len() - i,
    {
        r.push((v[i].0, clone_string(&v[i].1)));
        assert(v@.take(i as int).push(v@[i as int]) =~= v@.take(i + 1));
        i += 1;
    }
    assert(v@.take(v.len() as int) =~= v@);
    r
}

/// Whether two lists of classes hold the same values.
pub open spec fn same_classes(a: Seq<PythonClass>, b: Seq<PythonClass>) -> bool {
    a.len() == b.len() && forall|i: int| 0 <= i < a.len() ==> (#[trigger] a[i]).same(&b[i])
}

/// Whether two lists of parent functions hold the same values.
pub open spec fn same_parents(a: Seq<PythonParentFunction>, b: Seq<PythonParentFunction>) -> bool {
    a.len() == b.len() && forall|i: int| 0 <= i < a.len() ==> (#[trigger] a[i]).same(&b[i])
}


/// Appends decorators as (text, line) entries.
fn push_decorator_entries(e: &mut Vec<(String, usize)>, ds: &Vec<(usize, String)>)
    ensures
        pair_views(final(e)@) == pair_views(old(e)@) + decorator_entries(ds@),
{
    let ghost e0 = pair_views(e@);
    let mut i: usize = 0;
    while i < ds.len()
        invariant
            i <= ds.len(),
            pair_views(e@) == e0 + decorator_entries(ds@).take(i as int),
        decreases ds.len() - i,
    {
        let ghost before = e@;
        e.push((clone_string(&ds[i].1), ds[i].0));
        assert(pair_views(e@) =~= pair_views(before).push((ds@[i as int].1@, ds@[i as int].0)));
        assert(decorator_entries(ds@).take(i + 1) =~= decorator_entries(ds@).take(i as int).push(
            (ds@[i as int].1@, ds@[i as int].0),
        ));
        assert(pair_views(e@) =~= e0 + decorator_entries(ds@).take(i + 1));
        i += 1;
    }
    assert(decorator_entries(ds@).take(ds.len() as int) =~= decorator_entries(ds@));
}

/// Appends shown decorators.
fn push_decorators_shown(s: &mut String, ds: &Vec<(usize, String)>)
    ensures
        final(s)@ == old(s)@ + decorators_shown(ds@),
{
    let ghost s0 = s@;
    let mut i: usize = 0;
    while i < ds.len()
        invariant
            i <= ds.len(),
            s@ == s0 + concat_all(Seq::new(i as nat, |j: int| ds@[j].1@ + sep())),
        decreases ds.len() - i,
    {
        proof {
            reveal_strlit("\n...\n");
            lemma_concat_all_push(
                Seq::new(i as nat, |j: int| ds@[j].1@ + sep()),
                ds@[i as int].1@ + sep(),
            );
            assert(Seq::new(i as nat, |j: int| ds@[j].1@ + sep()).push(ds@[i as int].1@ + sep())
                =~= Seq::new((i + 1) as nat, |j: int| ds@[j].1@ + sep()));
        }
        push_str(s, ds[i].1.as_str());
        push_str(s, "\n...\n");
        i += 1;
    }
    assert(Seq::new(ds@.len(), |j: int| ds@[j].1@ + sep()) =~= Seq::new(
        ds.len() as nat,
        |j: int| ds@[j].1@ + sep(),
    ));
}

impl FunctionTrait for PythonFunction {
    open spec fn same(&self, o: &Self) -> bool {
        &&& self.name == o.name
        &&& self.body == o.body
        &&& self.parameters.same(&o.parameters)
        &&& same_parents(self.parent@, o.parent@)
        &&& self.decorators@ == o.decorators@
        &&& same_classes(self.class@, o.class@)
        &&& self.lines == o.lines
        &&& self.return_type == o.return_type
    }

    open spec fn lines_spec(&self) -> (usize, usize) {
        self.lines
    }

    open spec fn total_lines_spec(&self) -> (usize, usize) {
        python_total_lines(*self)
    }

    open spec fn name_spec(&self) -> Seq<char> {
        self.name@
    }

    open spec fn body_spec(&self) -> Seq<char> {
        self.body@
    }

    open spec fn tops_spec(&self) -> Seq<(Seq<char>, usize)> {
        python_tops(*self)
    }

    open spec fn bottoms_spec(&self) -> Seq<(Seq<char>, usize)> {
        seq![]
    }

    open spec fn display_spec(&self) -> Seq<char> {
        python_display(*self)
    }

    proof fn lemma_same(&self, other: &Self) {
        assert(class_views(self.class@) =~= class_views(other.class@)) by {
            assert forall|i: int| 0 <= i < self.class@.len() implies class_views(self.class@)[i]
                == class_views(other.class@)[i] by {
                assert(self.class@[i].same(&other.class@[i]));
            }
        }
        assert(parent_views(self.parent@) =~= parent_views(other.parent@)) by {
            assert forall|i: int| 0 <= i < self.parent@.len() implies parent_views(self.parent@)[i]
                == parent_views(other.parent@)[i] by {
                assert(self.parent@[i].same(&other.parent@[i]));
            }
        }
        assert forall|i: int| 0 <= i < other.class@.len() implies (#[trigger] other.class@[i]).same(
            &self.class@[i],
        ) by {
            assert(self.class@[i].same(&other.class@[i]));
        }
        assert forall|i: int| 0 <= i < other.parent@.len() implies (
        #[trigger] other.parent@[i]).same(&self.parent@[i]) by {
            assert(self.parent@[i].same(&other.parent@[i]));
            lemma_params_same_sym(self.parent@[i].parameters, other.parent@[i].parameters);
        }
        lemma_params_same_sym(self.parameters, other.parameters);
    }

    fn get_lines(&self) -> (r: (usize, usize)) {
        self.lines
    }

    fn get_total_lines(&self) -> (r: (usize, usize)) {
        let ghost cs = class_views(self.class@);
        let ghost ps = parent_views(self.parent@);
        let ghost all = Seq::new(cs.len(), |i: int| cs[i].1) + Seq::new(ps.len(), |i: int| ps[i].1);
        let mut ls: Vec<(usize, usize)> = Vec::new();
        let mut i: usize = 0;
        while i < self.class.len()
            invariant
                i <= self.class.len(),
                cs == class_views(self.class@),
                ls@ == Seq::new(cs.len(), |j: int| cs[j].1).take(i as int),
            decreases self.class.len() - i,
        {
            ls.push(self.class[i].lines);
            assert(ls@ =~= Seq::new(cs.len(), |j: int| cs[j].1).take(i + 1));
            i += 1;
        }
        let mut i: usize = 0;
        while i < self.parent.len()
            invariant
                i <= self.parent.len(),
                cs == class_views(self.class@),
                ps == parent_views(self.parent@),
                ls@ == Seq::new(cs.len(), |j: int| cs[j].1) + Seq::new(ps.len(), |j: int| ps[j].1).take(
                    i as int,
                ),
            decreases self.parent.len() - i,
        {
            ls.push(self.parent[i].lines);
            assert(ls@ =~= Seq::new(cs.len(), |j: int| cs[j].1) + Seq::new(
                ps.len(),
                |j: int| ps[j].1,
            ).take(i + 1));
            i += 1;
        }
        assert(ls@ =~= all);
        if ls.len() == 0 {
            return self.lines;
        }
        let mut acc = ls[0];
        let mut k: usize = 1;
        assert(ls@.take(1) =~= seq![ls@[0]]);
        while k < ls.len()
            invariant
                1 <= k <= ls.len(),
                acc == least_lines(ls@.take(k as int), self.lines),
            decreases ls.len() - k,
        {
            assert(ls@.take(k + 1).drop_last() =~= ls@.take(k as int));
            let x = ls[k];
            if x.0 < acc.0 || (x.0 == acc.0 && x.1 < acc.1) {
                acc = x;
            }
            k += 1;
        }
        assert(ls@.take(ls.len() as int) =~= ls@);
        acc
    }

    fn get_name(&self) -> (r: String) {
        clone_string(&self.name)
    }

    fn get_body(&self) -> (r: String) {
        clone_string(&self.body)
    }

    fn get_tops(&self) -> (r: Vec<(String, usize)>) {
        let mut e: Vec<(String, usize)> = Vec::new();
        let ghost cs = class_views(self.class@);
        let mut i: usize = 0;
        assert(pair_views(e@) =~= heading_entries(cs.take(0)));
        while i < self.class.len()
            invariant
                i <= self.class.len(),
                cs == class_views(self.class@),
                pair_views(e@) == heading_entries(cs.take(i as int)),
            decreases self.class.len() - i,
        {
            let c = &self.class[i];
            e.push((clone_string(&c.top), c.lines.0));
            push_decorator_entries(&mut e, &c.decorators);
            assert(cs.take(i + 1).drop_last() =~= cs.take(i as int));
            assert(pair_views(e@) =~= heading_entries(cs.take(i + 1)));
            i += 1;
        }
        assert(cs.take(cs.len() as int) =~= cs);
        push_decorator_entries(&mut e, &self.decorators);
        let ghost mid = pair_views(e@);
        let ghost ps = parent_views(self.parent@);
        let mut i: usize = 0;
        assert(pair_views(e@) =~= mid + heading_entries(ps.take(0)));
        while i < self.parent.len()
            invariant
                i <= self.parent.len(),
                ps == parent_views(self.parent@),
                pair_views(e@) == mid + heading_entries(ps.take(i as int)),
            decreases self.parent.len() - i,
        {
            let p = &self.parent[i];
            let ghost before = e@;
            e.push((clone_string(&p.top), p.lines.0));
            assert(pair_views(e@) =~= pair_views(before).push((p.top@, p.lines.0)));
            let ghost after = pair_views(e@);
            push_decorator_entries(&mut e, &p.decorators);
            assert(ps.take(i + 1).drop_last() =~= ps.take(i as int));
            assert(ps.take(i + 1).last() == ps[i as int]);
            assert(heading_entries(ps.take(i + 1)) == heading_entries(ps.take(i as int)) + seq![
                (p.top@, p.lines.0),
            ] + decorator_entries(p.decorators@));
            assert(pair_views(e@) =~= mid + heading_entries(ps.take(i + 1)));
            i += 1;
        }
        assert(ps.take(ps.len() as int) =~= ps);
        sort_entries_by_line(&e)
    }

    fn get_bottoms(&self) -> (r: Vec<(String, usize)>) {
        let r: Vec<(String, usize)> = Vec::new();
        assert(pair_views(r@) =~= seq![]);
        r
    }

    fn to_string(&self) -> (r: String) {
        let mut s = String::new();
        let ghost cs = class_views(self.class@);
        let mut i: usize = 0;
        assert(s@ =~= headings_shown(cs.take(0)));
        while i < self.class.len()
            invariant
                i <= self.class.len(),
                cs == class_views(self.class@),
                s@ == headings_shown(cs.take(i as int)),
            decreases self.class.len() - i,
        {
            let c = &self.class[i];
            push_decorators_shown(&mut s, &c.decorators);
            push_str(&mut s, c.top.as_str());
            push_str(&mut s, "\n...\n");
            proof {
                reveal_strlit("\n...\n");
                assert(cs.take(i + 1).drop_last() =~= cs.take(i as int));
                assert(s@ =~= headings_shown(cs.take(i + 1)));
            }
            i += 1;
        }
        assert(cs.take(cs.len() as int) =~= cs);
        let ghost mid = s@;
        let ghost ps = parent_views(self.parent@);
        let mut i: usize = 0;
        assert(s@ =~= mid + headings_shown(ps.take(0)));
        while i < self.parent.len()
            invariant
                i <= self.parent.len(),
                ps == parent_views(self.parent@),
                s@ == mid + headings_shown(ps.take(i as int)),
            decreases self.parent.len() - i,
        {
            let p = &self.parent[i];
            push_decorators_shown(&mut s, &p.decorators);
            push_str(&mut s, p.top.as_str());
            push_str(&mut s, "\n...\n");
            proof {
                reveal_strlit("\n...\n");
                assert(ps.take(i + 1).drop_last() =~= ps.take(i as int));
                assert(s@ =~= mid + headings_shown(ps.take(i + 1)));
            }
            i += 1;
        }
        assert(ps.take(ps.len() as int) =~= ps);
        push_decorators_shown(&mut s, &self.decorators);
        push_str(&mut s, self.body.as_str());
        s
    }

    fn duplicate(&self) -> (r: Self) {
        let mut class: Vec<PythonClass> = Vec::new();
        let mut i: usize = 0;
        while i < self.class.len()
            invariant
                i <= self.class.len(),
                class@.len() == i,
                forall|j: int| 0 <= j < i ==> (#[trigger] class@[j]).same(&self.class@[j]),
            decreases self.class.len() - i,
        {
            class.push(self.class[i].duplicate());
            i += 1;
        }
        let mut parent: Vec<PythonParentFunction> = Vec::new();
        let mut i: usize = 0;
        while i < self.parent.len()
            invariant
                i <= self.parent.len(),
                parent@.len() == i,
                forall|j: int| 0 <= j < i ==> (#[trigger] parent@[j]).same(&self.parent@[j]),
            decreases self.parent.len() - i,
        {
            parent.push(self.parent[i].duplicate());
            i += 1;
        }
        PythonFunction {
            name: clone_string(&self.name),
            body: clone_string(&self.body),
            parameters: self.parameters.duplicate(),
            parent,
            decorators: duplicate_decorators(&self.decorators),
            class,
            lines: self.lines,
            return_type: clone_opt_string(&self.return_type),
        }
    }
}

/// Sameness of parameters goes both ways.
proof fn lemma_params_same_sym(a: PythonParams, b: PythonParams)
    requires
        a.same(&b),
    ensures
        b.same(&a),
        forall|n: Seq<char>| params_have_name(a, n) == params_have_name(b, n),
{
    assert forall|n: Seq<char>| params_have_name(a, n) == params_have_name(b, n) by {
        if param_named(a.args@, n) {
            let i = choose|i: int| 0 <= i < a.args@.len() && (#[trigger] a.args@[i]).name@ == n;
            assert(a.args@[i].same(&b.args@[i]));
        }
        if param_named(b.args@, n) {
            let i = choose|i: int| 0 <= i < b.args@.len() && (#[trigger] b.args@[i]).name@ == n;
            assert(a.args@[i].same(&b.args@[i]));
        }
        if param_named(a.kwargs@, n) {
            let i = choose|i: int| 0 <= i < a.kwargs@.len() && (#[trigger] a.kwargs@[i]).name@ == n;
            assert(a.kwargs@[i].same(&b.kwargs@[i]));
        }
        if param_named(b.kwargs@, n) {
            let i = choose|i: int| 0 <= i < b.kwargs@.len() && (#[trigger] b.kwargs@[i]).name@ == n;
            assert(a.kwargs@[i].same(&b.kwargs@[i]));
        }
        if param_named(a.posonlyargs@, n) {
            let i = choose|i: int|
                0 <= i < a.posonlyargs@.len() && (#[trigger] a.posonlyargs@[i]).name@ == n;
            assert(a.posonlyargs@[i].same(&b.posonlyargs@[i]));
        }
        if param_named(b.posonlyargs@, n) {
            let i = choose|i: int|
                0 <= i < b.posonlyargs@.len() && (#[trigger] b.posonlyargs@[i]).name@ == n;
            assert(a.posonlyargs@[i].same(&b.posonlyargs@[i]));
        }
    }
    assert forall|i: int| 0 <= i < b.args@.len() implies (#[trigger] b.args@[i]).same(&a.args@[i]) by {
        assert(a.args@[i].same(&b.args@[i]));
    }
    assert forall|i: int| 0 <= i < b.kwargs@.len() implies (#[trigger] b.kwargs@[i]).same(
        &a.kwargs@[i],
    ) by {
        assert(a.kwargs@[i].same(&b.kwargs@[i]));
    }
    assert forall|i: int| 0 <= i < b.posonlyargs@.len() implies (#[trigger] b.posonlyargs@[i]).same(
        &a.posonlyargs@[i],
    ) by {
        assert(a.posonlyargs@[i].same(&b.posonlyargs@[i]));
    }
}

impl LanguageFunction for PythonFunction {
    open spec fn language_spec() -> Language {
        Language::Python
    }

    open spec fn pl_match(&self, f: LanguageFilter) -> Option<bool> {
        match f {
            LanguageFilter::Python(flt) => Some(python_matches(flt, *self)),
            _ => None,
        }
    }

    proof fn lemma_same_match(&self, other: &Self, f: LanguageFilter) {
        lemma_params_same_sym(self.parameters, other.parameters);
        if let LanguageFilter::Python(flt) = f {
            let cs = self.class@;
            let ds = other.class@;
            let ps = self.parent@;
            let qs = other.parent@;
            match flt {
                PythonFilter::InClass(_) | PythonFilter::HasClasswithDecorator(_) => {
                    assert(python_matches(flt, *self) == (exists|i: int|
                        0 <= i < cs.len() && class_property(flt, #[trigger] cs[i])));
                    assert(python_matches(flt, *other) == (exists|i: int|
                        0 <= i < ds.len() && class_property(flt, #[trigger] ds[i])));
                    if python_matches(flt, *self) {
                        let i = choose|i: int| 0 <= i < cs.len() && class_property(flt, #[trigger] cs[i]);
                        assert(cs[i].same(&ds[i]));
                        assert(class_property(flt, ds[i]));
                    }
                    if python_matches(flt, *other) {
                        let i = choose|i: int| 0 <= i < ds.len() && class_property(flt, #[trigger] ds[i]);
                        assert(cs[i].same(&ds[i]));
                        assert(class_property(flt, cs[i]));
                    }
                },
                PythonFilter::HasParentFunction(_)
                | PythonFilter::HasParentFunctionwithDecorator(_)
                | PythonFilter::HasParentFunctionwithParameterName(_)
                | PythonFilter::HasParentFunctionwithReturnType(_) => {
                    assert(python_matches(flt, *self) == (exists|i: int|
                        0 <= i < ps.len() && parent_property(flt, #[trigger] ps[i])));
                    assert(python_matches(flt, *other) == (exists|i: int|
                        0 <= i < qs.len() && parent_property(flt, #[trigger] qs[i])));
                    if python_matches(flt, *self) {
                        let i = choose|i: int| 0 <= i < ps.len() && parent_property(flt, #[trigger] ps[i]);
                        assert(ps[i].same(&qs[i]));
                        lemma_params_same_sym(ps[i].parameters, qs[i].parameters);
                        assert(parent_property(flt, qs[i]));
                    }
                    if python_matches(flt, *other) {
                        let i = choose|i: int| 0 <= i < qs.len() && parent_property(flt, #[trigger] qs[i]);
                        assert(ps[i].same(&qs[i]));
                        lemma_params_same_sym(ps[i].parameters, qs[i].parameters);
                        assert(parent_property(flt, ps[i]));
                    }
                },
                _ => {},
            }
        }
    }

    fn language() -> (l: Language) {
        Language::Python
    }

    fn pl_matches(&self, f: &LanguageFilter) -> (r: Option<bool>) {
        match f {
            LanguageFilter::Python(flt) => Some(flt.matches(self)),
            _ => None,
        }
    }
}


/// Finds the functions called `name` in the Python code of one file of a
/// commit (see `python_parse::find_function_in_file`).
pub fn find_function_in_commit(file_contents: &str, name: &str) -> (r: Result<
    Vec<PythonFunction>,
    String,
>)
    ensures
        r matches Ok(v) ==> v@.len() > 0 && forall|i: int|
            0 <= i < v@.len() ==> super::python_parse::declared_py_function(
                file_contents@,
                name@,
                #[trigger] v@[i],
            ),
        super::parser_fits(file_contents@) ==> match super::python_parse::python_syntax_tree(
            file_contents@,
            name@,
        ) {
            Err(m) => r matches Err(e) && e@ == "error parsing file: "@ + m,
            Ok(ss) => if ss.len() == 0 {
                r matches Err(e) && e@ == "no code found"@
            } else {
                exists|found: Seq<super::python_parse::PyFound>|
                    super::python_parse::found_after(
                        seq![],
                        super::python_parse::list_found(name@, ss, seq![], seq![]),
                        found,
                    ) && (forall|i: int|
                        0 <= i < found.len() ==> super::python_parse::found_ok(#[trigger] found[i], name@))
                        && #[trigger] super::python_parse::py_search_result(file_contents@, name@, found, r)
            },
        },
        !super::parser_fits(file_contents@) ==> (r matches Err(e) && e@ == "file too large"@),
{
    super::python_parse::find_function_in_file(file_contents, name)
}

} // verus!
