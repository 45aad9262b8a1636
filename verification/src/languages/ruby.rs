//! Ruby functions, the classes around them, their parameters, and the
//! filters over them.
use vstd::prelude::*;

use super::{str_eq, FunctionTrait, Language, LanguageFilter, LanguageFunction};
use crate::text::{
    byte_slice, clone_opt_string, clone_string, clone_strings, has_str, pair_views, push_str,
    str_get, string_of, vec_has_str, views,
};

verus! {

/// represents a Ruby class
#[derive(Debug)]
pub struct RubyClass {
    /// the name of the class
    pub name: String,
    /// the first and last line of the class
    pub lines: (usize, usize),
    /// the class it inherits from
    pub superclass: Option<String>,
    /// the (line numbered) first line of the class
    pub top: String,
    /// the (line numbered) last line of the class
    pub bottom: String,
}

/// repersents parameters of a ruby function
#[derive(Debug)]
pub struct RubyParams {
    /// required parameters
    args: Vec<String>,
    /// keyword parameters
    kwargs: Vec<String>,
    /// keyword parameter is nil ie `**nil` in `def foo(a, **nil)`
    kwnilarg: bool,
    /// parameters are forwarded ie `...` in `def foo(...)`
    forwarded_args: bool,
    /// parameters that have optional default values ie `a: 1` in `def foo(a: 1)`
    kwoptargs: Vec<(String, String)>,
    /// keyword rest parameter ie `**a` in `def foo(**a)`
    kwrestarg: Option<String>,
    /// rest parameter ie `*a` in `def foo(*a)`
    restarg: Option<String>,
}

/// repersentation of a ruby function
#[derive(Debug)]
pub struct RubyFunction {
    /// the name of the function
    pub name: String,
    /// the first and last line of the function
    pub lines: (usize, usize),
    /// the classes the function is in, outermost first
    pub class: Vec<RubyClass>,
    /// the parameters of the function
    pub args: RubyParams,
    /// the (line numbered) code of the function
    pub body: String,
}

impl RubyFunction {
    /// creates a new `RubyFunction`
    pub fn new(
        name: String,
        lines: (usize, usize),
        class: Vec<RubyClass>,
        args: RubyParams,
        body: String,
    ) -> (r: Self)
        ensures
            r == (RubyFunction { name, lines, class, args, body }),
    {
        RubyFunction { name, lines, class, args, body }
    }
}

/// One parameter of a method definition, as the syntax tree gives it.
pub enum RubyArg {
    /// a required parameter
    Arg(String),
    /// a keyword parameter
    Kwarg(String),
    /// a keyword parameter with a default value: its name and the byte range of the default
    Kwoptarg(String, usize, usize),
    /// a rest parameter, with its name if it has one
    Restarg(Option<String>),
    /// a keyword rest parameter, with its name if it has one
    Kwrestarg(Option<String>),
    /// `...`
    ForwardArg,
    /// `**nil`
    Kwnilarg,
    /// anything else (block parameters, optional positional parameters, ...)
    Other,
}

/// The parameters of a method, as values.
#[verifier::ext_equal]
pub struct RubyParamsModel {
    /// required parameters
    pub args: Seq<Seq<char>>,
    /// keyword parameters
    pub kwargs: Seq<Seq<char>>,
    /// whether `**nil` is there
    pub kwnilarg: bool,
    /// whether `...` is there
    pub forwarded_args: bool,
    /// keyword parameters with the text of their defaults
    pub kwoptargs: Seq<(Seq<char>, Seq<char>)>,
    /// the keyword rest parameter
    pub kwrestarg: Option<Seq<char>>,
    /// the rest parameter
    pub restarg: Option<Seq<char>>,
}

/// Whether a parameter is called `name`: a required, keyword, optional
/// keyword (by its name, not its default), keyword rest or rest parameter.
pub open spec fn model_has_name(m: RubyParamsModel, name: Seq<char>) -> bool {
    ||| m.args.contains(name)
    ||| m.kwargs.contains(name)
    ||| exists|i: int| 0 <= i < m.kwoptargs.len() && (#[trigger] m.kwoptargs[i]).0 == name
    ||| m.kwrestarg == Some(name)
    ||| m.restarg == Some(name)
}

/// The text of a default value: its source, or a note that it could not be read.
pub open spec fn default_text(file: Seq<char>, b: usize, e: usize) -> Seq<char> {
    match byte_slice(file, b as int, e as int) {
        Some(t) => t,
        None => "could not retrieve default value"@,
    }
}

/// No parameters.
pub open spec fn empty_params() -> RubyParamsModel {
    RubyParamsModel {
        args: seq![],
        kwargs: seq![],
        kwnilarg: false,
        forwarded_args: false,
        kwoptargs: seq![],
        kwrestarg: None,
        restarg: None,
    }
}

/// One more parameter: each kind goes to its own place; a later rest or
/// keyword rest parameter replaces an earlier one; one without a name, and
/// other kinds, change nothing.
pub open spec fn params_step(m: RubyParamsModel, a: RubyArg, file: Seq<char>) -> RubyParamsModel {
    match a {
        RubyArg::Arg(n) => RubyParamsModel { args: m.args.push(n@), ..m },
        RubyArg::Kwarg(n) => RubyParamsModel { kwargs: m.kwargs.push(n@), ..m },
        RubyArg::Kwoptarg(n, b, e) => RubyParamsModel {
            kwoptargs: m.kwoptargs.push((n@, default_text(file, b, e))),
            ..m
        },
        RubyArg::Restarg(Some(n)) => RubyParamsModel { restarg: Some(n@), ..m },
        RubyArg::Kwrestarg(Some(n)) => RubyParamsModel { kwrestarg: Some(n@), ..m },
        RubyArg::ForwardArg => RubyParamsModel { forwarded_args: true, ..m },
        RubyArg::Kwnilarg => RubyParamsModel { kwnilarg: true, ..m },
        _ => m,
    }
}

/// The parameters a list of parameter nodes gives, in order.
pub open spec fn params_of(args: Seq<RubyArg>, file: Seq<char>) -> RubyParamsModel
    decreases args.len(),
{
    if args.len() == 0 {
        empty_params()
    } else {
        params_step(params_of(args.drop_last(), file), args.last(), file)
    }
}

/// The text of a default value.
fn default_text_of(file: &str, b: usize, e: usize) -> (r: String)
    ensures
        r@ == default_text(file@, b, e),
{
    match str_get(file, b, e) {
        Some(t) => t,
        None => string_of("could not retrieve default value"),
    }
}

impl RubyParams {
    /// A copy of the parameters.
    pub fn duplicate(&self) -> (r: Self)
        ensures
            r.model() == self.model(),
    {
        let r = RubyParams {
            args: clone_strings(&self.args),
            kwargs: clone_strings(&self.kwargs),
            kwnilarg: self.kwnilarg,
            forwarded_args: self.forwarded_args,
            kwoptargs: crate::text::clone_pairs(&self.kwoptargs),
            kwrestarg: clone_opt_string(&self.kwrestarg),
            restarg: clone_opt_string(&self.restarg),
        };
        assert(r.model() =~= self.model());
        r
    }

    /// Parameters with the same values have the same names.
    pub proof fn lemma_same_names(&self, other: &Self, name: Seq<char>)
        requires
            self.model() == other.model(),
        ensures
            self.has_name(name) == other.has_name(name),
    {
    }

    /// The parameters as values.
    pub closed spec fn model(&self) -> RubyParamsModel {
        RubyParamsModel {
            args: views(self.args@),
            kwargs: views(self.kwargs@),
            kwnilarg: self.kwnilarg,
            forwarded_args: self.forwarded_args,
            kwoptargs: Seq::new(self.kwoptargs@.len(), |i: int| (self.kwoptargs@[i].0@, self.kwoptargs@[i].1@)),
            kwrestarg: match self.kwrestarg {
                Some(x) => Some(x@),
                None => None,
            },
            restarg: match self.restarg {
                Some(x) => Some(x@),
                None => None,
            },
        }
    }

    /// The parameters that a list of parameter nodes of a method definition
    /// gives, in order; default values are read from `file`.
    pub fn from_args(args: &Vec<RubyArg>, file: &str) -> (r: Self)
        ensures
            r.model() == params_of(args@, file@),
    {
        let mut r = RubyParams::new();
        let mut i: usize = 0;
        proof {
            assert(args@.take(0) =~= seq![]);
            assert(r.model() =~= empty_params());
        }
        while i < args.len()
            invariant
                i <= args.len(),
                r.model() == params_of(args@.take(i as int), file@),
            decreases args.len() - i,
        {
            proof {
                assert(args@.take(i + 1).drop_last() =~= args@.take(i as int));
            }
            let ghost before = r.model();
            match &args[i] {
                RubyArg::Arg(n) => {
                    let ghost v0 = r.args@;
                    r.args.push(clone_string(n));
                    assert(views(r.args@) =~= views(v0).push(n@));
                },
                RubyArg::Kwarg(n) => {
                    let ghost v0 = r.kwargs@;
                    r.kwargs.push(clone_string(n));
                    assert(views(r.kwargs@) =~= views(v0).push(n@));
                },
                RubyArg::Kwoptarg(n, b, e) => {
                    let ghost v0 = r.kwoptargs@;
                    let d = default_text_of(file, *b, *e);
                    r.kwoptargs.push((clone_string(n), d));
                    assert(Seq::new(r.kwoptargs@.len(), |k: int| (r.kwoptargs@[k].0@, r.kwoptargs@[k].1@))
                        =~= Seq::new(v0.len(), |k: int| (v0[k].0@, v0[k].1@)).push(
                        (n@, default_text(file@, *b, *e)),
                    ));
                },
                RubyArg::Restarg(Some(n)) => {
                    r.restarg = Some(clone_string(n));
                },
                RubyArg::Kwrestarg(Some(n)) => {
                    r.kwrestarg = Some(clone_string(n));
                },
                RubyArg::ForwardArg => {
                    r.forwarded_args = true;
                },
                RubyArg::Kwnilarg => {
                    r.kwnilarg = true;
                },
                _ => {},
            }
            assert(r.model() =~= params_step(before, args@[i as int], file@));
            i += 1;
        }
        proof {
            assert(args@.take(args.len() as int) =~= args@);
        }
        r
    }

    /// Whether there are no parameters at all.
    pub closed spec fn is_empty_spec(&self) -> bool {
        &&& self.args@.len() == 0
        &&& self.kwargs@.len() == 0
        &&& !self.kwnilarg
        &&& !self.forwarded_args
        &&& self.kwoptargs@.len() == 0
        &&& self.kwrestarg is None
        &&& self.restarg is None
    }

    /// Whether a parameter is called `name`: a required, keyword, optional
    /// keyword (by its name, not its default), keyword rest or rest parameter.
    pub open spec fn has_name(&self, name: Seq<char>) -> bool {
        model_has_name(self.model(), name)
    }

    /// creates `RubyParams` which is a repersentation of the parameters of a ruby function
    pub fn new() -> (r: Self)
        ensures
            r.is_empty_spec(),
    {
        RubyParams {
            args: Vec::new(),
            kwnilarg: false,
            forwarded_args: false,
            kwrestarg: None,
            restarg: None,
            kwargs: Vec::new(),
            kwoptargs: Vec::new(),
        }
    }

    /// Whether a parameter is called `name`, by the fields.
    proof fn lemma_has_name_fields(&self, name: Seq<char>)
        ensures
            self.has_name(name) == (has_str(self.args@, name) || has_str(self.kwargs@, name) || (exists|i: int|
                0 <= i < self.kwoptargs@.len() && (#[trigger] self.kwoptargs@[i]).0@ == name) || (
            self.kwrestarg matches Some(x) && x@ == name) || (self.restarg matches Some(x) && x@ == name)),
    {
        let m = self.model();
        if has_str(self.args@, name) {
            let i = choose|i: int| 0 <= i < self.args@.len() && (#[trigger] self.args@[i])@ == name;
            assert(m.args[i] == name);
        }
        if m.args.contains(name) {
            let i = choose|i: int| 0 <= i < m.args.len() && m.args[i] == name;
            assert(self.args@[i]@ == name);
        }
        if has_str(self.kwargs@, name) {
            let i = choose|i: int| 0 <= i < self.kwargs@.len() && (#[trigger] self.kwargs@[i])@ == name;
            assert(m.kwargs[i] == name);
        }
        if m.kwargs.contains(name) {
            let i = choose|i: int| 0 <= i < m.kwargs.len() && m.kwargs[i] == name;
            assert(self.kwargs@[i]@ == name);
        }
        if exists|i: int| 0 <= i < self.kwoptargs@.len() && (#[trigger] self.kwoptargs@[i]).0@ == name {
            let i = choose|i: int| 0 <= i < self.kwoptargs@.len() && (#[trigger] self.kwoptargs@[i]).0@ == name;
            assert(m.kwoptargs[i].0 == name);
        }
        if exists|i: int| 0 <= i < m.kwoptargs.len() && (#[trigger] m.kwoptargs[i]).0 == name {
            let i = choose|i: int| 0 <= i < m.kwoptargs.len() && (#[trigger] m.kwoptargs[i]).0 == name;
            assert(self.kwoptargs@[i].0@ == name);
        }
    }

    /// Whether a parameter is called `name`.
    pub fn contains(&self, name: &String) -> (r: bool)
        ensures
            r == self.has_name(name@),
    {
        proof {
            self.lemma_has_name_fields(name@);
        }
        if vec_has_str(&self.args, name.as_str()) || vec_has_str(&self.kwargs, name.as_str()) {
            return true;
        }
        let mut i: usize = 0;
        while i < self.kwoptargs.len()
            invariant
                i <= self.kwoptargs.len(),
                forall|j: int| 0 <= j < i ==> (#[trigger] self.kwoptargs@[j]).0@ != name@,
            decreases self.kwoptargs.len() - i,
        {
            if str_eq(self.kwoptargs[i].0.as_str(), name.as_str()) {
                proof {
                    self.lemma_has_name_fields(name@);
                }
                return true;
            }
            i += 1;
        }
        (match &self.kwrestarg {
            Some(x) => str_eq(x.as_str(), name.as_str()),
            None => false,
        }) || (match &self.restarg {
            Some(x) => str_eq(x.as_str(), name.as_str()),
            None => false,
        })
    }
}

/// filter for ruby functions
pub enum RubyFilter {
    /// find a Ruby functions in a specific class
    FunctionInClass(String),
    /// find a Ruby function with a specific parameter
    FunctionWithParameter(String),
    /// find a Ruby function in a class that inherits from a specific class
    FunctionWithSuperClass(String),
}

/// Whether a Ruby function matches a filter.
pub open spec fn ruby_matches(flt: RubyFilter, f: RubyFunction) -> bool {
    match flt {
        RubyFilter::FunctionInClass(n) => exists|i: int|
            0 <= i < f.class@.len() && (#[trigger] f.class@[i]).name@ == n@,
        RubyFilter::FunctionWithParameter(n) => f.args.has_name(n@),
        RubyFilter::FunctionWithSuperClass(n) => exists|i: int|
            0 <= i < f.class@.len() && ((#[trigger] f.class@[i]).superclass matches Some(s) && s@
                == n@),
    }
}

impl RubyFilter {
    /// check if a function matches the filter
    #[verifier::loop_isolation(false)]
    pub fn matches(&self, function: &RubyFunction) -> (r: bool)
        ensures
            r == ruby_matches(*self, *function),
    {
        match self {
            RubyFilter::FunctionWithParameter(name) => function.args.contains(name),
            RubyFilter::FunctionInClass(name) => {
                let mut i: usize = 0;
                while i < function.class.len()
                    invariant
                        i <= function.class.len(),
                        forall|j: int| 0 <= j < i ==> (#[trigger] function.class@[j]).name@ != name@,
                    decreases function.class.len() - i,
                {
                    if str_eq(function.class[i].name.as_str(), name.as_str()) {
                        assert(function.class@[i as int].name@ == name@);
                        return true;
                    }
                    i += 1;
                }
                false
            },
            RubyFilter::FunctionWithSuperClass(name) => {
                let mut i: usize = 0;
                while i < function.class.len()
                    invariant
                        i <= function.class.len(),
                        forall|j: int|
                            0 <= j < i ==> !((#[trigger] function.class@[j]).superclass matches Some(
                                s,
                            ) && s@ == name@),
                    decreases function.class.len() - i,
                {
                    let hit = match &function.class[i].superclass {
                        Some(s) => str_eq(s.as_str(), name.as_str()),
                        None => false,
                    };
                    if hit {
                        assert(function.class@[i as int].superclass matches Some(s) && s@ == name@);
                        return true;
                    }
                    i += 1;
                }
                false
            },
        }
    }
}

/// Whether two classes hold the same values.
pub open spec fn same_class(a: RubyClass, b: RubyClass) -> bool {
    &&& a.name@ == b.name@
    &&& a.lines == b.lines
    &&& a.top@ == b.top@
    &&& a.bottom@ == b.bottom@
    &&& match (a.superclass, b.superclass) {
        (Some(x), Some(y)) => x@ == y@,
        (None, None) => true,
        _ => false,
    }
}

/// The lines of the class that starts first (the smallest (first, last)
/// pair, the first of equal ones), if there is a class.
pub open spec fn first_class_lines(cs: Seq<RubyClass>) -> Option<(usize, usize)>
    decreases cs.len(),
{
    if cs.len() == 0 {
        None
    } else {
        let l = cs.last().lines;
        match first_class_lines(cs.drop_last()) {
            None => Some(l),
            Some(m) => if l.0 < m.0 || (l.0 == m.0 && l.1 < m.1) {
                Some(l)
            } else {
                Some(m)
            },
        }
    }
}

/// The headings of the classes with their first lines.
pub open spec fn ruby_tops(cs: Seq<RubyClass>) -> Seq<(Seq<char>, usize)> {
    Seq::new(cs.len(), |i: int| (cs[i].top@, cs[i].lines.0))
}

/// The closings of the classes with their last lines.
pub open spec fn ruby_bottoms(cs: Seq<RubyClass>) -> Seq<(Seq<char>, usize)> {
    Seq::new(cs.len(), |i: int| (cs[i].bottom@, cs[i].lines.1))
}

/// The headings of the classes, one after another.
pub open spec fn tops_text(cs: Seq<RubyClass>) -> Seq<char>
    decreases cs.len(),
{
    if cs.len() == 0 {
        seq![]
    } else {
        tops_text(cs.drop_last()) + cs.last().top@
    }
}

/// The closings of the classes, one after another.
pub open spec fn bottoms_text(cs: Seq<RubyClass>) -> Seq<char>
    decreases cs.len(),
{
    if cs.len() == 0 {
        seq![]
    } else {
        bottoms_text(cs.drop_last()) + cs.last().bottom@
    }
}

proof fn lemma_same_classes(a: Seq<RubyClass>, b: Seq<RubyClass>)
    requires
        a.len() == b.len(),
        forall|i: int| 0 <= i < a.len() ==> same_class(#[trigger] a[i], b[i]),
    ensures
        first_class_lines(a) == first_class_lines(b),
        tops_text(a) == tops_text(b),
        bottoms_text(a) == bottoms_text(b),
        ruby_tops(a) == ruby_tops(b),
        ruby_bottoms(a) == ruby_bottoms(b),
    decreases a.len(),
{
    if a.len() > 0 {
        assert(same_class(a[a.len() - 1], b[b.len() - 1]));
        lemma_same_classes(a.drop_last(), b.drop_last());
    }
    assert(ruby_tops(a) =~= ruby_tops(b));
    assert(ruby_bottoms(a) =~= ruby_bottoms(b));
}

impl FunctionTrait for RubyFunction {
    open spec fn same(&self, o: &Self) -> bool {
        &&& self.lines == o.lines
        &&& self.name@ == o.name@
        &&& self.body@ == o.body@
        &&& self.args.model() == o.args.model()
        &&& self.class@.len() == o.class@.len()
        &&& forall|i: int| 0 <= i < self.class@.len() ==> same_class(#[trigger] self.class@[i], o.class@[i])
    }

    open spec fn lines_spec(&self) -> (usize, usize) {
        self.lines
    }

    open spec fn total_lines_spec(&self) -> (usize, usize) {
        match first_class_lines(self.class@) {
            Some(l) => l,
            None => self.lines,
        }
    }

    open spec fn name_spec(&self) -> Seq<char> {
        self.name@
    }

    open spec fn body_spec(&self) -> Seq<char> {
        self.body@
    }

    open spec fn tops_spec(&self) -> Seq<(Seq<char>, usize)> {
        ruby_tops(self.class@)
    }

    open spec fn bottoms_spec(&self) -> Seq<(Seq<char>, usize)> {
        ruby_bottoms(self.class@)
    }

    open spec fn display_spec(&self) -> Seq<char> {
        tops_text(self.class@) + self.body@ + bottoms_text(self.class@)
    }

    proof fn lemma_same(&self, other: &Self) {
        lemma_same_classes(self.class@, other.class@);
        assert forall|i: int| 0 <= i < other.class@.len() implies same_class(
            #[trigger] other.class@[i],
            self.class@[i],
        ) by {
            assert(same_class(self.class@[i], other.class@[i]));
        }
    }

    fn get_lines(&self) -> (r: (usize, usize)) {
        self.lines
    }

    fn get_total_lines(&self) -> (r: (usize, usize)) {
        let mut best: Option<(usize, usize)> = None;
        let mut i: usize = 0;
        while i < self.class.len()
            invariant
                i <= self.class@.len(),
                best == first_class_lines(self.class@.take(i as int)),
            decreases self.class@.len() - i,
        {
            assert(self.class@.take(i + 1).drop_last() =~= self.class@.take(i as int));
            let l = self.class[i].lines;
            best = match best {
                None => Some(l),
                Some(m) => if l.0 < m.0 || (l.0 == m.0 && l.1 < m.1) {
                    Some(l)
                } else {
                    Some(m)
                },
            };
            i += 1;
        }
        assert(self.class@.take(self.class@.len() as int) =~= self.class@);
        match best {
            Some(l) => l,
            None => self.lines,
        }
    }

    fn get_name(&self) -> (r: String) {
        clone_string(&self.name)
    }

    fn get_body(&self) -> (r: String) {
        clone_string(&self.body)
    }

    fn get_tops(&self) -> (r: Vec<(String, usize)>) {
        let mut r: Vec<(String, usize)> = Vec::new();
        let mut i: usize = 0;
        while i < self.class.len()
            invariant
                i <= self.class@.len(),
                r@.len() == i,
                pair_views(r@) == ruby_tops(self.class@).take(i as int),
            decreases self.class@.len() - i,
        {
            r.push((clone_string(&self.class[i].top), self.class[i].lines.0));
            assert(pair_views(r@) =~= ruby_tops(self.class@).take(i + 1));
            i += 1;
        }
        assert(ruby_tops(self.class@).take(self.class@.len() as int) =~= ruby_tops(self.class@));
        r
    }

    fn get_bottoms(&self) -> (r: Vec<(String, usize)>) {
        let mut r: Vec<(String, usize)> = Vec::new();
        let mut i: usize = 0;
        while i < self.class.len()
            invariant
                i <= self.class@.len(),
                r@.len() == i,
                pair_views(r@) == ruby_bottoms(self.class@).take(i as int),
            decreases self.class@.len() - i,
        {
            r.push((clone_string(&self.class[i].bottom), self.class[i].lines.1));
            assert(pair_views(r@) =~= ruby_bottoms(self.class@).take(i + 1));
            i += 1;
        }
        assert(ruby_bottoms(self.class@).take(self.class@.len() as int) =~= ruby_bottoms(self.class@));
        r
    }

    fn to_string(&self) -> (r: String) {
        let mut s = String::new();
        let mut i: usize = 0;
        while i < self.class.len()
            invariant
                i <= self.class@.len(),
                s@ == tops_text(self.class@.take(i as int)),
            decreases self.class@.len() - i,
        {
            assert(self.class@.take(i + 1).drop_last() =~= self.class@.take(i as int));
            push_str(&mut s, self.class[i].top.as_str());
            i += 1;
        }
        assert(self.class@.take(self.class@.len() as int) =~= self.class@);
        push_str(&mut s, self.body.as_str());
        let ghost mid = s@;
        let mut i: usize = 0;
        while i < self.class.len()
            invariant
                i <= self.class@.len(),
                s@ == mid + bottoms_text(self.class@.take(i as int)),
            decreases self.class@.len() - i,
        {
            assert(self.class@.take(i + 1).drop_last() =~= self.class@.take(i as int));
            push_str(&mut s, self.class[i].bottom.as_str());
            i += 1;
        }
        s
    }

    fn duplicate(&self) -> (r: Self) {
        let mut class: Vec<RubyClass> = Vec::new();
        let mut i: usize = 0;
        while i < self.class.len()
            invariant
                i <= self.class@.len(),
                class@.len() == i,
                forall|j: int| 0 <= j < i ==> same_class(#[trigger] class@[j], self.class@[j]),
            decreases self.class@.len() - i,
        {
            let c = &self.class[i];
            class.push(RubyClass {
                name: clone_string(&c.name),
                lines: c.lines,
                superclass: clone_opt_string(&c.superclass),
                top: clone_string(&c.top),
                bottom: clone_string(&c.bottom),
            });
            i += 1;
        }
        RubyFunction {
            name: clone_string(&self.name),
            lines: self.lines,
            class,
            args: self.args.duplicate(),
            body: clone_string(&self.body),
        }
    }
}

impl LanguageFunction for RubyFunction {
    open spec fn language_spec() -> Language {
        Language::Ruby
    }

    open spec fn pl_match(&self, f: LanguageFilter) -> Option<bool> {
        match f {
            LanguageFilter::Ruby(flt) => Some(ruby_matches(flt, *self)),
            _ => None,
        }
    }

    proof fn lemma_same_match(&self, other: &Self, f: LanguageFilter) {
        if let LanguageFilter::Ruby(flt) = f {
            let (x, y) = (self.class@, other.class@);
            match flt {
                RubyFilter::FunctionWithParameter(n) => {
                    self.args.lemma_same_names(&other.args, n@);
                },
                RubyFilter::FunctionInClass(n) => {
                    if ruby_matches(flt, *self) {
                        let i = choose|i: int| 0 <= i < x.len() && (#[trigger] x[i]).name@ == n@;
                        assert(same_class(x[i], y[i]));
                    }
                    if ruby_matches(flt, *other) {
                        let i = choose|i: int| 0 <= i < y.len() && (#[trigger] y[i]).name@ == n@;
                        assert(same_class(x[i], y[i]));
                    }
                },
                RubyFilter::FunctionWithSuperClass(n) => {
                    if ruby_matches(flt, *self) {
                        let i = choose|i: int| 0 <= i < x.len() && ((#[trigger] x[i]).superclass matches Some(s) && s@ == n@);
                        assert(same_class(x[i], y[i]));
                    }
                    if ruby_matches(flt, *other) {
                        let i = choose|i: int| 0 <= i < y.len() && ((#[trigger] y[i]).superclass matches Some(s) && s@ == n@);
                        assert(same_class(x[i], y[i]));
                    }
                },
            }
        }
    }

    fn language() -> (l: Language) {
        Language::Ruby
    }

    fn pl_matches(&self, f: &LanguageFilter) -> (r: Option<bool>) {
        match f {
            LanguageFilter::Ruby(flt) => Some(flt.matches(self)),
            _ => None,
        }
    }
}

} // verus!
