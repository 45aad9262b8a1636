//! Go functions, their parameters, and the filters over them.
use vstd::prelude::*;

use super::{str_eq, FunctionTrait, Language, LanguageFilter, LanguageFunction};
use crate::text::{
    assoc_insert, clone_opt_string, clone_string, clone_strings, contains_seq, distinct_names,
    named_map, pair_views, str_contains,
};

verus! {

/// A single Go function that was found.
#[derive(Debug)]
pub struct GoFunction {
    /// the name of the function
    pub name: String,
    /// the code of the function
    pub body: String,
    /// the parameters of the function
    pub parameters: GoParameter,
    /// the return types of the function, if it has any
    pub return_type: Option<String>,
    /// the first and last line of the function
    pub lines: (usize, usize),
}

/// The parameters of a Go function: either only their types, or their names
/// each with its type.
#[derive(Debug)]
pub enum GoParameter {
    /// type
    Type(Vec<String>),
    /// (name, type); a name occurs at most once
    Named(Vec<(String, String)>),
}

impl GoParameter {
    /// Whether the parameters are well formed: named parameters have distinct names.
    pub open spec fn wf(&self) -> bool {
        match self {
            GoParameter::Type(_) => true,
            GoParameter::Named(v) => distinct_names(v@),
        }
    }

    /// Adds the parameters of `other` to these, when both are of the same kind:
    /// types are appended; a named parameter replaces the type of a parameter
    /// of the same name or is added. Of different kinds, nothing changes.
    pub fn extend(&mut self, other: &Self)
        requires
            old(self).wf(),
        ensures
            final(self).wf(),
            match (*old(self), *other) {
                (GoParameter::Type(a), GoParameter::Type(b)) => (*final(self) matches GoParameter::Type(c)
                    && c@ == a@ + b@),
                (GoParameter::Named(a), GoParameter::Named(b)) => (*final(self) matches GoParameter::Named(c)
                    && named_map(c@) == named_map(a@ + b@)),
                _ => *final(self) == *old(self),
            },
    {
        match (self, other) {
            (GoParameter::Type(a), GoParameter::Type(b)) => {
                let mut i: usize = 0;
                let ghost a0 = a@;
                while i < b.len()
                    invariant
                        i <= b.len(),
                        a@ == a0 + b@.take(i as int),
                    decreases b.len() - i,
                {
                    a.push(clone_string(&b[i]));
                    assert(b@.take(i + 1) =~= b@.take(i as int).push(b@[i as int]));
                    i += 1;
                }
                assert(b@.take(b.len() as int) =~= b@);
            },
            (GoParameter::Named(a), GoParameter::Named(b)) => {
                let ghost a0 = a@;
                let mut i: usize = 0;
                while i < b.len()
                    invariant
                        i <= b.len(),
                        distinct_names(a@),
                        named_map(a@) == named_map(a0 + b@.take(i as int)),
                    decreases b.len() - i,
                {
                    let e = (clone_string(&b[i].0), clone_string(&b[i].1));
                    proof {
                        assert((a0 + b@.take(i + 1)).drop_last() =~= a0 + b@.take(i as int));
                        assert((a0 + b@.take(i + 1)).last() == b@[i as int]);
                    }
                    assoc_insert(a, e);
                    i += 1;
                }
                assert(b@.take(b.len() as int) =~= b@);
            },
            _ => {},
        }
    }
}

/// A copy of the parameters.
fn duplicate_parameters(p: &GoParameter) -> (r: GoParameter)
    ensures
        match (*p, r) {
            (GoParameter::Type(a), GoParameter::Type(b)) => a@ == b@,
            (GoParameter::Named(a), GoParameter::Named(b)) => a@ == b@,
            _ => false,
        },
{
    match p {
        GoParameter::Type(a) => GoParameter::Type(clone_strings(a)),
        GoParameter::Named(a) => GoParameter::Named(crate::text::clone_pairs(a)),
    }
}

impl GoFunction {
    /// creates a new `GoFunction`
    pub fn new(
        name: String,
        body: String,
        parameters: GoParameter,
        return_type: Option<String>,
        lines: (usize, usize),
    ) -> (r: Self)
        ensures
            r == (GoFunction { name, body, parameters, return_type: return_type, lines }),
    {
        GoFunction { name, body, parameters, return_type: return_type, lines }
    }
}

/// filters for go functions
pub enum GoFilter {
    /// refers to the type of a parameter
    FunctionWithParameter(String),
    /// refers to the name of a parameter
    FunctionWithParameterName(String),
    /// refers to the return type(s) of the function
    FunctionWithReturnType(String),
}

/// Whether a Go function matches a filter.
pub open spec fn go_matches(flt: GoFilter, f: GoFunction) -> bool {
    match flt {
        GoFilter::FunctionWithParameter(t) => match f.parameters {
            GoParameter::Type(ts) => exists|i: int| 0 <= i < ts@.len() && (#[trigger] ts@[i])@ == t@,
            GoParameter::Named(ns) => exists|i: int|
                0 <= i < ns@.len() && (#[trigger] ns@[i]).1@ == t@,
        },
        GoFilter::FunctionWithParameterName(n) => match f.parameters {
            GoParameter::Type(_) => false,
            GoParameter::Named(ns) => exists|i: int|
                0 <= i < ns@.len() && (#[trigger] ns@[i]).0@ == n@,
        },
        GoFilter::FunctionWithReturnType(r) => f.return_type matches Some(x) && contains_seq(x@, r@),
    }
}

impl GoFilter {
    /// checks if a function matches the filter
    #[verifier::loop_isolation(false)]
    pub fn matches(&self, func: &GoFunction) -> (r: bool)
        ensures
            r == go_matches(*self, *func),
    {
        match self {
            GoFilter::FunctionWithParameter(param) => match &func.parameters {
                GoParameter::Type(types) => crate::text::vec_has_str(types, param.as_str()),
                GoParameter::Named(named) => {
                    let mut i: usize = 0;
                    while i < named.len()
                        invariant
                            i <= named.len(),
                            forall|j: int| 0 <= j < i ==> (#[trigger] named@[j]).1@ != param@,
                        decreases named.len() - i,
                    {
                        if str_eq(named[i].1.as_str(), param.as_str()) {
                            assert(named@[i as int].1@ == param@);
                            return true;
                        }
                        i += 1;
                    }
                    false
                },
            },
            GoFilter::FunctionWithParameterName(param) => match &func.parameters {
                GoParameter::Type(_) => false,
                GoParameter::Named(named) => {
                    let mut i: usize = 0;
                    while i < named.len()
                        invariant
                            i <= named.len(),
                            forall|j: int| 0 <= j < i ==> (#[trigger] named@[j]).0@ != param@,
                        decreases named.len() - i,
                    {
                        if str_eq(named[i].0.as_str(), param.as_str()) {
                            assert(named@[i as int].0@ == param@);
                            return true;
                        }
                        i += 1;
                    }
                    false
                },
            },
            GoFilter::FunctionWithReturnType(ret) => match &func.return_type {
                Some(x) => str_contains(x.as_str(), ret.as_str()),
                None => false,
            },
        }
    }
}

/// Whether two parameter lists hold the same values.
pub open spec fn same_parameters(a: GoParameter, b: GoParameter) -> bool {
    match (a, b) {
        (GoParameter::Type(x), GoParameter::Type(y)) => x@.len() == y@.len() && forall|i: int|
            0 <= i < x@.len() ==> (#[trigger] x@[i])@ == y@[i]@,
        (GoParameter::Named(x), GoParameter::Named(y)) => x@.len() == y@.len() && forall|i: int|
            0 <= i < x@.len() ==> (#[trigger] x@[i]).0@ == y@[i].0@ && x@[i].1@ == y@[i].1@,
        _ => false,
    }
}

impl FunctionTrait for GoFunction {
    open spec fn same(&self, o: &Self) -> bool {
        &&& self.lines == o.lines
        &&& self.name@ == o.name@
        &&& self.body@ == o.body@
        &&& same_parameters(self.parameters, o.parameters)
        &&& match (self.return_type, o.return_type) {
            (Some(a), Some(b)) => a@ == b@,
            (None, None) => true,
            _ => false,
        }
    }

    open spec fn lines_spec(&self) -> (usize, usize) {
        self.lines
    }

    open spec fn total_lines_spec(&self) -> (usize, usize) {
        self.lines
    }

    open spec fn name_spec(&self) -> Seq<char> {
        self.name@
    }

    open spec fn body_spec(&self) -> Seq<char> {
        self.body@
    }

    open spec fn tops_spec(&self) -> Seq<(Seq<char>, usize)> {
        seq![]
    }

    open spec fn bottoms_spec(&self) -> Seq<(Seq<char>, usize)> {
        seq![]
    }

    open spec fn display_spec(&self) -> Seq<char> {
        self.body@
    }

    proof fn lemma_same(&self, other: &Self) {
    }

    fn get_lines(&self) -> (r: (usize, usize)) {
        self.lines
    }

    fn get_total_lines(&self) -> (r: (usize, usize)) {
        self.lines
    }

    fn get_name(&self) -> (r: String) {
        clone_string(&self.name)
    }

    fn get_body(&self) -> (r: String) {
        clone_string(&self.body)
    }

    fn get_tops(&self) -> (r: Vec<(String, usize)>) {
        let r: Vec<(String, usize)> = Vec::new();
        assert(pair_views(r@) =~= seq![]);
        r
    }

    fn get_bottoms(&self) -> (r: Vec<(String, usize)>) {
        let r: Vec<(String, usize)> = Vec::new();
        assert(pair_views(r@) =~= seq![]);
        r
    }

    fn to_string(&self) -> (r: String) {
        clone_string(&self.body)
    }

    fn duplicate(&self) -> (r: Self) {
        GoFunction {
            name: clone_string(&self.name),
            body: clone_string(&self.body),
            parameters: duplicate_parameters(&self.parameters),
            return_type: clone_opt_string(&self.return_type),
            lines: self.lines,
        }
    }
}

impl LanguageFunction for GoFunction {
    open spec fn language_spec() -> Language {
        Language::Go
    }

    open spec fn pl_match(&self, f: LanguageFilter) -> Option<bool> {
        match f {
            LanguageFilter::Go(flt) => Some(go_matches(flt, *self)),
            _ => None,
        }
    }

    proof fn lemma_same_match(&self, other: &Self, f: LanguageFilter) {
        if let LanguageFilter::Go(flt) = f {
            match (self.parameters, other.parameters) {
                (GoParameter::Type(x), GoParameter::Type(y)) => {
                    if let GoFilter::FunctionWithParameter(t) = flt {
                        if go_matches(flt, *self) {
                            let i = choose|i: int| 0 <= i < x@.len() && (#[trigger] x@[i])@ == t@;
                            assert(y@[i]@ == t@);
                        }
                        if go_matches(flt, *other) {
                            let i = choose|i: int| 0 <= i < y@.len() && (#[trigger] y@[i])@ == t@;
                            assert(x@[i]@ == t@);
                        }
                    }
                },
                (GoParameter::Named(x), GoParameter::Named(y)) => {
                    match flt {
                        GoFilter::FunctionWithParameter(t) => {
                            if go_matches(flt, *self) {
                                let i = choose|i: int| 0 <= i < x@.len() && (#[trigger] x@[i]).1@ == t@;
                                assert(y@[i].1@ == t@);
                            }
                            if go_matches(flt, *other) {
                                let i = choose|i: int| 0 <= i < y@.len() && (#[trigger] y@[i]).1@ == t@;
                                assert(x@[i].1@ == t@);
                            }
                        },
                        GoFilter::FunctionWithParameterName(t) => {
                            if go_matches(flt, *self) {
                                let i = choose|i: int| 0 <= i < x@.len() && (#[trigger] x@[i]).0@ == t@;
                                assert(y@[i].0@ == t@);
                            }
                            if go_matches(flt, *other) {
                                let i = choose|i: int| 0 <= i < y@.len() && (#[trigger] y@[i]).0@ == t@;
                                assert(x@[i].0@ == t@);
                            }
                        },
                        _ => {},
                    }
                },
                _ => {},
            }
        }
    }

    fn language() -> (l: Language) {
        Language::Go
    }

    fn pl_matches(&self, f: &LanguageFilter) -> (r: Option<bool>) {
        match f {
            LanguageFilter::Go(flt) => Some(flt.matches(self)),
            _ => None,
        }
    }
}

} // verus!
