//! C functions, the functions around them, and the filters over them.
use vstd::prelude::*;

use super::str_eq;
use crate::text::{join, push_str, views};

verus! {

/// A C function that encloses the function that was looked up.
#[derive(Debug)]
pub struct ParentFunction {
    /// the name of the function
    pub name: String,
    /// the (line numbered) first line of the function
    pub top: String,
    /// the (line numbered) last line of the function
    pub bottom: String,
    /// the first and last line of the function
    pub lines: (usize, usize),
    /// the parameters of the function
    pub parameters: Vec<String>,
    /// the return type of the function
    pub return_type: Option<String>,
}

/// A single C function that was found.
#[derive(Debug)]
pub struct CFunction {
    /// the name of the function
    pub name: String,
    /// the (line numbered) code of the function
    pub body: String,
    /// the parameters of the function
    pub parameters: Vec<String>,
    /// the functions this one is nested in
    pub parent: Vec<ParentFunction>,
    /// the return type of the function
    pub return_type: Option<String>,
    /// the first and last line of the function
    pub lines: (usize, usize),
}

impl CFunction {
    /// creates a new `CFunction`
    pub fn new(
        name: String,
        body: String,
        parameters: Vec<String>,
        parent: Vec<ParentFunction>,
        return_type: Option<String>,
        lines: (usize, usize),
    ) -> (r: Self)
        ensures
            r == (CFunction { name, body, parameters, parent, return_type, lines }),
    {
        CFunction { name, body, parameters, parent, return_type, lines }
    }
}

/// How a C function is shown: its name, its parameters in brackets (when it
/// has any), and its return type after an arrow (when it has one).
pub open spec fn c_display(f: CFunction) -> Seq<char> {
    let params = if f.parameters@.len() == 0 {
        seq![]
    } else {
        seq!['('] + join(views(f.parameters@), seq![',', ' ']) + seq![')']
    };
    let ret = match f.return_type {
        Some(r) => seq![' ', '-', '>', ' '] + r@,
        None => seq![],
    };
    f.name@ + params + ret
}

impl CFunction {
    /// The function's signature as it is shown.
    pub fn to_string(&self) -> (r: String)
        ensures
            r@ == c_display(*self),
    {
        let mut s = String::new();
        push_str(&mut s, self.name.as_str());
        if self.parameters.len() > 0 {
            push_str(&mut s, "(");
            let joined = crate::text::join_strings(&self.parameters, ", ");
            push_str(&mut s, joined.as_str());
            push_str(&mut s, ")");
        }
        if let Some(ret) = &self.return_type {
            push_str(&mut s, " -> ");
            push_str(&mut s, ret.as_str());
        }
        proof {
            reveal_strlit("(");
            reveal_strlit(")");
            reveal_strlit(", ");
            reveal_strlit(" -> ");
            assert("("@ =~= seq!['(']);
            assert(")"@ =~= seq![')']);
            assert(", "@ =~= seq![',', ' ']);
            assert(" -> "@ =~= seq![' ', '-', '>', ' ']);
            assert(s@ =~= c_display(*self));
        }
        s
    }
}

/// filters for C functions
pub enum CFilter {
    /// when you want filter by a function that has a parent function of a specific name
    FunctionWithParent(String),
    /// when you want to filter by a function that has a has a specific return type
    FunctionWithReturnType(String),
}

/// Whether a C function matches a filter.
pub open spec fn c_matches(flt: CFilter, f: CFunction) -> bool {
    match flt {
        CFilter::FunctionWithParent(p) => exists|i: int|
            0 <= i < f.parent@.len() && (#[trigger] f.parent@[i]).name@ == p@,
        CFilter::FunctionWithReturnType(t) => f.return_type matches Some(r) && r@ == t@,
    }
}

impl CFilter {
    /// checks if a function matches the filter
    #[verifier::loop_isolation(false)]
    pub fn matches(&self, function: &CFunction) -> (r: bool)
        ensures
            r == c_matches(*self, *function),
    {
        match self {
            CFilter::FunctionWithParent(parent) => {
                let mut i: usize = 0;
                while i < function.parent.len()
                    invariant
                        i <= function.parent.len(),
                        forall|j: int| 0 <= j < i ==> (#[trigger] function.parent@[j]).name@ != parent@,
                    decreases function.parent.len() - i,
                {
                    if str_eq(function.parent[i].name.as_str(), parent.as_str()) {
                        assert(function.parent@[i as int].name@ == parent@);
                        return true;
                    }
                    i += 1;
                }
                false
            },
            CFilter::FunctionWithReturnType(t) => match &function.return_type {
                Some(r) => str_eq(r.as_str(), t.as_str()),
                None => false,
            },
        }
    }
}

} // verus!
