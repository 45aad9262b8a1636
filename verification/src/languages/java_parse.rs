//! Finding Java methods in a syntax tree: the tree is given as plain values
//! (compilation unit items, and the bodies of classes, interfaces, enums and
//! annotations); the search through it and where each method starts are
//! worked out here.
use vstd::prelude::*;

use super::java::JavaFunction;
use crate::text::string_of;

verus! {

/// A modifier of a method, with the lines that locate it.
pub enum JavaModifier {
    /// a keyword (`public`, `static`, ...) on the given line
    Keyword(usize),
    /// an annotation with parameters, each on the given line
    Normal(Vec<usize>),
    /// an annotation without parameters
    Marker,
    /// an annotation with a single value
    Single,
}

/// A method declaration.
pub struct JavaMethodNode {
    /// the name of the method
    pub name: String,
    /// its modifiers, in order
    pub modifiers: Vec<JavaModifier>,
    /// the line of its return type, where the type has a position
    pub return_type_line: Option<usize>,
}

/// An item of a compilation unit or of a body.
pub enum JavaNode {
    /// a method declaration
    Method(JavaMethodNode),
    /// a class and the items of its body
    Class(Vec<JavaNode>),
    /// an interface and the items of its body
    Interface(Vec<JavaNode>),
    /// an enum and the items of its body, if it has one
    Enum(Option<Vec<JavaNode>>),
    /// an annotation type and the items of its body
    Annotation(Vec<JavaNode>),
    /// anything else (constructors, fields, initializers, annotation parameters)
    Other,
}

/// The line a method's declaration is taken to start on: the line of its
/// last keyword modifier, raised to the line of any later annotation
/// parameter that stands on a greater line; 0 when there is none.
pub open spec fn modifiers_top(ms: Seq<JavaModifier>) -> int
    decreases ms.len(),
{
    if ms.len() == 0 {
        0
    } else {
        let top = modifiers_top(ms.drop_last());
        match ms.last() {
            JavaModifier::Keyword(l) => l as int,
            JavaModifier::Normal(ps) => params_top(ps@, top),
            _ => top,
        }
    }
}

/// `top`, raised to each parameter line greater than it, in order.
pub open spec fn params_top(ps: Seq<usize>, top: int) -> int
    decreases ps.len(),
{
    if ps.len() == 0 {
        top
    } else {
        let t = params_top(ps.drop_last(), top);
        if ps.last() > t {
            ps.last() as int
        } else {
            t
        }
    }
}

/// Whether the start of a method cannot be found: no modifier gives a line
/// and its return type has no position.
pub open spec fn method_fails(m: JavaMethodNode) -> bool {
    modifiers_top(m.modifiers@) == 0 && m.return_type_line is None
}

/// How many methods named `name` a node holds, and whether the start of one
/// of them cannot be found. Methods count only inside the bodies of classes,
/// interfaces and enums (`methods`); an annotation body holds none.
pub open spec fn node_scan(n: JavaNode, name: Seq<char>, methods: bool) -> (nat, bool)
    decreases n,
{
    match n {
        JavaNode::Method(m) => if methods && m.name@ == name {
            (1, method_fails(m))
        } else {
            (0, false)
        },
        JavaNode::Class(v) => list_scan(v@, name, true),
        JavaNode::Interface(v) => list_scan(v@, name, true),
        JavaNode::Enum(Some(v)) => list_scan(v@, name, true),
        JavaNode::Enum(None) => (0, false),
        JavaNode::Annotation(v) => list_scan(v@, name, false),
        JavaNode::Other => (0, false),
    }
}

/// How many methods named `name` a list of nodes holds, and whether the
/// start of one of them cannot be found.
pub open spec fn list_scan(vs: Seq<JavaNode>, name: Seq<char>, methods: bool) -> (nat, bool)
    decreases vs,
{
    if vs.len() == 0 {
        (0, false)
    } else {
        let a = list_scan(vs.drop_last(), name, methods);
        let b = node_scan(vs.last(), name, methods);
        (a.0 + b.0, a.1 || b.1)
    }
}

/// The value each method found is given.
pub open spec fn is_placeholder(f: JavaFunction) -> bool {
    &&& f.name@ == "test"@
    &&& f.lines == (0usize, 0usize)
    &&& f.args@.len() == 0
    &&& f.body@ == "test"@
    &&& f.class@.len() == 0
}

/// Where the start of a method is found, the line it starts on.
fn method_top(m: &JavaMethodNode) -> (r: Option<usize>)
    ensures
        match r {
            Some(_) => !method_fails(*m),
            None => method_fails(*m),
        },
{
    let mut top: usize = 0;
    let mut i: usize = 0;
    while i < m.modifiers.len()
        invariant
            i <= m.modifiers.len(),
            top == modifiers_top(m.modifiers@.take(i as int)),
        decreases m.modifiers.len() - i,
    {
        assert(m.modifiers@.take(i + 1).drop_last() =~= m.modifiers@.take(i as int));
        match &m.modifiers[i] {
            JavaModifier::Keyword(l) => {
                top = *l;
            },
            JavaModifier::Normal(ps) => {
                let ghost t0 = top as int;
                let mut j: usize = 0;
                while j < ps.len()
                    invariant
                        j <= ps.len(),
                        top == params_top(ps@.take(j as int), t0),
                    decreases ps.len() - j,
                {
                    assert(ps@.take(j + 1).drop_last() =~= ps@.take(j as int));
                    if ps[j] > top {
                        top = ps[j];
                    }
                    j += 1;
                }
                assert(ps@.take(ps.len() as int) =~= ps@);
            },
            _ => {},
        }
        i += 1;
    }
    assert(m.modifiers@.take(m.modifiers.len() as int) =~= m.modifiers@);
    if top == 0 {
        match m.return_type_line {
            Some(l) => Some(l),
            None => None,
        }
    } else {
        Some(top)
    }
}

/// The value a method found is given.
fn placeholder() -> (r: JavaFunction)
    ensures
        is_placeholder(r),
{
    JavaFunction::new(string_of("test"), (0, 0), Vec::new(), string_of("test"), Vec::new())
}

/// Adds the methods named `name` in a node; `Err` as soon as the start of
/// one of them cannot be found.
fn scan_node(n: &JavaNode, name: &str, methods: bool, out: &mut Vec<JavaFunction>) -> (r: Result<(), ()>)
    ensures
        r is Err <==> node_scan(*n, name@, methods).1,
        r is Ok ==> final(out)@.len() == old(out)@.len() + node_scan(*n, name@, methods).0
            && (forall|j: int| 0 <= j < old(out)@.len() ==> #[trigger] final(out)@[j] == old(out)@[j])
            && (forall|j: int|
            old(out)@.len() <= j < final(out)@.len() ==> is_placeholder(#[trigger] final(out)@[j])),
    decreases *n,
{
    match n {
        JavaNode::Method(m) => {
            if methods && super::str_eq(m.name.as_str(), name) {
                match method_top(m) {
                    Some(_) => {
                        out.push(placeholder());
                        Ok(())
                    },
                    None => Err(()),
                }
            } else {
                Ok(())
            }
        },
        JavaNode::Class(v) => scan_list(v, name, true, out),
        JavaNode::Interface(v) => scan_list(v, name, true, out),
        JavaNode::Enum(Some(v)) => scan_list(v, name, true, out),
        JavaNode::Enum(None) => Ok(()),
        JavaNode::Annotation(v) => scan_list(v, name, false, out),
        JavaNode::Other => Ok(()),
    }
}

/// Adds the methods named `name` in a list of nodes; `Err` as soon as the
/// start of one of them cannot be found.
fn scan_list(vs: &Vec<JavaNode>, name: &str, methods: bool, out: &mut Vec<JavaFunction>) -> (r: Result<(), ()>)
    ensures
        r is Err <==> list_scan(vs@, name@, methods).1,
        r is Ok ==> final(out)@.len() == old(out)@.len() + list_scan(vs@, name@, methods).0
            && (forall|j: int| 0 <= j < old(out)@.len() ==> #[trigger] final(out)@[j] == old(out)@[j])
            && (forall|j: int|
            old(out)@.len() <= j < final(out)@.len() ==> is_placeholder(#[trigger] final(out)@[j])),
    decreases vs@,
{
    let ghost out0 = out@;
    let mut i: usize = 0;
    proof {
        assert(vs@.take(0) =~= seq![]);
    }
    while i < vs.len()
        invariant
            i <= vs.len(),
            !list_scan(vs@.take(i as int), name@, methods).1,
            out@.len() == out0.len() + list_scan(vs@.take(i as int), name@, methods).0,
            forall|j: int| 0 <= j < out0.len() ==> #[trigger] out@[j] == out0[j],
            forall|j: int| out0.len() <= j < out@.len() ==> is_placeholder(#[trigger] out@[j]),
        decreases vs.len() - i,
    {
        proof {
            assert(vs@.take(i + 1).drop_last() =~= vs@.take(i as int));
            assert(decreases_to!(vs@ => vs@[i as int]));
        }
        let ghost before = out@;
        match scan_node(&vs[i], name, methods, out) {
            Ok(()) => {
                proof {
                    assert forall|j: int| 0 <= j < out0.len() implies #[trigger] out@[j] == out0[j] by {
                        assert(out@[j] == before[j]);
                    }
                    assert forall|j: int| out0.len() <= j < out@.len() implies is_placeholder(
                        #[trigger] out@[j],
                    ) by {
                        if j < before.len() {
                            assert(out@[j] == before[j]);
                        }
                    }
                }
            },
            Err(()) => {
                proof {
                    lemma_scan_fails_prefix(vs@, name@, methods, i as int + 1);
                }
                return Err(());
            },
        }
        i += 1;
    }
    proof {
        assert(vs@.take(vs.len() as int) =~= vs@);
    }
    Ok(())
}

/// A failure in a prefix of a list is a failure of the list.
proof fn lemma_scan_fails_prefix(vs: Seq<JavaNode>, name: Seq<char>, methods: bool, k: int)
    requires
        0 <= k <= vs.len(),
        list_scan(vs.take(k), name, methods).1,
    ensures
        list_scan(vs, name, methods).1,
    decreases vs.len() - k,
{
    if k < vs.len() {
        assert(vs.take(k + 1).drop_last() =~= vs.take(k));
        lemma_scan_fails_prefix(vs, name, methods, k + 1);
    } else {
        assert(vs.take(k) =~= vs);
    }
}

/// Finds the methods named `name` in the items of a compilation unit, in
/// order, down through class, interface, enum and annotation bodies. Each
/// method found is given the name and body `test`, no lines, no parameters
/// and no classes. An error when the line a found method starts on cannot be
/// worked out: no modifier locates it and its return type has no position.
pub fn find_methods_in_units(units: &Vec<JavaNode>, name: &str) -> (r: Result<Vec<JavaFunction>, String>)
    ensures
        match r {
            Ok(v) => !list_scan(units@, name@, false).1 && v@.len() == list_scan(units@, name@, false).0
                && forall|j: int| 0 <= j < v@.len() ==> is_placeholder(#[trigger] v@[j]),
            Err(e) => list_scan(units@, name@, false).1 && e@ == "could not find top of method"@,
        },
{
    let mut out: Vec<JavaFunction> = Vec::new();
    match scan_list(units, name, false, &mut out) {
        Ok(()) => Ok(out),
        Err(()) => Err(string_of("could not find top of method")),
    }
}

} // verus!
