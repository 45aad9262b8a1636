//! Finding Go functions in source text: the declarations come from `gosyn`;
//! where a function starts and ends, its code, its lines, its parameters and
//! its return types are worked out here.
use vstd::prelude::*;

use super::go::{GoFunction, GoParameter};
use crate::text::{
    assoc_insert, byte_slice, clone_string, concat_all, distinct_names, is_boundary,
    last_offset, named_map, offset_of, push_str, str_byte_len, str_chars, str_get, str_rfind,
    utf8_len, views,
};

verus! {

#[verifier::external_type_specification]
#[verifier::external_body]
pub struct ExGoFuncDecl(gosyn::ast::FuncDecl);

/// One field of a Go parameter or result list, as plain values.
pub struct GoField {
    /// the names the field declares (none for an unnamed parameter)
    pub names: Vec<String>,
    /// the type, where it is a plain identifier
    pub type_ident: Option<String>,
}

/// Where a Go function declaration stands, as plain values.
pub struct GoDeclSpan {
    /// the name of the function
    pub name: String,
    /// the byte offset of the name
    pub name_pos: usize,
    /// the byte offset of the receiver list, for a method
    pub recv_pos: Option<usize>,
    /// the byte offsets of the doc comments
    pub doc_positions: Vec<usize>,
    /// the byte offset of the closing brace of the body, if there is a body
    pub body_end: Option<usize>,
}

/// A Go function declaration, as plain values.
pub struct GoDecl {
    /// the name of the function
    pub name: String,
    /// the byte offset of the name
    pub name_pos: usize,
    /// the byte offset of the receiver list, for a method
    pub recv_pos: Option<usize>,
    /// the byte offsets of the doc comments
    pub doc_positions: Vec<usize>,
    /// the byte offset of the closing brace of the body, if there is a body
    pub body_end: Option<usize>,
    /// the parameter list
    pub params: Vec<GoField>,
    /// the result list
    pub results: Vec<GoField>,
}

/// A top-level declaration of a Go source file, as plain values.
pub enum GoTopDecl {
    /// a function declaration
    Function(GoDecl),
    /// any other declaration
    Other,
}

/// What `gosyn` parses a source text into: its top-level declarations, in
/// order, as plain values; nothing when the text does not parse.
pub uninterp spec fn go_source_decls(src: Seq<char>) -> Option<Seq<GoTopDecl>>;

/// `gosyn::parse_source`: on success, the top-level declarations of the file
/// (`decl`), each a function declaration (`Declaration::Function`, as its
/// plain values) or another; on failure, the error's debug text. What it
/// gives is named by `go_source_decls`. The debug text of the error is not
/// stated: the `anyhow` error it comes from appends a backtrace when the
/// environment asks for one.
#[verifier::external_body]
fn go_declarations(src: &str) -> (r: Result<Vec<GoTopDecl>, String>)
    ensures
        match r {
            Ok(v) => go_source_decls(src@) == Some(v@),
            Err(_) => go_source_decls(src@) is None,
        },
{
    match gosyn::parse_source(src) {
        Ok(file) => Ok(file.decl.iter().map(|d| match d {
            gosyn::ast::Declaration::Function(f) => GoTopDecl::Function(go_decl(f)),
            _ => GoTopDecl::Other,
        }).collect()),
        Err(e) => Err(format!("{:?}", e)),
    }
}

/// The function declarations among top-level declarations, in order.
pub open spec fn functions_of(v: Seq<GoTopDecl>) -> Seq<GoDecl>
    decreases v.len(),
{
    if v.len() == 0 {
        seq![]
    } else {
        match v.last() {
            GoTopDecl::Function(d) => functions_of(v.drop_last()).push(d),
            GoTopDecl::Other => functions_of(v.drop_last()),
        }
    }
}

/// The function declarations among top-level declarations, in order (executable).
fn function_decls(v: Vec<GoTopDecl>) -> (r: Vec<GoDecl>)
    ensures
        r@ == functions_of(v@),
{
    let ghost all = v@;
    let n: usize = v.len();
    let mut rest = v;
    let mut out: Vec<GoDecl> = Vec::new();
    let mut k: usize = 0;
    while rest.len() > 0
        invariant
            all.len() == n,
            k <= all.len(),
            rest@ == all.skip(k as int),
            out@ == functions_of(all.take(k as int)),
        decreases rest.len(),
    {
        assert(all.take(k + 1).drop_last() =~= all.take(k as int));
        assert(all.take(k + 1).last() == rest@[0]);
        let d = rest.remove(0);
        assert(rest@ =~= all.skip(k + 1));
        match d {
            GoTopDecl::Function(f) => out.push(f),
            GoTopDecl::Other => {},
        }
        k += 1;
    }
    assert(all.take(k as int) =~= all);
    out
}

/// Where a declaration stands: the name (`name.name`) and its offset
/// (`name.pos`), the offset of the receiver list (`FieldList::pos`; the
/// parser gives a receiver list its parentheses, so this never panics), the
/// offsets of the doc comments and the offset of the body's closing brace
/// (`body.pos.1`). Nothing is stated of them.
#[verifier::external_body]
fn go_decl_span(f: &gosyn::ast::FuncDecl) -> (r: GoDeclSpan) {
    GoDeclSpan {
        name: f.name.name.clone(),
        name_pos: f.name.pos,
        recv_pos: f.recv.as_ref().map(|l| l.pos()),
        doc_positions: f.docs.iter().map(|c| c.pos).collect(),
        body_end: f.body.as_ref().map(|b| b.pos.1),
    }
}

/// The fields of a declaration's parameter list and result list
/// (`typ.params.list`, `typ.result.list`): for each, its names, and its
/// type where that is an identifier (`Expression::Ident`). Nothing is stated of them.
#[verifier::external_body]
fn go_decl_fields(f: &gosyn::ast::FuncDecl) -> (r: (Vec<GoField>, Vec<GoField>)) {
    let field = |x: &gosyn::ast::Field| GoField {
        names: x.name.iter().map(|n| n.name.clone()).collect(),
        type_ident: match &x.typ {
            gosyn::ast::Expression::Ident(i) => Some(i.name.clone()),
            _ => None,
        },
    };
    (f.typ.params.list.iter().map(field).collect(), f.typ.result.list.iter().map(field).collect())
}

/// A declaration as plain values.
fn go_decl(f: &gosyn::ast::FuncDecl) -> (r: GoDecl) {
    let span = go_decl_span(f);
    let (params, results) = go_decl_fields(f);
    GoDecl {
        name: span.name,
        name_pos: span.name_pos,
        recv_pos: span.recv_pos,
        doc_positions: span.doc_positions,
        body_end: span.body_end,
        params,
        results,
    }
}

// ---------------------------------------------------------------- lines

/// The number of newlines in a text.
pub open spec fn newline_count(t: Seq<char>) -> nat
    decreases t.len(),
{
    if t.len() == 0 {
        0
    } else {
        newline_count(t.drop_last()) + (if t.last() == '\n' {
            1nat
        } else {
            0nat
        })
    }
}

/// The line of a position: the number of newlines at character indices up
/// to and including `pos` (the position is a byte offset, compared with
/// character indices).
pub open spec fn line_number(s: Seq<char>, pos: int) -> nat {
    newline_count(
        s.take(
            if pos + 1 < s.len() {
                pos + 1
            } else {
                s.len() as int
            },
        ),
    )
}

/// Counts the line of a position.
fn line_number_of(chars: &Vec<char>, pos: usize) -> (r: usize)
    ensures
        r == line_number(chars@, pos as int),
{
    let end = if pos < chars.len() {
        pos + 1
    } else {
        chars.len()
    };
    let mut i: usize = 0;
    let mut c: usize = 0;
    while i < end
        invariant
            i <= end <= chars.len(),
            c == newline_count(chars@.take(i as int)),
            c <= i,
        decreases end - i,
    {
        assert(chars@.take(i + 1).drop_last() =~= chars@.take(i as int));
        if chars[i] == '\n' {
            c += 1;
        }
        i += 1;
    }
    c
}

// ---------------------------------------------------------------- the code of a function

/// The keyword a function declaration starts with.
pub open spec fn func_keyword() -> Seq<char> {
    seq!['f', 'u', 'n', 'c']
}

/// The smallest of a start offset and the doc comment offsets before it,
/// taken in order.
pub open spec fn docs_min(docs: Seq<usize>, l: int) -> int
    decreases docs.len(),
{
    if docs.len() == 0 {
        l
    } else {
        let m = docs_min(docs.drop_last(), l);
        if (docs.last() as int) < m {
            docs.last() as int
        } else {
            m
        }
    }
}

/// Where the code of a declared function starts: the last `func` before its
/// receiver list (or its name, for a function without one), or an earlier
/// doc comment.
pub open spec fn go_start(s: Seq<char>, d: GoDecl) -> Option<int> {
    let first = match d.recv_pos {
        Some(p) => p,
        None => d.name_pos,
    };
    match byte_slice(s, 0, first as int) {
        Some(pre) => match last_offset(pre, func_keyword()) {
            Some(k) => Some(docs_min(d.doc_positions@, k as int)),
            None => None,
        },
        None => None,
    }
}

/// The code of a declared function (from its start through the closing brace
/// of its body) and its first and last line; nothing for a function without
/// a body, without a `func` before it, or whose offsets are not boundaries.
pub open spec fn go_found(s: Seq<char>, d: GoDecl) -> Option<(Seq<char>, (nat, nat))> {
    match d.body_end {
        None => None,
        Some(be) => match go_start(s, d) {
            None => None,
            Some(l0) => match byte_slice(s, l0, be + 1) {
                None => None,
                Some(body) => Some((body, (line_number(s, l0), line_number(s, be as int)))),
            },
        },
    }
}

// ---------------------------------------------------------------- parameters

/// The parameters of a function, as a model: the types of unnamed
/// parameters, or each parameter name with its type.
pub enum GoParamModel {
    /// types of unnamed parameters
    Types(Seq<Seq<char>>),
    /// names with their types
    Names(Map<Seq<char>, Seq<char>>),
}

/// The model of parameters held as values.
pub open spec fn param_model(p: GoParameter) -> GoParamModel {
    match p {
        GoParameter::Type(v) => GoParamModel::Types(views(v@)),
        GoParameter::Named(v) => GoParamModel::Names(named_map(v@)),
    }
}

/// The type of a field as text: its identifier, or nothing.
pub open spec fn field_type(f: GoField) -> Seq<char> {
    match f.type_ident {
        Some(t) => t@,
        None => seq![],
    }
}

/// Each name, in order, given the type `ty`.
pub open spec fn insert_names(m: Map<Seq<char>, Seq<char>>, names: Seq<String>, ty: Seq<char>) -> Map<
    Seq<char>,
    Seq<char>,
>
    decreases names.len(),
{
    if names.len() == 0 {
        m
    } else {
        insert_names(m, names.drop_last(), ty).insert(names.last()@, ty)
    }
}

/// The first field decides the kind of the parameters.
pub open spec fn first_params(f: GoField) -> GoParamModel {
    if f.names@.len() == 0 {
        GoParamModel::Types(
            match f.type_ident {
                Some(t) => seq![t@],
                None => seq![],
            },
        )
    } else {
        GoParamModel::Names(insert_names(Map::empty(), f.names@, field_type(f)))
    }
}

/// A later field adds to parameters of its own kind: an unnamed one with an
/// identifier type adds the type, a named one adds its names.
pub open spec fn next_params(p: GoParamModel, f: GoField) -> GoParamModel {
    if f.names@.len() == 0 {
        match (p, f.type_ident) {
            (GoParamModel::Types(ts), Some(t)) => GoParamModel::Types(ts.push(t@)),
            _ => p,
        }
    } else {
        match p {
            GoParamModel::Names(m) => GoParamModel::Names(insert_names(m, f.names@, field_type(f))),
            _ => p,
        }
    }
}

/// The parameters of the first `n` fields.
pub open spec fn params_upto(fields: Seq<GoField>, n: int) -> GoParamModel
    decreases n,
{
    if n <= 0 {
        GoParamModel::Types(seq![])
    } else if n == 1 {
        first_params(fields[0])
    } else {
        next_params(params_upto(fields, n - 1), fields[n - 1])
    }
}

/// The parameters of a parameter list.
pub open spec fn go_params(fields: Seq<GoField>) -> GoParamModel {
    params_upto(fields, fields.len() as int)
}

/// The names of the result fields, all concatenated; nothing when empty.
pub open spec fn go_returns(results: Seq<GoField>) -> Option<Seq<char>> {
    let c = concat_all(Seq::new(results.len(), |i: int| concat_all(views(results[i].names@))));
    if c.len() == 0 {
        None
    } else {
        Some(c)
    }
}

/// Whether `f` is the function that declaration `d` gives in text `s`.
pub open spec fn go_function_is(s: Seq<char>, d: GoDecl, f: GoFunction) -> bool {
    match go_found(s, d) {
        Some((body, lines)) => {
            &&& f.name@ == d.name@
            &&& f.body@ == body
            &&& f.lines.0 == lines.0
            &&& f.lines.1 == lines.1
            &&& f.parameters.wf()
            &&& param_model(f.parameters) == go_params(d.params@)
            &&& match f.return_type {
                Some(t) => go_returns(d.results@) == Some(t@),
                None => go_returns(d.results@) is None,
            }
        },
        None => false,
    }
}

/// Adds names, in order, each with type `ty`.
fn add_names(v: &mut Vec<(String, String)>, names: &Vec<String>, ty: &String)
    requires
        distinct_names(old(v)@),
    ensures
        distinct_names(final(v)@),
        named_map(final(v)@) == insert_names(named_map(old(v)@), names@, ty@),
{
    let ghost m0 = named_map(v@);
    let mut j: usize = 0;
    while j < names.len()
        invariant
            j <= names.len(),
            distinct_names(v@),
            named_map(v@) == insert_names(m0, names@.take(j as int), ty@),
        decreases names.len() - j,
    {
        assert(names@.take(j + 1).drop_last() =~= names@.take(j as int));
        assoc_insert(v, (clone_string(&names[j]), clone_string(ty)));
        j += 1;
    }
    assert(names@.take(names.len() as int) =~= names@);
}

/// The type of a field as text.
fn field_type_of(f: &GoField) -> (r: String)
    ensures
        r@ == field_type(*f),
{
    match &f.type_ident {
        Some(t) => clone_string(t),
        None => String::new(),
    }
}

/// Works out the parameters of a parameter list.
pub fn parameters_of(fields: &Vec<GoField>) -> (r: GoParameter)
    ensures
        r.wf(),
        param_model(r) == go_params(fields@),
{
    if fields.len() == 0 {
        let r = GoParameter::Type(Vec::new());
        assert(views(Seq::<String>::empty()) =~= Seq::<Seq<char>>::empty());
        return r;
    }
    let f0 = &fields[0];
    let mut p = if f0.names.len() == 0 {
        match &f0.type_ident {
            Some(t) => {
                let v = vec![clone_string(t)];
                assert(views(v@) =~= seq![t@]);
                GoParameter::Type(v)
            },
            None => {
                let v: Vec<String> = Vec::new();
                assert(views(v@) =~= Seq::<Seq<char>>::empty());
                GoParameter::Type(v)
            },
        }
    } else {
        let mut v: Vec<(String, String)> = Vec::new();
        let ty = field_type_of(f0);
        assert(named_map(v@) =~= Map::<Seq<char>, Seq<char>>::empty());
        add_names(&mut v, &f0.names, &ty);
        GoParameter::Named(v)
    };
    let mut i: usize = 1;
    while i < fields.len()
        invariant
            1 <= i <= fields.len(),
            p.wf(),
            param_model(p) == params_upto(fields@, i as int),
        decreases fields.len() - i,
    {
        let f = &fields[i];
        if f.names.len() == 0 {
            match (&mut p, &f.type_ident) {
                (GoParameter::Type(ts), Some(t)) => {
                    let ghost before = ts@;
                    ts.push(clone_string(t));
                    assert(views(ts@) =~= views(before).push(t@));
                },
                _ => {},
            }
        } else {
            let ty = field_type_of(f);
            match &mut p {
                GoParameter::Named(v) => {
                    add_names(v, &f.names, &ty);
                },
                _ => {},
            }
        }
        i += 1;
    }
    p
}

/// Works out the return types of a result list.
pub fn returns_of(results: &Vec<GoField>) -> (r: Option<String>)
    ensures
        match go_returns(results@) {
            Some(t) => r matches Some(x) && x@ == t,
            None => r is None,
        },
{
    let ghost parts = Seq::new(results@.len(), |i: int| concat_all(views(results@[i].names@)));
    let mut c = String::new();
    let mut i: usize = 0;
    while i < results.len()
        invariant
            i <= results.len(),
            parts == Seq::new(results@.len(), |i: int| concat_all(views(results@[i].names@))),
            c@ == concat_all(parts.take(i as int)),
        decreases results.len() - i,
    {
        let names = &results[i].names;
        let ghost c0 = c@;
        let mut j: usize = 0;
        while j < names.len()
            invariant
                j <= names.len(),
                c@ == c0 + concat_all(views(names@).take(j as int)),
            decreases names.len() - j,
        {
            assert(views(names@).take(j + 1).drop_last() =~= views(names@).take(j as int));
            push_str(&mut c, names[j].as_str());
            assert(c@ =~= c0 + concat_all(views(names@).take(j + 1)));
            j += 1;
        }
        assert(views(names@).take(names.len() as int) =~= views(names@));
        assert(parts.take(i + 1).drop_last() =~= parts.take(i as int));
        assert(c@ =~= concat_all(parts.take(i + 1)));
        i += 1;
    }
    assert(parts.take(results.len() as int) =~= parts);
    if c.as_str().is_empty() {
        None
    } else {
        Some(c)
    }
}

/// A boundary is never past the end of the text.
proof fn lemma_boundary_le(s: Seq<char>, off: int)
    requires
        is_boundary(s, off),
    ensures
        off <= utf8_len(s),
{
    let i = choose|i: int| 0 <= i <= s.len() && offset_of(s, i) == off;
    crate::text::lemma_offset_mono(s, i, s.len() as int);
    assert(s.take(s.len() as int) =~= s);
}

/// Works out the function a declaration gives in a text: its code, its lines,
/// its parameters and its return types; nothing where the declaration has no
/// body, no `func` before it, or offsets that are not boundaries of the text.
pub fn go_function_from_decl(file_contents: &str, d: &GoDecl) -> (r: Option<GoFunction>)
    ensures
        match go_found(file_contents@, *d) {
            Some(_) => r matches Some(f) && go_function_is(file_contents@, *d, f),
            None => r is None,
        },
{
    let ghost s = file_contents@;
    let be = match d.body_end {
        Some(b) => b,
        None => return None,
    };
    let first = match d.recv_pos {
        Some(p) => p,
        None => d.name_pos,
    };
    let pre = match str_get(file_contents, 0, first) {
        Some(p) => p,
        None => return None,
    };
    proof {
        reveal_strlit("func");
        assert("func"@ =~= func_keyword());
    }
    let k = match str_rfind(pre.as_str(), "func") {
        Some(k) => k,
        None => return None,
    };
    let mut l0 = k;
    let mut i: usize = 0;
    while i < d.doc_positions.len()
        invariant
            i <= d.doc_positions.len(),
            l0 == docs_min(d.doc_positions@.take(i as int), k as int),
        decreases d.doc_positions.len() - i,
    {
        assert(d.doc_positions@.take(i + 1).drop_last() =~= d.doc_positions@.take(i as int));
        if d.doc_positions[i] < l0 {
            l0 = d.doc_positions[i];
        }
        i += 1;
    }
    assert(d.doc_positions@.take(d.doc_positions.len() as int) =~= d.doc_positions@);
    assert(go_start(s, *d) == Some(l0 as int));
    let total = str_byte_len(file_contents);
    if be >= total {
        proof {
            if is_boundary(s, be + 1) {
                lemma_boundary_le(s, be + 1);
            }
        }
        return None;
    }
    let body = match str_get(file_contents, l0, be + 1) {
        Some(b) => b,
        None => return None,
    };
    let chars = str_chars(file_contents);
    let start_line = line_number_of(&chars, l0);
    let end_line = line_number_of(&chars, be);
    let parameters = parameters_of(&d.params);
    let return_type = returns_of(&d.results);
    Some(GoFunction::new(clone_string(&d.name), body, parameters, return_type, (start_line, end_line)))
}

/// The indices of the declarations, among the first `n`, of functions named
/// `name` that give a function in the text.
pub open spec fn kept_decls(s: Seq<char>, decls: Seq<GoDecl>, name: Seq<char>, n: int) -> Seq<int>
    decreases n,
{
    if n <= 0 {
        seq![]
    } else {
        let rest = kept_decls(s, decls, name, n - 1);
        if decls[n - 1].name@ == name && go_found(s, decls[n - 1]) is Some {
            rest.push(n - 1)
        } else {
            rest
        }
    }
}

/// The message for a function that was not found.
pub open spec fn not_found_message(name: Seq<char>) -> Seq<char> {
    "could not find function "@ + name + " in file"@
}

/// What a search for the functions named `name` in text `s` gives when the
/// declarations are `decls`: the functions that the declarations of that
/// name give, in order; an error when there is none.
pub open spec fn go_search_result(s: Seq<char>, name: Seq<char>, decls: Seq<GoDecl>, r: Result<
    Vec<GoFunction>,
    String,
>) -> bool {
    let kept = kept_decls(s, decls, name, decls.len() as int);
    match r {
        Ok(v) => kept.len() > 0 && v@.len() == kept.len() && forall|j: int|
            0 <= j < v@.len() ==> go_function_is(s, decls[#[trigger] kept[j]], v@[j]),
        Err(e) => kept.len() == 0 && e@ == not_found_message(name),
    }
}

/// The functions named `name` that the declarations give in the text, in
/// order; an error when there is none.
pub fn functions_named(file_contents: &str, name: &str, decls: &Vec<GoDecl>) -> (r: Result<
    Vec<GoFunction>,
    String,
>)
    ensures
        go_search_result(file_contents@, name@, decls@, r),
{
    let mut v: Vec<GoFunction> = Vec::new();
    let mut i: usize = 0;
    while i < decls.len()
        invariant
            i <= decls.len(),
            ({
                let kept = kept_decls(file_contents@, decls@, name@, i as int);
                v@.len() == kept.len() && forall|j: int|
                    0 <= j < v@.len() ==> go_function_is(
                        file_contents@,
                        decls@[#[trigger] kept[j]],
                        v@[j],
                    )
            }),
        decreases decls.len() - i,
    {
        if super::str_eq(decls[i].name.as_str(), name) {
            match go_function_from_decl(file_contents, &decls[i]) {
                Some(f) => {
                    v.push(f);
                },
                None => {},
            }
        }
        i += 1;
    }
    if v.len() == 0 {
        let mut e = String::new();
        push_str(&mut e, "could not find function ");
        push_str(&mut e, name);
        push_str(&mut e, " in file");
        return Err(e);
    }
    Ok(v)
}

/// Each kept declaration has the name looked for.
proof fn lemma_kept_named(s: Seq<char>, decls: Seq<GoDecl>, name: Seq<char>, n: int, j: int)
    requires
        0 <= j < kept_decls(s, decls, name, n).len(),
        n <= decls.len(),
    ensures
        0 <= kept_decls(s, decls, name, n)[j] < n,
        decls[kept_decls(s, decls, name, n)[j]].name@ == name,
    decreases n,
{
    if n > 0 {
        let rest = kept_decls(s, decls, name, n - 1);
        if j < rest.len() {
            lemma_kept_named(s, decls, name, n - 1, j);
        }
    }
}

/// Whether some declaration of a function named `name` gives `f` in text `s`.
pub open spec fn declared_function(s: Seq<char>, name: Seq<char>, f: GoFunction) -> bool {
    exists|d: GoDecl| d.name@ == name && #[trigger] go_function_is(s, d, f)
}

/// Finds the functions named `name` in Go source text: the text is parsed
/// by `gosyn`, and each function declaration of that name that has a body
/// gives its code, lines, parameters and return types, in order. An error
/// when the text does not parse (the parser's message) or when no such
/// function is found.
pub fn find_function_in_file(file_contents: &str, name: &str) -> (r: Result<
    Vec<GoFunction>,
    String,
>)
    ensures
        match go_source_decls(file_contents@) {
            None => r is Err,
            Some(decls) => go_search_result(file_contents@, name@, functions_of(decls), r),
        },
        r matches Ok(v) ==> v@.len() > 0 && forall|j: int|
            0 <= j < v@.len() ==> declared_function(file_contents@, name@, #[trigger] v@[j]),
{
    let parsed = match go_declarations(file_contents) {
        Ok(p) => p,
        Err(e) => return Err(e),
    };
    let decls = function_decls(parsed);
    let r = functions_named(file_contents, name, &decls);
    assert(go_search_result(file_contents@, name@, decls@, r));
    proof {
        if r is Ok {
            let v = r->Ok_0;
            let kept = kept_decls(file_contents@, decls@, name@, decls@.len() as int);
            assert forall|j: int| 0 <= j < v@.len() implies declared_function(
                file_contents@,
                name@,
                #[trigger] v@[j],
            ) by {
                lemma_kept_named(file_contents@, decls@, name@, decls@.len() as int, j);
                let d = decls@[kept[j]];
                assert(d.name@ == name@ && go_function_is(file_contents@, d, v@[j]));
            }
        }
    }
    r
}

} // verus!
