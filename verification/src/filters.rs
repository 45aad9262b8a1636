//! The filters that narrow the functions found in a file: what they are
//! called, what they take, and how their options are read.
use vstd::prelude::*;

use crate::text::{
    clone_string, push_string, join, parse_usize, push_str, split_at_char, split_char, str_parse_usize,
    string_of, views,
};

pub mod general_filters;

use crate::filters::general_filters::{
    FunctionInImpl, FunctionInLines, FunctionWithParameterRust, TreeSitterQueryFilter,
};
use crate::languages::str_eq;

verus! {

// ---------------------------------------------------------------- descriptions

/// The type of an attribute a filter takes.
#[derive(Debug, Clone, PartialEq, Eq)]
pub enum AttributeType {
    /// a text
    String,
    /// a number
    Number,
    /// yes or no
    Boolean,
    /// something else
    Other(String),
}

impl AttributeType {
    /// How the type is shown.
    pub fn to_string(&self) -> (r: String)
        ensures
            match self {
                AttributeType::String => r@ == "String"@,
                AttributeType::Number => r@ == "Number"@,
                AttributeType::Boolean => r@ == "Boolean"@,
                AttributeType::Other(o) => r@ == o@,
            },
    {
        match self {
            AttributeType::String => string_of("String"),
            AttributeType::Number => string_of("Number"),
            AttributeType::Boolean => string_of("Boolean"),
            AttributeType::Other(o) => clone_string(o),
        }
    }
}

/// The name of an attribute a filter takes.
#[derive(Debug, Clone, PartialEq, Eq)]
pub struct Attribute(pub String);

impl Attribute {
    /// How the attribute is shown: its name.
    pub fn to_string(&self) -> (r: String)
        ensures
            r@ == self.0@,
    {
        clone_string(&self.0)
    }
}

/// The languages a filter works on: all of them.
#[derive(Debug, PartialEq, Eq)]
pub struct All;

/// The languages a filter works on: one of them.
#[derive(Debug, PartialEq, Eq)]
pub struct Language(pub String);

/// Which languages a filter works on.
#[derive(Debug)]
pub enum SupportedLanguages {
    /// all of them
    All,
    /// one of them
    Single(String),
    /// some of them
    Many(Vec<String>),
}

/// What a filter is: its name, what it does, the languages it works on and
/// the attributes it takes.
#[derive(Debug)]
pub struct FilterInformation<Supports> {
    filter_name: String,
    description: String,
    supported_languages: Supports,
    attributes: Vec<(Attribute, AttributeType)>,
}

impl<Supports> FilterInformation<Supports> {
    /// The name of the filter.
    pub closed spec fn name_spec(&self) -> Seq<char> {
        self.filter_name@
    }

    /// What the filter does.
    pub closed spec fn description_spec(&self) -> Seq<char> {
        self.description@
    }

    /// The languages the filter works on.
    pub closed spec fn supports_spec(&self) -> Supports {
        self.supported_languages
    }

    /// The attributes the filter takes.
    pub closed spec fn attributes_spec(&self) -> Seq<(Attribute, AttributeType)> {
        self.attributes@
    }

    /// A description of a filter.
    pub fn new(
        filter_name: String,
        description: String,
        supported_languages: Supports,
        attributes: Vec<(Attribute, AttributeType)>,
    ) -> (r: Self)
        ensures
            r.name_spec() == filter_name@,
            r.description_spec() == description@,
            r.supports_spec() == supported_languages,
            r.attributes_spec() == attributes@,
    {
        FilterInformation { filter_name, description, supported_languages, attributes }
    }

    /// what languages this filter works on
    pub fn supported_languages(&self) -> (r: &Supports)
        ensures
            *r == self.supports_spec(),
    {
        &self.supported_languages
    }

    /// the attributes the filter takes
    pub fn attributes(&self) -> (r: &Vec<(Attribute, AttributeType)>)
        ensures
            r@ == self.attributes_spec(),
    {
        &self.attributes
    }

    /// describes what the filter does and how it parses
    pub fn description(&self) -> (r: &str)
        ensures
            r@ == self.description_spec(),
    {
        self.description.as_str()
    }

    /// the name of the filter (so users can find the filter)
    pub fn filter_name(&self) -> (r: &str)
        ensures
            r@ == self.name_spec(),
    {
        self.filter_name.as_str()
    }

    /// How the description is shown: `filter` and the name.
    pub fn to_string(&self) -> (r: String)
        ensures
            r@ == "filter "@ + self.name_spec(),
    {
        let mut s = string_of("filter ");
        push_str(&mut s, self.filter_name.as_str());
        s
    }
}

/// The attributes of a filter, each as its name and its type.
pub open spec fn attribute_views(v: Seq<(Attribute, AttributeType)>) -> Seq<(Seq<char>, AttributeType)> {
    Seq::new(v.len(), |i: int| (v[i].0.0@, v[i].1))
}

/// What a filter tells of itself.
pub trait HasFilterInformation {
    /// The languages the filter works on.
    type Supports;

    /// The name of the filter.
    spec fn name_of(&self) -> Seq<char>;

    /// the name of the filter (so users can find the filter)
    fn filter_name(&self) -> (r: String)
        ensures
            r@ == self.name_of(),
    ;

    /// What the filter does and how it parses.
    spec fn description_of(&self) -> Seq<char>;

    /// Whether these are the languages the filter works on.
    spec fn supports_of(&self, s: Self::Supports) -> bool;

    /// The attributes the filter takes, each as its name and its type.
    spec fn attributes_of(&self) -> Seq<(Seq<char>, AttributeType)>;

    /// describes what the filter does and how it parses
    fn description(&self) -> (r: String)
        ensures
            r@ == self.description_of(),
    ;

    /// what languages this filter works on
    fn supports(&self) -> (r: Self::Supports)
        ensures
            self.supports_of(r),
    ;

    /// the attributes the filter takes
    fn attributes(&self) -> (r: Vec<(Attribute, AttributeType)>)
        ensures
            attribute_views(r@) == self.attributes_of(),
    ;

    /// The whole description of the filter: its name, description,
    /// languages and attributes.
    fn filter_info(&self) -> (r: FilterInformation<Self::Supports>)
        ensures
            r.name_spec() == self.name_of(),
            r.description_spec() == self.description_of(),
            self.supports_of(r.supports_spec()),
            attribute_views(r.attributes_spec()) == self.attributes_of(),
    {
        FilterInformation::new(self.filter_name(), self.description(), self.supports(), self.attributes())
    }
}

// ---------------------------------------------------------------- filters

/// What a filter keeps, once its options are read.
#[derive(Debug)]
pub enum FilterFunction {
    /// the functions that start at or after the first line and end at or
    /// before the last
    InLines(usize, usize),
    /// the functions whose grandparent node is an impl block
    InImpl,
    /// the functions that a tree-sitter query matches
    Query(String),
    /// the functions with a parameter of this name
    WithParameter(String),
}

/// The view of what a filter keeps.
pub enum FilterSpec {
    /// by lines
    InLines(usize, usize),
    /// in an impl block
    InImpl,
    /// by a query
    Query(Seq<char>),
    /// by a parameter name
    WithParameter(Seq<char>),
}

impl View for FilterFunction {
    type V = FilterSpec;

    open spec fn view(&self) -> FilterSpec {
        match self {
            FilterFunction::InLines(a, b) => FilterSpec::InLines(*a, *b),
            FilterFunction::InImpl => FilterSpec::InImpl,
            FilterFunction::Query(q) => FilterSpec::Query(q@),
            FilterFunction::WithParameter(p) => FilterSpec::WithParameter(p@),
        }
    }
}

/// A parsed filter, or the error, by their views.
pub open spec fn filter_result(r: Result<FilterFunction, String>) -> Result<FilterSpec, Seq<char>> {
    match r {
        Ok(f) => Ok(f@),
        Err(e) => Err(e@),
    }
}

/// A filter whose options can be read from text.
pub trait Filter: HasFilterInformation {
    /// What the options `s` are read as.
    spec fn parse_spec(&self, s: Seq<char>) -> Result<FilterSpec, Seq<char>>;

    /// Reads the options of the filter.
    fn parse_filter(&self, s: &str) -> (r: Result<FilterFunction, String>)
        ensures
            filter_result(r) == self.parse_spec(s@),
    ;

    /// Reads the options and puts the filter together with its description.
    fn to_filter(&self, s: &str) -> (r: Result<InstantiatedFilter<Self::Supports>, String>)
        ensures
            match r {
                Ok(f) => self.parse_spec(s@) == Ok::<FilterSpec, Seq<char>>(f.function_spec())
                    && f.information().name_spec() == self.name_of(),
                Err(e) => self.parse_spec(s@) == Err::<FilterSpec, Seq<char>>(e@),
            },
    {
        match self.parse_filter(s) {
            Ok(filter_function) => {
                let filter_information = self.filter_info();
                Ok(InstantiatedFilter { filter_information, filter_function })
            },
            Err(e) => Err(e),
        }
    }
}

/// A filter with its options read.
#[derive(Debug)]
pub struct InstantiatedFilter<Supports> {
    filter_information: FilterInformation<Supports>,
    filter_function: FilterFunction,
}

impl<Supports> InstantiatedFilter<Supports> {
    /// The description of the filter.
    pub closed spec fn information(&self) -> FilterInformation<Supports> {
        self.filter_information
    }

    /// What the filter keeps.
    pub closed spec fn function_spec(&self) -> FilterSpec {
        self.filter_function@
    }

    /// What the filter keeps.
    pub fn function(&self) -> (r: &FilterFunction)
        ensures
            r@ == self.function_spec(),
    {
        &self.filter_function
    }

    /// the attributes the filter takes
    pub fn attributes(&self) -> (r: &Vec<(Attribute, AttributeType)>)
        ensures
            r@ == self.information().attributes_spec(),
    {
        self.filter_information.attributes()
    }

    /// describes what the filter does and how it parses
    pub fn description(&self) -> (r: &str)
        ensures
            r@ == self.information().description_spec(),
    {
        self.filter_information.description()
    }

    /// the name of the filter
    pub fn filter_name(&self) -> (r: &str)
        ensures
            r@ == self.information().name_spec(),
    {
        self.filter_information.filter_name()
    }

    /// what languages this filter works on
    pub fn supported_languages(&self) -> (r: &Supports)
        ensures
            *r == self.information().supports_spec(),
    {
        self.filter_information.supported_languages()
    }

    /// How the filter is shown: `filter` and its name.
    pub fn to_string(&self) -> (r: String)
        ensures
            r@ == "filter "@ + self.information().name_spec(),
    {
        self.filter_information.to_string()
    }
}

/// Something with a filter's name.
pub trait Info {
    /// The languages it works on.
    type Supported;

    /// Its name.
    spec fn info_name(&self) -> Seq<char>;

    /// Its name.
    fn info_filter_name(&self) -> (r: String)
        ensures
            r@ == self.info_name(),
    ;
}

impl<T> Info for InstantiatedFilter<T> {
    type Supported = T;

    open spec fn info_name(&self) -> Seq<char> {
        self.information().name_spec()
    }

    fn info_filter_name(&self) -> (r: String) {
        string_of(self.filter_information.filter_name())
    }
}

/// One filter under a name, in a version for each language.
#[derive(Debug)]
pub struct Many<T> {
    /// the name they share
    pub name: String,
    /// each language with its version of the filter
    pub filters: Vec<(String, T)>,
}

/// The names of the languages of a [`Many`].
pub open spec fn language_names<T>(filters: Seq<(String, T)>) -> Seq<Seq<char>> {
    Seq::new(filters.len(), |i: int| filters[i].0@)
}

/// A filter that works on every language, or one in a version for each
/// language.
#[derive(Debug)]
pub enum SingleOrMany<A, M> {
    /// for all languages
    All(A),
    /// for some languages
    Many(Many<M>),
}

impl<A: Info, M: Info> SingleOrMany<A, M> {
    /// The name of the filter.
    pub fn filter_name(&self) -> (r: String)
        ensures
            r@ == match self {
                SingleOrMany::All(f) => f.info_name(),
                SingleOrMany::Many(many) => many.name@,
            },
    {
        match self {
            SingleOrMany::All(f) => f.info_filter_name(),
            SingleOrMany::Many(many) => clone_string(&many.name),
        }
    }

    /// The languages the filter works on.
    pub fn supports(&self) -> (r: SupportedLanguages)
        ensures
            match self {
                SingleOrMany::All(_) => r is All,
                SingleOrMany::Many(many) => r matches SupportedLanguages::Many(v) && views(v@)
                    == language_names(many.filters@),
            },
    {
        match self {
            SingleOrMany::All(_) => SupportedLanguages::All,
            SingleOrMany::Many(many) => {
                let mut v: Vec<String> = Vec::new();
                let mut i: usize = 0;
                while i < many.filters.len()
                    invariant
                        i <= many.filters@.len(),
                        views(v@) == language_names(many.filters@).subrange(0, i as int),
                    decreases many.filters@.len() - i,
                {
                    push_string(&mut v, clone_string(&many.filters[i].0));
                    assert(views(v@) =~= language_names(many.filters@).subrange(0, i + 1));
                    i = i + 1;
                }
                assert(language_names(many.filters@).subrange(0, i as int) =~= language_names(many.filters@));
                SupportedLanguages::Many(v)
            },
        }
    }

    /// How the filter is shown: its name.
    pub fn to_string(&self) -> (r: String)
        ensures
            r@ == match self {
                SingleOrMany::All(f) => f.info_name(),
                SingleOrMany::Many(many) => many.name@,
            },
    {
        self.filter_name()
    }
}

// ---------------------------------------------------------------- reading options

/// The words of the options of a filter: the text split at each space.
pub open spec fn words(s: Seq<char>) -> Seq<Seq<char>> {
    split_at_char(s, ' ')
}

/// The error for a missing number.
pub open spec fn missing_number(filter: Seq<char>, format: Seq<char>, position: Seq<char>) -> Seq<char> {
    "invalid options for "@ + filter + " filter\nexpected "@ + format + "\n missing "@ + position
        + " [number]"@
}

/// The error for a word that is not a number.
pub open spec fn bad_number(filter: Seq<char>, format: Seq<char>, position: Seq<char>) -> Seq<char> {
    "invalid options for "@ + filter + " filter\nexpected "@ + format + "\n cannot parse "@
        + position + " [number]"@
}

/// The error for words left over.
pub open spec fn extra_words(filter: Seq<char>, format: Seq<char>, extra: Seq<char>) -> Seq<char> {
    "invalid options for "@ + filter + " filter\nexpected "@ + format
        + "\n, found extra stuff after "@ + format + ": "@ + extra
}

/// The error for a missing label.
pub open spec fn missing_label(filter: Seq<char>, format: Seq<char>, label: Seq<char>) -> Seq<char> {
    "invalid options for "@ + filter + " filter\nexpected "@ + format + "\n missing label "@ + label
}

/// The error for a wrong label.
pub open spec fn wrong_label(filter: Seq<char>, format: Seq<char>, label: Seq<char>, found: Seq<char>) -> Seq<char> {
    "invalid options for "@ + filter + " filter\n expected "@ + format + "\nexpected "@ + label
        + ", found "@ + found
}

/// The error for a missing text.
pub open spec fn missing_string(format: Seq<char>, position: Seq<char>) -> Seq<char> {
    "invalid options for function_with_parameter filter\nexpected "@ + format + "\n missing "@
        + position + " [number]"@
}

/// A result with its error taken by its view.
pub open spec fn err_view<T>(r: Result<T, String>) -> Result<T, Seq<char>> {
    match r {
        Ok(x) => Ok(x),
        Err(e) => Err(e@),
    }
}

/// A result of texts taken by their views.
pub open spec fn text_result(r: Result<String, String>) -> Result<Seq<char>, Seq<char>> {
    match r {
        Ok(x) => Ok(x@),
        Err(e) => Err(e@),
    }
}

/// What reading a number at word `pos` gives.
pub open spec fn number_at(ws: Seq<Seq<char>>, pos: int, format: Seq<char>, position: Seq<char>, filter: Seq<char>) -> Result<usize, Seq<char>> {
    if pos >= ws.len() {
        Err(missing_number(filter, format, position))
    } else {
        match parse_usize(ws[pos]) {
            Some(n) => Ok(n),
            None => Err(bad_number(filter, format, position)),
        }
    }
}

/// What checking that no word is left from `pos` on gives.
pub open spec fn extra_at(ws: Seq<Seq<char>>, pos: int, format: Seq<char>, filter: Seq<char>) -> Result<(), Seq<char>> {
    if pos >= ws.len() {
        Ok(())
    } else {
        Err(extra_words(filter, format, ws[pos]))
    }
}

/// What checking that word `pos` is the label `expected` gives.
pub open spec fn label_at(ws: Seq<Seq<char>>, pos: int, format: Seq<char>, expected: Seq<char>, filter: Seq<char>) -> Result<(), Seq<char>> {
    if pos >= ws.len() {
        Err(missing_label(filter, format, expected))
    } else if ws[pos] == expected {
        Ok(())
    } else {
        Err(wrong_label(filter, format, expected, ws[pos]))
    }
}

/// What reading word `pos` as a text gives.
pub open spec fn string_at(ws: Seq<Seq<char>>, pos: int, format: Seq<char>, position: Seq<char>) -> Result<Seq<char>, Seq<char>> {
    if pos >= ws.len() {
        Err(missing_string(format, position))
    } else {
        Ok(ws[pos])
    }
}

/// Where the reading stands after one word is asked for.
pub open spec fn next_pos(ws: Seq<Seq<char>>, pos: int) -> int {
    if pos < ws.len() {
        pos + 1
    } else {
        pos
    }
}

/// Reads a number from the next word: an error when there is none or it is
/// not a number. The word is used up either way.
pub fn number(words: &Vec<String>, pos: &mut usize, format: &str, position: &str, filter: &str) -> (r: Result<usize, String>)
    requires
        *old(pos) <= words@.len(),
    ensures
        *final(pos) == next_pos(views(words@), *old(pos) as int),
        err_view(r) == number_at(views(words@), *old(pos) as int, format@, position@, filter@),
{
    if *pos >= words.len() {
        let mut e = string_of("invalid options for ");
        push_str(&mut e, filter);
        push_str(&mut e, " filter\nexpected ");
        push_str(&mut e, format);
        push_str(&mut e, "\n missing ");
        push_str(&mut e, position);
        push_str(&mut e, " [number]");
        return Err(e);
    }
    let w = *pos;
    *pos = w + 1;
    match str_parse_usize(words[w].as_str()) {
        Some(n) => Ok(n),
        None => {
            let mut e = string_of("invalid options for ");
            push_str(&mut e, filter);
            push_str(&mut e, " filter\nexpected ");
            push_str(&mut e, format);
            push_str(&mut e, "\n cannot parse ");
            push_str(&mut e, position);
            push_str(&mut e, " [number]");
            Err(e)
        },
    }
}

/// Checks that no word is left: an error naming the next word otherwise.
pub fn extra(words: &Vec<String>, pos: &mut usize, format: &str, filter: &str) -> (r: Result<(), String>)
    requires
        *old(pos) <= words@.len(),
    ensures
        *final(pos) == next_pos(views(words@), *old(pos) as int),
        err_view(r) == extra_at(views(words@), *old(pos) as int, format@, filter@),
{
    if *pos >= words.len() {
        return Ok(());
    }
    let w = *pos;
    *pos = w + 1;
    let mut e = string_of("invalid options for ");
    push_str(&mut e, filter);
    push_str(&mut e, " filter\nexpected ");
    push_str(&mut e, format);
    push_str(&mut e, "\n, found extra stuff after ");
    push_str(&mut e, format);
    push_str(&mut e, ": ");
    push_str(&mut e, words[w].as_str());
    Err(e)
}

/// Checks that the next word is the label `expected`.
pub fn label(words: &Vec<String>, pos: &mut usize, format: &str, expected: &str, filter: &str) -> (r: Result<(), String>)
    requires
        *old(pos) <= words@.len(),
    ensures
        *final(pos) == next_pos(views(words@), *old(pos) as int),
        err_view(r) == label_at(views(words@), *old(pos) as int, format@, expected@, filter@),
{
    if *pos >= words.len() {
        let mut e = string_of("invalid options for ");
        push_str(&mut e, filter);
        push_str(&mut e, " filter\nexpected ");
        push_str(&mut e, format);
        push_str(&mut e, "\n missing label ");
        push_str(&mut e, expected);
        return Err(e);
    }
    let w = *pos;
    *pos = w + 1;
    if crate::languages::str_eq(expected, words[w].as_str()) {
        Ok(())
    } else {
        let mut e = string_of("invalid options for ");
        push_str(&mut e, filter);
        push_str(&mut e, " filter\n expected ");
        push_str(&mut e, format);
        push_str(&mut e, "\nexpected ");
        push_str(&mut e, expected);
        push_str(&mut e, ", found ");
        push_str(&mut e, words[w].as_str());
        Err(e)
    }
}

/// Reads the next word as a text.
pub fn string(words: &Vec<String>, pos: &mut usize, format: &str, position: &str, filter: &str) -> (r: Result<String, String>)
    requires
        *old(pos) <= words@.len(),
    ensures
        *final(pos) == next_pos(views(words@), *old(pos) as int),
        text_result(r) == string_at(views(words@), *old(pos) as int, format@, position@),
{
    if *pos >= words.len() {
        let mut e = string_of("invalid options for function_with_parameter filter\nexpected ");
        push_str(&mut e, format);
        push_str(&mut e, "\n missing ");
        push_str(&mut e, position);
        push_str(&mut e, " [number]");
        return Err(e);
    }
    let w = *pos;
    *pos = w + 1;
    Ok(clone_string(&words[w]))
}

// ---------------------------------------------------------------- the filters there are

/// The filters that work on every language.
#[derive(Debug, Clone, Copy, PartialEq, Eq, Structural)]
pub enum AnyLanguageFilter {
    /// `function_in_lines`
    FunctionInLines,
    /// `tree_sitter_query`
    TreeSitterQuery,
}

/// The filters that work on one language.
#[derive(Debug, Clone, Copy, PartialEq, Eq, Structural)]
pub enum OneLanguageFilter {
    /// `function_in_impl`, for Rust
    FunctionInImpl,
    /// `function_with_parameter`, for Rust
    FunctionWithParameterRust,
}

impl HasFilterInformation for AnyLanguageFilter {
    type Supports = All;

    open spec fn name_of(&self) -> Seq<char> {
        match self {
            AnyLanguageFilter::FunctionInLines => FunctionInLines.name_of(),
            AnyLanguageFilter::TreeSitterQuery => TreeSitterQueryFilter.name_of(),
        }
    }

    open spec fn description_of(&self) -> Seq<char> {
        match self {
            AnyLanguageFilter::FunctionInLines => FunctionInLines.description_of(),
            AnyLanguageFilter::TreeSitterQuery => TreeSitterQueryFilter.description_of(),
        }
    }

    open spec fn supports_of(&self, s: All) -> bool {
        true
    }

    open spec fn attributes_of(&self) -> Seq<(Seq<char>, AttributeType)> {
        match self {
            AnyLanguageFilter::FunctionInLines => FunctionInLines.attributes_of(),
            AnyLanguageFilter::TreeSitterQuery => TreeSitterQueryFilter.attributes_of(),
        }
    }

    fn filter_name(&self) -> (r: String) {
        match self {
            AnyLanguageFilter::FunctionInLines => FunctionInLines.filter_name(),
            AnyLanguageFilter::TreeSitterQuery => TreeSitterQueryFilter.filter_name(),
        }
    }

    fn description(&self) -> (r: String)
        ensures
            r@ == match self {
                AnyLanguageFilter::FunctionInLines => crate::filters::general_filters::lines_description(),
                AnyLanguageFilter::TreeSitterQuery => "filter using an arbritrary tree sitter query"@,
            },
    {
        match self {
            AnyLanguageFilter::FunctionInLines => FunctionInLines.description(),
            AnyLanguageFilter::TreeSitterQuery => TreeSitterQueryFilter.description(),
        }
    }

    fn supports(&self) -> (r: All) {
        All
    }

    fn attributes(&self) -> (r: Vec<(Attribute, AttributeType)>)
        ensures
            attribute_views(r@) == match self {
                AnyLanguageFilter::FunctionInLines => seq![
                    ("start"@, AttributeType::Number),
                    ("end"@, AttributeType::Number),
                ],
                AnyLanguageFilter::TreeSitterQuery => seq![("query"@, AttributeType::String)],
            },
    {
        match self {
            AnyLanguageFilter::FunctionInLines => {
                let r = FunctionInLines.attributes();
                assert(attribute_views(r@) =~= seq![
                    ("start"@, AttributeType::Number),
                    ("end"@, AttributeType::Number),
                ]);
                r
            },
            AnyLanguageFilter::TreeSitterQuery => {
                let r = TreeSitterQueryFilter.attributes();
                assert(attribute_views(r@) =~= seq![("query"@, AttributeType::String)]);
                r
            },
        }
    }
}

impl Filter for AnyLanguageFilter {
    open spec fn parse_spec(&self, s: Seq<char>) -> Result<FilterSpec, Seq<char>> {
        match self {
            AnyLanguageFilter::FunctionInLines => FunctionInLines.parse_spec(s),
            AnyLanguageFilter::TreeSitterQuery => TreeSitterQueryFilter.parse_spec(s),
        }
    }

    fn parse_filter(&self, s: &str) -> (r: Result<FilterFunction, String>) {
        match self {
            AnyLanguageFilter::FunctionInLines => FunctionInLines.parse_filter(s),
            AnyLanguageFilter::TreeSitterQuery => TreeSitterQueryFilter.parse_filter(s),
        }
    }
}

impl HasFilterInformation for OneLanguageFilter {
    type Supports = Language;

    open spec fn name_of(&self) -> Seq<char> {
        match self {
            OneLanguageFilter::FunctionInImpl => FunctionInImpl.name_of(),
            OneLanguageFilter::FunctionWithParameterRust => FunctionWithParameterRust.name_of(),
        }
    }

    open spec fn description_of(&self) -> Seq<char> {
        match self {
            OneLanguageFilter::FunctionInImpl => FunctionInImpl.description_of(),
            OneLanguageFilter::FunctionWithParameterRust => FunctionWithParameterRust.description_of(),
        }
    }

    open spec fn supports_of(&self, s: Language) -> bool {
        s.0@ == "Rust"@
    }

    open spec fn attributes_of(&self) -> Seq<(Seq<char>, AttributeType)> {
        match self {
            OneLanguageFilter::FunctionInImpl => FunctionInImpl.attributes_of(),
            OneLanguageFilter::FunctionWithParameterRust => FunctionWithParameterRust.attributes_of(),
        }
    }

    fn filter_name(&self) -> (r: String) {
        match self {
            OneLanguageFilter::FunctionInImpl => FunctionInImpl.filter_name(),
            OneLanguageFilter::FunctionWithParameterRust => FunctionWithParameterRust.filter_name(),
        }
    }

    fn description(&self) -> (r: String)
        ensures
            r@ == match self {
                OneLanguageFilter::FunctionInImpl => "find if any functions are in an impl block"@,
                OneLanguageFilter::FunctionWithParameterRust => "Find a function with a given parameter"@,
            },
    {
        match self {
            OneLanguageFilter::FunctionInImpl => FunctionInImpl.description(),
            OneLanguageFilter::FunctionWithParameterRust => FunctionWithParameterRust.description(),
        }
    }

    fn supports(&self) -> (r: Language)
        ensures
            r.0@ == "Rust"@,
    {
        match self {
            OneLanguageFilter::FunctionInImpl => FunctionInImpl.supports(),
            OneLanguageFilter::FunctionWithParameterRust => FunctionWithParameterRust.supports(),
        }
    }

    fn attributes(&self) -> (r: Vec<(Attribute, AttributeType)>)
        ensures
            attribute_views(r@) == match self {
                OneLanguageFilter::FunctionInImpl => Seq::<(Seq<char>, AttributeType)>::empty(),
                OneLanguageFilter::FunctionWithParameterRust => seq![("name"@, AttributeType::String)],
            },
    {
        match self {
            OneLanguageFilter::FunctionInImpl => {
                let r = FunctionInImpl.attributes();
                assert(attribute_views(r@) =~= Seq::<(Seq<char>, AttributeType)>::empty());
                r
            },
            OneLanguageFilter::FunctionWithParameterRust => {
                let r = FunctionWithParameterRust.attributes();
                assert(attribute_views(r@) =~= seq![("name"@, AttributeType::String)]);
                r
            },
        }
    }
}

impl Filter for OneLanguageFilter {
    open spec fn parse_spec(&self, s: Seq<char>) -> Result<FilterSpec, Seq<char>> {
        match self {
            OneLanguageFilter::FunctionInImpl => FunctionInImpl.parse_spec(s),
            OneLanguageFilter::FunctionWithParameterRust => FunctionWithParameterRust.parse_spec(s),
        }
    }

    fn parse_filter(&self, s: &str) -> (r: Result<FilterFunction, String>) {
        match self {
            OneLanguageFilter::FunctionInImpl => FunctionInImpl.parse_filter(s),
            OneLanguageFilter::FunctionWithParameterRust => FunctionWithParameterRust.parse_filter(s),
        }
    }
}

impl Info for AnyLanguageFilter {
    type Supported = All;

    open spec fn info_name(&self) -> Seq<char> {
        self.name_of()
    }

    fn info_filter_name(&self) -> (r: String) {
        self.filter_name()
    }
}

impl Info for OneLanguageFilter {
    type Supported = Language;

    open spec fn info_name(&self) -> Seq<char> {
        self.name_of()
    }

    fn info_filter_name(&self) -> (r: String) {
        self.filter_name()
    }
}

/// A filter as it is looked up by name.
pub type FilterType = SingleOrMany<AnyLanguageFilter, OneLanguageFilter>;

/// A filter with its options read.
pub type InstantiatedFilterType = SingleOrMany<InstantiatedFilter<All>, InstantiatedFilter<Language>>;

/// The name a filter gives (`SingleOrMany::filter_name`).
pub open spec fn filter_type_name(f: FilterType) -> Seq<char> {
    match f {
        SingleOrMany::All(a) => a.info_name(),
        SingleOrMany::Many(m) => m.name@,
    }
}

/// Every filter that comes with the library is kept under the name it
/// gives, and the names are `function_in_lines`, `function_in_impl` and
/// `function_with_parameter`.
pub proof fn law_default_filters_named(f: Filters)
    requires
        f.is_default(),
    ensures
        f.names() == seq!["function_in_lines"@, "function_in_impl"@, "function_with_parameter"@],
        forall|i: int| 0 <= i < f.names().len() ==> filter_type_name(#[trigger] f.entry(i)) == f.names()[i],
{
    assert forall|i: int| 0 <= i < f.names().len() implies filter_type_name(#[trigger] f.entry(i)) == f.names()[i] by {
        if i == 0 {
            assert(filter_type_name(f.entry(0)) == "function_in_lines"@);
        }
    }
}

/// Whether every version of a filter reads the options.
pub open spec fn all_parse(filters: Seq<(String, OneLanguageFilter)>, s: Seq<char>) -> bool {
    forall|i: int| 0 <= i < filters.len() ==> (#[trigger] filters[i]).1.parse_spec(s) is Ok
}

impl SingleOrMany<AnyLanguageFilter, OneLanguageFilter> {
    /// Reads the options for the filter, for every language it has a version
    /// for: the first error, or the filter for each language.
    #[verifier::loop_isolation(false)]
    pub fn to_filter(&self, s: &str) -> (r: Result<InstantiatedFilterType, String>)
        ensures
            match self {
                SingleOrMany::All(a) => match r {
                    Ok(SingleOrMany::All(f)) => a.parse_spec(s@) == Ok::<FilterSpec, Seq<char>>(f.function_spec())
                        && f.information().name_spec() == a.name_of(),
                    Ok(SingleOrMany::Many(_)) => false,
                    Err(e) => a.parse_spec(s@) == Err::<FilterSpec, Seq<char>>(e@),
                },
                SingleOrMany::Many(m) => match r {
                    Ok(SingleOrMany::Many(out)) => {
                        &&& out.name@ == m.name@
                        &&& out.filters@.len() == m.filters@.len()
                        &&& all_parse(m.filters@, s@)
                        &&& forall|i: int| 0 <= i < m.filters@.len() ==> {
                            &&& (#[trigger] out.filters@[i]).0@ == m.filters@[i].0@
                            &&& m.filters@[i].1.parse_spec(s@) == Ok::<FilterSpec, Seq<char>>(out.filters@[i].1.function_spec())
                            &&& out.filters@[i].1.information().name_spec() == m.filters@[i].1.name_of()
                        }
                    },
                    Ok(SingleOrMany::All(_)) => false,
                    Err(e) => exists|i: int| {
                        &&& 0 <= i < m.filters@.len()
                        &&& all_parse(m.filters@.take(i), s@)
                        &&& (#[trigger] m.filters@[i]).1.parse_spec(s@) == Err::<FilterSpec, Seq<char>>(e@)
                    },
                },
            },
    {
        match self {
            SingleOrMany::All(a) => match a.to_filter(s) {
                Ok(f) => Ok(SingleOrMany::All(f)),
                Err(e) => Err(e),
            },
            SingleOrMany::Many(m) => {
                let mut out: Vec<(String, InstantiatedFilter<Language>)> = Vec::new();
                let mut i: usize = 0;
                while i < m.filters.len()
                    invariant
                        i <= m.filters@.len(),
                        out@.len() == i,
                        all_parse(m.filters@.take(i as int), s@),
                        forall|k: int| 0 <= k < i ==> {
                            &&& (#[trigger] out@[k]).0@ == m.filters@[k].0@
                            &&& m.filters@[k].1.parse_spec(s@) == Ok::<FilterSpec, Seq<char>>(out@[k].1.function_spec())
                            &&& out@[k].1.information().name_spec() == m.filters@[k].1.name_of()
                        },
                    decreases m.filters@.len() - i,
                {
                    match m.filters[i].1.to_filter(s) {
                        Ok(f) => {
                            out.push((clone_string(&m.filters[i].0), f));
                            assert forall|k: int| 0 <= k < i + 1 implies (#[trigger] m.filters@.take(i + 1)[k]).1.parse_spec(s@) is Ok by {
                                if k < i {
                                    assert(m.filters@.take(i + 1)[k] == m.filters@.take(i as int)[k]);
                                }
                            }
                        },
                        Err(e) => {
                            assert(m.filters@[i as int].1.parse_spec(s@) == Err::<FilterSpec, Seq<char>>(e@));
                            assert(all_parse(m.filters@.take(i as int), s@));
                            assert(exists|j: int| {
                                &&& 0 <= j < m.filters@.len()
                                &&& all_parse(m.filters@.take(j), s@)
                                &&& (#[trigger] m.filters@[j]).1.parse_spec(s@) == Err::<FilterSpec, Seq<char>>(e@)
                            });
                            return Err(e);
                        },
                    }
                    i = i + 1;
                }
                assert(m.filters@.take(i as int) =~= m.filters@);
                Ok(SingleOrMany::Many(Many { name: clone_string(&m.name), filters: out }))
            },
        }
    }
}

/// The filters, each under its name.
pub struct Filters {
    filters: Vec<(String, FilterType)>,
}

impl Filters {
    /// The names of the filters, in order.
    pub closed spec fn names(&self) -> Seq<Seq<char>> {
        Seq::new(self.filters@.len(), |i: int| self.filters@[i].0@)
    }

    /// The filter under the `i`-th name.
    pub closed spec fn entry(&self, i: int) -> FilterType {
        self.filters@[i].1
    }

    /// Whether these are the filters that come with the library.
    pub open spec fn is_default(&self) -> bool {
        &&& self.names() == seq!["function_in_lines"@, "function_in_impl"@, "function_with_parameter"@]
        &&& self.entry(0) == SingleOrMany::<AnyLanguageFilter, OneLanguageFilter>::All(AnyLanguageFilter::FunctionInLines)
        &&& self.entry(1) matches SingleOrMany::Many(m) && m.name@ == "function_in_impl"@ && m.filters@.len() == 1
            && m.filters@[0].0@ == "Rust"@ && m.filters@[0].1 == OneLanguageFilter::FunctionInImpl
        &&& self.entry(2) matches SingleOrMany::Many(m) && m.name@ == "function_with_parameter"@ && m.filters@.len()
            == 1 && m.filters@[0].0@ == "Rust"@ && m.filters@[0].1 == OneLanguageFilter::FunctionWithParameterRust
    }

    /// The filters that come with the library: `function_in_lines` for
    /// every language, and `function_in_impl` and `function_with_parameter`
    /// for Rust.
    pub fn default() -> (r: Self)
        ensures
            r.is_default(),
    {
        let mut filters: Vec<(String, FilterType)> = Vec::new();
        filters.push((string_of("function_in_lines"), SingleOrMany::All(AnyLanguageFilter::FunctionInLines)));
        let mut in_impl: Vec<(String, OneLanguageFilter)> = Vec::new();
        in_impl.push((string_of("Rust"), OneLanguageFilter::FunctionInImpl));
        filters.push((string_of("function_in_impl"), SingleOrMany::Many(Many { name: string_of("function_in_impl"), filters: in_impl })));
        let mut with_parameter: Vec<(String, OneLanguageFilter)> = Vec::new();
        with_parameter.push((string_of("Rust"), OneLanguageFilter::FunctionWithParameterRust));
        filters.push((string_of("function_with_parameter"), SingleOrMany::Many(Many { name: string_of("function_with_parameter"), filters: with_parameter })));
        let r = Filters { filters };
        assert(r.names() =~= seq!["function_in_lines"@, "function_in_impl"@, "function_with_parameter"@]);
        r
    }

    /// The filter under a name, if there is one.
    pub fn get_filter(&self, name: &str) -> (r: Option<&FilterType>)
        ensures
            match r {
                Some(f) => exists|i: int| 0 <= i < self.names().len() && self.names()[i] == name@
                    && !self.names().take(i).contains(name@) && *f == self.entry(i),
                None => !self.names().contains(name@),
            },
    {
        let mut i: usize = 0;
        while i < self.filters.len()
            invariant
                i <= self.filters@.len(),
                !self.names().take(i as int).contains(name@),
            decreases self.filters@.len() - i,
        {
            if str_eq(self.filters[i].0.as_str(), name) {
                assert(self.names()[i as int] == name@);
                let f = &self.filters[i].1;
                assert(*f == self.entry(i as int));
                assert(self.names().len() == self.filters@.len());
                return Some(f);
            }
            assert(self.names().take(i + 1) =~= self.names().take(i as int).push(self.names()[i as int]));
            i = i + 1;
        }
        assert(self.names().take(i as int) =~= self.names());
        None
    }
}

} // verus!
