//! The languages whose functions can be looked up, the per-language filters,
//! and the files that hold the functions found in one source file.
use vstd::prelude::*;

use crate::text::{
    chars_to_string, decimal, lines, lines_of, pair_views, push_chars, push_char, push_decimal,
    push_str, str_chars, string_of, trim_end, trim_end_chars, utf8_len, char_len_utf8,
};
use crate::types::ErrorReason;
use crate::Filter;

pub mod c;
pub mod go;
pub mod go_parse;
pub mod ruby_parse;
pub mod java;
pub mod java_parse;
pub mod python;
pub mod ruby;
pub mod rust;
pub mod umpl;

verus! {

/// The filters that can be used to filter the functions of each language.
pub enum LanguageFilter {
    /// python filter
    Python(python::PythonFilter),
    /// rust filter
    Rust(rust::RustFilter),
    /// go filter
    Go(go::GoFilter),
    /// ruby filter
    Ruby(ruby::RubyFilter),
    /// umpl filter
    UMPL(umpl::UMPLFilter),
}

/// The languages that are supported.
#[derive(Debug, Clone, Copy, PartialEq, Eq, Structural, Hash)]
pub enum Language {
    /// The python language
    Python,
    /// The rust language
    Rust,
    /// The go language
    Go,
    /// the Ruby language
    Ruby,
    /// UMPL
    UMPL,
    /// all available languages
    All,
}

/// The language a name given on the command line stands for.
pub open spec fn language_of_name(s: Seq<char>) -> Option<Language> {
    if s == "python"@ {
        Some(Language::Python)
    } else if s == "rust"@ {
        Some(Language::Rust)
    } else if s == "go"@ {
        Some(Language::Go)
    } else if s == "all"@ {
        Some(Language::All)
    } else if s == "ruby"@ {
        Some(Language::Ruby)
    } else if s == "umpl"@ {
        Some(Language::UMPL)
    } else {
        None
    }
}

/// The human readable name(s) of a language.
pub open spec fn language_names(l: Language) -> Seq<char> {
    match l {
        Language::Python => "python"@,
        Language::Rust => "rust"@,
        Language::Go => "go"@,
        Language::Ruby => "ruby"@,
        Language::UMPL => "umpl"@,
        Language::All => "python, rust, go, ruby, or umpl"@,
    }
}

/// The file extensions of a language.
pub open spec fn language_endings(l: Language) -> Seq<Seq<char>> {
    match l {
        Language::Python => seq!["py"@, "pyw"@],
        Language::Rust => seq!["rs"@],
        Language::Go => seq!["go"@],
        Language::Ruby => seq!["rb"@],
        Language::UMPL => seq!["umpl"@],
        Language::All => seq!["py"@, "pyw"@, "rs"@, "go"@, "rb"@, "umpl"@],
    }
}

/// The short name a language is displayed with.
pub open spec fn language_display(l: Language) -> Seq<char> {
    match l {
        Language::Python => "python"@,
        Language::Rust => "rust"@,
        Language::Go => "go"@,
        Language::Ruby => "ruby"@,
        Language::UMPL => "umpl"@,
        Language::All => "all"@,
    }
}

/// Whether a text is small enough for the parsers: its offsets fit in 32
/// bits, and its length leaves room for the line arithmetic.
pub open spec fn parser_fits(s: Seq<char>) -> bool {
    utf8_len(s) <= usize::MAX / 4 && utf8_len(s) <= u32::MAX
}

/// Whether a text is small enough for the parsers (executable).
pub fn fits_parser(s: &str) -> (r: bool)
    ensures
        r == parser_fits(s@),
{
    let total = crate::text::str_byte_len(s);
    total <= usize::MAX / 4 && total as u64 <= 4294967295u64
}

/// `a == b` on string slices.
pub fn str_eq(a: &str, b: &str) -> (r: bool)
    ensures
        r == (a@ == b@),
{
    let av = str_chars(a);
    let bv = str_chars(b);
    if av.len() != bv.len() {
        assert(a@.len() != b@.len());
        return false;
    }
    let mut i: usize = 0;
    while i < av.len()
        invariant
            av@ == a@,
            bv@ == b@,
            av.len() == bv.len(),
            i <= av.len(),
            forall|j: int| 0 <= j < i ==> av@[j] == bv@[j],
        decreases av.len() - i,
    {
        if av[i] != bv[i] {
            assert(a@[i as int] != b@[i as int]);
            return false;
        }
        i += 1;
    }
    assert(av@ =~= bv@);
    true
}

impl Language {
    /// takes string and returns the corresponding language
    ///
    /// `Err` will be returned if the string is not a valid language
    pub fn from_string(s: &str) -> (r: Result<Self, String>)
        ensures
            match language_of_name(s@) {
                Some(l) => r == Ok::<Language, String>(l),
                None => r is Err && r->Err_0@ == "Unknown language: "@ + s@,
            },
    {
        if str_eq(s, "python") {
            Ok(Language::Python)
        } else if str_eq(s, "rust") {
            Ok(Language::Rust)
        } else if str_eq(s, "go") {
            Ok(Language::Go)
        } else if str_eq(s, "all") {
            Ok(Language::All)
        } else if str_eq(s, "ruby") {
            Ok(Language::Ruby)
        } else if str_eq(s, "umpl") {
            Ok(Language::UMPL)
        } else {
            let mut msg = string_of("Unknown language: ");
            push_str(&mut msg, s);
            Err(msg)
        }
    }

    /// returns the name of the language(s)
    pub fn get_names(&self) -> (r: &'static str)
        ensures
            r@ == language_names(*self),
    {
        match self {
            Language::Python => "python",
            Language::Rust => "rust",
            Language::Go => "go",
            Language::Ruby => "ruby",
            Language::UMPL => "umpl",
            Language::All => "python, rust, go, ruby, or umpl",
        }
    }

    /// returns the file extensions of the language(s)
    pub fn get_file_endings(&self) -> (r: Vec<&'static str>)
        ensures
            r@.len() == language_endings(*self).len(),
            forall|i: int| 0 <= i < r@.len() ==> #[trigger] r@[i]@ == language_endings(*self)[i],
    {
        let r: Vec<&'static str> = match self {
            Language::Python => vec!["py", "pyw"],
            Language::Rust => vec!["rs"],
            Language::Go => vec!["go"],
            Language::Ruby => vec!["rb"],
            Language::UMPL => vec!["umpl"],
            Language::All => vec!["py", "pyw", "rs", "go", "rb", "umpl"],
        };
        r
    }

    /// The short name of the language, as it is displayed.
    pub fn to_string(&self) -> (r: String)
        ensures
            r@ == language_display(*self),
    {
        match self {
            Language::Python => string_of("python"),
            Language::Rust => string_of("rust"),
            Language::Go => string_of("go"),
            Language::Ruby => string_of("ruby"),
            Language::UMPL => string_of("umpl"),
            Language::All => string_of("all"),
        }
    }
}

/// Every language is found again from the name it is displayed with, and
/// every single language from its name.
pub proof fn law_language_name_roundtrip(l: Language)
    ensures
        language_of_name(language_display(l)) == Some(l),
        l != Language::All ==> language_of_name(language_names(l)) == Some(l),
{
    reveal_strlit("python");
    reveal_strlit("rust");
    reveal_strlit("go");
    reveal_strlit("all");
    reveal_strlit("ruby");
    reveal_strlit("umpl");
    assert("python"@.len() == 6 && "rust"@.len() == 4 && "go"@.len() == 2 && "all"@.len() == 3
        && "ruby"@.len() == 4 && "umpl"@.len() == 4);
    assert("ruby"@[2] != "rust"@[2]);
    assert("umpl"@[0] != "rust"@[0] && "umpl"@[0] != "ruby"@[0]);
}

} // verus!

verus! {

/// What every language's functions offer: their lines, name, body, and the
/// headings (tops) and closings (bottoms) of what encloses them.
pub trait FunctionTrait: Sized {
    /// Whether `self` and `other` hold the same values (field by field, by view).
    spec fn same(&self, other: &Self) -> bool;

    /// The first and last line of the function.
    spec fn lines_spec(&self) -> (usize, usize);

    /// The first and last line of the function with everything that encloses it.
    spec fn total_lines_spec(&self) -> (usize, usize);

    /// The name of the function.
    spec fn name_spec(&self) -> Seq<char>;

    /// The (line numbered) code of the function.
    spec fn body_spec(&self) -> Seq<char>;

    /// The headings of what encloses the function, each with its line.
    spec fn tops_spec(&self) -> Seq<(Seq<char>, usize)>;

    /// The closings of what encloses the function, each with its line.
    spec fn bottoms_spec(&self) -> Seq<(Seq<char>, usize)>;

    /// The function shown with what encloses it.
    spec fn display_spec(&self) -> Seq<char>;

    /// Values that are the same have the same specifications.
    proof fn lemma_same(&self, other: &Self)
        requires
            self.same(other),
        ensures
            other.same(self),
            self.lines_spec() == other.lines_spec(),
            self.total_lines_spec() == other.total_lines_spec(),
            self.name_spec() == other.name_spec(),
            self.body_spec() == other.body_spec(),
            self.tops_spec() == other.tops_spec(),
            self.bottoms_spec() == other.bottoms_spec(),
            self.display_spec() == other.display_spec(),
    ;

    /// returns the starting and ending line of the function
    fn get_lines(&self) -> (r: (usize, usize))
        ensures
            r == self.lines_spec(),
    ;

    /// returns the starting and ending line of the the function including any class/impls (among others) the function is part of
    fn get_total_lines(&self) -> (r: (usize, usize))
        ensures
            r == self.total_lines_spec(),
    ;

    /// returns the name of the function
    fn get_name(&self) -> (r: String)
        ensures
            r@ == self.name_spec(),
    ;

    /// returns the body of the function (the whole function including its signature and end)
    fn get_body(&self) -> (r: String)
        ensures
            r@ == self.body_spec(),
    ;

    /// returns the headings of the classes/impls (among others) the function is part of along with the starting line of each heading
    fn get_tops(&self) -> (r: Vec<(String, usize)>)
        ensures
            pair_views(r@) == self.tops_spec(),
    ;

    /// same as `get_tops` just retrieves the bottoms
    fn get_bottoms(&self) -> (r: Vec<(String, usize)>)
        ensures
            pair_views(r@) == self.bottoms_spec(),
    ;

    /// The function shown with what encloses it.
    fn to_string(&self) -> (r: String)
        ensures
            r@ == self.display_spec(),
    ;

    /// A copy of the function.
    fn duplicate(&self) -> (r: Self)
        ensures
            r.same(self),
    ;
}

/// The functions of one language: they know their language and how the
/// language's filters apply to them.
pub trait LanguageFunction: FunctionTrait {
    /// The language of these functions.
    spec fn language_spec() -> Language;

    /// Whether this function matches a language filter, or `None` when the
    /// filter is for another language.
    spec fn pl_match(&self, f: LanguageFilter) -> Option<bool>;

    /// Values that are the same match the same filters.
    proof fn lemma_same_match(&self, other: &Self, f: LanguageFilter)
        requires
            self.same(other),
        ensures
            self.pl_match(f) == other.pl_match(f),
    ;

    /// The language of these functions.
    fn language() -> (l: Language)
        ensures
            l == Self::language_spec(),
    ;

    /// Whether this function matches a language filter, or `None` when the
    /// filter is for another language.
    fn pl_matches(&self, f: &LanguageFilter) -> (r: Option<bool>)
        ensures
            r == self.pl_match(*f),
    ;
}

} // verus!

verus! {

// ---------------------------------------------------------------- line numbers

/// The lines of a snippet, each preceded by its number (counting from
/// `start`), a colon and a space, and followed by a newline.
pub open spec fn numbered(ls: Seq<Seq<char>>, start: nat) -> Seq<char>
    decreases ls.len(),
{
    if ls.len() == 0 {
        seq![]
    } else {
        numbered(ls.drop_last(), start) + decimal((start + ls.len() - 1) as nat) + seq![':', ' ']
            + ls.last() + seq!['\n']
    }
}

/// A snippet with each of its lines numbered from `start`, without
/// trailing whitespace.
pub open spec fn lined(snippet: Seq<char>, start: nat) -> Seq<char> {
    trim_end(numbered(lines(snippet), start))
}

/// Numbers the lines of a snippet, the first with `start`: each line becomes
/// `"{number}: {line}"`, and the lines are joined by newlines.
pub fn make_lined(snippet: &str, start: usize) -> (r: String)
    requires
        start + lines(snippet@).len() <= usize::MAX,
    ensures
        r@ == lined(snippet@, start as nat),
{
    let chars = str_chars(snippet);
    let ls = lines_of(&chars);
    let ghost lsv = lines(snippet@);
    let mut out = String::new();
    let mut i: usize = 0;
    while i < ls.len()
        invariant
            i <= ls.len(),
            chars@ == snippet@,
            lsv == lines(snippet@),
            ls@.len() == lsv.len(),
            forall|j: int| 0 <= j < ls@.len() ==> #[trigger] ls@[j]@ == lsv[j],
            start + lsv.len() <= usize::MAX,
            out@ == numbered(lsv.take(i as int), start as nat),
        decreases ls.len() - i,
    {
        push_decimal(&mut out, start + i);
        push_str(&mut out, ": ");
        push_chars(&mut out, ls[i].as_slice());
        push_char(&mut out, '\n');
        proof {
            reveal_strlit(": ");
            assert(": "@ =~= seq![':', ' ']);
            assert(lsv.take(i + 1).drop_last() =~= lsv.take(i as int));
            assert(out@ =~= numbered(lsv.take(i + 1), start as nat));
        }
        i += 1;
    }
    assert(lsv.take(ls.len() as int) =~= lsv);
    let all = str_chars(out.as_str());
    let trimmed = trim_end_chars(&all);
    chars_to_string(trimmed.as_slice())
}

/// For each line (the first at index 0), the byte offsets of the characters
/// that are on it; a newline belongs to the line it starts.
pub open spec fn line_index(s: Seq<char>) -> Seq<Seq<usize>>
    decreases s.len(),
{
    if s.len() == 0 {
        seq![seq![]]
    } else {
        let prev = line_index(s.drop_last());
        let off = utf8_len(s.drop_last()) as usize;
        if s.last() == '\n' {
            prev.push(seq![off])
        } else {
            prev.update(prev.len() - 1, prev.last().push(off))
        }
    }
}

/// There is always at least one line.
pub proof fn lemma_line_index_len(s: Seq<char>)
    ensures
        line_index(s).len() >= 1,
    decreases s.len(),
{
    if s.len() > 0 {
        lemma_line_index_len(s.drop_last());
    }
}

/// The views of the lines of an index.
pub open spec fn index_view(v: Seq<Vec<usize>>) -> Seq<Seq<usize>> {
    Seq::new(v.len(), |i: int| v[i]@)
}

/// Maps each line of a snippet to the byte offsets of its characters (the
/// line at index 0 is line 1).
pub fn turn_into_index(snippet: &str) -> (r: Result<Vec<Vec<usize>>, String>)
    requires
        utf8_len(snippet@) <= usize::MAX,
    ensures
        r matches Ok(index) && index_view(index@) == line_index(snippet@),
{
    let chars = str_chars(snippet);
    let mut index: Vec<Vec<usize>> = Vec::new();
    index.push(Vec::new());
    let mut char_index: usize = 0;
    let mut i: usize = 0;
    proof {
        assert(index_view(index@) =~= line_index(snippet@.take(0)));
    }
    while i < chars.len()
        invariant
            i <= chars.len(),
            chars@ == snippet@,
            utf8_len(snippet@) <= usize::MAX,
            char_index == utf8_len(snippet@.take(i as int)),
            index_view(index@) == line_index(snippet@.take(i as int)),
            index@.len() >= 1,
        decreases chars.len() - i,
    {
        let c = chars[i];
        proof {
            assert(snippet@.take(i + 1).drop_last() =~= snippet@.take(i as int));
            crate::text::lemma_utf8_len_prefix(snippet@, i + 1);
            crate::text::lemma_utf8_len_prefix(snippet@, i as int);
        }
        if c == '\n' {
            let mut v: Vec<usize> = Vec::new();
            v.push(char_index);
            index.push(v);
            proof {
                assert(index_view(index@) =~= line_index(snippet@.take(i + 1)));
            }
        } else {
            let mut v = index.pop().unwrap();
            v.push(char_index);
            index.push(v);
            proof {
                assert(index_view(index@) =~= line_index(snippet@.take(i + 1)));
            }
        }
        char_index = char_index + char_len_utf8(c);
        i += 1;
    }
    proof {
        assert(snippet@.take(chars.len() as int) =~= snippet@);
    }
    Ok(index)
}

/// Whether a line of the index holds the offset.
pub open spec fn line_holds(line: Seq<usize>, offset: usize) -> bool {
    line.contains(offset)
}

/// The number (counting from 1) of the first line of the index, from the
/// one at index `j` on, that holds the byte offset.
pub open spec fn line_holding_from(index: Seq<Seq<usize>>, j: int, offset: usize) -> Option<nat>
    decreases index.len() - j,
{
    if j < 0 || j >= index.len() {
        None
    } else if line_holds(index[j], offset) {
        Some((j + 1) as nat)
    } else {
        line_holding_from(index, j + 1, offset)
    }
}

/// The number (counting from 1) of the first line of the index that holds the byte offset.
pub open spec fn line_holding(index: Seq<Seq<usize>>, offset: usize) -> Option<nat> {
    line_holding_from(index, 0, offset)
}

/// A line found is one of the index's lines.
pub proof fn lemma_line_holding_bound(index: Seq<Seq<usize>>, j: int, offset: usize)
    requires
        0 <= j,
    ensures
        line_holding_from(index, j, offset) matches Some(k) ==> j < k <= index.len(),
    decreases index.len() - j,
{
    if j < index.len() && !line_holds(index[j], offset) {
        lemma_line_holding_bound(index, j + 1, offset);
    }
}

/// The line number (counting from 1) of the first line of the index that
/// holds the byte offset, if any does.
pub fn get_from_index(index: &Vec<Vec<usize>>, offset: usize) -> (r: Option<usize>)
    ensures
        r matches Some(k) ==> line_holding(index_view(index@), offset) == Some(k as nat),
        r is None ==> line_holding(index_view(index@), offset) is None,
{
    let ghost iv = index_view(index@);
    let mut j: usize = 0;
    while j < index.len()
        invariant
            j <= index.len(),
            iv == index_view(index@),
            line_holding(iv, offset) == line_holding_from(iv, j as int, offset),
        decreases index.len() - j,
    {
        let line = &index[j];
        let mut k: usize = 0;
        while k < line.len()
            invariant
                k <= line.len(),
                j < index.len(),
                iv == index_view(index@),
                line_holding(iv, offset) == line_holding_from(iv, j as int, offset),
                *line == index@[j as int],
                forall|y: int| 0 <= y < k ==> line@[y] != offset,
            decreases line.len() - k,
        {
            if line[k] == offset {
                assert(iv[j as int][k as int] == offset);
                assert(line_holds(iv[j as int], offset));
                return Some(j + 1);
            }
            k += 1;
        }
        proof {
            assert(!iv[j as int].contains(offset));
        }
        j += 1;
    }
    None
}

/// The byte offsets at which lines start for the line table: 0 first, then
/// the offset of each newline, in order.
pub open spec fn newline_starts(s: Seq<char>) -> Seq<nat>
    decreases s.len(),
{
    if s.len() == 0 {
        seq![0]
    } else if s.last() == '\n' {
        newline_starts(s.drop_last()).push(utf8_len(s.drop_last()))
    } else {
        newline_starts(s.drop_last())
    }
}

/// The table of line starts of a text.
pub fn line_starts(text: &str) -> (r: Vec<usize>)
    requires
        utf8_len(text@) <= usize::MAX,
    ensures
        r@.len() == newline_starts(text@).len(),
        forall|i: int| 0 <= i < r@.len() ==> r@[i] == #[trigger] newline_starts(text@)[i],
{
    let chars = str_chars(text);
    let mut r: Vec<usize> = Vec::new();
    r.push(0);
    let mut off: usize = 0;
    let mut i: usize = 0;
    proof {
        assert(text@.take(0) =~= seq![]);
    }
    while i < chars.len()
        invariant
            i <= chars.len(),
            chars@ == text@,
            utf8_len(text@) <= usize::MAX,
            off == utf8_len(text@.take(i as int)),
            r@.len() == newline_starts(text@.take(i as int)).len(),
            forall|k: int| 0 <= k < r@.len() ==> r@[k] == #[trigger] newline_starts(text@.take(i as int))[k],
        decreases chars.len() - i,
    {
        proof {
            assert(text@.take(i + 1).drop_last() =~= text@.take(i as int));
            crate::text::lemma_utf8_len_prefix(text@, i + 1);
        }
        if chars[i] == '\n' {
            r.push(off);
        }
        off = off + char_len_utf8(chars[i]);
        i += 1;
    }
    proof {
        assert(text@.take(chars.len() as int) =~= text@);
    }
    r
}

/// Each line start lies within the text.
pub proof fn lemma_newline_starts_bound(s: Seq<char>, i: int)
    requires
        0 <= i < newline_starts(s).len(),
    ensures
        newline_starts(s)[i] <= utf8_len(s),
    decreases s.len(),
{
    if s.len() > 0 {
        let w = s.drop_last();
        if i < newline_starts(w).len() {
            lemma_newline_starts_bound(w, i);
        }
    }
}

/// The number of lines of the index is one more than the number of newlines,
/// so at most one more than the number of characters.
pub proof fn lemma_line_index_len_bound(s: Seq<char>)
    ensures
        1 <= line_index(s).len() <= s.len() + 1,
        newline_starts(s).len() == line_index(s).len(),
    decreases s.len(),
{
    if s.len() > 0 {
        lemma_line_index_len_bound(s.drop_last());
    }
}

} // verus!
pub mod rust_parse;
pub mod python_parse;
pub mod umpl_parse;
