//! Finding Rust functions with regular expressions: the text of a file is
//! numbered line by line, its strings, characters and comments are blanked
//! out, and functions and `impl`/`trait`/`extern` blocks are found by
//! pattern and by counting braces. The matching itself is `regex`'s; the
//! rest is worked out here. Also the commits and histories this search
//! fills.
use vstd::prelude::*;

use crate::languages::numbered;
use crate::text::{
    byte_slice, char_is_ws, char_len_utf8, char_width, clone_string, decimal, is_ws, lines,
    lines_of, offset_of, parse_usize, push_char, push_decimal, push_str, rsplit_once_str,
    split_first, split_last, split_once_char, split_once_str, str_byte_len, str_chars, str_get,
    str_parse_usize, str_split_once, string_of, utf8_len,
};

verus! {

/// The pattern of a function heading: up to the `(` after `fn` and the name.
pub const CAPTURE_FUNCTION: &'static str = r#".*\bfn\s*(?P<name>[^\s<>]+)(?P<lifetime><[^<>]+>)?\s*\("#;

/// The pattern of string literals, comments and character literals.
pub const CAPTURE_NOT_NEEDED: &'static str = r#"(["](?:\\["]|[^"])*["])|(//.*)|(/\*[^*]*\*+(?:[^/*][^*]*\*+)*/)|(['][^\\'][']|['](?:\\(?:'|x[[:xdigit:]]{2}|u\{[[:xdigit:]]{1,6}\}|n|t|r)|\\\\)['])"#;

/// The pattern of the heading of an `impl`, `trait` or `extern` block, up to its `{`.
pub const CAPTURE_BLOCKS: &'static str = r#"(.*\bimpl\s*(?P<lifetime_impl><[^<>]+>)?\s*(?P<name_impl>[^\s<>]+)\s*(<[^<>]+>)?\s*(?P<for>for\s*(?P<for_type>[^\s<>]+)\s*(?P<for_lifetime><[^<>]+>)?)?\s*(?P<wher_impl>where*[^{]+)?\{)|(.*\btrait\s+(?P<name_trait>[^\s<>]+)\s*(?P<lifetime_trait><[^<>]+>)?\s*(?P<wher_trait>where[^{]+)?\{)|(.*\bextern\s*(?P<extern>".+")?\s*\{)"#;

/// The byte ranges of the successive non-overlapping matches of a pattern
/// in a text, as `regex` finds them; nothing when the pattern is not a
/// valid regular expression.
pub uninterp spec fn regex_matches(pattern: Seq<char>, text: Seq<char>) -> Option<Seq<(usize, usize)>>;

/// Whether the first match of a pattern in a text has the named group, as
/// `regex` finds it; nothing when the pattern is not a valid regular expression.
pub uninterp spec fn regex_group_matched(pattern: Seq<char>, text: Seq<char>, group: Seq<char>) -> Option<bool>;

/// Byte ranges that come one after another without overlapping.
pub open spec fn ranges_in_order(v: Seq<(usize, usize)>) -> bool {
    &&& forall|i: int| 0 <= i < v.len() ==> (#[trigger] v[i]).0 <= v[i].1
    &&& forall|i: int, j: int| 0 <= i < j < v.len() ==> (#[trigger] v[i]).1 <= (#[trigger] v[j]).0
}

/// `Regex::new(pattern)` and `find_iter(text)`: the start and end byte
/// offsets of the matches, named by `regex_matches`. The documentation of
/// `find_iter` promises successive non-overlapping matches, and that of
/// `Match` that a match never ends before it starts. The three patterns of
/// this module are valid regular expressions of the `regex` syntax, so
/// `Regex::new` accepts them.
#[verifier::external_body]
fn find_all(pattern: &str, text: &str) -> (r: Option<Vec<(usize, usize)>>)
    ensures
        match r {
            Some(v) => regex_matches(pattern@, text@) == Some(v@) && ranges_in_order(v@),
            None => regex_matches(pattern@, text@) is None,
        },
        pattern@ == CAPTURE_FUNCTION@ || pattern@ == CAPTURE_NOT_NEEDED@ || pattern@ == CAPTURE_BLOCKS@ ==> r is Some,
{
    let re = regex::Regex::new(pattern).ok()?;
    Some(re.find_iter(text).map(|m| (m.start(), m.end())).collect())
}

/// `Regex::new(pattern)`, `captures(text)` and `name(group)`: whether the
/// first match has the group, named by `regex_group_matched` (no match:
/// false). The block pattern of this module is a valid regular expression.
#[verifier::external_body]
fn group_matched(pattern: &str, text: &str, group: &str) -> (r: Option<bool>)
    ensures
        r == regex_group_matched(pattern@, text@, group@),
        pattern@ == CAPTURE_BLOCKS@ ==> r is Some,
{
    let re = regex::Regex::new(pattern).ok()?;
    Some(re.captures(text).map_or(false, |c| c.name(group).is_some()))
}

// ---------------------------------------------------------------- numbering and blanking

/// Numbers the lines of a text from 1: each line becomes `"{number}: {line}\n"`.
pub fn numbered_contents(file: &str) -> (r: String)
    ensures
        r@ == numbered(lines(file@), 1),
{
    let chars = str_chars(file);
    let ls = lines_of(&chars);
    let ghost lsv = lines(file@);
    let mut out = String::new();
    let mut i: usize = 0;
    proof {
        crate::text::lemma_lines_len(seq![], file@);
    }
    while i < ls.len()
        invariant
            i <= ls.len(),
            chars@ == file@,
            lsv == lines(file@),
            ls@.len() == lsv.len(),
            lsv.len() <= file@.len(),
            forall|j: int| 0 <= j < ls@.len() ==> #[trigger] ls@[j]@ == lsv[j],
            out@ == numbered(lsv.take(i as int), 1),
        decreases ls.len() - i,
    {
        assert(lsv.take(i + 1).drop_last() =~= lsv.take(i as int));
        push_decimal(&mut out, i + 1);
        push_str(&mut out, ": ");
        crate::text::push_chars(&mut out, ls[i].as_slice());
        push_char(&mut out, '\n');
        proof {
            reveal_strlit(": ");
        }
        assert(out@ =~= numbered(lsv.take(i + 1), 1));
        i += 1;
    }
    assert(lsv.take(ls.len() as int) =~= lsv);
    out
}

/// Whether a byte offset falls in one of the ranges.
pub open spec fn in_some_range(ranges: Seq<(usize, usize)>, o: int) -> bool {
    exists|k: int| 0 <= k < ranges.len() && (#[trigger] ranges[k]).0 <= o < ranges[k].1
}

/// A character of a text as blanking leaves it: spaces, one per byte of it,
/// when it lies in one of the ranges; else itself.
pub open spec fn blank_piece(c: char, inside: bool) -> Seq<char> {
    if inside {
        Seq::new(char_width(c), |i: int| ' ')
    } else {
        seq![c]
    }
}

/// The first `n` characters of a text with the byte ranges blanked out.
pub open spec fn blanked(s: Seq<char>, ranges: Seq<(usize, usize)>, n: int) -> Seq<char>
    decreases n,
{
    if n <= 0 || n > s.len() {
        seq![]
    } else {
        blanked(s, ranges, n - 1) + blank_piece(s[n - 1], in_some_range(ranges, offset_of(s, n - 1) as int))
    }
}

/// The byte length of two texts one after the other is the sum of theirs.
proof fn lemma_utf8_len_concat(a: Seq<char>, b: Seq<char>)
    ensures
        utf8_len(a + b) == utf8_len(a) + utf8_len(b),
    decreases b.len(),
{
    if b.len() > 0 {
        assert((a + b).drop_last() =~= a + b.drop_last());
        lemma_utf8_len_concat(a, b.drop_last());
    } else {
        assert(a + b =~= a);
    }
}

/// `n` spaces take `n` bytes.
proof fn lemma_spaces_len(n: nat)
    ensures
        utf8_len(Seq::new(n, |i: int| ' ')) == n,
    decreases n,
{
    if n > 0 {
        assert(Seq::new(n, |i: int| ' ').drop_last() =~= Seq::new((n - 1) as nat, |i: int| ' '));
        lemma_spaces_len((n - 1) as nat);
    }
}

/// Blanking out ranges keeps byte offsets: the first `n` characters of a
/// text take as many bytes blanked as they did before, so offsets found in
/// the blanked text point at the same places in the text.
pub proof fn law_blanking_keeps_offsets(s: Seq<char>, ranges: Seq<(usize, usize)>, n: int)
    requires
        0 <= n <= s.len(),
    ensures
        utf8_len(blanked(s, ranges, n)) == utf8_len(s.take(n)),
    decreases n,
{
    if n > 0 {
        law_blanking_keeps_offsets(s, ranges, n - 1);
        let inside = in_some_range(ranges, offset_of(s, n - 1) as int);
        lemma_utf8_len_concat(blanked(s, ranges, n - 1), blank_piece(s[n - 1], inside));
        assert(s.take(n).drop_last() =~= s.take(n - 1));
        assert(s.take(n).last() == s[n - 1]);
        assert(utf8_len(s.take(n)) == utf8_len(s.take(n - 1)) + char_width(s[n - 1]));
        assert(blanked(s, ranges, n) == blanked(s, ranges, n - 1) + blank_piece(s[n - 1], inside));
        if inside {
            lemma_spaces_len(char_width(s[n - 1]));
        } else {
            let one = seq![s[n - 1]];
            assert(one.drop_last() =~= Seq::<char>::empty());
            assert(one.last() == s[n - 1]);
            assert(utf8_len(one) == utf8_len(one.drop_last()) + char_width(one.last()));
        }
    } else {
        assert(s.take(0) =~= Seq::<char>::empty());
    }
}

/// A text with each byte in one of the (ordered) ranges turned into a space.
pub fn blank_out_range(contents: &str, ranges: &Vec<(usize, usize)>) -> (r: String)
    requires
        ranges_in_order(ranges@),
    ensures
        r@ == blanked(contents@, ranges@, contents@.len() as int),
{
    let v = str_chars(contents);
    let total = str_byte_len(contents);
    let ghost s = contents@;
    let mut out = String::new();
    let mut i: usize = 0;
    let mut o: usize = 0;
    let mut k: usize = 0;
    proof {
        assert(s.take(0) =~= seq![]);
        crate::text::lemma_utf8_len_prefix(s, 0);
    }
    while i < v.len()
        invariant
            i <= v.len(),
            v@ == s,
            total == utf8_len(s),
            o == offset_of(s, i as int),
            o <= total,
            k <= ranges.len(),
            ranges_in_order(ranges@),
            forall|j: int| 0 <= j < k ==> (#[trigger] ranges@[j]).1 <= o,
            out@ == blanked(s, ranges@, i as int),
        decreases v.len() - i,
    {
        while k < ranges.len() && ranges[k].1 <= o
            invariant
                k <= ranges.len(),
                ranges_in_order(ranges@),
                forall|j: int| 0 <= j < k ==> (#[trigger] ranges@[j]).1 <= o,
            decreases ranges.len() - k,
        {
            k += 1;
        }
        let inside = k < ranges.len() && ranges[k].0 <= o;
        proof {
            if inside {
                assert(ranges@[k as int].0 <= o < ranges@[k as int].1);
            } else {
                assert forall|j: int| 0 <= j < ranges@.len() implies !((#[trigger] ranges@[j]).0 <= o
                    && o < ranges@[j].1) by {
                    if j > k {
                        assert(ranges@[k as int].1 <= ranges@[j].0);
                    }
                }
            }
            assert(inside == in_some_range(ranges@, o as int));
        }
        let c = v[i];
        let w = char_len_utf8(c);
        if inside {
            let ghost before = out@;
            let mut t: usize = 0;
            while t < w
                invariant
                    t <= w,
                    out@ == before + Seq::new(t as nat, |x: int| ' '),
                decreases w - t,
            {
                assert(Seq::new((t + 1) as nat, |x: int| ' ') =~= Seq::new(t as nat, |x: int| ' ').push(' '));
                push_char(&mut out, ' ');
                t += 1;
            }
        } else {
            push_char(&mut out, c);
        }
        proof {
            assert(s.take(i + 1).drop_last() =~= s.take(i as int));
            crate::text::lemma_utf8_len_prefix(s, i + 1);
            crate::text::lemma_utf8_len_prefix(s, s.len() as int);
            crate::text::lemma_offset_mono(s, i + 1, s.len() as int);
            assert(s.take(s.len() as int) =~= s);
        }
        o = o + w;
        i += 1;
    }
    out
}

// ---------------------------------------------------------------- bodies

/// Scanning a text from character index `i` for the end of a body that
/// starts at `start` (a byte offset, compared with character indices):
/// braces are counted, a `}` that closes the count (or, when `semi`, a `;`
/// outside braces) marks the end, and the newline after the end gives the
/// answer: that newline's index and the index of the last newline before it
/// that was counted. Without one, the byte length of the text and that last newline.
pub open spec fn body_scan(s: Seq<char>, start: int, semi: bool, i: int, last_nl: int, braces: int, found: int) -> (int, int)
    decreases s.len() - i,
{
    if i < 0 || i >= s.len() {
        (utf8_len(s) as int, last_nl)
    } else if i < start {
        body_scan(s, start, semi, i + 1, last_nl, braces, found)
    } else {
        let c = s[i];
        if found != 0 && c == '\n' {
            (i, last_nl)
        } else if c == '{' {
            body_scan(s, start, semi, i + 1, last_nl, braces + 1, found)
        } else if c == '}' {
            body_scan(s, start, semi, i + 1, last_nl, braces - 1, if braces - 1 == 0 { i } else { found })
        } else if c == ';' && braces == 0 && semi {
            body_scan(s, start, semi, i + 1, last_nl, braces, i)
        } else if c == '\n' {
            body_scan(s, start, semi, i + 1, i, braces, found)
        } else {
            body_scan(s, start, semi, i + 1, last_nl, braces, found)
        }
    }
}

/// The end of a body starting at `start`.
pub open spec fn body_end(s: Seq<char>, start: int, semi: bool) -> (int, int) {
    body_scan(s, start, semi, 0, 0, 0, 0)
}

/// Finds the end of a body.
fn get_body(chars: &Vec<char>, total: usize, start_point: usize, semi_colon: bool) -> (r: (usize, usize))
    requires
        total == utf8_len(chars@),
    ensures
        r.0 == body_end(chars@, start_point as int, semi_colon).0,
        r.1 == body_end(chars@, start_point as int, semi_colon).1,
{
    let ghost s = chars@;
    let mut last_newline: usize = 0;
    let mut brace_count: i128 = 0;
    let mut found_end: usize = 0;
    let mut index: usize = 0;
    while index < chars.len()
        invariant
            index <= chars.len(),
            s == chars@,
            total == utf8_len(s),
            last_newline <= index,
            found_end <= index,
            -(index as int) <= brace_count <= index,
            body_end(s, start_point as int, semi_colon) == body_scan(s, start_point as int, semi_colon,
                index as int, last_newline as int, brace_count as int, found_end as int),
        decreases chars.len() - index,
    {
        let c = chars[index];
        if index >= start_point {
            if found_end != 0 && c == '\n' {
                return (index, last_newline);
            }
            if c == '{' {
                brace_count += 1;
            } else if c == '}' {
                brace_count -= 1;
                if brace_count == 0 {
                    found_end = index;
                }
            } else if c == ';' && brace_count == 0 && semi_colon {
                found_end = index;
            } else if c == '\n' {
                last_newline = index;
            }
        }
        index += 1;
    }
    (total, last_newline)
}

// ---------------------------------------------------------------- what is found

/// A pair of byte offsets.
#[derive(Debug, Clone, Copy)]
pub struct Points {
    /// the first offset
    pub x: usize,
    /// the second offset
    pub y: usize,
}

impl Points {
    /// Whether this range lies strictly inside another.
    pub fn in_other(&self, other: &Self) -> (r: bool)
        ensures
            r == (self.x > other.x && self.y < other.y),
    {
        self.x > other.x && self.y < other.y
    }
}

/// This enum is used when filtering commit history only for let say impl and not externs or traits
#[derive(Debug, Clone, Copy, PartialEq, Eq, Structural)]
pub enum BlockType {
    /// an `impl` block
    Impl,
    /// an `extern` block
    Extern,
    /// a `trait` block
    Trait,
    /// a block of another kind
    Unknown,
}

/// This holds information about when a function is in an impl/trait/extern block
#[derive(Debug)]
pub struct Block {
    /// the name of the block
    pub name: Option<String>,
    /// the heading of the block
    pub top: String,
    /// the closing of the block
    pub bottom: String,
    /// the kind of the block
    pub block_type: BlockType,
}

/// This is used for the functions that are being looked up themeselves but store an outer function that may aontains a function that is being looked up.
#[derive(Debug)]
pub struct FunctionBlock {
    /// the name of the function
    pub name: String,
    /// its heading
    pub top: String,
    /// its closing
    pub bottom: String,
}

/// This holds the information about a single function each commit will have multiple of these.
#[derive(Debug)]
pub struct Function {
    /// the name of the function
    pub name: String,
    /// its (line numbered) code
    pub contents: String,
    /// the block it is in
    pub block: Option<Block>,
    /// the functions it is in
    pub function: Option<Vec<FunctionBlock>>,
    /// its first and last line
    pub lines: (usize, usize),
}

/// A function heading found: the name and the range from the heading's
/// start to the newline after the body.
pub struct FunctionSpan {
    /// the name of the function
    pub name: String,
    /// where it starts and ends
    pub range: Points,
}

/// A block found: its heading, all of it, and its last line.
#[derive(Clone, Copy)]
pub struct BlockSpan {
    /// the heading, up to its `{`
    pub start: Points,
    /// from the heading to the newline after the closing brace
    pub full: Points,
    /// from the last newline before the end to the newline after it
    pub end: Points,
    /// the kind of block
    pub types: BlockType,
}

/// Where the name in a heading stops: at `(`, `<` or whitespace.
pub open spec fn name_stop(rest: Seq<char>, i: int) -> int
    decreases rest.len() - i,
{
    if i < 0 || i >= rest.len() {
        rest.len() as int
    } else if rest[i] == '(' || rest[i] == '<' || is_ws(rest[i]) {
        i
    } else {
        name_stop(rest, i + 1)
    }
}

/// The name in a function heading: what follows the first `"fn "` up to a
/// `(`, a `<` or whitespace; nothing without a `"fn "`.
pub open spec fn heading_name(h: Seq<char>) -> Option<Seq<char>> {
    match split_first(h, seq!['f', 'n', ' ']) {
        Some((_, rest)) => Some(rest.take(name_stop(rest, 0))),
        None => None,
    }
}

/// The function span a match of the function pattern in the blanked text
/// gives: the match's start and the end of the body after it, with the name
/// in the heading; nothing when no end is found or the heading has no name.
pub open spec fn fn_span_of(blank: Seq<char>, m: (usize, usize)) -> Option<(Seq<char>, int, int)> {
    let t = body_end(blank, m.1 as int, true);
    if t.0 != 0 {
        match byte_slice(blank, m.0 as int, m.1 as int) {
            Some(h) => match heading_name(h) {
                Some(n) => Some((n, m.0 as int, t.0)),
                None => None,
            },
            None => None,
        }
    } else {
        None
    }
}

/// The function spans of the first `n` matches, in order.
pub open spec fn fn_spans(blank: Seq<char>, ms: Seq<(usize, usize)>, n: int) -> Seq<(Seq<char>, int, int)>
    decreases n,
{
    if n <= 0 || n > ms.len() {
        seq![]
    } else {
        let rest = fn_spans(blank, ms, n - 1);
        match fn_span_of(blank, ms[n - 1]) {
            Some(x) => rest.push(x),
            None => rest,
        }
    }
}

/// The kind of a block, from the named groups of the block pattern in its
/// heading (in the numbered text).
pub open spec fn block_kind(numbered: Seq<char>, m: (usize, usize)) -> BlockType {
    match byte_slice(numbered, m.0 as int, m.1 as int) {
        Some(h) => if regex_group_matched(CAPTURE_BLOCKS@, h, "extern"@) == Some(true) {
            BlockType::Extern
        } else if regex_group_matched(CAPTURE_BLOCKS@, h, "name_impl"@) == Some(true) {
            BlockType::Impl
        } else if regex_group_matched(CAPTURE_BLOCKS@, h, "name_trait"@) == Some(true) {
            BlockType::Trait
        } else {
            BlockType::Unknown
        },
        None => BlockType::Unknown,
    }
}

/// The block span a match of the block pattern gives: its heading, the
/// body's end from the heading's `{`, and its last line; nothing when no
/// end is found.
pub open spec fn block_span_of(numbered: Seq<char>, blank: Seq<char>, m: (usize, usize)) -> Option<
    ((int, int), (int, int), (int, int), BlockType),
> {
    if m.1 == 0 {
        None
    } else {
        let t = body_end(blank, m.1 - 1, false);
        if t.0 != 0 {
            Some(((m.0 as int, m.1 as int), (m.0 as int, t.0), (t.1, t.0), block_kind(numbered, m)))
        } else {
            None
        }
    }
}

/// The block spans of the first `n` matches, in order.
pub open spec fn block_spans(numbered: Seq<char>, blank: Seq<char>, ms: Seq<(usize, usize)>, n: int) -> Seq<
    ((int, int), (int, int), (int, int), BlockType),
>
    decreases n,
{
    if n <= 0 || n > ms.len() {
        seq![]
    } else {
        let rest = block_spans(numbered, blank, ms, n - 1);
        match block_span_of(numbered, blank, ms[n - 1]) {
            Some(x) => rest.push(x),
            None => rest,
        }
    }
}

/// The view of a found block.
pub open spec fn block_span_view(b: BlockSpan) -> ((int, int), (int, int), (int, int), BlockType) {
    ((b.start.x as int, b.start.y as int), (b.full.x as int, b.full.y as int), (b.end.x as int, b.end.y as int), b.types)
}

/// The view of a found function heading.
pub open spec fn fn_span_view(f: FunctionSpan) -> (Seq<char>, int, int) {
    (f.name@, f.range.x as int, f.range.y as int)
}

/// The first block, from the `k`-th on, that a range lies strictly inside.
pub open spec fn first_block(blocks: Seq<((int, int), (int, int), (int, int), BlockType)>, x: int, y: int, k: int) -> Option<int>
    decreases blocks.len() - k,
{
    if k < 0 || k >= blocks.len() {
        None
    } else if x > blocks[k].1.0 && y < blocks[k].1.1 {
        Some(k)
    } else {
        first_block(blocks, x, y, k + 1)
    }
}

/// The first and last line of a function's numbered code: the numbers
/// before the first `:` of the code and of its last line.
pub open spec fn numbered_lines(c: Seq<char>) -> Option<(usize, usize)> {
    match split_once_char(c, ':') {
        Some((a, _)) => match parse_usize(a) {
            Some(top) => match split_last(c, seq!['\n']) {
                Some((_, last)) => match split_once_char(last, ':') {
                    Some((b, _)) => match parse_usize(b) {
                        Some(bottom) => Some((top, bottom)),
                        None => None,
                    },
                    None => None,
                },
                None => Some((top, top)),
            },
            None => None,
        },
        None => None,
    }
}

/// Whether `f` is the function a span gives in the numbered text, with the
/// blocks found: its code, its lines, and the first block it lies inside.
pub open spec fn span_gives(
    numbered: Seq<char>,
    blocks: Seq<((int, int), (int, int), (int, int), BlockType)>,
    sp: (Seq<char>, int, int),
    f: Function,
) -> bool {
    match (byte_slice(numbered, sp.1, sp.2), first_block(blocks, sp.1, sp.2, 0)) {
        (Some(code), fb) => match numbered_lines(code) {
            Some(ls) => {
                &&& f.name@ == sp.0
                &&& f.contents@ == code
                &&& f.lines == ls
                &&& f.function is None
                &&& match fb {
                    Some(k) => match (byte_slice(numbered, blocks[k].0.0, blocks[k].0.1), byte_slice(
                        numbered,
                        blocks[k].2.0,
                        blocks[k].2.1,
                    )) {
                        (Some(top), Some(bottom)) => f.block matches Some(b) && b.name is None && b.top@ == top
                            && b.bottom@ == bottom && b.block_type == blocks[k].3,
                        _ => false,
                    },
                    None => f.block is None,
                }
            },
            None => false,
        },
        _ => false,
    }
}

/// Whether a span gives a function: its code and lines can be read, and so
/// can the block it lies in.
pub open spec fn span_readable(
    numbered: Seq<char>,
    blocks: Seq<((int, int), (int, int), (int, int), BlockType)>,
    sp: (Seq<char>, int, int),
) -> bool {
    match byte_slice(numbered, sp.1, sp.2) {
        Some(code) => numbered_lines(code) is Some && match first_block(blocks, sp.1, sp.2, 0) {
            Some(k) => byte_slice(numbered, blocks[k].0.0, blocks[k].0.1) is Some && byte_slice(
                numbered,
                blocks[k].2.0,
                blocks[k].2.1,
            ) is Some,
            None => true,
        },
        None => false,
    }
}

/// The spans among the first `n` that name `name` and give a function, in order.
pub open spec fn spans_kept(
    numbered: Seq<char>,
    blocks: Seq<((int, int), (int, int), (int, int), BlockType)>,
    spans: Seq<(Seq<char>, int, int)>,
    name: Seq<char>,
    n: int,
) -> Seq<(Seq<char>, int, int)>
    decreases n,
{
    if n <= 0 || n > spans.len() {
        seq![]
    } else {
        let rest = spans_kept(numbered, blocks, spans, name, n - 1);
        if spans[n - 1].0 == name && span_readable(numbered, blocks, spans[n - 1]) {
            rest.push(spans[n - 1])
        } else {
            rest
        }
    }
}

// ---------------------------------------------------------------- working it out

/// The name in a function heading.
fn get_function_name(h: &str) -> (r: Option<String>)
    ensures
        match heading_name(h@) {
            Some(n) => r matches Some(x) && x@ == n,
            None => r is None,
        },
{
    proof {
        reveal_strlit("fn ");
        assert("fn "@ =~= seq!['f', 'n', ' ']);
    }
    let rest = match split_once_str(h, "fn ") {
        Some((_, b)) => b,
        None => return None,
    };
    let v = str_chars(rest.as_str());
    let mut i: usize = 0;
    while i < v.len() && !(v[i] == '(' || v[i] == '<' || char_is_ws(v[i]))
        invariant
            i <= v.len(),
            name_stop(v@, 0) == name_stop(v@, i as int),
        decreases v.len() - i,
    {
        i += 1;
    }
    Some(crate::text::char_range(&v, 0, i))
}

/// The function span a match gives.
fn fn_span_from(blank: &str, chars: &Vec<char>, total: usize, m: (usize, usize)) -> (r: Option<FunctionSpan>)
    requires
        chars@ == blank@,
        total == utf8_len(blank@),
    ensures
        match fn_span_of(blank@, m) {
            Some(x) => r matches Some(sp) && fn_span_view(sp) == x,
            None => r is None,
        },
{
    let t = get_body(chars, total, m.1, true);
    if t.0 == 0 {
        return None;
    }
    let h = match str_get(blank, m.0, m.1) {
        Some(h) => h,
        None => return None,
    };
    match get_function_name(h.as_str()) {
        Some(name) => Some(FunctionSpan { name, range: Points { x: m.0, y: t.0 } }),
        None => None,
    }
}

/// The kind of a block, from its heading in the numbered text.
fn block_kind_of(numbered: &str, m: (usize, usize)) -> (r: BlockType)
    ensures
        r == block_kind(numbered@, m),
{
    let h = match str_get(numbered, m.0, m.1) {
        Some(h) => h,
        None => return BlockType::Unknown,
    };
    if group_matched(CAPTURE_BLOCKS, h.as_str(), "extern") == Some(true) {
        BlockType::Extern
    } else if group_matched(CAPTURE_BLOCKS, h.as_str(), "name_impl") == Some(true) {
        BlockType::Impl
    } else if group_matched(CAPTURE_BLOCKS, h.as_str(), "name_trait") == Some(true) {
        BlockType::Trait
    } else {
        BlockType::Unknown
    }
}

/// The block span a match gives.
fn block_span_from(numbered: &str, chars: &Vec<char>, total: usize, m: (usize, usize)) -> (r: Option<BlockSpan>)
    requires
        total == utf8_len(chars@),
    ensures
        match block_span_of(numbered@, chars@, m) {
            Some(x) => r matches Some(b) && block_span_view(b) == x,
            None => r is None,
        },
{
    if m.1 == 0 {
        return None;
    }
    let t = get_body(chars, total, m.1 - 1, false);
    if t.0 == 0 {
        return None;
    }
    Some(BlockSpan {
        start: Points { x: m.0, y: m.1 },
        full: Points { x: m.0, y: t.0 },
        end: Points { x: t.1, y: t.0 },
        types: block_kind_of(numbered, m),
    })
}

/// The first and last line of numbered code.
fn lines_of_code(c: &str) -> (r: Option<(usize, usize)>)
    ensures
        r == numbered_lines(c@),
{
    let top = match str_split_once(c, ':') {
        Some((a, _)) => match str_parse_usize(a.as_str()) {
            Some(t) => t,
            None => return None,
        },
        None => return None,
    };
    proof {
        reveal_strlit("\n");
        assert("\n"@ =~= seq!['\n']);
    }
    match rsplit_once_str(c, "\n") {
        Some((_, last)) => match str_split_once(last.as_str(), ':') {
            Some((b, _)) => match str_parse_usize(b.as_str()) {
                Some(bottom) => Some((top, bottom)),
                None => None,
            },
            None => None,
        },
        None => Some((top, top)),
    }
}

/// The function a span gives, when it can be read.
fn function_from_span(numbered: &str, blocks: &Vec<BlockSpan>, sp: &FunctionSpan) -> (r: Option<Function>)
    ensures
        ({
            let bv = blocks@.map_values(|b: BlockSpan| block_span_view(b));
            &&& (r is Some <==> span_readable(numbered@, bv, fn_span_view(*sp)))
            &&& (r matches Some(f) ==> span_gives(numbered@, bv, fn_span_view(*sp), f))
        }),
{
    let ghost bv = blocks@.map_values(|b: BlockSpan| block_span_view(b));
    let code = match str_get(numbered, sp.range.x, sp.range.y) {
        Some(c) => c,
        None => return None,
    };
    let lines = match lines_of_code(code.as_str()) {
        Some(l) => l,
        None => return None,
    };
    let mut k: usize = 0;
    while k < blocks.len() && !sp.range.in_other(&blocks[k].full)
        invariant
            k <= blocks.len(),
            bv == blocks@.map_values(|b: BlockSpan| block_span_view(b)),
            first_block(bv, sp.range.x as int, sp.range.y as int, 0) == first_block(
                bv,
                sp.range.x as int,
                sp.range.y as int,
                k as int,
            ),
        decreases blocks.len() - k,
    {
        k += 1;
    }
    let block = if k < blocks.len() {
        let b = blocks[k];
        let top = match str_get(numbered, b.start.x, b.start.y) {
            Some(t) => t,
            None => return None,
        };
        let bottom = match str_get(numbered, b.end.x, b.end.y) {
            Some(t) => t,
            None => return None,
        };
        Some(Block { name: None, top, bottom, block_type: b.types })
    } else {
        None
    };
    Some(Function { name: clone_string(&sp.name), contents: code, block, function: None, lines })
}

/// The functions named `name` that the matches of the function and block
/// patterns in the blanked text give, in order; an error when there is none.
pub fn functions_from_matches(
    numbered: &str,
    blank: &str,
    fn_matches: &Vec<(usize, usize)>,
    block_matches: &Vec<(usize, usize)>,
    name: &str,
) -> (r: Result<Vec<Function>, String>)
    ensures
        ({
            let spans = fn_spans(blank@, fn_matches@, fn_matches@.len() as int);
            let blocks = block_spans(numbered@, blank@, block_matches@, block_matches@.len() as int);
            let kept = spans_kept(numbered@, blocks, spans, name@, spans.len() as int);
            match r {
                Ok(v) => kept.len() > 0 && v@.len() == kept.len() && forall|j: int|
                    0 <= j < kept.len() ==> span_gives(numbered@, blocks, kept[j], #[trigger] v@[j]),
                Err(e) => kept.len() == 0 && e@ == "No functions found"@,
            }
        }),
{
    let chars = str_chars(blank);
    let total = str_byte_len(blank);
    let mut spans: Vec<FunctionSpan> = Vec::new();
    let mut i: usize = 0;
    while i < fn_matches.len()
        invariant
            i <= fn_matches.len(),
            chars@ == blank@,
            total == utf8_len(blank@),
            spans@.map_values(|f: FunctionSpan| fn_span_view(f)) == fn_spans(blank@, fn_matches@, i as int),
        decreases fn_matches.len() - i,
    {
        let ghost before = spans@;
        match fn_span_from(blank, &chars, total, fn_matches[i]) {
            Some(sp) => {
                spans.push(sp);
                assert(spans@.map_values(|f: FunctionSpan| fn_span_view(f)) =~= before.map_values(
                    |f: FunctionSpan| fn_span_view(f),
                ).push(fn_span_view(sp)));
            },
            None => {},
        }
        i += 1;
    }
    let mut blocks: Vec<BlockSpan> = Vec::new();
    let mut i: usize = 0;
    while i < block_matches.len()
        invariant
            i <= block_matches.len(),
            chars@ == blank@,
            total == utf8_len(blank@),
            blocks@.map_values(|b: BlockSpan| block_span_view(b)) == block_spans(numbered@, blank@, block_matches@, i as int),
        decreases block_matches.len() - i,
    {
        let ghost before = blocks@;
        match block_span_from(numbered, &chars, total, block_matches[i]) {
            Some(b) => {
                blocks.push(b);
                assert(blocks@.map_values(|b: BlockSpan| block_span_view(b)) =~= before.map_values(
                    |b: BlockSpan| block_span_view(b),
                ).push(block_span_view(b)));
            },
            None => {},
        }
        i += 1;
    }
    let ghost sv = spans@.map_values(|f: FunctionSpan| fn_span_view(f));
    let ghost bv = blocks@.map_values(|b: BlockSpan| block_span_view(b));
    let mut found: Vec<Function> = Vec::new();
    let mut i: usize = 0;
    while i < spans.len()
        invariant
            i <= spans.len(),
            sv == spans@.map_values(|f: FunctionSpan| fn_span_view(f)),
            bv == blocks@.map_values(|b: BlockSpan| block_span_view(b)),
            ({
                let kept = spans_kept(numbered@, bv, sv, name@, i as int);
                &&& found@.len() == kept.len()
                &&& forall|j: int| 0 <= j < kept.len() ==> span_gives(numbered@, bv, kept[j], #[trigger] found@[j])
            }),
        decreases spans.len() - i,
    {
        if crate::languages::str_eq(spans[i].name.as_str(), name) {
            match function_from_span(numbered, &blocks, &spans[i]) {
                Some(f) => found.push(f),
                None => {},
            }
        }
        i += 1;
    }
    if found.len() == 0 {
        return Err(string_of("No functions found"));
    }
    Ok(found)
}

/// The text a search works on: the numbered text with its strings,
/// characters and comments blanked out, when the pattern of those is valid.
pub open spec fn blank_text(numbered: Seq<char>) -> Option<Seq<char>> {
    match regex_matches(CAPTURE_NOT_NEEDED@, numbered) {
        Some(ranges) => Some(blanked(numbered, ranges, numbered.len() as int)),
        None => None,
    }
}

/// Finds the functions called `name` in the text of a file: the text is
/// numbered, its strings, characters and comments are blanked out, and each
/// function heading of that name whose body ends gives its numbered code,
/// its lines and the first block it lies in. An error when there is no such
/// function, or when one of the patterns is not valid.
pub fn functions_in_file(file_contents: &str, name: &str) -> (r: Result<Vec<Function>, String>)
    ensures
        ({
            let numbered = numbered(lines(file_contents@), 1);
            match blank_text(numbered) {
                Some(blank) => match (
                    regex_matches(CAPTURE_FUNCTION@, blank),
                    regex_matches(CAPTURE_BLOCKS@, blank),
                ) {
                    (Some(fm), Some(bm)) => {
                        let spans = fn_spans(blank, fm, fm.len() as int);
                        let blocks = block_spans(numbered, blank, bm, bm.len() as int);
                        let kept = spans_kept(numbered, blocks, spans, name@, spans.len() as int);
                        match r {
                            Ok(v) => kept.len() > 0 && v@.len() == kept.len() && forall|j: int|
                                0 <= j < kept.len() ==> span_gives(numbered, blocks, kept[j], #[trigger] v@[j]),
                            Err(e) => kept.len() == 0 && e@ == "No functions found"@,
                        }
                    },
                    _ => r matches Err(e) && e@ == "invalid pattern"@,
                },
                None => r matches Err(e) && e@ == "invalid pattern"@,
            }
        }),
        r matches Err(e) ==> e@ == "No functions found"@,
{
    let numbered = numbered_contents(file_contents);
    let ranges = match find_all(CAPTURE_NOT_NEEDED, numbered.as_str()) {
        Some(v) => v,
        None => return Err(string_of("invalid pattern")),
    };
    let blank = blank_out_range(numbered.as_str(), &ranges);
    let fm = match find_all(CAPTURE_FUNCTION, blank.as_str()) {
        Some(v) => v,
        None => return Err(string_of("invalid pattern")),
    };
    let bm = match find_all(CAPTURE_BLOCKS, blank.as_str()) {
        Some(v) => v,
        None => return Err(string_of("invalid pattern")),
    };
    functions_from_matches(numbered.as_str(), blank.as_str(), &fm, &bm, name)
}

// ---------------------------------------------------------------- showing functions

/// How a function is shown: the heading of its block and of each function
/// around it, each followed by `"\n...\n"`; its code; the closing of each
/// function around it, each followed by `"\n..."`; and `"\n..."` with the
/// closing of its block.
pub open spec fn function_text(f: Function) -> Seq<char> {
    let outer = match f.function {
        Some(v) => v@,
        None => seq![],
    };
    let block_top = match f.block {
        Some(b) => b.top@ + dots(),
        None => seq![],
    };
    let block_bottom = match f.block {
        Some(b) => seq!['\n', '.', '.', '.'] + b.bottom@,
        None => seq![],
    };
    block_top + tops_text(outer, outer.len() as int) + f.contents@ + bottoms_text(outer, outer.len() as int) + block_bottom
}

/// The separator `"\n...\n"`.
pub open spec fn dots() -> Seq<char> {
    seq!['\n', '.', '.', '.', '\n']
}

/// The headings of the first `n` functions around, each followed by the separator.
pub open spec fn tops_text(v: Seq<FunctionBlock>, n: int) -> Seq<char>
    decreases n,
{
    if n <= 0 || n > v.len() {
        seq![]
    } else {
        tops_text(v, n - 1) + v[n - 1].top@ + dots()
    }
}

/// The closings of the first `n` functions around, each followed by `"\n..."`.
pub open spec fn bottoms_text(v: Seq<FunctionBlock>, n: int) -> Seq<char>
    decreases n,
{
    if n <= 0 || n > v.len() {
        seq![]
    } else {
        bottoms_text(v, n - 1) + v[n - 1].bottom@ + seq!['\n', '.', '.', '.']
    }
}

/// Whether two functions hold the same values.
pub open spec fn same_function(a: Function, b: Function) -> bool {
    &&& a.name@ == b.name@
    &&& a.contents@ == b.contents@
    &&& a.lines == b.lines
    &&& match (a.block, b.block) {
        (Some(x), Some(y)) => x.name == y.name && x.top@ == y.top@ && x.bottom@ == y.bottom@ && x.block_type == y.block_type,
        (None, None) => true,
        _ => false,
    }
    &&& match (a.function, b.function) {
        (Some(x), Some(y)) => x@.len() == y@.len() && forall|i: int|
            0 <= i < x@.len() ==> (#[trigger] x@[i]).name@ == y@[i].name@ && x@[i].top@ == y@[i].top@ && x@[i].bottom@ == y@[i].bottom@,
        (None, None) => true,
        _ => false,
    }
}

impl Function {
    /// How the function is shown, with what it is in.
    pub fn to_string(&self) -> (r: String)
        ensures
            r@ == function_text(*self),
    {
        let mut s = String::new();
        proof {
            reveal_strlit("\n...\n");
            reveal_strlit("\n...");
            assert("\n...\n"@ =~= dots());
            assert("\n..."@ =~= seq!['\n', '.', '.', '.']);
        }
        match &self.block {
            Some(b) => {
                push_str(&mut s, b.top.as_str());
                push_str(&mut s, "\n...\n");
            },
            None => {},
        }
        let ghost head = s@;
        let empty: Vec<FunctionBlock> = Vec::new();
        let outer = match &self.function {
            Some(v) => v,
            None => &empty,
        };
        let mut i: usize = 0;
        while i < outer.len()
            invariant
                i <= outer.len(),
                s@ == head + tops_text(outer@, i as int),
                "\n...\n"@ == dots(),
            decreases outer.len() - i,
        {
            push_str(&mut s, outer[i].top.as_str());
            push_str(&mut s, "\n...\n");
            i += 1;
        }
        push_str(&mut s, self.contents.as_str());
        let ghost mid = s@;
        let mut i: usize = 0;
        while i < outer.len()
            invariant
                i <= outer.len(),
                s@ == mid + bottoms_text(outer@, i as int),
                "\n..."@ == seq!['\n', '.', '.', '.'],
            decreases outer.len() - i,
        {
            push_str(&mut s, outer[i].bottom.as_str());
            push_str(&mut s, "\n...");
            i += 1;
        }
        match &self.block {
            Some(b) => {
                push_str(&mut s, "\n...");
                push_str(&mut s, b.bottom.as_str());
            },
            None => {},
        }
        s
    }

    /// A copy of the function.
    pub fn duplicate(&self) -> (r: Function)
        ensures
            same_function(r, *self),
    {
        let block = match &self.block {
            Some(b) => Some(Block {
                name: crate::text::clone_opt_string(&b.name),
                top: clone_string(&b.top),
                bottom: clone_string(&b.bottom),
                block_type: b.block_type,
            }),
            None => None,
        };
        let function = match &self.function {
            Some(v) => {
                let mut w: Vec<FunctionBlock> = Vec::new();
                let mut i: usize = 0;
                while i < v.len()
                    invariant
                        i <= v.len(),
                        w@.len() == i,
                        forall|j: int| 0 <= j < i ==> (#[trigger] w@[j]).name@ == v@[j].name@ && w@[j].top@ == v@[j].top@
                            && w@[j].bottom@ == v@[j].bottom@,
                    decreases v.len() - i,
                {
                    w.push(FunctionBlock {
                        name: clone_string(&v[i].name),
                        top: clone_string(&v[i].top),
                        bottom: clone_string(&v[i].bottom),
                    });
                    i += 1;
                }
                Some(w)
            },
            None => None,
        };
        Function {
            name: clone_string(&self.name),
            contents: clone_string(&self.contents),
            block,
            function,
            lines: self.lines,
        }
    }
}

// ---------------------------------------------------------------- commits and histories

/// This holds information like date and commit id andalso the list of function found in the commit.
pub struct CommitFunctions {
    /// the hash of the commit
    pub id: String,
    /// the functions found in it
    pub functions: Vec<Function>,
    /// its date
    pub date: String,
    current_pos: usize,
}

/// How a commit is shown: its hash and date on lines of their own, then its
/// functions separated by `"\n...\n"`.
pub open spec fn commit_text(id: Seq<char>, date: Seq<char>, fs: Seq<Function>) -> Seq<char> {
    "Commit "@ + id + seq!['\n'] + "Date: "@ + date + seq!['\n'] + functions_text(fs, fs.len() as int)
}

/// The first `n` functions shown one after another, separated by `"\n...\n"`.
pub open spec fn functions_text(fs: Seq<Function>, n: int) -> Seq<char>
    decreases n,
{
    if n <= 0 || n > fs.len() {
        seq![]
    } else if n == 1 {
        function_text(fs[0])
    } else {
        functions_text(fs, n - 1) + dots() + function_text(fs[n - 1])
    }
}

/// The positions of the functions among the first `n` that a test keeps, in order.
pub open spec fn kept_functions(fs: Seq<Function>, keep: spec_fn(Function) -> bool, n: int) -> Seq<int>
    decreases n,
{
    if n <= 0 || n > fs.len() {
        seq![]
    } else {
        let rest = kept_functions(fs, keep, n - 1);
        if keep(fs[n - 1]) {
            rest.push(n - 1)
        } else {
            rest
        }
    }
}

/// Whether a function lies in a block of the given kind.
pub open spec fn in_block_of(bt: BlockType) -> spec_fn(Function) -> bool {
    |f: Function| f.block matches Some(b) && b.block_type == bt
}

/// Whether a function lies within the given lines.
pub open spec fn within_lines(start: usize, end: usize) -> spec_fn(Function) -> bool {
    |f: Function| f.lines.0 >= start && f.lines.1 <= end
}

impl CommitFunctions {
    /// The hash of the commit.
    pub closed spec fn id_spec(&self) -> Seq<char> {
        self.id@
    }

    /// The functions found in the commit.
    pub closed spec fn functions_spec(&self) -> Seq<Function> {
        self.functions@
    }

    /// The date of the commit.
    pub closed spec fn date_spec(&self) -> Seq<char> {
        self.date@
    }

    /// A commit of the given hash, functions and date.
    pub fn new(id: String, functions: Vec<Function>, date: String) -> (r: Self)
        ensures
            r.id_spec() == id@,
            r.functions_spec() == functions@,
            r.date_spec() == date@,
    {
        CommitFunctions { id, functions, date, current_pos: 0 }
    }

    /// The functions that a test keeps, copied, with the hash and date.
    fn keep_functions(&self, Ghost(keep): Ghost<spec_fn(Function) -> bool>, bt: Option<BlockType>, lines: (usize, usize)) -> (r: Option<Self>)
        requires
            match bt {
                Some(t) => keep == in_block_of(t),
                None => keep == within_lines(lines.0, lines.1),
            },
        ensures
            ({
                let ks = kept_functions(self.functions_spec(), keep, self.functions_spec().len() as int);
                match r {
                    Some(c) => ks.len() > 0 && c.id_spec() == self.id_spec() && c.date_spec() == self.date_spec()
                        && c.functions_spec().len() == ks.len() && forall|j: int|
                        0 <= j < ks.len() ==> same_function(#[trigger] c.functions_spec()[j], self.functions_spec()[ks[j]]),
                    None => ks.len() == 0,
                }
            }),
    {
        let mut v: Vec<Function> = Vec::new();
        let mut i: usize = 0;
        while i < self.functions.len()
            invariant
                i <= self.functions@.len(),
                match bt {
                    Some(t) => keep == in_block_of(t),
                    None => keep == within_lines(lines.0, lines.1),
                },
                ({
                    let ks = kept_functions(self.functions@, keep, i as int);
                    &&& v@.len() == ks.len()
                    &&& forall|j: int| 0 <= j < ks.len() ==> same_function(#[trigger] v@[j], self.functions@[ks[j]])
                }),
            decreases self.functions@.len() - i,
        {
            let f = &self.functions[i];
            let k = match bt {
                Some(t) => match &f.block {
                    Some(b) => b.block_type == t,
                    None => false,
                },
                None => f.lines.0 >= lines.0 && f.lines.1 <= lines.1,
            };
            assert(k == keep(self.functions@[i as int]));
            if k {
                v.push(f.duplicate());
            }
            i += 1;
        }
        if v.len() == 0 {
            return None;
        }
        Some(CommitFunctions { id: clone_string(&self.id), functions: v, date: clone_string(&self.date), current_pos: 0 })
    }

    /// returns all functions in the block type specified if ore else it returns none
    pub fn get_function_from_block(&self, block_type: BlockType) -> (r: Option<Self>)
        ensures
            ({
                let ks = kept_functions(self.functions_spec(), in_block_of(block_type), self.functions_spec().len() as int);
                match r {
                    Some(c) => ks.len() > 0 && c.id_spec() == self.id_spec() && c.date_spec() == self.date_spec()
                        && c.functions_spec().len() == ks.len() && forall|j: int|
                        0 <= j < ks.len() ==> same_function(#[trigger] c.functions_spec()[j], self.functions_spec()[ks[j]]),
                    None => ks.len() == 0,
                }
            }),
    {
        self.keep_functions(Ghost(in_block_of(block_type)), Some(block_type), (0, 0))
    }

    /// Gets all functions which are betwwen the start an end lines specified.
    /// If there are non the it returns none.
    pub fn get_functin_in_lines(&self, start: usize, end: usize) -> (r: Option<Self>)
        ensures
            ({
                let ks = kept_functions(self.functions_spec(), within_lines(start, end), self.functions_spec().len() as int);
                match r {
                    Some(c) => ks.len() > 0 && c.id_spec() == self.id_spec() && c.date_spec() == self.date_spec()
                        && c.functions_spec().len() == ks.len() && forall|j: int|
                        0 <= j < ks.len() ==> same_function(#[trigger] c.functions_spec()[j], self.functions_spec()[ks[j]]),
                    None => ks.len() == 0,
                }
            }),
    {
        self.keep_functions(Ghost(within_lines(start, end)), None, (start, end))
    }

    /// How the commit is shown.
    pub fn to_string(&self) -> (r: String)
        ensures
            r@ == commit_text(self.id_spec(), self.date_spec(), self.functions_spec()),
    {
        let mut s = string_of("Commit ");
        push_str(&mut s, self.id.as_str());
        push_char(&mut s, '\n');
        push_str(&mut s, "Date: ");
        push_str(&mut s, self.date.as_str());
        push_char(&mut s, '\n');
        let ghost head = s@;
        proof {
            reveal_strlit("\n...\n");
            assert("\n...\n"@ =~= dots());
        }
        let mut i: usize = 0;
        while i < self.functions.len()
            invariant
                i <= self.functions@.len(),
                s@ == head + functions_text(self.functions@, i as int),
                "\n...\n"@ == dots(),
            decreases self.functions@.len() - i,
        {
            if i > 0 {
                push_str(&mut s, "\n...\n");
            }
            let t = self.functions[i].to_string();
            push_str(&mut s, t.as_str());
            i += 1;
        }
        s
    }
}

/// This struct holds the a list of commits and the function that were looked up for each commit.
pub struct FunctionHistory {
    /// the name of the function looked up
    pub name: String,
    /// the commits
    pub history: Vec<CommitFunctions>,
    current_pos: usize,
}

/// Whether two commits hold the same values.
pub open spec fn same_commit(a: CommitFunctions, b: CommitFunctions) -> bool {
    &&& a.id_spec() == b.id_spec()
    &&& a.date_spec() == b.date_spec()
    &&& a.functions_spec().len() == b.functions_spec().len()
    &&& forall|i: int| 0 <= i < a.functions_spec().len() ==> same_function(#[trigger] a.functions_spec()[i], b.functions_spec()[i])
}

/// The first commit, from the `k`-th on, with the given hash.
pub open spec fn first_with_id(h: Seq<CommitFunctions>, id: Seq<char>, k: int) -> Option<int>
    decreases h.len() - k,
{
    if k < 0 || k >= h.len() {
        None
    } else if h[k].id_spec() == id {
        Some(k)
    } else {
        first_with_id(h, id, k + 1)
    }
}

/// The first commit, from the `k`-th on, with the given date.
pub open spec fn first_with_date(h: Seq<CommitFunctions>, date: Seq<char>, k: int) -> Option<int>
    decreases h.len() - k,
{
    if k < 0 || k >= h.len() {
        None
    } else if h[k].date_spec() == date {
        Some(k)
    } else {
        first_with_date(h, date, k + 1)
    }
}

/// The commits among the first `n` that keep some function by a test, each
/// with the functions kept.
pub open spec fn commits_kept(h: Seq<CommitFunctions>, keep: spec_fn(Function) -> bool, n: int) -> Seq<int>
    decreases n,
{
    if n <= 0 || n > h.len() {
        seq![]
    } else {
        let rest = commits_kept(h, keep, n - 1);
        if kept_functions(h[n - 1].functions_spec(), keep, h[n - 1].functions_spec().len() as int).len() > 0 {
            rest.push(n - 1)
        } else {
            rest
        }
    }
}

/// Whether `c` is commit `src` with only the functions a test keeps.
pub open spec fn commit_filtered(src: CommitFunctions, keep: spec_fn(Function) -> bool, c: CommitFunctions) -> bool {
    let ks = kept_functions(src.functions_spec(), keep, src.functions_spec().len() as int);
    &&& c.id_spec() == src.id_spec()
    &&& c.date_spec() == src.date_spec()
    &&& c.functions_spec().len() == ks.len()
    &&& forall|j: int| 0 <= j < ks.len() ==> same_function(#[trigger] c.functions_spec()[j], src.functions_spec()[ks[j]])
}

impl FunctionHistory {
    /// The name of the function looked up.
    pub closed spec fn name_spec(&self) -> Seq<char> {
        self.name@
    }

    /// The commits.
    pub closed spec fn commits(&self) -> Seq<CommitFunctions> {
        self.history@
    }

    /// A history of the given commits.
    pub fn new(name: String, history: Vec<CommitFunctions>) -> (r: Self)
        ensures
            r.name_spec() == name@,
            r.commits() == history@,
    {
        FunctionHistory { name, history, current_pos: 0 }
    }

    /// A copy of the first commit with the given hash, if there is one.
    pub fn get_by_commit_id(&self, id: &str) -> (r: Option<CommitFunctions>)
        ensures
            match first_with_id(self.commits(), id@, 0) {
                Some(k) => r matches Some(c) && same_commit(c, self.commits()[k]),
                None => r is None,
            },
    {
        let mut k: usize = 0;
        while k < self.history.len()
            invariant
                k <= self.history@.len(),
                first_with_id(self.history@, id@, 0) == first_with_id(self.history@, id@, k as int),
            decreases self.history@.len() - k,
        {
            if crate::languages::str_eq(self.history[k].id.as_str(), id) {
                return Some(self.history[k].duplicate());
            }
            k += 1;
        }
        None
    }

    /// The first commit with the given date, if there is one.
    pub fn get_by_date(&self, date: &str) -> (r: Option<&CommitFunctions>)
        ensures
            match first_with_date(self.commits(), date@, 0) {
                Some(k) => r matches Some(c) && *c == self.commits()[k],
                None => r is None,
            },
    {
        let mut k: usize = 0;
        while k < self.history.len()
            invariant
                k <= self.history@.len(),
                first_with_date(self.history@, date@, 0) == first_with_date(self.history@, date@, k as int),
            decreases self.history@.len() - k,
        {
            if crate::languages::str_eq(self.history[k].date.as_str(), date) {
                return Some(&self.history[k]);
            }
            k += 1;
        }
        None
    }

    /// The hashes of the commits, in order.
    pub fn list_commit_ids(&self) -> (r: Vec<String>)
        ensures
            r@.len() == self.commits().len(),
            forall|i: int| 0 <= i < r@.len() ==> (#[trigger] r@[i])@ == self.commits()[i].id_spec(),
    {
        let mut r: Vec<String> = Vec::new();
        let mut i: usize = 0;
        while i < self.history.len()
            invariant
                i <= self.history@.len(),
                r@.len() == i,
                forall|j: int| 0 <= j < i ==> (#[trigger] r@[j])@ == self.history@[j].id_spec(),
            decreases self.history@.len() - i,
        {
            r.push(clone_string(&self.history[i].id));
            i += 1;
        }
        r
    }

    /// The commits with functions a test keeps, each with only those.
    fn keep_commits(&self, Ghost(keep): Ghost<spec_fn(Function) -> bool>, bt: Option<BlockType>, lines: (usize, usize)) -> (r: Self)
        requires
            match bt {
                Some(t) => keep == in_block_of(t),
                None => keep == within_lines(lines.0, lines.1),
            },
        ensures
            ({
                let ks = commits_kept(self.commits(), keep, self.commits().len() as int);
                &&& r.name_spec() == self.name_spec()
                &&& r.commits().len() == ks.len()
                &&& forall|j: int| 0 <= j < ks.len() ==> commit_filtered(self.commits()[ks[j]], keep, #[trigger] r.commits()[j])
            }),
    {
        let mut t: Vec<CommitFunctions> = Vec::new();
        let mut i: usize = 0;
        while i < self.history.len()
            invariant
                i <= self.history@.len(),
                match bt {
                    Some(b) => keep == in_block_of(b),
                    None => keep == within_lines(lines.0, lines.1),
                },
                ({
                    let ks = commits_kept(self.history@, keep, i as int);
                    &&& t@.len() == ks.len()
                    &&& forall|j: int| 0 <= j < ks.len() ==> commit_filtered(self.history@[ks[j]], keep, #[trigger] t@[j])
                }),
            decreases self.history@.len() - i,
        {
            match self.history[i].keep_functions(Ghost(keep), bt, lines) {
                Some(c) => t.push(c),
                None => {},
            }
            i += 1;
        }
        FunctionHistory { history: t, name: clone_string(&self.name), current_pos: 0 }
    }

    /// This function findss all functions that have a blocktype that matches the given blocktype
    /// so you can filter out functions that are not in for example an impl block
    pub fn get_all_functions_in_block(&self, block_type: BlockType) -> (r: Self)
        ensures
            ({
                let keep = in_block_of(block_type);
                let ks = commits_kept(self.commits(), keep, self.commits().len() as int);
                &&& r.name_spec() == self.name_spec()
                &&& r.commits().len() == ks.len()
                &&& forall|j: int| 0 <= j < ks.len() ==> commit_filtered(self.commits()[ks[j]], keep, #[trigger] r.commits()[j])
            }),
    {
        self.keep_commits(Ghost(in_block_of(block_type)), Some(block_type), (0, 0))
    }

    /// This function finds alll function in each commit that are between the given start and end positions.
    pub fn get_all_functions_line(&self, start: usize, end: usize) -> (r: Self)
        ensures
            ({
                let keep = within_lines(start, end);
                let ks = commits_kept(self.commits(), keep, self.commits().len() as int);
                &&& r.name_spec() == self.name_spec()
                &&& r.commits().len() == ks.len()
                &&& forall|j: int| 0 <= j < ks.len() ==> commit_filtered(self.commits()[ks[j]], keep, #[trigger] r.commits()[j])
            }),
    {
        self.keep_commits(Ghost(within_lines(start, end)), None, (start, end))
    }

    /// How the history is shown: each commit after a newline.
    pub fn to_string(&self) -> (r: String)
        ensures
            r@ == history_text(self.commits(), self.commits().len() as int),
    {
        let mut s = String::new();
        let mut i: usize = 0;
        while i < self.history.len()
            invariant
                i <= self.history@.len(),
                s@ == history_text(self.history@, i as int),
            decreases self.history@.len() - i,
        {
            push_char(&mut s, '\n');
            let t = self.history[i].to_string();
            push_str(&mut s, t.as_str());
            i += 1;
        }
        s
    }
}

/// The first `n` commits shown, each after a newline.
pub open spec fn history_text(h: Seq<CommitFunctions>, n: int) -> Seq<char>
    decreases n,
{
    if n <= 0 || n > h.len() {
        seq![]
    } else {
        history_text(h, n - 1) + seq!['\n'] + commit_text(h[n - 1].id_spec(), h[n - 1].date_spec(), h[n - 1].functions_spec())
    }
}

impl CommitFunctions {
    /// A copy of the commit.
    pub fn duplicate(&self) -> (r: Self)
        ensures
            same_commit(r, *self),
    {
        let mut v: Vec<Function> = Vec::new();
        let mut i: usize = 0;
        while i < self.functions.len()
            invariant
                i <= self.functions@.len(),
                v@.len() == i,
                forall|j: int| 0 <= j < i ==> same_function(#[trigger] v@[j], self.functions@[j]),
            decreases self.functions@.len() - i,
        {
            v.push(self.functions[i].duplicate());
            i += 1;
        }
        CommitFunctions { id: clone_string(&self.id), functions: v, date: clone_string(&self.date), current_pos: self.current_pos }
    }
}

} // verus!
