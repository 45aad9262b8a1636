//! Character-level helpers shared by the whole library: decimal numbers,
//! line splitting, whitespace trimming and substring tests, each with a
//! specification over `Seq<char>`.
use vstd::prelude::*;
use vstd::utf8::*;

verus! {

/// Appends one character to the end of a string (`String::push`).
#[verifier::external_body]
pub(crate) fn push_char(s: &mut String, c: char)
    ensures
        final(s)@ == old(s)@.push(c),
{
    s.push(c);
}

/// Appends a string slice to the end of a string (`String::push_str`).
#[verifier::external_body]
pub(crate) fn push_str(s: &mut String, t: &str)
    ensures
        final(s)@ == old(s)@ + t@,
{
    s.push_str(t);
}

/// The characters of a string slice, in order.
pub fn str_chars(s: &str) -> (res: Vec<char>)
    ensures
        res@ == s@,
{
    let mut res: Vec<char> = Vec::new();
    for c in it: s.chars()
        invariant
            res@ == it.seq().take(it.index() as int),
            it.seq() == s@,
    {
        res.push(c);
    }
    res
}

/// Builds a string holding exactly the given characters.
pub fn chars_to_string(v: &[char]) -> (res: String)
    ensures
        res@ == v@,
{
    let mut res = String::new();
    let mut i: usize = 0;
    while i < v.len()
        invariant
            i <= v.len(),
            res@ == v@.take(i as int),
        decreases v.len() - i,
    {
        push_char(&mut res, v[i]);
        assert(v@.take(i as int).push(v@[i as int]) =~= v@.take(i + 1));
        i += 1;
    }
    assert(v@.take(v.len() as int) =~= v@);
    res
}

/// Appends the characters of `v` to `s`.
pub fn push_chars(s: &mut String, v: &[char])
    ensures
        final(s)@ == old(s)@ + v@,
{
    let mut i: usize = 0;
    while i < v.len()
        invariant
            i <= v.len(),
            s@ == old(s)@ + v@.take(i as int),
        decreases v.len() - i,
    {
        push_char(s, v[i]);
        assert(old(s)@ + v@.take(i as int).push(v@[i as int]) =~= old(s)@ + v@.take(i + 1));
        i += 1;
    }
    assert(v@.take(v.len() as int) =~= v@);
}

/// A string holding a copy of the given slice.
pub fn string_of(s: &str) -> (res: String)
    ensures
        res@ == s@,
{
    let mut res = String::new();
    push_str(&mut res, s);
    assert(res@ =~= s@);
    res
}

// ---------------------------------------------------------------- decimal

/// The character of a decimal digit.
pub open spec fn digit_char(d: nat) -> char {
    if d == 0 { '0' }
    else if d == 1 { '1' }
    else if d == 2 { '2' }
    else if d == 3 { '3' }
    else if d == 4 { '4' }
    else if d == 5 { '5' }
    else if d == 6 { '6' }
    else if d == 7 { '7' }
    else if d == 8 { '8' }
    else { '9' }
}

/// The decimal representation of a natural number, as `format!("{}")` writes it.
pub open spec fn decimal(n: nat) -> Seq<char>
    decreases n,
{
    if n < 10 {
        seq![digit_char(n)]
    } else {
        decimal(n / 10).push(digit_char(n % 10))
    }
}

fn digit_to_char(d: usize) -> (c: char)
    requires
        d < 10,
    ensures
        c == digit_char(d as nat),
{
    if d == 0 { '0' }
    else if d == 1 { '1' }
    else if d == 2 { '2' }
    else if d == 3 { '3' }
    else if d == 4 { '4' }
    else if d == 5 { '5' }
    else if d == 6 { '6' }
    else if d == 7 { '7' }
    else if d == 8 { '8' }
    else { '9' }
}

/// Appends the decimal representation of `n` to `s`.
pub fn push_decimal(s: &mut String, n: usize)
    ensures
        final(s)@ == old(s)@ + decimal(n as nat),
    decreases n,
{
    if n < 10 {
        push_char(s, digit_to_char(n));
        assert(old(s)@.push(digit_char(n as nat)) =~= old(s)@ + decimal(n as nat));
    } else {
        push_decimal(s, n / 10);
        push_char(s, digit_to_char(n % 10));
        assert(old(s)@ + decimal((n / 10) as nat) + seq![digit_char((n % 10) as nat)]
            =~= old(s)@ + decimal(n as nat));
    }
}

/// The decimal representation of `n` (`n.to_string()`).
pub fn usize_to_string(n: usize) -> (res: String)
    ensures
        res@ == decimal(n as nat),
{
    let mut s = String::new();
    push_decimal(&mut s, n);
    assert(s@ =~= decimal(n as nat));
    s
}

// ---------------------------------------------------------------- whitespace

/// Whether a character has the Unicode `White_Space` property (`char::is_whitespace`).
pub open spec fn is_ws(c: char) -> bool {
    let u = c as u32;
    ||| 0x09 <= u <= 0x0D
    ||| u == 0x20
    ||| u == 0x85
    ||| u == 0xA0
    ||| u == 0x1680
    ||| 0x2000 <= u <= 0x200A
    ||| u == 0x2028
    ||| u == 0x2029
    ||| u == 0x202F
    ||| u == 0x205F
    ||| u == 0x3000
}

/// `char::is_whitespace`.
pub fn char_is_ws(c: char) -> (b: bool)
    ensures
        b == is_ws(c),
{
    let u = c as u32;
    (0x09 <= u && u <= 0x0D) || u == 0x20 || u == 0x85 || u == 0xA0 || u == 0x1680 || (0x2000
        <= u && u <= 0x200A) || u == 0x2028 || u == 0x2029 || u == 0x202F || u == 0x205F || u
        == 0x3000
}

/// The sequence without its trailing whitespace (`str::trim_end`).
pub open spec fn trim_end(s: Seq<char>) -> Seq<char>
    decreases s.len(),
{
    if s.len() > 0 && is_ws(s.last()) {
        trim_end(s.drop_last())
    } else {
        s
    }
}

/// The sequence without its leading whitespace (`str::trim_start`).
pub open spec fn trim_start(s: Seq<char>) -> Seq<char>
    decreases s.len(),
{
    if s.len() > 0 && is_ws(s[0]) {
        trim_start(s.drop_first())
    } else {
        s
    }
}

/// The sequence without whitespace at either end (`str::trim`).
pub open spec fn trim(s: Seq<char>) -> Seq<char> {
    trim_end(trim_start(s))
}

/// `str::trim_end` on a vector of characters.
pub fn trim_end_chars(v: &Vec<char>) -> (res: Vec<char>)
    ensures
        res@ == trim_end(v@),
{
    let mut n = v.len();
    assert(v@.take(n as int) =~= v@);
    while n > 0 && char_is_ws(v[n - 1])
        invariant
            n <= v.len(),
            trim_end(v@) == trim_end(v@.take(n as int)),
        decreases n,
    {
        assert(v@.take(n as int).drop_last() =~= v@.take(n - 1));
        n -= 1;
    }
    let mut res: Vec<char> = Vec::new();
    let mut i: usize = 0;
    while i < n
        invariant
            i <= n <= v.len(),
            res@ == v@.take(i as int),
        decreases n - i,
    {
        res.push(v[i]);
        assert(v@.take(i as int).push(v@[i as int]) =~= v@.take(i + 1));
        i += 1;
    }
    res
}

/// `str::trim_start` on a vector of characters.
pub fn trim_start_chars(v: &Vec<char>) -> (res: Vec<char>)
    ensures
        res@ == trim_start(v@),
{
    let mut k: usize = 0;
    assert(v@.skip(0) =~= v@);
    while k < v.len() && char_is_ws(v[k])
        invariant
            k <= v.len(),
            trim_start(v@) == trim_start(v@.skip(k as int)),
        decreases v.len() - k,
    {
        assert(v@.skip(k as int).drop_first() =~= v@.skip(k + 1));
        k += 1;
    }
    let mut res: Vec<char> = Vec::new();
    let mut i: usize = k;
    while i < v.len()
        invariant
            k <= i <= v.len(),
            res@ == v@.subrange(k as int, i as int),
        decreases v.len() - i,
    {
        res.push(v[i]);
        assert(v@.subrange(k as int, i as int).push(v@[i as int]) =~= v@.subrange(
            k as int,
            i + 1,
        ));
        i += 1;
    }
    assert(v@.subrange(k as int, v.len() as int) =~= v@.skip(k as int));
    res
}

/// `str::trim` on a string slice.
pub fn trim_str(s: &str) -> (res: String)
    ensures
        res@ == trim(s@),
{
    let v = str_chars(s);
    let a = trim_start_chars(&v);
    let b = trim_end_chars(&a);
    chars_to_string(b.as_slice())
}

// ---------------------------------------------------------------- lines

/// Drops one trailing carriage return.
pub open spec fn strip_cr(s: Seq<char>) -> Seq<char> {
    if s.len() > 0 && s.last() == '\r' {
        s.drop_last()
    } else {
        s
    }
}

/// The lines of `cur + rest`, where `cur` is the (newline-free) start of the current line.
pub open spec fn lines_from(cur: Seq<char>, rest: Seq<char>) -> Seq<Seq<char>>
    decreases rest.len(),
{
    if rest.len() == 0 {
        if cur.len() == 0 {
            seq![]
        } else {
            seq![cur]
        }
    } else if rest[0] == '\n' {
        seq![strip_cr(cur)].add(lines_from(seq![], rest.drop_first()))
    } else {
        lines_from(cur.push(rest[0]), rest.drop_first())
    }
}

/// The lines of a text as `str::lines` yields them: split at `'\n'`, a `'\r'`
/// right before a `'\n'` is dropped, and a final empty line is not produced.
pub open spec fn lines(s: Seq<char>) -> Seq<Seq<char>> {
    lines_from(seq![], s)
}

/// `str::lines` on a vector of characters.
pub fn lines_of(v: &Vec<char>) -> (res: Vec<Vec<char>>)
    ensures
        res@.len() == lines(v@).len(),
        forall|i: int| 0 <= i < res@.len() ==> #[trigger] res@[i]@ == lines(v@)[i],
{
    let mut done: Vec<Vec<char>> = Vec::new();
    let mut cur: Vec<char> = Vec::new();
    let ghost mut done_s: Seq<Seq<char>> = seq![];
    let mut i: usize = 0;
    assert(v@.skip(0) =~= v@);
    assert(cur@ =~= seq![]);
    assert(done_s + lines_from(cur@, v@) =~= lines_from(cur@, v@));
    while i < v.len()
        invariant
            i <= v.len(),
            done@.len() == done_s.len(),
            forall|j: int| 0 <= j < done@.len() ==> #[trigger] done@[j]@ == done_s[j],
            lines(v@) == done_s + lines_from(cur@, v@.skip(i as int)),
        decreases v.len() - i,
    {
        let c = v[i];
        assert(v@.skip(i as int).drop_first() =~= v@.skip(i + 1));
        if c == '\n' {
            let mut line = cur;
            if line.len() > 0 && line[line.len() - 1] == '\r' {
                line.pop();
            }
            proof {
                assert(line@ == strip_cr(cur@)) by {
                    if cur@.len() > 0 && cur@.last() == '\r' {
                        assert(line@ =~= cur@.drop_last());
                    }
                };
                done_s = done_s.push(strip_cr(cur@));
                assert(done_s.drop_last() + seq![strip_cr(cur@)] + lines_from(
                    seq![],
                    v@.skip(i + 1),
                ) =~= done_s + lines_from(seq![], v@.skip(i + 1)));
            }
            done.push(line);
            cur = Vec::new();
            assert(cur@ =~= seq![]);
        } else {
            cur.push(c);
        }
        i += 1;
    }
    assert(v@.skip(v.len() as int) =~= seq![]);
    if cur.len() > 0 {
        proof {
            done_s = done_s.push(cur@);
        }
        done.push(cur);
    } else {
        assert(done_s + seq![] =~= done_s);
    }
    assert(lines(v@) =~= done_s);
    done
}

// ---------------------------------------------------------------- substrings

/// Whether `s` begins with `p`.
pub open spec fn starts_with(s: Seq<char>, p: Seq<char>) -> bool {
    p.len() <= s.len() && s.take(p.len() as int) == p
}

/// Whether `s` ends with `p`.
pub open spec fn ends_with(s: Seq<char>, p: Seq<char>) -> bool {
    p.len() <= s.len() && s.skip(s.len() - p.len()) == p
}

/// Whether `p` occurs in `s` starting at position `i`.
pub open spec fn occurs_at(s: Seq<char>, p: Seq<char>, i: int) -> bool {
    0 <= i && i + p.len() <= s.len() && s.subrange(i, i + p.len()) == p
}

/// Whether `p` occurs somewhere in `s` (`str::contains`).
pub open spec fn contains_seq(s: Seq<char>, p: Seq<char>) -> bool {
    exists|i: int| occurs_at(s, p, i)
}

/// Whether `p` occurs in `s` at position `i` (executable).
fn matches_at(s: &Vec<char>, p: &Vec<char>, i: usize) -> (b: bool)
    requires
        i + p.len() <= s.len(),
    ensures
        b == occurs_at(s@, p@, i as int),
{
    let mut k: usize = 0;
    while k < p.len()
        invariant
            k <= p.len(),
            i + p.len() <= s.len(),
            forall|j: int| 0 <= j < k ==> s@[i + j] == p@[j],
        decreases p.len() - k,
    {
        if s[i + k] != p[k] {
            assert(s@.subrange(i as int, i + p.len())[k as int] != p@[k as int]);
            return false;
        }
        k += 1;
    }
    assert(s@.subrange(i as int, i + p.len()) =~= p@);
    true
}

/// `str::starts_with` for a string prefix.
pub fn str_starts_with(s: &str, p: &str) -> (b: bool)
    ensures
        b == starts_with(s@, p@),
{
    let sv = str_chars(s);
    let pv = str_chars(p);
    if pv.len() > sv.len() {
        return false;
    }
    let r = matches_at(&sv, &pv, 0);
    assert(sv@.subrange(0, pv@.len() as int) =~= sv@.take(pv@.len() as int));
    r
}

/// `str::ends_with` for a string suffix.
pub fn str_ends_with(s: &str, p: &str) -> (b: bool)
    ensures
        b == ends_with(s@, p@),
{
    let sv = str_chars(s);
    let pv = str_chars(p);
    if pv.len() > sv.len() {
        return false;
    }
    let r = matches_at(&sv, &pv, sv.len() - pv.len());
    assert(sv@.subrange(sv.len() - pv.len(), sv.len() as int) =~= sv@.skip(
        sv@.len() - pv@.len(),
    ));
    r
}

/// `str::contains` for a string pattern.
pub fn str_contains(s: &str, p: &str) -> (b: bool)
    ensures
        b == contains_seq(s@, p@),
{
    let sv = str_chars(s);
    let pv = str_chars(p);
    if pv.len() > sv.len() {
        assert forall|i: int| !occurs_at(s@, p@, i) by {}
        return false;
    }
    let last = sv.len() - pv.len();
    let mut i: usize = 0;
    loop
        invariant
            pv.len() <= sv.len(),
            last == sv.len() - pv.len(),
            i <= last,
            sv@ == s@,
            pv@ == p@,
            forall|j: int| 0 <= j < i ==> !occurs_at(s@, p@, j),
        decreases last - i,
    {
        if matches_at(&sv, &pv, i) {
            return true;
        }
        if i == last {
            assert forall|j: int| !occurs_at(s@, p@, j) by {
                if 0 <= j && j + p@.len() <= s@.len() {
                    assert(j <= i);
                }
            }
            return false;
        }
        i += 1;
    }
}

// ---------------------------------------------------------------- utf-8 widths

/// The number of bytes of the UTF-8 encoding of a character (`char::len_utf8`).
pub open spec fn char_width(c: char) -> nat {
    let u = c as u32;
    if u <= 0x7F {
        1
    } else if u <= 0x7FF {
        2
    } else if u <= 0xFFFF {
        3
    } else {
        4
    }
}

/// The number of bytes of the UTF-8 encoding of a character sequence.
pub open spec fn utf8_len(s: Seq<char>) -> nat
    decreases s.len(),
{
    if s.len() == 0 {
        0
    } else {
        utf8_len(s.drop_last()) + char_width(s.last())
    }
}

/// `char::len_utf8`.
pub fn char_len_utf8(c: char) -> (n: usize)
    ensures
        n == char_width(c),
        1 <= n <= 4,
{
    let u = c as u32;
    if u <= 0x7F {
        1
    } else if u <= 0x7FF {
        2
    } else if u <= 0xFFFF {
        3
    } else {
        4
    }
}

proof fn lemma_encode_scalar_len(c: char)
    ensures
        encode_scalar(c as u32).len() == char_width(c),
{
    char_is_scalar(c);
}

proof fn lemma_encode_utf8_concat(a: Seq<char>, b: Seq<char>)
    ensures
        encode_utf8(a + b) == encode_utf8(a) + encode_utf8(b),
    decreases a.len(),
{
    if a.len() == 0 {
        assert(a + b =~= b);
        assert(encode_utf8(a) =~= seq![]);
        assert(seq![] + encode_utf8(b) =~= encode_utf8(b));
    } else {
        assert((a + b).drop_first() =~= a.drop_first() + b);
        lemma_encode_utf8_concat(a.drop_first(), b);
        assert(encode_scalar(a[0] as u32) + (encode_utf8(a.drop_first()) + encode_utf8(b))
            =~= (encode_scalar(a[0] as u32) + encode_utf8(a.drop_first())) + encode_utf8(b));
    }
}

/// The byte length of a character sequence is the sum of its characters' widths.
pub proof fn lemma_utf8_len(s: Seq<char>)
    ensures
        encode_utf8(s).len() == utf8_len(s),
    decreases s.len(),
{
    if s.len() == 0 {
    } else {
        lemma_utf8_len(s.drop_last());
        assert(s =~= s.drop_last() + seq![s.last()]);
        lemma_encode_utf8_concat(s.drop_last(), seq![s.last()]);
        let c = s.last();
        let t = seq![c];
        assert(t[0] == c);
        assert(t.drop_first() =~= Seq::<char>::empty());
        assert(encode_utf8(t.drop_first()) =~= Seq::<u8>::empty());
        assert(encode_utf8(t) =~= encode_scalar(c as u32));
        lemma_encode_scalar_len(s.last());
    }
}

/// The byte length of a prefix is at most the byte length of the whole.
pub proof fn lemma_utf8_len_prefix(s: Seq<char>, i: int)
    requires
        0 <= i <= s.len(),
    ensures
        utf8_len(s.take(i)) <= utf8_len(s),
    decreases s.len() - i,
{
    if i < s.len() {
        lemma_utf8_len_prefix(s, i + 1);
        assert(s.take(i + 1).drop_last() =~= s.take(i));
    } else {
        assert(s.take(i) =~= s);
    }
}

} // verus!

verus! {

// ---------------------------------------------------------------- collections of strings

/// Whether some string of `v` equals `x`.
pub open spec fn has_str(v: Seq<String>, x: Seq<char>) -> bool {
    exists|i: int| 0 <= i < v.len() && (#[trigger] v[i])@ == x
}

/// Whether some string of `v` contains `x` (`v[i].contains(x)`).
pub open spec fn some_contains(v: Seq<String>, x: Seq<char>) -> bool {
    exists|i: int| 0 <= i < v.len() && contains_seq((#[trigger] v[i])@, x)
}

/// `v.contains(x)` on a vector of strings.
pub fn vec_has_str(v: &Vec<String>, x: &str) -> (r: bool)
    ensures
        r == has_str(v@, x@),
{
    let mut i: usize = 0;
    while i < v.len()
        invariant
            i <= v.len(),
            forall|j: int| 0 <= j < i ==> (#[trigger] v@[j])@ != x@,
        decreases v.len() - i,
    {
        if crate::languages::str_eq(v[i].as_str(), x) {
            return true;
        }
        i += 1;
    }
    false
}

/// Whether some string of `v` contains `x`.
pub fn vec_some_contains(v: &Vec<String>, x: &str) -> (r: bool)
    ensures
        r == some_contains(v@, x@),
{
    let mut i: usize = 0;
    while i < v.len()
        invariant
            i <= v.len(),
            forall|j: int| 0 <= j < i ==> !contains_seq((#[trigger] v@[j])@, x@),
        decreases v.len() - i,
    {
        if str_contains(v[i].as_str(), x) {
            return true;
        }
        i += 1;
    }
    false
}

/// A copy of a string.
pub fn clone_string(s: &String) -> (r: String)
    ensures
        r == *s,
        r@ == s@,
{
    s.clone()
}

/// A copy of an optional string.
pub fn clone_opt_string(s: &Option<String>) -> (r: Option<String>)
    ensures
        r == *s,
{
    match s {
        Some(x) => Some(x.clone()),
        None => None,
    }
}

/// A copy of a vector of strings.
pub fn clone_strings(v: &Vec<String>) -> (r: Vec<String>)
    ensures
        r@ == v@,
{
    let mut r: Vec<String> = Vec::new();
    let mut i: usize = 0;
    while i < v.len()
        invariant
            i <= v.len(),
            r@ == v@.take(i as int),
        decreases v.len() - i,
    {
        r.push(v[i].clone());
        assert(v@.take(i as int).push(v@[i as int]) =~= v@.take(i + 1));
        i += 1;
    }
    assert(v@.take(v.len() as int) =~= v@);
    r
}

/// A copy of a vector of string pairs.
pub fn clone_pairs(v: &Vec<(String, String)>) -> (r: Vec<(String, String)>)
    ensures
        r@ == v@,
{
    let mut r: Vec<(String, String)> = Vec::new();
    let mut i: usize = 0;
    while i < v.len()
        invariant
            i <= v.len(),
            r@ == v@.take(i as int),
        decreases v.len() - i,
    {
        let p = (v[i].0.clone(), v[i].1.clone());
        r.push(p);
        assert(v@.take(i as int).push(v@[i as int]) =~= v@.take(i + 1));
        i += 1;
    }
    assert(v@.take(v.len() as int) =~= v@);
    r
}

/// The views of the strings of a sequence.
pub open spec fn views(v: Seq<String>) -> Seq<Seq<char>> {
    Seq::new(v.len(), |i: int| v[i]@)
}

/// The views of a sequence of (string, line) pairs.
pub open spec fn pair_views(v: Seq<(String, usize)>) -> Seq<(Seq<char>, usize)> {
    Seq::new(v.len(), |i: int| (v[i].0@, v[i].1))
}

/// The parts of a sequence joined with a separator (`[String]::join`).
pub open spec fn join(parts: Seq<Seq<char>>, sep: Seq<char>) -> Seq<char>
    decreases parts.len(),
{
    if parts.len() == 0 {
        seq![]
    } else if parts.len() == 1 {
        parts[0]
    } else {
        join(parts.drop_last(), sep) + sep + parts.last()
    }
}

/// `parts.join(sep)`.
pub fn join_strings(parts: &Vec<String>, sep: &str) -> (r: String)
    ensures
        r@ == join(views(parts@), sep@),
{
    let mut r = String::new();
    let mut i: usize = 0;
    while i < parts.len()
        invariant
            i <= parts.len(),
            r@ == join(views(parts@).take(i as int), sep@),
        decreases parts.len() - i,
    {
        assert(views(parts@).take(i + 1).drop_last() =~= views(parts@).take(i as int));
        if i > 0 {
            push_str(&mut r, sep);
        } else {
            assert(r@ =~= seq![]);
        }
        push_str(&mut r, parts[i].as_str());
        proof {
            if i == 0 {
                assert(r@ =~= views(parts@).take(1)[0]);
            }
        }
        i += 1;
    }
    assert(views(parts@).take(parts.len() as int) =~= views(parts@));
    r
}


/// The concatenation of all parts, in order.
pub open spec fn concat_all(parts: Seq<Seq<char>>) -> Seq<char>
    decreases parts.len(),
{
    if parts.len() == 0 {
        seq![]
    } else {
        concat_all(parts.drop_last()) + parts.last()
    }
}

/// Concatenating one more part appends it.
pub proof fn lemma_concat_all_push(parts: Seq<Seq<char>>, x: Seq<char>)
    ensures
        concat_all(parts.push(x)) == concat_all(parts) + x,
{
    assert(parts.push(x).drop_last() =~= parts);
}


// ---------------------------------------------------------------- byte offsets

/// The byte offset at which the character with index `i` starts.
pub open spec fn offset_of(s: Seq<char>, i: int) -> nat {
    utf8_len(s.take(i))
}

/// Byte offsets grow strictly with the character index.
pub proof fn lemma_offset_strict(s: Seq<char>, i: int, j: int)
    requires
        0 <= i < j <= s.len(),
    ensures
        offset_of(s, i) < offset_of(s, j),
    decreases j - i,
{
    assert(s.take(j).drop_last() =~= s.take(j - 1));
    if i < j - 1 {
        lemma_offset_strict(s, i, j - 1);
    }
}

/// Byte offsets grow with the character index.
pub proof fn lemma_offset_mono(s: Seq<char>, i: int, j: int)
    requires
        0 <= i <= j <= s.len(),
    ensures
        offset_of(s, i) <= offset_of(s, j),
{
    if i < j {
        lemma_offset_strict(s, i, j);
    }
}

/// Whether `off` is the byte offset of a character boundary (the start of
/// a character, or the end of the text).
pub open spec fn is_boundary(s: Seq<char>, off: int) -> bool {
    exists|i: int| 0 <= i <= s.len() && offset_of(s, i) == off
}

/// The character index at a boundary.
pub open spec fn index_at(s: Seq<char>, off: int) -> int {
    choose|i: int| 0 <= i <= s.len() && offset_of(s, i) == off
}

/// `s.get(a..b)` on byte offsets: the characters between the two offsets
/// when both are boundaries and `a <= b`, else nothing.
pub open spec fn byte_slice(s: Seq<char>, a: int, b: int) -> Option<Seq<char>> {
    if is_boundary(s, a) && is_boundary(s, b) && a <= b {
        Some(s.subrange(index_at(s, a), index_at(s, b)))
    } else {
        None
    }
}

/// A boundary's character index is the only one at that offset.
pub proof fn lemma_index_at(s: Seq<char>, i: int)
    requires
        0 <= i <= s.len(),
    ensures
        is_boundary(s, offset_of(s, i) as int),
        index_at(s, offset_of(s, i) as int) == i,
{
    let off = offset_of(s, i) as int;
    assert(is_boundary(s, off));
    let k = index_at(s, off);
    if k < i {
        lemma_offset_strict(s, k, i);
    } else if i < k {
        lemma_offset_strict(s, i, k);
    }
}

/// The byte length of a string slice.
pub fn str_byte_len(s: &str) -> (n: usize)
    ensures
        n == utf8_len(s@),
{
    let b = s.as_bytes();
    proof {
        lemma_utf8_len(s@);
    }
    b.len()
}

/// The characters from character index `i` up to `j`.
pub fn char_range(v: &Vec<char>, i: usize, j: usize) -> (r: String)
    requires
        i <= j <= v.len(),
    ensures
        r@ == v@.subrange(i as int, j as int),
{
    let mut r = String::new();
    let mut k: usize = i;
    while k < j
        invariant
            i <= k <= j <= v.len(),
            r@ == v@.subrange(i as int, k as int),
        decreases j - k,
    {
        push_char(&mut r, v[k]);
        assert(v@.subrange(i as int, k as int).push(v@[k as int]) =~= v@.subrange(
            i as int,
            k + 1,
        ));
        k += 1;
    }
    r
}

/// The character index at which the byte offset `off` is reached, scanning
/// from character index `from` (at byte offset `start`): the first index
/// whose offset is at least `off`, or the length.
fn scan_to(v: &Vec<char>, from: usize, start: usize, off: usize) -> (r: (usize, usize))
    requires
        from <= v.len(),
        start == offset_of(v@, from as int),
        utf8_len(v@) <= usize::MAX,
    ensures
        from <= r.0 <= v.len(),
        r.1 == offset_of(v@, r.0 as int),
        r.0 < v.len() ==> off <= r.1,
        forall|k: int| from <= k < r.0 ==> offset_of(v@, k) < off,
{
    let mut i = from;
    let mut o = start;
    while i < v.len() && o < off
        invariant
            from <= i <= v.len(),
            o == offset_of(v@, i as int),
            utf8_len(v@) <= usize::MAX,
            forall|k: int| from <= k < i ==> offset_of(v@, k) < off,
        decreases v.len() - i,
    {
        proof {
            assert(v@.take(i + 1).drop_last() =~= v@.take(i as int));
            lemma_utf8_len_prefix(v@, i + 1);
        }
        o = o + char_len_utf8(v[i]);
        i += 1;
    }
    (i, o)
}

/// `s.get(a..b)` on byte offsets.
pub fn str_get(s: &str, a: usize, b: usize) -> (r: Option<String>)
    ensures
        match byte_slice(s@, a as int, b as int) {
            Some(t) => r matches Some(x) && x@ == t,
            None => r is None,
        },
{
    let v = str_chars(s);
    let total = str_byte_len(s);
    proof {
        assert(v@.take(0) =~= seq![]);
    }
    let (i, oi) = scan_to(&v, 0, 0, a);
    if oi != a {
        proof {
            assert forall|k: int| 0 <= k <= v@.len() implies offset_of(v@, k) != a by {
                if k < i {
                } else if k > i {
                    lemma_offset_strict(v@, i as int, k);
                }
            }
        }
        return None;
    }
    let (j, oj) = scan_to(&v, i, oi, b);
    if oj != b {
        proof {
            lemma_index_at(v@, i as int);
            if is_boundary(v@, b as int) && a <= b {
                let k = index_at(v@, b as int);
                if k < i {
                    lemma_offset_strict(v@, k, i as int);
                } else if k < j {
                } else if k > j {
                    lemma_offset_strict(v@, j as int, k);
                }
            }
        }
        return None;
    }
    proof {
        lemma_index_at(v@, i as int);
        lemma_index_at(v@, j as int);
    }
    Some(char_range(&v, i, j))
}


// ---------------------------------------------------------------- splitting

/// The last position, at most `n`, at which `p` occurs in `s`.
pub open spec fn last_occurrence_upto(s: Seq<char>, p: Seq<char>, n: int) -> Option<int>
    decreases n + 1,
{
    if n < 0 {
        None
    } else if occurs_at(s, p, n) {
        Some(n)
    } else {
        last_occurrence_upto(s, p, n - 1)
    }
}

/// `s.rsplit_once(p)`: the text before and after the last occurrence of `p`.
pub open spec fn split_last(s: Seq<char>, p: Seq<char>) -> Option<(Seq<char>, Seq<char>)> {
    match last_occurrence_upto(s, p, s.len() - p.len()) {
        Some(i) => Some((s.take(i), s.skip(i + p.len()))),
        None => None,
    }
}

/// `str::rsplit_once` with a string pattern.
pub fn rsplit_once_str(s: &str, p: &str) -> (r: Option<(String, String)>)
    ensures
        match split_last(s@, p@) {
            Some((a, b)) => r matches Some(x) && x.0@ == a && x.1@ == b,
            None => r is None,
        },
{
    let sv = str_chars(s);
    let pv = str_chars(p);
    if pv.len() > sv.len() {
        proof {
            assert(s@.len() - p@.len() < 0);
        }
        return None;
    }
    let mut n: usize = sv.len() - pv.len();
    loop
        invariant
            n + pv.len() <= sv.len(),
            sv@ == s@,
            pv@ == p@,
            last_occurrence_upto(s@, p@, s@.len() - p@.len()) == last_occurrence_upto(
                s@,
                p@,
                n as int,
            ),
        decreases n,
    {
        if matches_at(&sv, &pv, n) {
            let a = char_range(&sv, 0, n);
            let b = char_range(&sv, n + pv.len(), sv.len());
            proof {
                assert(sv@.subrange(0, n as int) =~= s@.take(n as int));
                assert(sv@.subrange(n + pv.len(), sv.len() as int) =~= s@.skip(n + p@.len()));
            }
            return Some((a, b));
        }
        if n == 0 {
            assert(last_occurrence_upto(s@, p@, -1) is None);
            return None;
        }
        n -= 1;
    }
}

/// The byte offset of the last occurrence of `p` in `s` (`str::rfind`).
pub open spec fn last_offset(s: Seq<char>, p: Seq<char>) -> Option<nat> {
    match last_occurrence_upto(s, p, s.len() - p.len()) {
        Some(i) => Some(offset_of(s, i)),
        None => None,
    }
}

/// `str::rfind` with a string pattern: the byte offset of its last occurrence.
pub fn str_rfind(s: &str, p: &str) -> (r: Option<usize>)
    ensures
        match last_offset(s@, p@) {
            Some(k) => r matches Some(x) && x == k,
            None => r is None,
        },
{
    let sv = str_chars(s);
    let pv = str_chars(p);
    if pv.len() > sv.len() {
        proof {
            assert(s@.len() - p@.len() < 0);
        }
        return None;
    }
    let mut n: usize = sv.len() - pv.len();
    loop
        invariant
            n + pv.len() <= sv.len(),
            sv@ == s@,
            pv@ == p@,
            last_occurrence_upto(s@, p@, s@.len() - p@.len()) == last_occurrence_upto(
                s@,
                p@,
                n as int,
            ),
        decreases n,
    {
        if matches_at(&sv, &pv, n) {
            let a = char_range(&sv, 0, n);
            assert(a@ =~= s@.take(n as int));
            return Some(str_byte_len(a.as_str()));
        }
        if n == 0 {
            assert(last_occurrence_upto(s@, p@, -1) is None);
            return None;
        }
        n -= 1;
    }
}

/// The number of lines of a text is at most its number of characters.
pub proof fn lemma_lines_len(cur: Seq<char>, rest: Seq<char>)
    ensures
        lines_from(cur, rest).len() <= cur.len() + rest.len(),
    decreases rest.len(),
{
    if rest.len() > 0 {
        if rest[0] == '\n' {
            lemma_lines_len(seq![], rest.drop_first());
        } else {
            lemma_lines_len(cur.push(rest[0]), rest.drop_first());
        }
    }
}


// ---------------------------------------------------------------- (name, value) entries

/// (name, value) entries as a map: a later entry for a name replaces an
/// earlier one.
pub open spec fn named_map(v: Seq<(String, String)>) -> Map<Seq<char>, Seq<char>>
    decreases v.len(),
{
    if v.len() == 0 {
        Map::empty()
    } else {
        named_map(v.drop_last()).insert(v.last().0@, v.last().1@)
    }
}

/// No name occurs twice.
pub open spec fn distinct_names(v: Seq<(String, String)>) -> bool {
    forall|i: int, j: int| 0 <= i < j < v.len() ==> (#[trigger] v[i]).0@ != (#[trigger] v[j]).0@
}

/// The names of the entries.
pub open spec fn names_of(v: Seq<(String, String)>) -> Set<Seq<char>> {
    Set::new(|n: Seq<char>| exists|i: int| 0 <= i < v.len() && (#[trigger] v[i]).0@ == n)
}

/// The names of the entries are the domain of their map, and with distinct
/// names each entry is what the map holds for its name.
pub proof fn lemma_named_map(v: Seq<(String, String)>)
    requires
        distinct_names(v),
    ensures
        named_map(v).dom() == names_of(v),
        forall|i: int| 0 <= i < v.len() ==> named_map(v)[(#[trigger] v[i]).0@] == v[i].1@,
    decreases v.len(),
{
    if v.len() > 0 {
        let w = v.drop_last();
        assert(distinct_names(w)) by {
            assert forall|i: int, j: int| 0 <= i < j < w.len() implies (#[trigger] w[i]).0@ != (
            #[trigger] w[j]).0@ by {
                assert(w[i] == v[i] && w[j] == v[j]);
            }
        }
        lemma_named_map(w);
        assert(named_map(v).dom() =~= names_of(v)) by {
            assert forall|n: Seq<char>| names_of(v).contains(n) implies named_map(v).dom().contains(
                n,
            ) by {
                let i = choose|i: int| 0 <= i < v.len() && (#[trigger] v[i]).0@ == n;
                if i < v.len() - 1 {
                    assert(w[i] == v[i]);
                    assert(names_of(w).contains(n));
                }
            }
            assert forall|n: Seq<char>| named_map(v).dom().contains(n) implies names_of(v).contains(
                n,
            ) by {
                if n != v.last().0@ {
                    assert(names_of(w).contains(n));
                    let i = choose|i: int| 0 <= i < w.len() && (#[trigger] w[i]).0@ == n;
                    assert(v[i] == w[i]);
                } else {
                    assert(v[v.len() - 1] == v.last());
                }
            }
        }
        assert forall|i: int| 0 <= i < v.len() implies named_map(v)[(#[trigger] v[i]).0@]
            == v[i].1@ by {
            if i < v.len() - 1 {
                assert(w[i] == v[i]);
                assert(v[i].0@ != v[v.len() - 1].0@);
            }
        }
    }
}

/// Replacing the value of a name that occurs once replaces it in the map.
pub proof fn lemma_named_map_update(v: Seq<(String, String)>, k: int, e: (String, String))
    requires
        distinct_names(v),
        0 <= k < v.len(),
        v[k].0@ == e.0@,
    ensures
        named_map(v.update(k, e)) == named_map(v).insert(e.0@, e.1@),
    decreases v.len(),
{
    let u = v.update(k, e);
    if k == v.len() - 1 {
        assert(u.drop_last() =~= v.drop_last());
        assert(named_map(u) =~= named_map(v).insert(e.0@, e.1@));
    } else {
        let w = v.drop_last();
        assert(distinct_names(w)) by {
            assert forall|i: int, j: int| 0 <= i < j < w.len() implies (#[trigger] w[i]).0@ != (
            #[trigger] w[j]).0@ by {
                assert(w[i] == v[i] && w[j] == v[j]);
            }
        }
        assert(w[k] == v[k]);
        lemma_named_map_update(w, k, e);
        assert(u.drop_last() =~= w.update(k, e));
        assert(v[k].0@ != v[v.len() - 1].0@);
        assert(named_map(u) =~= named_map(v).insert(e.0@, e.1@));
    }
}

/// Inserts an entry, replacing the value of an entry of the same name.
pub fn assoc_insert(v: &mut Vec<(String, String)>, e: (String, String))
    requires
        distinct_names(old(v)@),
    ensures
        distinct_names(final(v)@),
        named_map(final(v)@) == named_map(old(v)@).insert(e.0@, e.1@),
{
    let mut k: usize = 0;
    let mut found = false;
    while k < v.len() && !found
        invariant
            k <= v.len(),
            found ==> k < v.len() && v@[k as int].0@ == e.0@,
            forall|j: int| 0 <= j < k ==> (#[trigger] v@[j]).0@ != e.0@,
        decreases v.len() - k + (if found { 0int } else { 1int }),
    {
        if crate::languages::str_eq(v[k].0.as_str(), e.0.as_str()) {
            found = true;
        } else {
            k += 1;
        }
    }
    if found {
        proof {
            lemma_named_map_update(v@, k as int, e);
        }
        v.set(k, e);
    } else {
        let ghost before = v@;
        v.push(e);
        proof {
            assert(v@.drop_last() =~= before);
        }
    }
}


/// Each line of a text is at most as long as the text.
pub proof fn lemma_lines_elem_len(cur: Seq<char>, rest: Seq<char>, k: int)
    requires
        0 <= k < lines_from(cur, rest).len(),
    ensures
        lines_from(cur, rest)[k].len() <= cur.len() + rest.len(),
    decreases rest.len(),
{
    if rest.len() > 0 {
        if rest[0] == '\n' {
            if k > 0 {
                lemma_lines_elem_len(seq![], rest.drop_first(), k - 1);
            }
        } else {
            lemma_lines_elem_len(cur.push(rest[0]), rest.drop_first(), k);
        }
    }
}

/// A text has at most as many characters as bytes.
pub proof fn lemma_chars_le_bytes(s: Seq<char>)
    ensures
        s.len() <= utf8_len(s),
    decreases s.len(),
{
    if s.len() > 0 {
        lemma_chars_le_bytes(s.drop_last());
    }
}


/// The character index at a byte offset, when the offset is a boundary.
pub fn boundary_index(v: &Vec<char>, off: usize) -> (r: Option<usize>)
    requires
        utf8_len(v@) <= usize::MAX,
    ensures
        r matches Some(i) ==> i <= v@.len() && offset_of(v@, i as int) == off,
        r is None ==> !is_boundary(v@, off as int),
{
    proof {
        assert(v@.take(0) =~= seq![]);
    }
    let (i, o) = scan_to(v, 0, 0, off);
    if o == off {
        Some(i)
    } else {
        proof {
            assert forall|k: int| 0 <= k <= v@.len() implies offset_of(v@, k) != off by {
                if k > i {
                    lemma_offset_strict(v@, i as int, k);
                }
            }
        }
        None
    }
}

/// The text without its leading newlines (`trim_start_matches('\n')`).
pub open spec fn drop_newlines(s: Seq<char>) -> Seq<char>
    decreases s.len(),
{
    if s.len() > 0 && s[0] == '\n' {
        drop_newlines(s.drop_first())
    } else {
        s
    }
}

/// `s.trim_start_matches('\n')`.
pub fn trim_start_newlines(s: &str) -> (r: String)
    ensures
        r@ == drop_newlines(s@),
{
    let v = str_chars(s);
    let mut k: usize = 0;
    assert(v@.skip(0) =~= v@);
    while k < v.len() && v[k] == '\n'
        invariant
            k <= v.len(),
            drop_newlines(v@) == drop_newlines(v@.skip(k as int)),
        decreases v.len() - k,
    {
        assert(v@.skip(k as int).drop_first() =~= v@.skip(k + 1));
        k += 1;
    }
    assert(v@.subrange(k as int, v.len() as int) =~= v@.skip(k as int));
    char_range(&v, k, v.len())
}


// ---------------------------------------------------------------- ordering by line

/// Inserts an entry into entries ordered by line, after every entry whose
/// line is not greater.
pub open spec fn insert_by_line(
    s: Seq<(Seq<char>, usize)>,
    x: (Seq<char>, usize),
) -> Seq<(Seq<char>, usize)>
    decreases s.len(),
{
    if s.len() == 0 {
        seq![x]
    } else if s.last().1 <= x.1 {
        s.push(x)
    } else {
        insert_by_line(s.drop_last(), x).push(s.last())
    }
}

/// Entries ordered by line, entries of the same line keeping their order (a
/// stable sort by line).
pub open spec fn sort_by_line(s: Seq<(Seq<char>, usize)>) -> Seq<(Seq<char>, usize)>
    decreases s.len(),
{
    if s.len() == 0 {
        seq![]
    } else {
        insert_by_line(sort_by_line(s.drop_last()), s.last())
    }
}

/// `v.sort_by(|a, b| a.1.cmp(&b.1))`: a stable sort by line.
pub fn sort_entries_by_line(v: &Vec<(String, usize)>) -> (r: Vec<(String, usize)>)
    ensures
        pair_views(r@) == sort_by_line(pair_views(v@)),
{
    let mut r: Vec<(String, usize)> = Vec::new();
    let mut i: usize = 0;
    proof {
        assert(pair_views(v@).take(0) =~= seq![]);
        assert(pair_views(r@) =~= seq![]);
    }
    while i < v.len()
        invariant
            i <= v.len(),
            pair_views(r@) == sort_by_line(pair_views(v@).take(i as int)),
        decreases v.len() - i,
    {
        let x = (clone_string(&v[i].0), v[i].1);
        let ghost xv = (x.0@, x.1);
        let ghost s = pair_views(r@);
        let mut j = r.len();
        proof {
            assert(s.take(j as int) =~= s);
            assert(s.skip(j as int) =~= seq![]);
            assert(insert_by_line(s, xv) =~= insert_by_line(s.take(j as int), xv) + s.skip(
                j as int,
            ));
        }
        while j > 0 && r[j - 1].1 > x.1
            invariant
                j <= r.len(),
                s == pair_views(r@),
                xv == (x.0@, x.1),
                insert_by_line(s, xv) == insert_by_line(s.take(j as int), xv) + s.skip(j as int),
            decreases j,
        {
            proof {
                let t = s.take(j as int);
                assert(t.drop_last() =~= s.take(j - 1));
                assert(t.last() == s[j - 1]);
                assert(s.skip(j - 1) =~= seq![s[j - 1]] + s.skip(j as int));
                assert(insert_by_line(t, xv) == insert_by_line(s.take(j - 1), xv).push(s[j - 1]));
                assert(insert_by_line(s.take(j - 1), xv).push(s[j - 1]) + s.skip(j as int)
                    =~= insert_by_line(s.take(j - 1), xv) + s.skip(j - 1));
            }
            j -= 1;
        }
        proof {
            let t = s.take(j as int);
            if j == 0 {
                assert(t =~= seq![]);
            }
            assert(insert_by_line(t, xv) =~= t.push(xv));
            assert(pair_views(v@).take(i + 1).drop_last() =~= pair_views(v@).take(i as int));
        }
        r.insert(j, x);
        proof {
            assert(pair_views(r@) =~= s.take(j as int).push(xv) + s.skip(j as int));
        }
        i += 1;
    }
    proof {
        assert(pair_views(v@).take(v.len() as int) =~= pair_views(v@));
    }
    r
}


/// Appends a string to a vector of strings.
pub fn push_string(v: &mut Vec<String>, x: String)
    ensures
        views(final(v)@) == views(old(v)@).push(x@),
{
    v.push(x);
    assert(views(v@) =~= views(old(v)@).push(x@));
}


// ---------------------------------------------------------------- splitting at a character

/// The pieces of `cur + rest` split at `c`, `cur` being the start of the current piece.
pub open spec fn split_from(cur: Seq<char>, rest: Seq<char>, c: char) -> Seq<Seq<char>>
    decreases rest.len(),
{
    if rest.len() == 0 {
        seq![cur]
    } else if rest[0] == c {
        seq![cur] + split_from(seq![], rest.drop_first(), c)
    } else {
        split_from(cur.push(rest[0]), rest.drop_first(), c)
    }
}

/// `s.split(c)`: the pieces between the occurrences of `c` (there is always one more piece
/// than occurrences).
pub open spec fn split_at_char(s: Seq<char>, c: char) -> Seq<Seq<char>> {
    split_from(seq![], s, c)
}

/// There is always at least one piece.
pub proof fn lemma_split_nonempty(cur: Seq<char>, rest: Seq<char>, c: char)
    ensures
        split_from(cur, rest, c).len() >= 1,
    decreases rest.len(),
{
    if rest.len() > 0 {
        if rest[0] == c {
            lemma_split_nonempty(seq![], rest.drop_first(), c);
        } else {
            lemma_split_nonempty(cur.push(rest[0]), rest.drop_first(), c);
        }
    }
}

/// `s.split(c)` on a string slice.
pub fn split_char(s: &str, c: char) -> (r: Vec<String>)
    ensures
        views(r@) == split_at_char(s@, c),
{
    let v = str_chars(s);
    let mut done: Vec<String> = Vec::new();
    let mut cur = String::new();
    let mut i: usize = 0;
    assert(v@.skip(0) =~= v@);
    assert(views(done@) + split_from(cur@, v@.skip(0), c) =~= split_at_char(s@, c));
    while i < v.len()
        invariant
            i <= v.len(),
            v@ == s@,
            views(done@) + split_from(cur@, v@.skip(i as int), c) == split_at_char(s@, c),
        decreases v.len() - i,
    {
        assert(v@.skip(i as int).drop_first() =~= v@.skip(i + 1));
        if v[i] == c {
            let piece = cur;
            cur = String::new();
            let ghost before = views(done@);
            push_string(&mut done, piece);
            assert(views(done@) + split_from(cur@, v@.skip(i + 1), c) =~= before + (seq![piece@]
                + split_from(seq![], v@.skip(i + 1), c)));
        } else {
            push_char(&mut cur, v[i]);
        }
        i += 1;
    }
    assert(v@.skip(v.len() as int) =~= seq![]);
    push_string(&mut done, cur);
    done
}

/// The pieces joined with a space.
pub fn join_with_space(parts: &Vec<String>, from: usize) -> (r: String)
    requires
        from <= parts@.len(),
    ensures
        r@ == join(views(parts@).skip(from as int), seq![' ']),
{
    let mut rest: Vec<String> = Vec::new();
    let mut i: usize = from;
    while i < parts.len()
        invariant
            from <= i <= parts.len(),
            views(rest@) == views(parts@).subrange(from as int, i as int),
        decreases parts.len() - i,
    {
        push_string(&mut rest, clone_string(&parts[i]));
        assert(views(parts@).subrange(from as int, i as int).push(parts@[i as int]@) =~= views(parts@).subrange(from as int, i + 1));
        i += 1;
    }
    assert(views(parts@).subrange(from as int, parts.len() as int) =~= views(parts@).skip(from as int));
    proof {
        reveal_strlit(" ");
        assert(" "@ =~= seq![' ']);
    }
    join_strings(&rest, " ")
}

// ---------------------------------------------------------------- numbers

/// Whether a character is an ASCII digit.
pub open spec fn is_digit(c: char) -> bool {
    '0' <= c <= '9'
}

/// The value of a sequence of digits.
pub open spec fn digits_value(s: Seq<char>) -> nat
    decreases s.len(),
{
    if s.len() == 0 {
        0
    } else {
        digits_value(s.drop_last()) * 10 + ((s.last() as u32) - ('0' as u32)) as nat
    }
}

/// The digits of a number: the text without one leading `+`.
pub open spec fn unsigned_digits(s: Seq<char>) -> Seq<char> {
    if s.len() > 0 && s[0] == '+' {
        s.drop_first()
    } else {
        s
    }
}

/// The value of at least one digit, when it fits.
pub open spec fn parse_digits(d: Seq<char>) -> Option<usize> {
    if d.len() > 0 && (forall|i: int| 0 <= i < d.len() ==> is_digit(#[trigger] d[i]))
        && digits_value(d) <= usize::MAX {
        Some(digits_value(d) as usize)
    } else {
        None
    }
}

/// `s.parse::<usize>()`: an optional `+` followed by at least one digit,
/// with a value that fits.
pub open spec fn parse_usize(s: Seq<char>) -> Option<usize> {
    parse_digits(unsigned_digits(s))
}

/// Parses a decimal number as `str::parse::<usize>` does.
pub fn str_parse_usize(s: &str) -> (r: Option<usize>)
    ensures
        r == parse_usize(s@),
{
    let v = str_chars(s);
    let start: usize = if v.len() > 0 && v[0] == '+' {
        1
    } else {
        0
    };
    let ghost d = unsigned_digits(s@);
    assert(d =~= v@.skip(start as int));
    if start >= v.len() {
        return None;
    }
    let mut value: usize = 0;
    let mut i: usize = start;
    while i < v.len()
        invariant
            start <= i <= v.len(),
            v@ == s@,
            d == v@.skip(start as int),
            d == unsigned_digits(s@),
            start < v.len(),
            value == digits_value(v@.subrange(start as int, i as int)),
            forall|j: int| start <= j < i ==> is_digit(#[trigger] v@[j]),
        decreases v.len() - i,
    {
        let c = v[i];
        if !('0' <= c && c <= '9') {
            proof {
                assert(d[i - start] == v@[i as int]);
                assert(!is_digit(d[i - start]));
                assert(!(forall|j: int| 0 <= j < d.len() ==> is_digit(#[trigger] d[j])));
            }
            return None;
        }
        let digit = (c as u32) - ('0' as u32);
        proof {
            assert(v@.subrange(start as int, i + 1).drop_last() =~= v@.subrange(start as int, i as int));
        }
        if value > (usize::MAX - (digit as usize)) / 10 {
            proof {
                assert(digits_value(v@.subrange(start as int, i + 1)) > usize::MAX) by (nonlinear_arith)
                    requires
                        value > (usize::MAX - digit) / 10,
                        digits_value(v@.subrange(start as int, i + 1)) == value * 10 + digit,
                        digit <= 9;
                if forall|j: int| 0 <= j < d.len() ==> is_digit(#[trigger] d[j]) {
                    lemma_digits_value_prefix(d, (i + 1 - start) as int);
                    assert(d.take(i + 1 - start) =~= v@.subrange(start as int, i + 1));
                }
            }
            return None;
        }
        value = value * 10 + (digit as usize);
        i += 1;
    }
    assert(v@.subrange(start as int, v.len() as int) =~= d);
    Some(value)
}

/// A longer run of digits is worth at least as much.
pub proof fn lemma_digits_value_prefix(d: Seq<char>, k: int)
    requires
        0 <= k <= d.len(),
        forall|i: int| 0 <= i < d.len() ==> is_digit(#[trigger] d[i]),
    ensures
        digits_value(d.take(k)) <= digits_value(d),
    decreases d.len() - k,
{
    if k < d.len() {
        lemma_digits_value_prefix(d, k + 1);
        assert(d.take(k + 1).drop_last() =~= d.take(k));
        assert(is_digit(d[k]));
    } else {
        assert(d.take(k) =~= d);
    }
}

/// `s.split_once(c)`: the text before and after the first occurrence of `c`.
pub open spec fn split_once_char(s: Seq<char>, c: char) -> Option<(Seq<char>, Seq<char>)>
    decreases s.len(),
{
    if s.len() == 0 {
        None
    } else if s[0] == c {
        Some((seq![], s.drop_first()))
    } else {
        match split_once_char(s.drop_first(), c) {
            Some((a, b)) => Some((seq![s[0]] + a, b)),
            None => None,
        }
    }
}

/// Where the first occurrence is, `split_once_char` splits.
pub proof fn lemma_split_once_at(s: Seq<char>, c: char, i: int)
    requires
        0 <= i < s.len(),
        s[i] == c,
        forall|j: int| 0 <= j < i ==> s[j] != c,
    ensures
        split_once_char(s, c) == Some((s.take(i), s.skip(i + 1))),
    decreases i,
{
    if i > 0 {
        lemma_split_once_at(s.drop_first(), c, i - 1);
        assert(seq![s[0]] + s.drop_first().take(i - 1) =~= s.take(i));
        assert(s.drop_first().skip(i) =~= s.skip(i + 1));
    } else {
        assert(s.take(0) =~= seq![]);
        assert(s.drop_first() =~= s.skip(1));
    }
}

/// Where `c` does not occur, `split_once_char` gives nothing.
pub proof fn lemma_split_once_none(s: Seq<char>, c: char)
    requires
        forall|j: int| 0 <= j < s.len() ==> s[j] != c,
    ensures
        split_once_char(s, c) is None,
    decreases s.len(),
{
    if s.len() > 0 {
        lemma_split_once_none(s.drop_first(), c);
    }
}

/// `str::split_once` with a character pattern.
pub fn str_split_once(s: &str, c: char) -> (r: Option<(String, String)>)
    ensures
        match r {
            Some((a, b)) => split_once_char(s@, c) == Some((a@, b@)),
            None => split_once_char(s@, c) is None,
        },
{
    let v = str_chars(s);
    let mut i: usize = 0;
    while i < v.len()
        invariant
            i <= v.len(),
            v@ == s@,
            forall|j: int| 0 <= j < i ==> v@[j] != c,
        decreases v.len() - i,
    {
        if v[i] == c {
            proof {
                lemma_split_once_at(s@, c, i as int);
            }
            let a = chars_to_string(&v.as_slice()[0..i]);
            let b = chars_to_string(&v.as_slice()[i + 1..v.len()]);
            assert(a@ =~= s@.take(i as int));
            assert(b@ =~= s@.skip(i + 1));
            return Some((a, b));
        }
        i = i + 1;
    }
    proof {
        lemma_split_once_none(s@, c);
    }
    None
}

/// Every `from` in `s` turned into `to`.
pub open spec fn replace_char(s: Seq<char>, from: char, to: char) -> Seq<char> {
    Seq::new(s.len(), |i: int| if s[i] == from { to } else { s[i] })
}

/// `str::replace` of one character by another.
pub fn str_replace_char(s: &str, from: char, to: char) -> (r: String)
    ensures
        r@ == replace_char(s@, from, to),
{
    let v = str_chars(s);
    let mut out: Vec<char> = Vec::new();
    let mut i: usize = 0;
    while i < v.len()
        invariant
            i <= v.len(),
            v@ == s@,
            out@ == replace_char(s@, from, to).take(i as int),
        decreases v.len() - i,
    {
        if v[i] == from {
            out.push(to);
        } else {
            out.push(v[i]);
        }
        assert(out@ =~= replace_char(s@, from, to).take(i + 1));
        i = i + 1;
    }
    assert(out@ =~= replace_char(s@, from, to));
    chars_to_string(out.as_slice())
}

/// Where `c` occurs after the piece begun, the split has a second piece.
pub proof fn lemma_split_two(cur: Seq<char>, rest: Seq<char>, c: char, k: int)
    requires
        0 <= k < rest.len(),
        rest[k] == c,
    ensures
        split_from(cur, rest, c).len() >= 2,
    decreases rest.len(),
{
    if rest[0] == c {
        lemma_split_nonempty(seq![], rest.drop_first(), c);
    } else {
        lemma_split_two(cur.push(rest[0]), rest.drop_first(), c, k - 1);
    }
}

/// The first position, at `i` or after, at which `p` occurs in `s`.
pub open spec fn first_occurrence_from(s: Seq<char>, p: Seq<char>, i: int) -> Option<int>
    decreases s.len() + 1 - i,
{
    if i < 0 || i + p.len() > s.len() {
        None
    } else if occurs_at(s, p, i) {
        Some(i)
    } else {
        first_occurrence_from(s, p, i + 1)
    }
}

/// `s.split_once(p)`: the text before and after the first occurrence of `p`.
pub open spec fn split_first(s: Seq<char>, p: Seq<char>) -> Option<(Seq<char>, Seq<char>)> {
    match first_occurrence_from(s, p, 0) {
        Some(i) => Some((s.take(i), s.skip(i + p.len()))),
        None => None,
    }
}

/// `str::split_once` with a string pattern.
pub fn split_once_str(s: &str, p: &str) -> (r: Option<(String, String)>)
    ensures
        match split_first(s@, p@) {
            Some((a, b)) => r matches Some(x) && x.0@ == a && x.1@ == b,
            None => r is None,
        },
{
    let sv = str_chars(s);
    let pv = str_chars(p);
    let mut i: usize = 0;
    while i <= sv.len() && sv.len() - i >= pv.len()
        invariant
            i <= sv.len(),
            sv@ == s@,
            pv@ == p@,
            first_occurrence_from(s@, p@, 0) == first_occurrence_from(s@, p@, i as int),
        decreases sv.len() + 1 - i,
    {
        assert(pv@.len() == 0 ==> sv@.subrange(i as int, i as int) =~= pv@);
        if matches_at(&sv, &pv, i) {
            let a = char_range(&sv, 0, i);
            let b = char_range(&sv, i + pv.len(), sv.len());
            proof {
                assert(sv@.subrange(0, i as int) =~= s@.take(i as int));
                assert(sv@.subrange(i + pv.len(), sv.len() as int) =~= s@.skip(i + p@.len()));
            }
            return Some((a, b));
        }
        i += 1;
    }
    None
}

/// A piece without the separator, then the separator, ends a piece.
pub proof fn lemma_split_piece(cur: Seq<char>, w: Seq<char>, rest: Seq<char>, c: char)
    requires
        !w.contains(c),
    ensures
        split_from(cur, w + seq![c] + rest, c) == seq![cur + w] + split_from(seq![], rest, c),
    decreases w.len(),
{
    if w.len() == 0 {
        assert(w + seq![c] + rest =~= seq![c] + rest);
        assert((seq![c] + rest).drop_first() =~= rest);
        assert(cur + w =~= cur);
    } else {
        assert((w + seq![c] + rest)[0] == w[0]);
        assert(w[0] != c);
        assert((w + seq![c] + rest).drop_first() =~= w.drop_first() + seq![c] + rest);
        assert(!w.drop_first().contains(c)) by {
            if w.drop_first().contains(c) {
                let k = choose|k: int| 0 <= k < w.drop_first().len() && w.drop_first()[k] == c;
                assert(w[k + 1] == c);
            }
        }
        lemma_split_piece(cur.push(w[0]), w.drop_first(), rest, c);
        assert(cur.push(w[0]) + w.drop_first() =~= cur + w);
    }
}

/// A last piece without the separator is a piece of its own.
pub proof fn lemma_split_end(cur: Seq<char>, w: Seq<char>, c: char)
    requires
        !w.contains(c),
    ensures
        split_from(cur, w, c) == seq![cur + w],
    decreases w.len(),
{
    if w.len() == 0 {
        assert(cur + w =~= cur);
    } else {
        assert(w[0] != c);
        assert(!w.drop_first().contains(c)) by {
            if w.drop_first().contains(c) {
                let k = choose|k: int| 0 <= k < w.drop_first().len() && w.drop_first()[k] == c;
                assert(w[k + 1] == c);
            }
        }
        lemma_split_end(cur.push(w[0]), w.drop_first(), c);
        assert(cur.push(w[0]) + w.drop_first() =~= cur + w);
    }
}

/// Joining a part in front of others puts it first, then the separator.
pub proof fn lemma_join_prepend(x: Seq<char>, t: Seq<Seq<char>>, sep: Seq<char>)
    requires
        t.len() >= 1,
    ensures
        join(seq![x] + t, sep) == x + sep + join(t, sep),
    decreases t.len(),
{
    let xt = seq![x] + t;
    assert(xt.drop_last() =~= seq![x] + t.drop_last());
    assert(xt.last() == t.last());
    assert(xt.len() >= 2);
    assert(join(xt, sep) == join(xt.drop_last(), sep) + sep + xt.last());
    if t.len() == 1 {
        assert(xt.drop_last() =~= seq![x]);
        assert(join(seq![x], sep) == x);
        assert(join(t, sep) == t[0]);
    } else {
        assert(join(t, sep) == join(t.drop_last(), sep) + sep + t.last());
        lemma_join_prepend(x, t.drop_last(), sep);
        assert(x + sep + join(t.drop_last(), sep) + sep + t.last() =~= x + sep + (join(t.drop_last(), sep) + sep
            + t.last()));
    }
}

/// Joining the pieces of a split with the separator gives the text back.
pub proof fn lemma_join_split(cur: Seq<char>, rest: Seq<char>, c: char)
    ensures
        join(split_from(cur, rest, c), seq![c]) == cur + rest,
    decreases rest.len(),
{
    if rest.len() == 0 {
        assert(cur + rest =~= cur);
    } else if rest[0] == c {
        lemma_join_split(seq![], rest.drop_first(), c);
        lemma_split_nonempty(seq![], rest.drop_first(), c);
        lemma_join_prepend(cur, split_from(seq![], rest.drop_first(), c), seq![c]);
        assert(cur + seq![c] + (seq![] + rest.drop_first()) =~= cur + rest);
    } else {
        lemma_join_split(cur.push(rest[0]), rest.drop_first(), c);
        assert(cur.push(rest[0]) + rest.drop_first() =~= cur + rest);
    }
}

} // verus!
