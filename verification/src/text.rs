use vstd::prelude::*;
use vstd::string::*;

verus! {

/// `String::push` appends one character at the end.
pub assume_specification[ String::push ](s: &mut String, ch: char)
    ensures
        final(s)@ == old(s)@.push(ch),
;

/// Two string slices are equal exactly when they hold the same characters.
pub fn str_eq(a: &str, b: &str) -> (r: bool)
    ensures
        r == (a@ == b@),
{
    let x = to_chars(a);
    let y = to_chars(b);
    chars_eq(x.as_slice(), y.as_slice())
}

/// The characters of `s`, in order.
pub fn to_chars(s: &str) -> (out: Vec<char>)
    ensures
        out@ == s@,
{
    let mut out: Vec<char> = Vec::new();
    for c in it: s.chars()
        invariant
            out@ == it.seq().take(it.index() as int),
            it.seq() == s@,
    {
        out.push(c);
    }
    out
}

/// The string made of the characters of `v`, in order.
pub fn from_chars(v: &[char]) -> (out: String)
    ensures
        out@ == v@,
{
    let mut out = String::new();
    let mut i: usize = 0;
    while i < v.len()
        invariant
            i <= v.len(),
            out@ == v@.take(i as int),
        decreases v.len() - i,
    {
        out.push(v[i]);
        assert(v@.take(i + 1) == v@.take(i as int).push(v@[i as int]));
        i += 1;
    }
    assert(v@.take(v.len() as int) == v@);
    out
}

} // verus!

verus! {

/// The characters of an optional owned string.
pub open spec fn opt_view(o: Option<String>) -> Option<Seq<char>> {
    match o {
        Some(s) => Some(s@),
        None => None,
    }
}

/// The characters of an optional borrowed string.
pub open spec fn opt_ref_view(o: Option<&str>) -> Option<Seq<char>> {
    match o {
        Some(s) => Some(s@),
        None => None,
    }
}

/// An owned copy of `s`.
pub fn owned(s: &str) -> (r: String)
    ensures
        r@ == s@,
{
    s.to_owned()
}

/// Whether an optional owned string and an optional borrowed one hold the same text.
pub fn opt_string_eq(a: &Option<String>, b: Option<&str>) -> (r: bool)
    ensures
        r == (opt_view(*a) == opt_ref_view(b)),
{
    match (a, b) {
        (Some(x), Some(y)) => str_eq(x.as_str(), y),
        (None, None) => true,
        _ => false,
    }
}

/// A copy of an optional string.
pub fn clone_opt_string(a: &Option<String>) -> (r: Option<String>)
    ensures
        r == *a,
{
    match a {
        Some(x) => Some(x.clone()),
        None => None,
    }
}

} // verus!

verus! {

/// ASCII letters are lowered; every other character is kept.
pub open spec fn lower_char(c: char) -> char {
    if 'A' <= c && c <= 'Z' {
        ((c as u32) + 32) as char
    } else {
        c
    }
}

/// `s` with its ASCII letters lowered (`str::to_ascii_lowercase`).
pub open spec fn ascii_lower(s: Seq<char>) -> Seq<char> {
    s.map_values(|c: char| lower_char(c))
}

/// The Unicode `White_Space` characters (`char::is_whitespace`).
pub open spec fn is_ws(c: char) -> bool {
    ||| ('\u{9}' <= c && c <= '\u{d}')
    ||| c == ' '
    ||| c == '\u{85}'
    ||| c == '\u{a0}'
    ||| c == '\u{1680}'
    ||| ('\u{2000}' <= c && c <= '\u{200a}')
    ||| c == '\u{2028}'
    ||| c == '\u{2029}'
    ||| c == '\u{202f}'
    ||| c == '\u{205f}'
    ||| c == '\u{3000}'
}

/// `s` without its leading white space.
pub open spec fn trim_start_spec(s: Seq<char>) -> Seq<char>
    decreases s.len(),
{
    if s.len() > 0 && is_ws(s[0]) {
        trim_start_spec(s.drop_first())
    } else {
        s
    }
}

/// `s` without its trailing white space.
pub open spec fn trim_end_spec(s: Seq<char>) -> Seq<char>
    decreases s.len(),
{
    if s.len() > 0 && is_ws(s.last()) {
        trim_end_spec(s.drop_last())
    } else {
        s
    }
}

/// `s` without leading and trailing white space (`str::trim`).
pub open spec fn trim_spec(s: Seq<char>) -> Seq<char> {
    trim_end_spec(trim_start_spec(s))
}

/// `p` occurs in `s` at position `i`.
pub open spec fn occurs_at(s: Seq<char>, i: int, p: Seq<char>) -> bool {
    0 <= i && i + p.len() <= s.len() && s.subrange(i, i + p.len()) == p
}

/// `p` occurs somewhere in `s` (`str::contains`).
pub open spec fn seq_contains(s: Seq<char>, p: Seq<char>) -> bool {
    exists|i: int| occurs_at(s, i, p)
}

/// `s` ends with `p` (`str::ends_with`).
pub open spec fn seq_ends_with(s: Seq<char>, p: Seq<char>) -> bool {
    p.len() <= s.len() && occurs_at(s, s.len() - p.len(), p)
}

/// `s` with every occurrence of the non-empty `p` replaced by `r`, scanning
/// from the left and never overlapping (`str::replace`).
pub open spec fn replace_all(s: Seq<char>, p: Seq<char>, r: Seq<char>) -> Seq<char>
    decreases s.len(),
{
    if p.len() == 0 || s.len() < p.len() {
        s
    } else if s.subrange(0, p.len() as int) == p {
        r + replace_all(s.skip(p.len() as int), p, r)
    } else {
        seq![s[0]] + replace_all(s.drop_first(), p, r)
    }
}

/// `s` with every character `from` replaced by `to`.
pub open spec fn replace_char(s: Seq<char>, from: char, to: char) -> Seq<char> {
    s.map_values(|c: char| if c == from { to } else { c })
}

pub fn lower_char_exec(c: char) -> (r: char)
    ensures
        r == lower_char(c),
{
    if 'A' <= c && c <= 'Z' {
        let u: u32 = c as u32;
        let l: u32 = u + 32;
        assert(0x61 <= l <= 0x7a);
        char_from_ascii(l)
    } else {
        c
    }
}

/// The character of an ASCII code point.
fn char_from_ascii(u: u32) -> (c: char)
    requires
        u < 128,
    ensures
        c == (u as char),
        c as u32 == u,
{
    let b: u8 = u as u8;
    b as char
}

/// The characters of `s` with ASCII letters lowered.
pub fn lower_chars(s: &[char]) -> (out: Vec<char>)
    ensures
        out@ == ascii_lower(s@),
{
    let mut out: Vec<char> = Vec::new();
    let mut i: usize = 0;
    while i < s.len()
        invariant
            i <= s.len(),
            out@ == ascii_lower(s@.take(i as int)),
        decreases s.len() - i,
    {
        out.push(lower_char_exec(s[i]));
        assert(ascii_lower(s@.take(i + 1)) == ascii_lower(s@.take(i as int)).push(lower_char(s@[i as int])));
        i += 1;
    }
    assert(s@.take(s.len() as int) == s@);
    out
}

/// `str::to_ascii_lowercase`.
pub fn to_ascii_lowercase(s: &str) -> (out: String)
    ensures
        out@ == ascii_lower(s@),
{
    let chars = to_chars(s);
    let lowered = lower_chars(chars.as_slice());
    from_chars(lowered.as_slice())
}

pub fn is_ws_exec(c: char) -> (b: bool)
    ensures
        b == is_ws(c),
{
    ('\u{9}' <= c && c <= '\u{d}') || c == ' ' || c == '\u{85}' || c == '\u{a0}' || c == '\u{1680}'
        || ('\u{2000}' <= c && c <= '\u{200a}') || c == '\u{2028}' || c == '\u{2029}' || c
        == '\u{202f}' || c == '\u{205f}' || c == '\u{3000}'
}

proof fn lemma_trim_start_skip(s: Seq<char>, i: int)
    requires
        0 <= i <= s.len(),
        forall|j: int| 0 <= j < i ==> is_ws(#[trigger] s[j]),
    ensures
        trim_start_spec(s) == trim_start_spec(s.skip(i)),
    decreases i,
{
    if i > 0 {
        assert(s.skip(1) == s.drop_first());
        lemma_trim_start_skip(s.drop_first(), i - 1);
        assert(s.drop_first().skip(i - 1) == s.skip(i));
    } else {
        assert(s.skip(0) == s);
    }
}

proof fn lemma_trim_end_take(s: Seq<char>, k: int)
    requires
        0 <= k <= s.len(),
        forall|j: int| k <= j < s.len() ==> is_ws(#[trigger] s[j]),
    ensures
        trim_end_spec(s) == trim_end_spec(s.take(k)),
    decreases s.len() - k,
{
    if k < s.len() {
        assert(s.take(s.len() - 1) == s.drop_last());
        lemma_trim_end_take(s.drop_last(), k);
        assert(s.drop_last().take(k) == s.take(k));
    } else {
        assert(s.take(k) == s);
    }
}

/// The characters of `s` without leading and trailing white space.
pub fn trim_chars(s: &[char]) -> (out: Vec<char>)
    ensures
        out@ == trim_spec(s@),
{
    let mut start: usize = 0;
    while start < s.len() && is_ws_exec(s[start])
        invariant
            start <= s.len(),
            forall|j: int| 0 <= j < start ==> is_ws(#[trigger] s@[j]),
        decreases s.len() - start,
    {
        start += 1;
    }
    proof {
        lemma_trim_start_skip(s@, start as int);
    }
    let ghost rest = s@.skip(start as int);
    assert(trim_start_spec(rest) == rest);
    let mut end: usize = s.len();
    while end > start && is_ws_exec(s[end - 1])
        invariant
            start <= end <= s.len(),
            forall|j: int| end <= j < s.len() ==> is_ws(#[trigger] s@[j]),
        decreases end,
    {
        end -= 1;
    }
    proof {
        lemma_trim_end_take(rest, end - start);
        let t = rest.take(end - start);
        if t.len() > 0 {
            assert(t.last() == s@[end - 1]);
        }
    }
    let mut out: Vec<char> = Vec::new();
    let mut i: usize = start;
    while i < end
        invariant
            start <= i <= end,
            end <= s.len(),
            out@ == s@.subrange(start as int, i as int),
        decreases end - i,
    {
        out.push(s[i]);
        assert(s@.subrange(start as int, i + 1) == s@.subrange(start as int, i as int).push(s@[i as int]));
        i += 1;
    }
    assert(out@ == rest.take(end - start));
    out
}

/// `str::trim`, as an owned string.
pub fn trim(s: &str) -> (out: String)
    ensures
        out@ == trim_spec(s@),
{
    let chars = to_chars(s);
    let t = trim_chars(chars.as_slice());
    from_chars(t.as_slice())
}

/// Whether `p` occurs in `s` at position `i`.
pub fn matches_at(s: &[char], i: usize, p: &[char]) -> (b: bool)
    ensures
        b == occurs_at(s@, i as int, p@),
{
    if i > s.len() || p.len() > s.len() - i {
        return false;
    }
    let mut k: usize = 0;
    while k < p.len()
        invariant
            k <= p.len(),
            i + p.len() <= s.len(),
            forall|j: int| 0 <= j < k ==> s@[i + j] == p@[j],
        decreases p.len() - k,
    {
        if s[i + k] != p[k] {
            assert(s@.subrange(i as int, i + p.len())[k as int] != p@[k as int]);
            return false;
        }
        k += 1;
    }
    assert(s@.subrange(i as int, i + p.len()) == p@);
    true
}

/// The first position at which `p` occurs in `s`, if any.
pub fn find_chars(s: &[char], p: &[char]) -> (r: Option<usize>)
    ensures
        r matches Some(i) ==> occurs_at(s@, i as int, p@) && forall|j: int|
            0 <= j < i ==> !occurs_at(s@, j, p@),
        r is None ==> !seq_contains(s@, p@),
{
    if p.len() > s.len() {
        assert forall|j: int| !occurs_at(s@, j, p@) by {}
        return None;
    }
    if p.len() == 0 {
        assert(s@.subrange(0, 0) == p@);
        return Some(0);
    }
    let mut i: usize = 0;
    while i <= s.len() - p.len()
        invariant
            p.len() >= 1,
            p.len() <= s.len(),
            i <= s.len() - p.len() + 1,
            forall|j: int| 0 <= j < i ==> !occurs_at(s@, j, p@),
        decreases s.len() - i,
    {
        if matches_at(s, i, p) {
            return Some(i);
        }
        i += 1;
    }
    assert forall|j: int| !occurs_at(s@, j, p@) by {
        if 0 <= j < i {
        }
    }
    None
}

/// Whether `p` occurs in `s` (`str::contains`).
pub fn contains_chars(s: &[char], p: &[char]) -> (b: bool)
    ensures
        b == seq_contains(s@, p@),
{
    match find_chars(s, p) {
        Some(_) => true,
        None => false,
    }
}

/// Whether `s` ends with `p` (`str::ends_with`).
pub fn ends_with_chars(s: &[char], p: &[char]) -> (b: bool)
    ensures
        b == seq_ends_with(s@, p@),
{
    if p.len() > s.len() {
        false
    } else {
        matches_at(s, s.len() - p.len(), p)
    }
}

/// Whether two character sequences are equal.
pub fn chars_eq(a: &[char], b: &[char]) -> (r: bool)
    ensures
        r == (a@ == b@),
{
    if a.len() != b.len() {
        return false;
    }
    let r = matches_at(a, 0, b);
    proof {
        if r {
            assert(a@.subrange(0, b@.len() as int) == a@);
        } else {
            if a@ == b@ {
                assert(a@.subrange(0, b@.len() as int) == b@);
            }
        }
    }
    r
}

proof fn lemma_replace_all_step_match(s: Seq<char>, i: int, p: Seq<char>, r: Seq<char>)
    requires
        p.len() > 0,
        0 <= i,
        occurs_at(s, i, p),
    ensures
        replace_all(s.skip(i), p, r) == r + replace_all(s.skip(i + p.len()), p, r),
{
    let t = s.skip(i);
    assert(t.subrange(0, p.len() as int) == s.subrange(i, i + p.len()));
    assert(t.skip(p.len() as int) == s.skip(i + p.len()));
}

proof fn lemma_replace_all_step_no_match(s: Seq<char>, i: int, p: Seq<char>, r: Seq<char>)
    requires
        p.len() > 0,
        0 <= i < s.len(),
        !occurs_at(s, i, p),
    ensures
        replace_all(s.skip(i), p, r) == seq![s[i]] + replace_all(s.skip(i + 1), p, r),
{
    let t = s.skip(i);
    if t.len() >= p.len() {
        assert(t.subrange(0, p.len() as int) == s.subrange(i, i + p.len()));
    } else {
        lemma_replace_all_short(t, p, r);
        lemma_replace_all_short(s.skip(i + 1), p, r);
        assert(t == seq![s[i]] + s.skip(i + 1));
    }
    assert(t.drop_first() == s.skip(i + 1));
}

proof fn lemma_replace_all_short(s: Seq<char>, p: Seq<char>, r: Seq<char>)
    requires
        s.len() < p.len(),
    ensures
        replace_all(s, p, r) == s,
{
}

/// `str::replace` of a non-empty pattern, on characters.
pub fn replace_chars(s: &[char], p: &[char], r: &[char]) -> (out: Vec<char>)
    requires
        p@.len() > 0,
    ensures
        out@ == replace_all(s@, p@, r@),
{
    let mut out: Vec<char> = Vec::new();
    let mut i: usize = 0;
    assert(s@.skip(0) == s@);
    while i < s.len()
        invariant
            i <= s.len(),
            p@.len() > 0,
            replace_all(s@, p@, r@) == out@ + replace_all(s@.skip(i as int), p@, r@),
        decreases s.len() - i,
    {
        if matches_at(s, i, p) {
            proof {
                lemma_replace_all_step_match(s@, i as int, p@, r@);
            }
            let ghost before = out@;
            let mut k: usize = 0;
            while k < r.len()
                invariant
                    k <= r.len(),
                    out@ == before + r@.take(k as int),
                decreases r.len() - k,
            {
                out.push(r[k]);
                assert(r@.take(k + 1) == r@.take(k as int).push(r@[k as int]));
                k += 1;
            }
            assert(r@.take(r.len() as int) == r@);
            assert(before + (r@ + replace_all(s@.skip(i + p.len()), p@, r@)) == (before + r@)
                + replace_all(s@.skip(i + p.len()), p@, r@));
            i += p.len();
        } else {
            proof {
                lemma_replace_all_step_no_match(s@, i as int, p@, r@);
            }
            let ghost before = out@;
            out.push(s[i]);
            assert(before + (seq![s@[i as int]] + replace_all(s@.skip(i + 1), p@, r@)) == before.push(
                s@[i as int],
            ) + replace_all(s@.skip(i + 1), p@, r@));
            i += 1;
        }
    }
    assert(s@.skip(s.len() as int).len() == 0);
    assert(out@ + seq![] == out@);
    out
}

/// `s` with every `from` replaced by `to`.
pub fn replace_char_chars(s: &[char], from: char, to: char) -> (out: Vec<char>)
    ensures
        out@ == replace_char(s@, from, to),
{
    let mut out: Vec<char> = Vec::new();
    let mut i: usize = 0;
    while i < s.len()
        invariant
            i <= s.len(),
            out@ == replace_char(s@.take(i as int), from, to),
        decreases s.len() - i,
    {
        out.push(if s[i] == from { to } else { s[i] });
        assert(replace_char(s@.take(i + 1), from, to) == replace_char(s@.take(i as int), from, to).push(
            if s@[i as int] == from { to } else { s@[i as int] },
        ));
        i += 1;
    }
    assert(s@.take(s.len() as int) == s@);
    out
}

} // verus!

verus! {

/// The number of bytes of the UTF-8 encoding of `c`.
pub open spec fn utf8_width(c: char) -> nat {
    if (c as u32) <= 0x7f {
        1
    } else if (c as u32) <= 0x7ff {
        2
    } else if (c as u32) <= 0xffff {
        3
    } else {
        4
    }
}

/// The number of bytes of the UTF-8 encoding of `s` (`str::len`).
pub open spec fn utf8_len(s: Seq<char>) -> nat {
    vstd::utf8::encode_utf8(s).len()
}

/// How many leading characters of `s` fit in `max` bytes of UTF-8.
pub open spec fn chars_within(s: Seq<char>, max: int) -> nat
    decreases s.len(),
{
    if s.len() == 0 || utf8_width(s[0]) > max {
        0
    } else {
        1 + chars_within(s.drop_first(), max - utf8_width(s[0]))
    }
}

pub proof fn lemma_encode_scalar_len(c: char)
    ensures
        vstd::utf8::encode_scalar(c as u32).len() == utf8_width(c),
{
    vstd::utf8::char_is_scalar(c);
}

pub proof fn lemma_utf8_len_first(s: Seq<char>)
    requires
        s.len() > 0,
    ensures
        utf8_len(s) == utf8_width(s[0]) + utf8_len(s.drop_first()),
{
    lemma_encode_scalar_len(s[0]);
}

pub proof fn lemma_utf8_len_concat(a: Seq<char>, b: Seq<char>)
    ensures
        utf8_len(a + b) == utf8_len(a) + utf8_len(b),
    decreases a.len(),
{
    if a.len() > 0 {
        lemma_utf8_len_first(a + b);
        lemma_utf8_len_first(a);
        assert((a + b).drop_first() == a.drop_first() + b);
        lemma_utf8_len_concat(a.drop_first(), b);
    } else {
        assert(a + b == b);
    }
}

pub proof fn lemma_utf8_len_push(a: Seq<char>, c: char)
    ensures
        utf8_len(a.push(c)) == utf8_len(a) + utf8_width(c),
{
    lemma_utf8_len_concat(a, seq![c]);
    assert(a + seq![c] == a.push(c));
    lemma_utf8_len_first(seq![c]);
    assert(seq![c].drop_first().len() == 0);
}

/// The number of UTF-8 bytes of `c`.
pub fn utf8_width_exec(c: char) -> (w: usize)
    ensures
        w as nat == utf8_width(c),
{
    let u: u32 = c as u32;
    if u <= 0x7f {
        1
    } else if u <= 0x7ff {
        2
    } else if u <= 0xffff {
        3
    } else {
        4
    }
}

proof fn lemma_chars_within_step(s: Seq<char>, max: int, i: int, used: int)
    requires
        0 <= i < s.len(),
        chars_within(s, max) == i + chars_within(s.skip(i), max - used),
        utf8_width(s[i]) <= max - used,
    ensures
        chars_within(s, max) == (i + 1) + chars_within(s.skip(i + 1), max - used - utf8_width(s[i])),
{
    assert(s.skip(i)[0] == s[i]);
    assert(s.skip(i).drop_first() == s.skip(i + 1));
}

pub proof fn lemma_chars_within_take(s: Seq<char>, max: int)
    requires
        max >= 0,
    ensures
        chars_within(s, max) <= s.len(),
        utf8_len(s.take(chars_within(s, max) as int)) <= max,
        chars_within(s, max) == s.len() <==> utf8_len(s) <= max,
    decreases s.len(),
{
    if s.len() == 0 {
        assert(s.take(0).len() == 0);
    } else {
        lemma_utf8_len_first(s);
        if utf8_width(s[0]) > max {
            assert(s.take(0).len() == 0);
        } else {
            let rest = s.drop_first();
            lemma_chars_within_take(rest, max - utf8_width(s[0]));
            let k = chars_within(s, max) as int;
            assert(s.take(k) == seq![s[0]] + rest.take(k - 1));
            lemma_utf8_len_concat(seq![s[0]], rest.take(k - 1));
            lemma_utf8_len_first(seq![s[0]]);
            assert(seq![s[0]].drop_first().len() == 0);
        }
    }
}

/// The longest prefix of `s` whose UTF-8 encoding fits in `max` bytes, and
/// whether it is shorter than `s`.
pub fn prefix_within(s: &[char], max: usize) -> (r: (usize, bool))
    ensures
        r.0 as nat == chars_within(s@, max as int),
        r.1 == (utf8_len(s@) > max),
{
    let mut i: usize = 0;
    let mut used: usize = 0;
    assert(s@.skip(0) == s@);
    while i < s.len()
        invariant
            i <= s.len(),
            used <= max,
            chars_within(s@, max as int) == i + chars_within(s@.skip(i as int), max - used),
            utf8_len(s@) == utf8_len(s@.take(i as int)) + utf8_len(s@.skip(i as int)),
            utf8_len(s@.take(i as int)) == used,
        decreases s.len() - i,
    {
        let w = utf8_width_exec(s[i]);
        if w > max - used {
            proof {
                assert(s@.skip(i as int)[0] == s@[i as int]);
                lemma_utf8_len_first(s@.skip(i as int));
            }
            return (i, true);
        }
        proof {
            lemma_chars_within_step(s@, max as int, i as int, used as int);
            assert(s@.take(i + 1) == s@.take(i as int).push(s@[i as int]));
            lemma_utf8_len_push(s@.take(i as int), s@[i as int]);
            assert(s@.skip(i as int) == seq![s@[i as int]] + s@.skip(i + 1));
            lemma_utf8_len_concat(seq![s@[i as int]], s@.skip(i + 1));
            lemma_utf8_len_first(seq![s@[i as int]]);
            assert(seq![s@[i as int]].drop_first().len() == 0);
        }
        used = used + w;
        i += 1;
    }
    proof {
        assert(s@.skip(i as int).len() == 0);
        assert(s@.take(i as int) == s@);
    }
    (i, false)
}

/// The first `n` characters of `s`, followed by `suffix`.
pub fn prefix_then(s: &[char], n: usize, suffix: &str) -> (out: String)
    requires
        n <= s.len(),
    ensures
        out@ == s@.take(n as int) + suffix@,
{
    let mut out = String::new();
    let mut i: usize = 0;
    while i < n
        invariant
            i <= n,
            n <= s.len(),
            out@ == s@.take(i as int),
        decreases n - i,
    {
        out.push(s[i]);
        assert(s@.take(i + 1) == s@.take(i as int).push(s@[i as int]));
        i += 1;
    }
    out.append(suffix);
    out
}

} // verus!

verus! {

/// ASCII letters are raised; every other character is kept.
pub open spec fn upper_char(c: char) -> char {
    if 'a' <= c && c <= 'z' {
        ((c as u32) - 32) as char
    } else {
        c
    }
}

/// `s` with its ASCII letters raised (`str::to_ascii_uppercase`).
pub open spec fn ascii_upper(s: Seq<char>) -> Seq<char> {
    s.map_values(|c: char| upper_char(c))
}

pub fn upper_char_exec(c: char) -> (r: char)
    ensures
        r == upper_char(c),
{
    if 'a' <= c && c <= 'z' {
        let u: u32 = c as u32;
        let l: u32 = u - 32;
        char_from_ascii(l)
    } else {
        c
    }
}

/// The characters of `s` with ASCII letters raised.
pub fn upper_chars(s: &[char]) -> (out: Vec<char>)
    ensures
        out@ == ascii_upper(s@),
{
    let mut out: Vec<char> = Vec::new();
    let mut i: usize = 0;
    while i < s.len()
        invariant
            i <= s.len(),
            out@ == ascii_upper(s@.take(i as int)),
        decreases s.len() - i,
    {
        out.push(upper_char_exec(s[i]));
        assert(ascii_upper(s@.take(i + 1)) == ascii_upper(s@.take(i as int)).push(upper_char(s@[i as int])));
        i += 1;
    }
    assert(s@.take(s.len() as int) == s@);
    out
}

/// Whether the characters of `s` are exactly those of `lit`.
pub fn chars_eq_str(s: &[char], lit: &str) -> (b: bool)
    ensures
        b == (s@ == lit@),
{
    let l = to_chars(lit);
    chars_eq(s, l.as_slice())
}

} // verus!

verus! {

/// The first position, at `i` or after, where `p` occurs in `s`.
pub open spec fn find_from(s: Seq<char>, p: Seq<char>, i: int) -> Option<int>
    decreases s.len() + 1 - i,
{
    if i < 0 || i + p.len() > s.len() {
        None
    } else if occurs_at(s, i, p) {
        Some(i)
    } else {
        find_from(s, p, i + 1)
    }
}

pub proof fn lemma_find_from_some(s: Seq<char>, p: Seq<char>, i: int)
    ensures
        find_from(s, p, i) matches Some(k) ==> i <= k && occurs_at(s, k, p),
    decreases s.len() + 1 - i,
{
    if !(i < 0 || i + p.len() > s.len()) && !occurs_at(s, i, p) {
        lemma_find_from_some(s, p, i + 1);
    }
}

/// The first position, at `start` or after, where `p` occurs in `s`.
pub fn find_from_exec(s: &[char], p: &[char], start: usize) -> (r: Option<usize>)
    ensures
        match r {
            Some(k) => find_from(s@, p@, start as int) == Some(k as int),
            None => find_from(s@, p@, start as int) is None,
        },
{
    if p.len() == 0 {
        if start <= s.len() {
            assert(s@.subrange(start as int, start as int) == p@);
            return Some(start);
        }
        return None;
    }
    let mut j = start;
    while j < s.len() && p.len() <= s.len() - j
        invariant
            start <= j,
            p.len() > 0,
            find_from(s@, p@, start as int) == find_from(s@, p@, j as int),
        decreases s.len() - j,
    {
        if matches_at(s, j, p) {
            return Some(j);
        }
        j += 1;
    }
    None
}

/// Appends the characters of `s`.
pub fn push_str_chars(out: &mut Vec<char>, s: &str)
    ensures
        final(out)@ == old(out)@ + s@,
{
    let cs = to_chars(s);
    push_chars(out, cs.as_slice());
}

/// Appends the characters of `s`.
pub fn push_chars(out: &mut Vec<char>, cs: &[char])
    ensures
        final(out)@ == old(out)@ + cs@,
{
    let mut k: usize = 0;
    while k < cs.len()
        invariant
            k <= cs.len(),
            out@ == old(out)@ + cs@.take(k as int),
        decreases cs.len() - k,
    {
        out.push(cs[k]);
        assert(cs@.take(k + 1) == cs@.take(k as int).push(cs@[k as int]));
        k += 1;
    }
    assert(cs@.take(cs.len() as int) == cs@);
}

/// The characters of `s` from `i` up to `j`.
pub fn sub_chars(s: &[char], i: usize, j: usize) -> (out: Vec<char>)
    requires
        i <= j <= s.len(),
    ensures
        out@ == s@.subrange(i as int, j as int),
{
    let mut out: Vec<char> = Vec::new();
    let mut k = i;
    while k < j
        invariant
            i <= k <= j,
            j <= s.len(),
            out@ == s@.subrange(i as int, k as int),
        decreases j - k,
    {
        out.push(s[k]);
        assert(s@.subrange(i as int, k + 1) == s@.subrange(i as int, k as int).push(s@[k as int]));
        k += 1;
    }
    out
}

} // verus!

verus! {

/// The texts of a list of strings.
pub open spec fn strings_of(v: Seq<String>) -> Seq<Seq<char>> {
    v.map_values(|s: String| s@)
}

/// The texts of a list of character vectors.
pub open spec fn char_vecs_of(v: Seq<Vec<char>>) -> Seq<Seq<char>> {
    v.map_values(|c: Vec<char>| c@)
}

/// Each string as a vector of its characters.
pub fn strings_to_chars(v: &Vec<String>) -> (out: Vec<Vec<char>>)
    ensures
        char_vecs_of(out@) == strings_of(v@),
{
    let mut out: Vec<Vec<char>> = Vec::new();
    let mut i: usize = 0;
    while i < v.len()
        invariant
            i <= v.len(),
            char_vecs_of(out@) == strings_of(v@.take(i as int)),
        decreases v.len() - i,
    {
        out.push(to_chars(v[i].as_str()));
        assert(strings_of(v@.take(i + 1)) == strings_of(v@.take(i as int)).push(v@[i as int]@));
        assert(char_vecs_of(out@) == char_vecs_of(out@.drop_last()).push(out@.last()@));
        i += 1;
    }
    assert(v@.take(v.len() as int) == v@);
    out
}

/// Each vector of characters as a string.
pub fn chars_to_strings(v: &Vec<Vec<char>>) -> (out: Vec<String>)
    ensures
        strings_of(out@) == char_vecs_of(v@),
{
    let mut out: Vec<String> = Vec::new();
    let mut i: usize = 0;
    while i < v.len()
        invariant
            i <= v.len(),
            strings_of(out@) == char_vecs_of(v@.take(i as int)),
        decreases v.len() - i,
    {
        out.push(from_chars(v[i].as_slice()));
        assert(char_vecs_of(v@.take(i + 1)) == char_vecs_of(v@.take(i as int)).push(v@[i as int]@));
        assert(strings_of(out@) == strings_of(out@.drop_last()).push(out@.last()@));
        i += 1;
    }
    assert(v@.take(v.len() as int) == v@);
    out
}

} // verus!

verus! {

/// The decimal digits of a natural number, without leading zeros.
pub open spec fn decimal(n: nat) -> Seq<char>
    decreases n,
{
    if n < 10 {
        seq![(('0' as nat) + n) as char]
    } else {
        decimal(n / 10).push((('0' as nat) + n % 10) as char)
    }
}

fn digit_char(d: usize) -> (c: char)
    requires
        d < 10,
    ensures
        c == (('0' as nat) + d) as char,
{
    let b: u8 = 48 + d as u8;
    b as char
}

/// The decimal text of `n`.
pub fn decimal_text(n: usize) -> (r: String)
    ensures
        r@ == decimal(n as nat),
    decreases n,
{
    if n < 10 {
        let mut out = String::new();
        out.push(digit_char(n));
        out
    } else {
        let mut out = decimal_text(n / 10);
        out.push(digit_char(n % 10));
        out
    }
}

} // verus!

verus! {

/// The decimal text of an integer, with a leading `-` when negative.
pub open spec fn signed_decimal(v: int) -> Seq<char> {
    if v < 0 {
        seq!['-'] + decimal((-v) as nat)
    } else {
        decimal(v as nat)
    }
}

fn decimal_u64(n: u64) -> (r: Vec<char>)
    ensures
        r@ == decimal(n as nat),
    decreases n,
{
    if n < 10 {
        let mut out: Vec<char> = Vec::new();
        let b: u8 = 48 + n as u8;
        out.push(b as char);
        out
    } else {
        let mut out = decimal_u64(n / 10);
        let b: u8 = 48 + (n % 10) as u8;
        out.push(b as char);
        out
    }
}

/// The decimal text of an `i64` (`i64::to_string`).
pub fn i64_text(v: i64) -> (r: String)
    ensures
        r@ == signed_decimal(v as int),
{
    if v < 0 {
        let magnitude: u64 = if v == i64::MIN { 9223372036854775808u64 } else { (-v) as u64 };
        let mut out: Vec<char> = Vec::new();
        out.push('-');
        let digits = decimal_u64(magnitude);
        push_chars(&mut out, digits.as_slice());
        from_chars(out.as_slice())
    } else {
        let digits = decimal_u64(v as u64);
        from_chars(digits.as_slice())
    }
}

/// The parts joined with the separator between consecutive parts.
pub open spec fn join_sep(parts: Seq<Seq<char>>, sep: Seq<char>) -> Seq<char>
    decreases parts.len(),
{
    if parts.len() == 0 {
        seq![]
    } else if parts.len() == 1 {
        parts[0]
    } else {
        join_sep(parts.drop_last(), sep) + sep + parts.last()
    }
}

/// `slice::join`: the parts with the separator between consecutive parts.
pub fn join_chars(parts: &Vec<Vec<char>>, sep: &str) -> (r: Vec<char>)
    ensures
        r@ == join_sep(char_vecs_of(parts@), sep@),
{
    let sc = to_chars(sep);
    let mut out: Vec<char> = Vec::new();
    let mut i: usize = 0;
    while i < parts.len()
        invariant
            i <= parts.len(),
            sc@ == sep@,
            out@ == join_sep(char_vecs_of(parts@.take(i as int)), sep@),
        decreases parts.len() - i,
    {
        let ghost before = char_vecs_of(parts@.take(i as int));
        assert(char_vecs_of(parts@.take(i + 1)) == before.push(parts@[i as int]@));
        assert(char_vecs_of(parts@.take(i + 1)).drop_last() == before);
        if i > 0 {
            push_chars(&mut out, sc.as_slice());
        }
        push_chars(&mut out, parts[i].as_slice());
        i += 1;
    }
    assert(parts@.take(parts.len() as int) == parts@);
    out
}

/// `slice::join` of strings.
pub fn join_strings(parts: &Vec<String>, sep: &str) -> (r: String)
    ensures
        r@ == join_sep(strings_of(parts@), sep@),
{
    let cs = strings_to_chars(parts);
    let j = join_chars(&cs, sep);
    from_chars(j.as_slice())
}

} // verus!
