use vstd::prelude::*;
use vstd::utf8::encode_utf8;

verus! {

/// A file attached to a form row.
pub struct RequestFile {
    pub name: String,
    pub mime_type: String,
    pub size_bytes: u64,
    pub data: Vec<u8>,
}

/// A key/value row of a request (parameter, header, form field, path variable).
pub struct KeyValue {
    pub key: String,
    pub value: String,
    pub enabled: bool,
    pub value_type: Option<String>,
    pub files: Option<Vec<RequestFile>>,
}

/// Bytes kept as they are in a path segment: ASCII letters and digits and `-._~`.
pub open spec fn is_unreserved(b: u8) -> bool {
    ||| (48 <= b && b <= 57)
    ||| (65 <= b && b <= 90)
    ||| (97 <= b && b <= 122)
    ||| b == 45 || b == 46 || b == 95 || b == 126
}

/// The uppercase hexadecimal digit of a value below 16.
pub open spec fn upper_hex_digit(v: int) -> char {
    if v < 10 {
        (48 + v) as char
    } else {
        (55 + v) as char
    }
}

/// One byte of a path segment: itself when unreserved, else `%` and two
/// uppercase hexadecimal digits.
pub open spec fn encode_byte(b: u8) -> Seq<char> {
    if is_unreserved(b) {
        seq![b as char]
    } else {
        seq!['%', upper_hex_digit(b as int / 16), upper_hex_digit(b as int % 16)]
    }
}

/// Percent-encoding of a byte sequence, byte by byte.
pub open spec fn percent_encode(bytes: Seq<u8>) -> Seq<char>
    decreases bytes.len(),
{
    if bytes.len() == 0 {
        seq![]
    } else {
        percent_encode(bytes.drop_last()) + encode_byte(bytes.last())
    }
}

fn upper_hex_digit_exec(v: u8) -> (c: char)
    requires
        v < 16,
    ensures
        c == upper_hex_digit(v as int),
{
    if v < 10 {
        let b: u8 = 48 + v;
        b as char
    } else {
        let b: u8 = 55 + v;
        b as char
    }
}

fn is_unreserved_exec(b: u8) -> (r: bool)
    ensures
        r == is_unreserved(b),
{
    (48 <= b && b <= 57) || (65 <= b && b <= 90) || (97 <= b && b <= 122) || b == 45 || b == 46
        || b == 95 || b == 126
}

/// The value of an uppercase hexadecimal digit.
pub open spec fn hex_value(c: char) -> int {
    if c <= '9' {
        c as int - 48
    } else {
        c as int - 55
    }
}

/// Percent-decoding: `%` and two hexadecimal digits give the byte they
/// spell; any other character gives its own code as a byte.
pub open spec fn percent_decode(s: Seq<char>) -> Seq<u8>
    decreases s.len(),
{
    if s.len() == 0 {
        seq![]
    } else if s[0] == '%' && s.len() >= 3 {
        seq![(hex_value(s[1]) * 16 + hex_value(s[2])) as u8] + percent_decode(s.skip(3))
    } else {
        seq![s[0] as u8] + percent_decode(s.skip(1))
    }
}

proof fn lemma_encode_concat(a: Seq<u8>, b: Seq<u8>)
    ensures
        percent_encode(a + b) == percent_encode(a) + percent_encode(b),
    decreases b.len(),
{
    if b.len() == 0 {
        assert(a + b =~= a);
    } else {
        lemma_encode_concat(a, b.drop_last());
        assert((a + b).drop_last() =~= a + b.drop_last());
        assert((a + b).last() == b.last());
    }
}

proof fn lemma_decode_byte(x: u8, rest: Seq<char>)
    ensures
        percent_decode(encode_byte(x) + rest) == seq![x] + percent_decode(rest),
{
    let e = encode_byte(x);
    if is_unreserved(x) {
        assert((e + rest)[0] == x as char);
        assert((e + rest).skip(1) =~= rest);
        assert((x as char) as u8 == x);
    } else {
        let hi = x as int / 16;
        let lo = x as int % 16;
        assert(hex_value(upper_hex_digit(hi)) == hi);
        assert(hex_value(upper_hex_digit(lo)) == lo);
        assert((e + rest).skip(3) =~= rest);
        assert((e + rest)[0] == '%');
        assert((hi * 16 + lo) as u8 == x);
    }
}

/// Decoding an encoded path segment gives back its bytes.
pub proof fn law_encode_round_trip(bytes: Seq<u8>)
    ensures
        percent_decode(percent_encode(bytes)) == bytes,
    decreases bytes.len(),
{
    if bytes.len() > 0 {
        let first = seq![bytes[0]];
        let tail = bytes.skip(1);
        assert(first + tail =~= bytes);
        lemma_encode_concat(first, tail);
        assert(first.drop_last() =~= Seq::<u8>::empty());
        assert(percent_encode(first) == percent_encode(Seq::<u8>::empty()) + encode_byte(bytes[0]));
        assert(percent_encode(Seq::<u8>::empty()) =~= Seq::<char>::empty());
        assert(percent_encode(first) =~= encode_byte(bytes[0]));
        lemma_decode_byte(bytes[0], percent_encode(tail));
        law_encode_round_trip(tail);
    }
}

/// The bytes as characters, one for one.
pub open spec fn bytes_as_chars(bytes: Seq<u8>) -> Seq<char> {
    bytes.map_values(|b: u8| b as char)
}

proof fn lemma_encode_len(bytes: Seq<u8>)
    ensures
        percent_encode(bytes).len() >= bytes.len(),
        (exists|i: int| 0 <= i < bytes.len() && !is_unreserved(#[trigger] bytes[i])) ==> percent_encode(bytes).len() > bytes.len(),
    decreases bytes.len(),
{
    if bytes.len() > 0 {
        let front = bytes.drop_last();
        lemma_encode_len(front);
        if exists|i: int| 0 <= i < bytes.len() && !is_unreserved(#[trigger] bytes[i]) {
            let i = choose|i: int| 0 <= i < bytes.len() && !is_unreserved(#[trigger] bytes[i]);
            if i < front.len() {
                assert(!is_unreserved(front[i]));
            }
        }
    }
}

/// An encoded segment is the text itself exactly when every byte is
/// unreserved (ASCII letters and digits and `-._~`).
pub proof fn law_encode_unchanged(bytes: Seq<u8>)
    ensures
        percent_encode(bytes) == bytes_as_chars(bytes) <==> forall|i: int| 0 <= i < bytes.len() ==> is_unreserved(#[trigger] bytes[i]),
    decreases bytes.len(),
{
    lemma_encode_len(bytes);
    if bytes.len() > 0 {
        let front = bytes.drop_last();
        law_encode_unchanged(front);
        assert(bytes_as_chars(bytes) =~= bytes_as_chars(front).push(bytes.last() as char));
        if forall|i: int| 0 <= i < bytes.len() ==> is_unreserved(#[trigger] bytes[i]) {
            assert forall|i: int| 0 <= i < front.len() implies is_unreserved(#[trigger] front[i]) by {
                assert(front[i] == bytes[i]);
            }
            assert(is_unreserved(bytes[bytes.len() - 1]));
            assert(encode_byte(bytes.last()) =~= seq![bytes.last() as char]);
            assert(percent_encode(bytes) =~= bytes_as_chars(bytes));
        } else {
            let i = choose|i: int| 0 <= i < bytes.len() && !is_unreserved(#[trigger] bytes[i]);
            assert(bytes_as_chars(bytes).len() == bytes.len());
        }
    } else {
        assert(bytes_as_chars(bytes) =~= percent_encode(bytes));
    }
}

/// An unreserved character: an ASCII letter or digit, or one of `-._~`.
pub open spec fn is_unreserved_char(c: char) -> bool {
    ||| ('0' <= c && c <= '9')
    ||| ('A' <= c && c <= 'Z')
    ||| ('a' <= c && c <= 'z')
    ||| c == '-' || c == '.' || c == '_' || c == '~'
}

/// An uppercase hexadecimal digit.
pub open spec fn is_upper_hex(c: char) -> bool {
    ('0' <= c && c <= '9') || ('A' <= c && c <= 'F')
}

/// A text made only of unreserved characters and of `%` followed by two
/// uppercase hexadecimal digits.
pub open spec fn well_encoded(s: Seq<char>) -> bool
    decreases s.len(),
{
    if s.len() == 0 {
        true
    } else if is_unreserved_char(s[0]) {
        well_encoded(s.skip(1))
    } else {
        s[0] == '%' && s.len() >= 3 && is_upper_hex(s[1]) && is_upper_hex(s[2]) && well_encoded(s.skip(3))
    }
}

proof fn lemma_well_encoded_byte(x: u8, rest: Seq<char>)
    requires
        well_encoded(rest),
    ensures
        well_encoded(encode_byte(x) + rest),
{
    let e = encode_byte(x) + rest;
    if is_unreserved(x) {
        assert(e[0] == x as char);
        assert(e.skip(1) =~= rest);
    } else {
        assert(e[0] == '%');
        assert(!is_unreserved_char('%'));
        assert(e.skip(3) =~= rest);
        assert(is_upper_hex(upper_hex_digit(x as int / 16)));
        assert(is_upper_hex(upper_hex_digit(x as int % 16)));
    }
}

/// Every character of an encoded segment is unreserved, or belongs to a
/// `%` followed by two uppercase hexadecimal digits.
pub proof fn law_encode_well_formed(bytes: Seq<u8>)
    ensures
        well_encoded(percent_encode(bytes)),
    decreases bytes.len(),
{
    if bytes.len() > 0 {
        let first = seq![bytes[0]];
        let tail = bytes.skip(1);
        assert(first + tail =~= bytes);
        lemma_encode_concat(first, tail);
        assert(first.drop_last() =~= Seq::<u8>::empty());
        assert(percent_encode(Seq::<u8>::empty()) =~= Seq::<char>::empty());
        assert(percent_encode(first) =~= encode_byte(bytes[0]));
        law_encode_well_formed(tail);
        lemma_well_encoded_byte(bytes[0], percent_encode(tail));
    }
}

/// Percent-encodes the UTF-8 bytes of `value` for use as one path segment.
pub fn encode_segment(value: &str) -> (r: String)
    ensures
        r@ == percent_encode(encode_utf8(value@)),
{
    let bytes = value.as_bytes();
    let mut out = String::new();
    let mut i: usize = 0;
    while i < bytes.len()
        invariant
            i <= bytes.len(),
            bytes@ == encode_utf8(value@),
            out@ == percent_encode(bytes@.take(i as int)),
        decreases bytes.len() - i,
    {
        let b = bytes[i];
        assert(bytes@.take(i + 1).drop_last() == bytes@.take(i as int));
        if is_unreserved_exec(b) {
            out.push(b as char);
        } else {
            out.push('%');
            out.push(upper_hex_digit_exec(b / 16));
            out.push(upper_hex_digit_exec(b % 16));
        }
        i += 1;
    }
    assert(bytes@.take(bytes.len() as int) == bytes@);
    out
}

/// Characters that may continue a path variable's name.
pub open spec fn is_name_char(c: char) -> bool {
    ||| ('0' <= c && c <= '9')
    ||| ('A' <= c && c <= 'Z')
    ||| ('a' <= c && c <= 'z')
    ||| c == '_' || c == '-'
}

/// Characters that may start a path variable's name.
pub open spec fn is_name_start(c: char) -> bool {
    ||| ('A' <= c && c <= 'Z')
    ||| ('a' <= c && c <= 'z')
    ||| c == '_'
}

/// Where the run of name characters that begins at `j` ends.
pub open spec fn name_end(p: Seq<char>, j: int) -> int
    decreases p.len() - j,
{
    if 0 <= j < p.len() && is_name_char(p[j]) {
        name_end(p, j + 1)
    } else {
        j
    }
}

pub proof fn lemma_name_end_bounds(p: Seq<char>, j: int)
    requires
        0 <= j <= p.len(),
    ensures
        j <= name_end(p, j) <= p.len(),
        forall|k: int| j <= k < name_end(p, j) ==> is_name_char(#[trigger] p[k]),
        name_end(p, j) < p.len() ==> !is_name_char(p[name_end(p, j)]),
    decreases p.len() - j,
{
    if j < p.len() && is_name_char(p[j]) {
        lemma_name_end_bounds(p, j + 1);
    }
}

/// The value of the first enabled row named `name`.
pub open spec fn row_value(rows: Seq<KeyValue>, name: Seq<char>) -> Option<Seq<char>>
    decreases rows.len(),
{
    if rows.len() == 0 {
        None
    } else if rows[0].enabled && rows[0].key@ == name {
        Some(rows[0].value@)
    } else {
        row_value(rows.drop_first(), name)
    }
}

/// The path variable `/:name` at `i`, when `name` is well formed and ends
/// the segment: its end and the value that replaces it.
pub open spec fn variable_at(p: Seq<char>, i: int, rows: Seq<KeyValue>) -> Option<(int, Seq<char>)> {
    let start = i + 2;
    let end = name_end(p, start);
    if start < p.len() && p[i] == '/' && p[i + 1] == ':' && end > start && is_name_start(p[start])
        && (end == p.len() || p[end] == '/') {
        match row_value(rows, p.subrange(start, end)) {
            Some(v) => Some((end, v)),
            None => None,
        }
    } else {
        None
    }
}

/// The path from `i` on, with each known variable replaced by its encoded value.
pub open spec fn substitute_from(p: Seq<char>, i: int, rows: Seq<KeyValue>) -> Seq<char>
    decreases p.len() - i,
{
    if i < 0 || i + 2 >= p.len() {
        p.subrange(i, p.len() as int)
    } else {
        match variable_at(p, i, rows) {
            Some((end, v)) => {
                proof {
                    lemma_name_end_bounds(p, i + 2);
                }
                seq!['/'] + percent_encode(encode_utf8(v)) + substitute_from(p, end, rows)
            },
            None => seq![p[i]] + substitute_from(p, i + 1, rows),
        }
    }
}

/// Where the path of a URL ends: at its first `?` or `#`, else at its end.
pub open spec fn path_end(u: Seq<char>, i: int) -> int
    decreases u.len() - i,
{
    if i >= u.len() || i < 0 {
        u.len() as int
    } else if u[i] == '?' || u[i] == '#' {
        i
    } else {
        path_end(u, i + 1)
    }
}

pub proof fn lemma_path_end_bounds(u: Seq<char>, i: int)
    requires
        0 <= i <= u.len(),
    ensures
        i <= path_end(u, i) <= u.len(),
    decreases u.len() - i,
{
    if i < u.len() && !(u[i] == '?' || u[i] == '#') {
        lemma_path_end_bounds(u, i + 1);
    }
}

/// What `substitute_path_variables` returns: the path with every
/// `/:name` segment whose name is an enabled row replaced by that row's
/// percent-encoded value; the query and fragment are kept as they are.
pub open spec fn substitute_spec(url: Seq<char>, rows: Seq<KeyValue>) -> Seq<char> {
    let e = path_end(url, 0);
    substitute_from(url.take(e), 0, rows) + url.skip(e)
}

/// Where the path of a URL ends: at its first `?` or `#`, else at its end.
pub fn find_path_end(u: &[char]) -> (e: usize)
    ensures
        e as int == path_end(u@, 0),
        e <= u.len(),
{
    let mut e: usize = 0;
    while e < u.len() && !(u[e] == '?' || u[e] == '#')
        invariant
            e <= u.len(),
            path_end(u@, 0) == path_end(u@, e as int),
        decreases u.len() - e,
    {
        e += 1;
    }
    e
}

fn is_name_char_exec(c: char) -> (r: bool)
    ensures
        r == is_name_char(c),
{
    ('0' <= c && c <= '9') || ('A' <= c && c <= 'Z') || ('a' <= c && c <= 'z') || c == '_' || c == '-'
}

fn is_name_start_exec(c: char) -> (r: bool)
    ensures
        r == is_name_start(c),
{
    ('A' <= c && c <= 'Z') || ('a' <= c && c <= 'z') || c == '_'
}

fn find_row_value<'a>(rows: &'a [KeyValue], name: &[char]) -> (r: Option<&'a String>)
    ensures
        match r {
            Some(v) => row_value(rows@, name@) == Some(v@),
            None => row_value(rows@, name@) is None,
        },
{
    let mut j: usize = 0;
    assert(rows@.skip(0) == rows@);
    while j < rows.len()
        invariant
            j <= rows.len(),
            row_value(rows@, name@) == row_value(rows@.skip(j as int), name@),
        decreases rows.len() - j,
    {
        assert(rows@.skip(j as int).drop_first() == rows@.skip(j + 1));
        let row = &rows[j];
        if row.enabled {
            let key = crate::text::to_chars(row.key.as_str());
            if crate::text::chars_eq(key.as_slice(), name) {
                return Some(&row.value);
            }
        }
        j += 1;
    }
    None
}

/// Replaces each `/:name` segment of the URL's path by the percent-encoded
/// value of the first enabled row whose key is `name`.
pub fn substitute_path_variables(url: &str, rows: &[KeyValue]) -> (r: String)
    ensures
        r@ == substitute_spec(url@, rows@),
{
    let u = crate::text::to_chars(url);
    let mut e: usize = 0;
    while e < u.len() && !(u[e] == '?' || u[e] == '#')
        invariant
            e <= u.len(),
            path_end(u@, 0) == path_end(u@, e as int),
        decreases u.len() - e,
    {
        e += 1;
    }
    proof {
        lemma_path_end_bounds(u@, 0);
    }
    let ghost p = u@.take(e as int);
    let mut out: Vec<char> = Vec::new();
    let mut i: usize = 0;
    while i < e && e - i > 2
        invariant
            i <= e,
            e <= u.len(),
            p == u@.take(e as int),
            out@ + substitute_from(p, i as int, rows@) == substitute_from(p, 0, rows@),
        decreases e - i,
    {
        let mut found: Option<(usize, &String)> = None;
        if u[i] == '/' && u[i + 1] == ':' {
            let start = i + 2;
            let mut end = start;
            while end < e && is_name_char_exec(u[end])
                invariant
                    start <= end <= e,
                    e <= u.len(),
                    p == u@.take(e as int),
                    name_end(p, start as int) == name_end(p, end as int),
                decreases e - end,
            {
                end += 1;
            }
            if end > start && is_name_start_exec(u[start]) && (end == e || u[end] == '/') {
                let mut name: Vec<char> = Vec::new();
                let mut k = start;
                while k < end
                    invariant
                        start <= k <= end,
                        end <= e,
                        e <= u.len(),
                        name@ == u@.subrange(start as int, k as int),
                    decreases end - k,
                {
                    name.push(u[k]);
                    assert(u@.subrange(start as int, k + 1) == u@.subrange(start as int, k as int).push(u@[k as int]));
                    k += 1;
                }
                assert(name@ == p.subrange(start as int, end as int));
                match find_row_value(rows, name.as_slice()) {
                    Some(v) => {
                        found = Some((end, v));
                    },
                    None => {},
                }
            }
        }
        let ghost before = out@;
        match found {
            Some((end, v)) => {
                proof {
                    lemma_name_end_bounds(p, i + 2);
                }
                out.push('/');
                let enc = encode_segment(v.as_str());
                crate::text::push_str_chars(&mut out, enc.as_str());
                assert(out@ == before + (seq!['/'] + percent_encode(encode_utf8(v@))));
                i = end;
            },
            None => {
                out.push(u[i]);
                i += 1;
            },
        }
    }
    let ghost head = out@;
    assert(substitute_from(p, i as int, rows@) == u@.subrange(i as int, e as int));
    let mut k = i;
    while k < u.len()
        invariant
            i <= k <= u.len(),
            out@ == head + u@.subrange(i as int, k as int),
        decreases u.len() - k,
    {
        out.push(u[k]);
        assert(u@.subrange(i as int, k + 1) == u@.subrange(i as int, k as int).push(u@[k as int]));
        k += 1;
    }
    assert(u@.subrange(i as int, u.len() as int) == u@.subrange(i as int, e as int) + u@.skip(e as int));
    crate::text::from_chars(out.as_slice())
}

} // verus!

verus! {

/// A path variable's name: an ASCII letter or `_`, then ASCII letters,
/// digits, `_` and `-`.
pub open spec fn is_variable_name(name: Seq<char>) -> bool {
    &&& name.len() > 0
    &&& ('A' <= name[0] && name[0] <= 'Z') || ('a' <= name[0] && name[0] <= 'z') || name[0] == '_'
    &&& forall|k: int|
        1 <= k < name.len() ==> {
            let c = #[trigger] name[k];
            ||| ('0' <= c && c <= '9')
            ||| ('A' <= c && c <= 'Z')
            ||| ('a' <= c && c <= 'z')
            ||| c == '_' || c == '-'
        }
}

proof fn lemma_name_end_exact(p: Seq<char>, j: int, end: int)
    requires
        0 <= j <= end <= p.len(),
        forall|k: int| j <= k < end ==> is_name_char(#[trigger] p[k]),
        end == p.len() || !is_name_char(p[end]),
    ensures
        name_end(p, j) == end,
    decreases end - j,
{
    if j < end {
        lemma_name_end_exact(p, j + 1, end);
    }
}

proof fn lemma_row_value_first(rows: Seq<KeyValue>, name: Seq<char>, k: int)
    requires
        0 <= k < rows.len(),
        rows[k].enabled,
        rows[k].key@ == name,
        forall|j: int| 0 <= j < k ==> !((#[trigger] rows[j]).enabled && rows[j].key@ == name),
    ensures
        row_value(rows, name) == Some(rows[k].value@),
    decreases k,
{
    if k > 0 {
        let rest = rows.drop_first();
        assert forall|j: int| 0 <= j < k - 1 implies !((#[trigger] rest[j]).enabled && rest[j].key@ == name) by {
            assert(rest[j] == rows[j + 1]);
        }
        assert(!(rows[0].enabled && rows[0].key@ == name));
        lemma_row_value_first(rest, name, k - 1);
    }
}

/// A variable segment is replaced: where the path holds `/:` and a
/// well-formed name that ends the path or is followed by `/`, and the
/// first enabled row with that key exists, the text from there on is `/`,
/// the row's percent-encoded value, and the substituted rest after the name.
pub proof fn law_path_variable_replaced(p: Seq<char>, i: int, name: Seq<char>, rows: Seq<KeyValue>, k: int)
    requires
        0 <= i,
        i + 2 + name.len() <= p.len(),
        p[i] == '/',
        p[i + 1] == ':',
        p.subrange(i + 2, i + 2 + name.len()) == name,
        is_variable_name(name),
        i + 2 + name.len() == p.len() || p[i + 2 + name.len()] == '/',
        0 <= k < rows.len(),
        rows[k].enabled,
        rows[k].key@ == name,
        forall|j: int| 0 <= j < k ==> !((#[trigger] rows[j]).enabled && rows[j].key@ == name),
    ensures
        substitute_from(p, i, rows) == seq!['/'] + percent_encode(encode_utf8(rows[k].value@)) + substitute_from(
            p,
            i + 2 + name.len(),
            rows,
        ),
{
    let start = i + 2;
    let end = i + 2 + name.len();
    assert forall|m: int| start <= m < end implies is_name_char(#[trigger] p[m]) by {
        assert(p[m] == p.subrange(start, end)[m - start]);
        if m > start {
            assert(name[m - start] == p[m]);
        }
    }
    lemma_name_end_exact(p, start, end);
    assert(p[start] == name[0]);
    lemma_row_value_first(rows, name, k);
    assert(p.subrange(start, name_end(p, start)) == name);
    assert(variable_at(p, i, rows) == Some((end, rows[k].value@)));
}

/// Every position before a `/` that the substitution reaches leads to it:
/// variables end at a `/` or at the end of the path, so none covers it.
proof fn lemma_reaches_slash(p: Seq<char>, j: int, i: int, rows: Seq<KeyValue>)
    requires
        0 <= j <= i,
        i + 2 <= p.len(),
        p[i] == '/',
    ensures
        exists|a: Seq<char>| substitute_from(p, j, rows) == a + substitute_from(p, i, rows),
    decreases i - j,
{
    if j == i {
        assert(substitute_from(p, j, rows) == Seq::<char>::empty() + substitute_from(p, i, rows));
    } else {
        match variable_at(p, j, rows) {
            Some((end, v)) => {
                lemma_name_end_bounds(p, j + 2);
                if j + 2 <= i && end > i {
                    assert(is_name_char(p[i]));
                }
                assert(end <= i);
                lemma_reaches_slash(p, end, i, rows);
                let a = choose|a: Seq<char>| substitute_from(p, end, rows) == a + substitute_from(p, i, rows);
                let b = seq!['/'] + percent_encode(encode_utf8(v)) + a;
                assert(substitute_from(p, j, rows) == b + substitute_from(p, i, rows));
            },
            None => {
                lemma_reaches_slash(p, j + 1, i, rows);
                let a = choose|a: Seq<char>| substitute_from(p, j + 1, rows) == a + substitute_from(p, i, rows);
                assert(substitute_from(p, j, rows) == (seq![p[j]] + a) + substitute_from(p, i, rows));
            },
        }
    }
}

/// In a whole URL, a variable segment `/:name` of its path, with a
/// well-formed name that ends the path or is followed by `/`, is replaced
/// by the percent-encoded value of the first enabled row named `name`;
/// what follows it is substituted in turn, and the query and fragment stay.
pub proof fn law_url_variable_replaced(url: Seq<char>, i: int, name: Seq<char>, rows: Seq<KeyValue>, k: int)
    requires
        0 <= i,
        i + 2 + name.len() <= path_end(url, 0),
        url[i] == '/',
        url[i + 1] == ':',
        url.subrange(i + 2, i + 2 + name.len()) == name,
        is_variable_name(name),
        i + 2 + name.len() == path_end(url, 0) || url[i + 2 + name.len()] == '/',
        0 <= k < rows.len(),
        rows[k].enabled,
        rows[k].key@ == name,
        forall|j: int| 0 <= j < k ==> !((#[trigger] rows[j]).enabled && rows[j].key@ == name),
    ensures
        exists|a: Seq<char>|
            substitute_spec(url, rows) == a + seq!['/'] + percent_encode(encode_utf8(rows[k].value@))
                + substitute_from(url.take(path_end(url, 0)), i + 2 + name.len(), rows) + url.skip(path_end(url, 0)),
{
    lemma_path_end_bounds(url, 0);
    let e = path_end(url, 0);
    let p = url.take(e);
    assert(p.subrange(i + 2, i + 2 + name.len()) == url.subrange(i + 2, i + 2 + name.len()));
    law_path_variable_replaced(p, i, name, rows, k);
    lemma_reaches_slash(p, 0, i, rows);
    let a = choose|a: Seq<char>| substitute_from(p, 0, rows) == a + substitute_from(p, i, rows);
    let t = substitute_from(p, i + 2 + name.len(), rows);
    assert(substitute_spec(url, rows) == a + seq!['/'] + percent_encode(encode_utf8(rows[k].value@)) + t + url.skip(e));
}

} // verus!
