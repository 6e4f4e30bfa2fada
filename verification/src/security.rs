use vstd::prelude::*;
use vstd::utf8::{encode_utf8, decode_utf8, encode_utf8_decode_utf8};
use sha2::Digest;

use crate::json::{entries_view, items_view, json_text, json_to_string, json_view, lemma_entries_view, Json, JsonV};
use crate::order::{chars_lt, lemma_lex_asymmetric, lemma_lex_irreflexive, lemma_lex_total, lemma_lex_transitive, lex_lt};
use crate::text::{from_chars, owned, push_chars, push_str_chars, ascii_lower, lower_char, chars_eq, ends_with_chars, lower_chars, replace_char, replace_char_chars, seq_ends_with, to_chars};

verus! {

/// `n` is `p`, or ends with `_` followed by `p`.
pub open spec fn name_is_or_ends_with(n: Seq<char>, p: Seq<char>) -> bool {
    n == p || seq_ends_with(n, seq!['_'] + p)
}

/// A name normalised for matching: ASCII-lowered, with `-` read as `_`.
pub open spec fn normalize_name(name: Seq<char>) -> Seq<char> {
    replace_char(ascii_lower(name), '-', '_')
}

/// The names that always denote secrets.
pub open spec fn is_sensitive_spec(name: Seq<char>) -> bool {
    let n = normalize_name(name);
    ||| name_is_or_ends_with(n, "authorization"@)
    ||| name_is_or_ends_with(n, "proxy_authorization"@)
    ||| name_is_or_ends_with(n, "cookie"@)
    ||| name_is_or_ends_with(n, "set_cookie"@)
    ||| name_is_or_ends_with(n, "token"@)
    ||| name_is_or_ends_with(n, "secret"@)
    ||| name_is_or_ends_with(n, "password"@)
    ||| name_is_or_ends_with(n, "passwd"@)
    ||| name_is_or_ends_with(n, "api_key"@)
    ||| name_is_or_ends_with(n, "apikey"@)
    ||| name_is_or_ends_with(n, "session"@)
}

fn is_or_ends_with_exec(n: &[char], p: &str) -> (b: bool)
    ensures
        b == name_is_or_ends_with(n@, p@),
{
    let pc = to_chars(p);
    if chars_eq(n, pc.as_slice()) {
        return true;
    }
    let mut suffix: Vec<char> = Vec::new();
    suffix.push('_');
    let mut i: usize = 0;
    while i < pc.len()
        invariant
            i <= pc.len(),
            suffix@ == seq!['_'] + pc@.take(i as int),
        decreases pc.len() - i,
    {
        suffix.push(pc[i]);
        assert(pc@.take(i + 1) == pc@.take(i as int).push(pc@[i as int]));
        i += 1;
    }
    assert(pc@.take(pc.len() as int) == pc@);
    ends_with_chars(n, suffix.as_slice())
}

/// The secret names that the redaction rules list.
pub open spec fn documented_secret(word: Seq<char>) -> bool {
    ||| word == "authorization"@
    ||| word == "proxy_authorization"@
    ||| word == "cookie"@
    ||| word == "set_cookie"@
    ||| word == "token"@
    ||| word == "secret"@
    ||| word == "password"@
    ||| word == "passwd"@
    ||| word == "api_key"@
    ||| word == "apikey"@
    ||| word == "session"@
}

/// How one character of a name is read when names are compared: `-` as
/// `_`, an ASCII capital as its small letter, anything else as itself.
pub open spec fn read_name_char(c: char) -> char {
    if c == '-' {
        '_'
    } else if 'A' <= c && c <= 'Z' {
        ((c as u32) + 32) as char
    } else {
        c
    }
}

/// A name read character by character as `read_name_char` says.
pub open spec fn read_name(name: Seq<char>) -> Seq<char> {
    Seq::new(name.len(), |i: int| read_name_char(name[i]))
}

/// `n` is `word`, or ends with `_` directly followed by `word`.
pub open spec fn is_word_or_ends_with_word(n: Seq<char>, word: Seq<char>) -> bool {
    ||| n == word
    ||| n.len() > word.len() && n[n.len() - word.len() - 1] == '_' && n.subrange(
        n.len() - word.len(),
        n.len() as int,
    ) == word
}

/// Every listed secret name is sensitive, in any ASCII case and with `-`
/// for `_`, and so is every name that ends in `_` and a listed secret name.
pub proof fn law_documented_secrets_are_sensitive(name: Seq<char>, word: Seq<char>)
    requires
        documented_secret(word),
        is_word_or_ends_with_word(read_name(name), word),
    ensures
        is_sensitive_spec(name),
{
    let n = normalize_name(name);
    let r = read_name(name);
    assert(n =~= r) by {
        assert forall|i: int| 0 <= i < name.len() implies n[i] == r[i] by {
            let c = name[i];
            assert(ascii_lower(name)[i] == lower_char(c));
            if 'A' <= c && c <= 'Z' {
                assert((c as u32) + 32 != '-' as u32);
            }
        }
    }
    if r != word {
        let u = seq!['_'] + word;
        let k = n.len() - u.len();
        assert(n.subrange(k, k + u.len()) =~= u) by {
            assert forall|j: int| 0 <= j < u.len() implies n.subrange(k, k + u.len())[j] == u[j] by {
                if j > 0 {
                    assert(n.subrange(n.len() - word.len(), n.len() as int)[j - 1] == word[j - 1]);
                }
            }
        }
        assert(name_is_or_ends_with(n, word));
    }
    assert(name_is_or_ends_with(n, word));
}

/// Whether a header, parameter or field name always denotes a secret:
/// after lowering ASCII letters and reading `-` as `_`, it is one of the
/// known secret names or ends with `_` and one of them.
pub fn is_sensitive_name(name: &str) -> (b: bool)
    ensures
        b == is_sensitive_spec(name@),
        forall|word: Seq<char>|
            #[trigger] documented_secret(word) && is_word_or_ends_with_word(read_name(name@), word) ==> b,
{
    proof {
        assert forall|word: Seq<char>|
            #[trigger] documented_secret(word) && is_word_or_ends_with_word(read_name(name@), word) implies is_sensitive_spec(
            name@,
        ) by {
            law_documented_secrets_are_sensitive(name@, word);
        }
    }
    let chars = to_chars(name);
    let lowered = lower_chars(chars.as_slice());
    let n = replace_char_chars(lowered.as_slice(), '-', '_');
    let s = n.as_slice();
    is_or_ends_with_exec(s, "authorization") || is_or_ends_with_exec(s, "proxy_authorization")
        || is_or_ends_with_exec(s, "cookie") || is_or_ends_with_exec(s, "set_cookie")
        || is_or_ends_with_exec(s, "token") || is_or_ends_with_exec(s, "secret")
        || is_or_ends_with_exec(s, "password") || is_or_ends_with_exec(s, "passwd")
        || is_or_ends_with_exec(s, "api_key") || is_or_ends_with_exec(s, "apikey")
        || is_or_ends_with_exec(s, "session")
}

/// The lowercase hexadecimal digit for a value below 16.
pub open spec fn hex_digit(v: int) -> char {
    if v < 10 {
        (('0' as int) + v) as char
    } else {
        (('a' as int) + v - 10) as char
    }
}

/// The lowercase hexadecimal text of `bytes`, two digits per byte.
pub open spec fn hex_spec(bytes: Seq<u8>) -> Seq<char>
    decreases bytes.len(),
{
    if bytes.len() == 0 {
        seq![]
    } else {
        hex_spec(bytes.drop_last()) + seq![
            hex_digit(bytes.last() as int / 16),
            hex_digit(bytes.last() as int % 16),
        ]
    }
}

fn hex_digit_exec(v: u8) -> (c: char)
    requires
        v < 16,
    ensures
        c == hex_digit(v as int),
{
    if v < 10 {
        let b: u8 = 48 + v;
        b as char
    } else {
        let b: u8 = 87 + v;
        b as char
    }
}

/// The lowercase hexadecimal text of `bytes`.
pub fn hex(bytes: &[u8]) -> (out: String)
    ensures
        out@ == hex_spec(bytes@),
{
    let mut out = String::new();
    let mut i: usize = 0;
    while i < bytes.len()
        invariant
            i <= bytes.len(),
            out@ == hex_spec(bytes@.take(i as int)),
        decreases bytes.len() - i,
    {
        let b = bytes[i];
        let hi = b / 16;
        let lo = b % 16;
        out.push(hex_digit_exec(hi));
        out.push(hex_digit_exec(lo));
        assert(bytes@.take(i + 1).drop_last() == bytes@.take(i as int));
        i += 1;
    }
    assert(bytes@.take(bytes.len() as int) == bytes@);
    out
}

} // verus!

verus! {

/// The SHA-256 digest of a byte sequence.
pub uninterp spec fn sha256(bytes: Seq<u8>) -> Seq<u8>;

/// `sha2::Sha256::digest`: the 32-byte SHA-256 digest of `bytes`.
#[verifier::external_body]
fn sha256_digest(bytes: &[u8]) -> (r: Vec<u8>)
    ensures
        r@ == sha256(bytes@),
        r@.len() == 32,
{
    sha2::Sha256::digest(bytes).to_vec()
}

/// The hexadecimal SHA-256 digest of the UTF-8 encoding of a text.
pub open spec fn hash_spec(value: Seq<char>) -> Seq<char> {
    hex_spec(sha256(encode_utf8(value)))
}

/// The lowercase hexadecimal SHA-256 digest of a text.
pub fn hash(value: &str) -> (r: String)
    ensures
        r@ == hash_spec(value@),
{
    let digest = sha256_digest(value.as_bytes());
    hex(digest.as_slice())
}

proof fn lemma_or_xor(d: u8, a: u8, b: u8)
    ensures
        ((d | (a ^ b)) == 0u8) == (d == 0u8 && a == b),
{
    assert(((d | (a ^ b)) == 0u8) == (d == 0u8 && a == b)) by (bit_vector);
}

/// Whether `token` hashes to `expected_hash`, comparing every byte whatever
/// the earlier bytes were.
pub fn token_matches(expected_hash: &str, token: &str) -> (r: bool)
    ensures
        r == (expected_hash@ == hash_spec(token@)),
{
    let actual = hash(token);
    let e = expected_hash.as_bytes();
    let a = actual.as_str().as_bytes();
    if e.len() != a.len() {
        proof {
            if expected_hash@ == hash_spec(token@) {
                assert(e@ == a@);
            }
        }
        return false;
    }
    let mut difference: u8 = 0;
    let mut i: usize = 0;
    while i < e.len()
        invariant
            i <= e.len(),
            e.len() == a.len(),
            (difference == 0) == (forall|j: int| 0 <= j < i ==> e@[j] == a@[j]),
        decreases e.len() - i,
    {
        proof {
            lemma_or_xor(difference, e[i as int], a[i as int]);
        }
        difference = difference | (e[i] ^ a[i]);
        i += 1;
    }
    proof {
        if difference == 0 {
            assert(e@ == a@);
            encode_utf8_decode_utf8(expected_hash@);
            encode_utf8_decode_utf8(actual@);
        } else {
            if expected_hash@ == hash_spec(token@) {
                assert(e@ == a@);
                assert(forall|j: int| 0 <= j < i ==> e@[j] == a@[j]);
            }
        }
    }
    difference == 0
}

} // verus!

verus! {

/// Where an entry with key `k` goes in `s`: after every entry whose key is
/// not greater, so that equal keys keep their order.
pub open spec fn insert_pos(s: Seq<(Seq<char>, JsonV)>, k: Seq<char>) -> int
    decreases s.len(),
{
    if s.len() == 0 || lex_lt(k, s[0].0) {
        0
    } else {
        1 + insert_pos(s.drop_first(), k)
    }
}

/// The entries sorted by key, stably (insertion sort).
pub open spec fn sort_entries(es: Seq<(Seq<char>, JsonV)>) -> Seq<(Seq<char>, JsonV)>
    decreases es.len(),
{
    if es.len() == 0 {
        seq![]
    } else {
        let s = sort_entries(es.drop_last());
        s.insert(insert_pos(s, es.last().0), es.last())
    }
}

/// `canonical`: every object's entries sorted by key, at any depth.
pub open spec fn canonical_spec(v: JsonV) -> JsonV
    decreases v,
{
    match v {
        JsonV::Array(items) => JsonV::Array(canonical_items(items)),
        JsonV::Object(es) => JsonV::Object(sort_entries(canonical_entries(es))),
        _ => v,
    }
}

pub open spec fn canonical_items(items: Seq<JsonV>) -> Seq<JsonV>
    decreases items,
{
    if items.len() == 0 {
        seq![]
    } else {
        canonical_items(items.drop_last()).push(canonical_spec(items.last()))
    }
}

pub open spec fn canonical_entries(es: Seq<(Seq<char>, JsonV)>) -> Seq<(Seq<char>, JsonV)>
    decreases es,
{
    if es.len() == 0 {
        seq![]
    } else {
        canonical_entries(es.drop_last()).push((es.last().0, canonical_spec(es.last().1)))
    }
}

pub proof fn lemma_insert_pos_bounds(s: Seq<(Seq<char>, JsonV)>, k: Seq<char>)
    ensures
        0 <= insert_pos(s, k) <= s.len(),
    decreases s.len(),
{
    if s.len() > 0 && !lex_lt(k, s[0].0) {
        lemma_insert_pos_bounds(s.drop_first(), k);
    }
}

pub proof fn lemma_sort_entries_len(es: Seq<(Seq<char>, JsonV)>)
    ensures
        sort_entries(es).len() == es.len(),
    decreases es.len(),
{
    if es.len() > 0 {
        lemma_sort_entries_len(es.drop_last());
        lemma_insert_pos_bounds(sort_entries(es.drop_last()), es.last().0);
    }
}

/// No entry's key sorts before the key of an earlier entry.
pub open spec fn keys_sorted(es: Seq<(Seq<char>, JsonV)>) -> bool {
    forall|i: int, j: int| 0 <= i < j < es.len() ==> !lex_lt(#[trigger] es[j].0, #[trigger] es[i].0)
}

proof fn lemma_insert_pos_split(s: Seq<(Seq<char>, JsonV)>, k: Seq<char>)
    ensures
        forall|m: int| 0 <= m < insert_pos(s, k) ==> !lex_lt(k, #[trigger] s[m].0),
        insert_pos(s, k) < s.len() ==> lex_lt(k, s[insert_pos(s, k)].0),
    decreases s.len(),
{
    lemma_insert_pos_bounds(s, k);
    if s.len() > 0 && !lex_lt(k, s[0].0) {
        let t = s.drop_first();
        lemma_insert_pos_split(t, k);
        assert forall|m: int| 0 <= m < insert_pos(s, k) implies !lex_lt(k, #[trigger] s[m].0) by {
            if m > 0 {
                assert(s[m] == t[m - 1]);
            }
        }
        lemma_insert_pos_bounds(t, k);
        assert(insert_pos(s, k) == 1 + insert_pos(t, k));
        if insert_pos(s, k) < s.len() {
            assert(s[insert_pos(s, k)] == t[insert_pos(t, k)]);
        }
    }
}

/// `canonical` sorts an object's keys: the entries come out in key order,
/// and they are the same entries (a permutation).
pub proof fn law_sort_entries_sorted(es: Seq<(Seq<char>, JsonV)>)
    ensures
        keys_sorted(sort_entries(es)),
        sort_entries(es).to_multiset() == es.to_multiset(),
    decreases es.len(),
{
    if es.len() > 0 {
        let front = es.drop_last();
        let e = es.last();
        law_sort_entries_sorted(front);
        let s = sort_entries(front);
        let p = insert_pos(s, e.0);
        lemma_insert_pos_bounds(s, e.0);
        lemma_insert_pos_split(s, e.0);
        let out = s.insert(p, e);
        assert(out == sort_entries(es));
        assert forall|i: int, j: int| 0 <= i < j < out.len() implies !lex_lt(#[trigger] out[j].0, #[trigger] out[i].0) by {
            if j < p {
                assert(out[i] == s[i] && out[j] == s[j]);
            } else if j == p {
                assert(out[i] == s[i] && out[j] == e);
            } else if i < p {
                assert(out[i] == s[i] && out[j] == s[j - 1]);
            } else if i == p {
                assert(out[i] == e && out[j] == s[j - 1]);
                if lex_lt(s[j - 1].0, e.0) {
                    lemma_lex_transitive(s[j - 1].0, e.0, s[p].0);
                    if j - 1 == p {
                        lemma_lex_irreflexive(s[p].0);
                    } else {
                        assert(!lex_lt(s[j - 1].0, s[p].0));
                    }
                }
            } else {
                assert(out[i] == s[i - 1] && out[j] == s[j - 1]);
            }
        }
        vstd::seq_lib::to_multiset_insert(s, p, e);
        vstd::seq_lib::to_multiset_build(front, e);
        assert(front.push(e) == es);
        assert(out.to_multiset() == front.push(e).to_multiset());
    } else {
        assert(es =~= Seq::<(Seq<char>, JsonV)>::empty());
        assert(sort_entries(es) =~= Seq::<(Seq<char>, JsonV)>::empty());
    }
}

/// Every object in the document, at any depth, has its keys in order.
pub open spec fn deep_sorted(v: JsonV) -> bool
    decreases v,
{
    match v {
        JsonV::Array(items) => items_deep_sorted(items),
        JsonV::Object(es) => keys_sorted(es) && entries_deep_sorted(es),
        _ => true,
    }
}

pub open spec fn items_deep_sorted(items: Seq<JsonV>) -> bool
    decreases items,
{
    if items.len() == 0 {
        true
    } else {
        items_deep_sorted(items.drop_last()) && deep_sorted(items.last())
    }
}

pub open spec fn entries_deep_sorted(es: Seq<(Seq<char>, JsonV)>) -> bool
    decreases es,
{
    if es.len() == 0 {
        true
    } else {
        entries_deep_sorted(es.drop_last()) && deep_sorted(es.last().1)
    }
}

proof fn lemma_entries_deep_sorted_all(es: Seq<(Seq<char>, JsonV)>)
    requires
        forall|i: int| 0 <= i < es.len() ==> deep_sorted(#[trigger] es[i].1),
    ensures
        entries_deep_sorted(es),
    decreases es.len(),
{
    if es.len() > 0 {
        let front = es.drop_last();
        assert forall|i: int| 0 <= i < front.len() implies deep_sorted(#[trigger] front[i].1) by {
            assert(front[i] == es[i]);
        }
        lemma_entries_deep_sorted_all(front);
    }
}

proof fn lemma_canonical_items_sorted(items: Seq<JsonV>)
    ensures
        items_deep_sorted(canonical_items(items)),
    decreases items,
{
    if items.len() > 0 {
        let front = items.drop_last();
        assert(decreases_to!(items => items.last()));
        lemma_canonical_items_sorted(front);
        law_canonical_sorts_keys(items.last());
        let ci = canonical_items(front);
        assert(canonical_items(items).drop_last() == ci);
    }
}

proof fn lemma_canonical_entries_sorted(es: Seq<(Seq<char>, JsonV)>)
    ensures
        forall|i: int| 0 <= i < es.len() ==> deep_sorted(#[trigger] canonical_entries(es)[i].1),
        canonical_entries(es).len() == es.len(),
    decreases es,
{
    if es.len() > 0 {
        let front = es.drop_last();
        assert(decreases_to!(es => es.last()));
        assert(decreases_to!(es.last() => es.last().1));
        lemma_canonical_entries_sorted(front);
        law_canonical_sorts_keys(es.last().1);
        let cf = canonical_entries(front);
        assert forall|i: int| 0 <= i < es.len() implies deep_sorted(#[trigger] canonical_entries(es)[i].1) by {
            if i < front.len() {
                assert(canonical_entries(es)[i] == cf[i]);
            }
        }
    }
}

/// `canonical` sorts the keys of every object, at any depth.
pub proof fn law_canonical_sorts_keys(v: JsonV)
    ensures
        deep_sorted(canonical_spec(v)),
    decreases v,
{
    match v {
        JsonV::Array(items) => {
            lemma_canonical_items_sorted(items);
        },
        JsonV::Object(es) => {
            lemma_canonical_entries_sorted(es);
            let ce = canonical_entries(es);
            let sorted = sort_entries(ce);
            law_sort_entries_sorted(ce);
            lemma_sort_entries_len(ce);
            assert forall|i: int| 0 <= i < sorted.len() implies deep_sorted(#[trigger] sorted[i].1) by {
                broadcast use vstd::seq_lib::group_to_multiset_ensures;
                assert(sorted.contains(sorted[i]));
                assert(sorted.to_multiset().count(sorted[i]) > 0);
                assert(ce.to_multiset().count(sorted[i]) > 0);
                assert(ce.contains(sorted[i]));
                let j = choose|j: int| 0 <= j < ce.len() && ce[j] == sorted[i];
                assert(deep_sorted(ce[j].1));
            }
            lemma_entries_deep_sorted_all(sorted);
        },
        _ => {},
    }
}

fn find_insert_pos(s: &Vec<(String, Json)>, k: &[char]) -> (r: usize)
    ensures
        r as int == insert_pos(entries_view(s@), k@),
        r <= s.len(),
{
    proof {
        lemma_entries_view(s@);
    }
    let ghost sv = entries_view(s@);
    let mut j: usize = 0;
    assert(sv.skip(0) == sv);
    while j < s.len()
        invariant
            j <= s.len(),
            sv == entries_view(s@),
            sv.len() == s.len(),
            forall|m: int| 0 <= m < s.len() ==> #[trigger] sv[m] == (s@[m].0@, json_view(s@[m].1)),
            insert_pos(sv, k@) == j + insert_pos(sv.skip(j as int), k@),
        decreases s.len() - j,
    {
        let key = to_chars(s[j].0.as_str());
        assert(sv.skip(j as int)[0] == sv[j as int]);
        if chars_lt(k, key.as_slice()) {
            return j;
        }
        assert(sv.skip(j as int).drop_first() == sv.skip(j + 1));
        j += 1;
    }
    j
}

/// The document with the entries of every object sorted by key, at any
/// depth (entries with equal keys keep their order).
pub fn canonical(value: &Json) -> (r: Json)
    ensures
        r@ == canonical_spec(value@),
    decreases value,
{
    match value {
        Json::Array(items) => {
            let mut out: Vec<Json> = Vec::new();
            let mut i: usize = 0;
            while i < items.len()
                invariant
                    i <= items.len(),
                    *value == Json::Array(*items),
                    items_view(out@) == canonical_items(items_view(items@.take(i as int))),
                decreases items.len() - i,
            {
                proof {
                    assert(decreases_to!(*value => (*value)->Array_0));
                    assert(decreases_to!(*items => items@));
                    assert(decreases_to!(items@ => items@[i as int]));
                }
                let child = canonical(&items[i]);
                let ghost before = out@;
                out.push(child);
                proof {
                    assert(out@.drop_last() == before);
                    assert(items@.take(i + 1).drop_last() == items@.take(i as int));
                    assert(items_view(items@.take(i + 1)).drop_last() == items_view(items@.take(i as int)));
                    assert(items_view(items@.take(i + 1)).last() == json_view(items@[i as int]));
                }
                i += 1;
            }
            assert(items@.take(items.len() as int) == items@);
            Json::Array(out)
        },
        Json::Object(entries) => {
            let mut sorted: Vec<(String, Json)> = Vec::new();
            let mut i: usize = 0;
            while i < entries.len()
                invariant
                    i <= entries.len(),
                    *value == Json::Object(*entries),
                    entries_view(sorted@) == sort_entries(canonical_entries(entries_view(entries@.take(i as int)))),
                decreases entries.len() - i,
            {
                proof {
                    assert(decreases_to!(*value => (*value)->Object_0));
                    assert(decreases_to!(*entries => entries@));
                    assert(decreases_to!(entries@ => entries@[i as int]));
                    assert(decreases_to!(entries@[i as int] => entries@[i as int].1));
                }
                let child = canonical(&entries[i].1);
                let key = to_chars(entries[i].0.as_str());
                let pos = find_insert_pos(&sorted, key.as_slice());
                let ghost before = sorted@;
                let ghost ce = canonical_entries(entries_view(entries@.take(i as int)));
                sorted.insert(pos, (entries[i].0.clone(), child));
                proof {
                    assert(entries@.take(i + 1).drop_last() == entries@.take(i as int));
                    assert(entries_view(entries@.take(i + 1)).drop_last() == entries_view(entries@.take(i as int)));
                    assert(entries_view(entries@.take(i + 1)).last() == (entries@[i as int].0@, json_view(entries@[i as int].1)));
                    let ce1 = canonical_entries(entries_view(entries@.take(i + 1)));
                    assert(ce1.drop_last() == ce);
                    assert(ce1.last() == (entries@[i as int].0@, canonical_spec(json_view(entries@[i as int].1))));
                    lemma_entries_view(before);
                    lemma_entries_view(sorted@);
                    assert(sorted@ == before.insert(pos as int, sorted@[pos as int]));
                    assert(entries_view(sorted@) =~= entries_view(before).insert(pos as int, ce1.last()));
                }
                i += 1;
            }
            assert(entries@.take(entries.len() as int) == entries@);
            Json::Object(sorted)
        },
        _ => value.deep_clone(),
    }
}

/// The hash of the canonical compact JSON text of a document.
pub open spec fn fingerprint_spec(v: JsonV) -> Seq<char> {
    hash_spec(json_text(canonical_spec(v)))
}

/// No two entries share a key.
pub open spec fn distinct_keys(es: Seq<(Seq<char>, JsonV)>) -> bool {
    forall|i: int, j: int| 0 <= i < j < es.len() ==> #[trigger] es[i].0 != #[trigger] es[j].0
}

proof fn lemma_canonical_entries_at(es: Seq<(Seq<char>, JsonV)>)
    ensures
        canonical_entries(es).len() == es.len(),
        forall|i: int| 0 <= i < es.len() ==> #[trigger] canonical_entries(es)[i] == (es[i].0, canonical_spec(es[i].1)),
    decreases es.len(),
{
    if es.len() > 0 {
        let front = es.drop_last();
        lemma_canonical_entries_at(front);
        assert forall|i: int| 0 <= i < es.len() implies #[trigger] canonical_entries(es)[i] == (es[i].0, canonical_spec(es[i].1)) by {
            if i < front.len() {
                assert(canonical_entries(es)[i] == canonical_entries(front)[i]);
                assert(es[i] == front[i]);
            }
        }
    }
}

proof fn lemma_sort_contains(es: Seq<(Seq<char>, JsonV)>)
    ensures
        forall|x: (Seq<char>, JsonV)| #[trigger] sort_entries(es).contains(x) <==> es.contains(x),
{
    broadcast use vstd::seq_lib::group_to_multiset_ensures;
    law_sort_entries_sorted(es);
    assert forall|x: (Seq<char>, JsonV)| #[trigger] sort_entries(es).contains(x) <==> es.contains(x) by {
        assert(sort_entries(es).contains(x) <==> sort_entries(es).to_multiset().count(x) > 0);
        assert(es.contains(x) <==> es.to_multiset().count(x) > 0);
    }
}

proof fn lemma_sort_distinct(es: Seq<(Seq<char>, JsonV)>)
    requires
        distinct_keys(es),
    ensures
        distinct_keys(sort_entries(es)),
    decreases es.len(),
{
    if es.len() > 0 {
        let front = es.drop_last();
        let e = es.last();
        assert forall|i: int, j: int| 0 <= i < j < front.len() implies #[trigger] front[i].0 != #[trigger] front[j].0 by {
            assert(front[i] == es[i] && front[j] == es[j]);
        }
        lemma_sort_distinct(front);
        let s = sort_entries(front);
        lemma_sort_contains(front);
        lemma_sort_entries_len(front);
        lemma_insert_pos_bounds(s, e.0);
        let p = insert_pos(s, e.0);
        let out = s.insert(p, e);
        assert forall|m: int| 0 <= m < s.len() implies s[m].0 != e.0 by {
            assert(s.contains(s[m]));
            assert(front.contains(s[m]));
            let k = choose|k: int| 0 <= k < front.len() && front[k] == s[m];
            assert(es[k] == front[k]);
            assert(es[es.len() - 1] == e);
        }
        assert forall|i: int, j: int| 0 <= i < j < out.len() implies #[trigger] out[i].0 != #[trigger] out[j].0 by {
            if j < p {
                assert(out[i] == s[i] && out[j] == s[j]);
            } else if j == p {
                assert(out[i] == s[i] && out[j] == e);
            } else if i < p {
                assert(out[i] == s[i] && out[j] == s[j - 1]);
            } else if i == p {
                assert(out[i] == e && out[j] == s[j - 1]);
            } else {
                assert(out[i] == s[i - 1] && out[j] == s[j - 1]);
            }
        }
    }
}

/// Two lists strictly increasing by key with the same entries are equal.
proof fn lemma_strict_equal(a: Seq<(Seq<char>, JsonV)>, b: Seq<(Seq<char>, JsonV)>)
    requires
        forall|i: int, j: int| 0 <= i < j < a.len() ==> lex_lt(#[trigger] a[i].0, #[trigger] a[j].0),
        forall|i: int, j: int| 0 <= i < j < b.len() ==> lex_lt(#[trigger] b[i].0, #[trigger] b[j].0),
        forall|x: (Seq<char>, JsonV)| #![trigger a.contains(x)] #![trigger b.contains(x)] a.contains(x) <==> b.contains(x),
    ensures
        a == b,
    decreases a.len(),
{
    if a.len() == 0 {
        if b.len() > 0 {
            assert(b.contains(b[0]));
        }
        assert(a =~= b);
    } else {
        assert(a.contains(a[0]));
        assert(b.contains(b[0]));
        let j = choose|j: int| 0 <= j < b.len() && b[j] == a[0];
        let k = choose|k: int| 0 <= k < a.len() && a[k] == b[0];
        if j > 0 && k > 0 {
            assert(lex_lt(b[0].0, b[j].0));
            assert(lex_lt(a[0].0, a[k].0));
            lemma_lex_asymmetric(b[0].0, a[0].0);
        } else if j > 0 {
            assert(lex_lt(b[0].0, b[j].0));
            lemma_lex_irreflexive(b[0].0);
        } else if k > 0 {
            assert(lex_lt(a[0].0, a[k].0));
            lemma_lex_irreflexive(a[0].0);
        }
        assert(a[0] == b[0]);
        let a1 = a.drop_first();
        let b1 = b.drop_first();
        assert forall|x: (Seq<char>, JsonV)| #![trigger a1.contains(x)] #![trigger b1.contains(x)] a1.contains(x) <==> b1.contains(x) by {
            if a1.contains(x) {
                let i = choose|i: int| 0 <= i < a1.len() && a1[i] == x;
                assert(a[i + 1] == x);
                assert(a.contains(x));
                let m = choose|m: int| 0 <= m < b.len() && b[m] == x;
                if m == 0 {
                    assert(lex_lt(a[0].0, a[i + 1].0));
                    lemma_lex_irreflexive(x.0);
                }
                assert(b1[m - 1] == x);
            }
            if b1.contains(x) {
                let i = choose|i: int| 0 <= i < b1.len() && b1[i] == x;
                assert(b[i + 1] == x);
                assert(b.contains(x));
                let m = choose|m: int| 0 <= m < a.len() && a[m] == x;
                if m == 0 {
                    assert(lex_lt(b[0].0, b[i + 1].0));
                    lemma_lex_irreflexive(x.0);
                }
                assert(a1[m - 1] == x);
            }
        }
        assert forall|i: int, j: int| 0 <= i < j < a1.len() implies lex_lt(#[trigger] a1[i].0, #[trigger] a1[j].0) by {
            assert(a1[i] == a[i + 1] && a1[j] == a[j + 1]);
        }
        assert forall|i: int, j: int| 0 <= i < j < b1.len() implies lex_lt(#[trigger] b1[i].0, #[trigger] b1[j].0) by {
            assert(b1[i] == b[i + 1] && b1[j] == b[j + 1]);
        }
        lemma_strict_equal(a1, b1);
        assert(a == seq![a[0]] + a1);
        assert(b == seq![b[0]] + b1);
    }
}

/// The canonical entries of an object with distinct keys, strictly
/// increasing by key.
proof fn lemma_canonical_strict(es: Seq<(Seq<char>, JsonV)>)
    requires
        distinct_keys(es),
    ensures
        forall|i: int, j: int|
            0 <= i < j < sort_entries(canonical_entries(es)).len() ==> lex_lt(
                #[trigger] sort_entries(canonical_entries(es))[i].0,
                #[trigger] sort_entries(canonical_entries(es))[j].0,
            ),
{
    let ce = canonical_entries(es);
    lemma_canonical_entries_at(es);
    assert forall|i: int, j: int| 0 <= i < j < ce.len() implies #[trigger] ce[i].0 != #[trigger] ce[j].0 by {
        assert(ce[i].0 == es[i].0 && ce[j].0 == es[j].0);
    }
    lemma_sort_distinct(ce);
    law_sort_entries_sorted(ce);
    let s = sort_entries(ce);
    assert forall|i: int, j: int| 0 <= i < j < s.len() implies lex_lt(#[trigger] s[i].0, #[trigger] s[j].0) by {
        lemma_lex_total(s[i].0, s[j].0);
    }
}

/// The fingerprint of an object does not depend on the order of its
/// entries: two objects with distinct keys and the same entries have the
/// same fingerprint.
pub proof fn law_fingerprint_ignores_entry_order(es1: Seq<(Seq<char>, JsonV)>, es2: Seq<(Seq<char>, JsonV)>)
    requires
        distinct_keys(es1),
        distinct_keys(es2),
        forall|x: (Seq<char>, JsonV)| #![trigger es1.contains(x)] #![trigger es2.contains(x)] es1.contains(x) <==> es2.contains(x),
    ensures
        fingerprint_spec(JsonV::Object(es1)) == fingerprint_spec(JsonV::Object(es2)),
{
    let ce1 = canonical_entries(es1);
    let ce2 = canonical_entries(es2);
    lemma_canonical_entries_at(es1);
    lemma_canonical_entries_at(es2);
    lemma_canonical_strict(es1);
    lemma_canonical_strict(es2);
    lemma_sort_contains(ce1);
    lemma_sort_contains(ce2);
    assert forall|x: (Seq<char>, JsonV)| #[trigger] ce1.contains(x) implies ce2.contains(x) by {
        let i = choose|i: int| 0 <= i < ce1.len() && ce1[i] == x;
        assert(es1.contains(es1[i]));
        let j = choose|j: int| 0 <= j < es2.len() && es2[j] == es1[i];
        assert(ce2[j] == x);
    }
    assert forall|x: (Seq<char>, JsonV)| #[trigger] ce2.contains(x) implies ce1.contains(x) by {
        let i = choose|i: int| 0 <= i < ce2.len() && ce2[i] == x;
        assert(es2.contains(es2[i]));
        let j = choose|j: int| 0 <= j < es1.len() && es1[j] == es2[i];
        assert(ce1[j] == x);
    }
    let s1 = sort_entries(ce1);
    let s2 = sort_entries(ce2);
    assert forall|x: (Seq<char>, JsonV)| #![trigger s1.contains(x)] #![trigger s2.contains(x)] s1.contains(x) <==> s2.contains(x) by {
        assert(s1.contains(x) <==> ce1.contains(x));
        assert(s2.contains(x) <==> ce2.contains(x));
    }
    lemma_strict_equal(s1, s2);
    assert(canonical_spec(JsonV::Object(es1)) == canonical_spec(JsonV::Object(es2)));
}

/// A fingerprint of a document: the hash of its canonical compact text.
pub fn fingerprint(value: &Json) -> (r: String)
    ensures
        r@ == fingerprint_spec(value@),
{
    let c = canonical(value);
    let text = json_to_string(&c);
    hash(text.as_str())
}

} // verus!

verus! {

/// An IP address, by its octets (IPv4) or its 16-bit segments (IPv6).
#[derive(Clone, Copy, Debug)]
pub enum IpAddress {
    V4([u8; 4]),
    V6([u16; 8]),
}

/// Whether an address is private, loopback, link-local, unspecified or the
/// cloud metadata address: the destinations a tool call must not reach
/// without trust.
pub open spec fn is_private_spec(ip: IpAddress) -> bool {
    match ip {
        IpAddress::V4(o) => {
            ||| o[0] == 10
            ||| (o[0] == 172 && 16 <= o[1] && o[1] <= 31)
            ||| (o[0] == 192 && o[1] == 168)
            ||| o[0] == 127
            ||| (o[0] == 169 && o[1] == 254)
            ||| (o[0] == 0 && o[1] == 0 && o[2] == 0 && o[3] == 0)
        },
        IpAddress::V6(s) => {
            ||| (s[0] == 0 && s[1] == 0 && s[2] == 0 && s[3] == 0 && s[4] == 0 && s[5] == 0 && s[6] == 0 && (s[7] == 1 || s[7] == 0))
            ||| (0xfc00 <= s[0] && s[0] <= 0xfdff)
            ||| (0xfe80 <= s[0] && s[0] <= 0xfebf)
        },
    }
}

/// Private (10/8, 172.16/12, 192.168/16), loopback (127/8), link-local
/// (169.254/16, which holds the metadata address 169.254.169.254) or
/// unspecified IPv4; loopback (`::1`), unspecified (`::`), unique local
/// (`fc00::/7`) or unicast link-local (`fe80::/10`) IPv6.
pub fn is_private_ip(ip: IpAddress) -> (r: bool)
    ensures
        r == is_private_spec(ip),
{
    match ip {
        IpAddress::V4(o) => {
            o[0] == 10 || (o[0] == 172 && 16 <= o[1] && o[1] <= 31) || (o[0] == 192 && o[1] == 168)
                || o[0] == 127 || (o[0] == 169 && o[1] == 254)
                || (o[0] == 0 && o[1] == 0 && o[2] == 0 && o[3] == 0)
        },
        IpAddress::V6(s) => {
            (s[0] == 0 && s[1] == 0 && s[2] == 0 && s[3] == 0 && s[4] == 0 && s[5] == 0 && s[6] == 0
                && (s[7] == 1 || s[7] == 0)) || (0xfc00 <= s[0] && s[0] <= 0xfdff) || (0xfe80 <= s[0]
                && s[0] <= 0xfebf)
        },
    }
}

/// Whether any of the addresses a host resolves to is private.
pub fn any_private(addresses: &[IpAddress]) -> (r: bool)
    ensures
        r == exists|i: int| 0 <= i < addresses@.len() && is_private_spec(#[trigger] addresses@[i]),
{
    let mut i: usize = 0;
    while i < addresses.len()
        invariant
            i <= addresses.len(),
            forall|j: int| 0 <= j < i ==> !is_private_spec(#[trigger] addresses@[j]),
        decreases addresses.len() - i,
    {
        if is_private_ip(addresses[i]) {
            return true;
        }
        i += 1;
    }
    false
}

/// `getrandom::fill` on `n` bytes: the random bytes, or the error's text.
#[verifier::external_body]
pub(crate) fn random_bytes(n: usize) -> (r: Result<Vec<u8>, String>)
    ensures
        r matches Ok(b) ==> b@.len() == n,
{
    let mut bytes = vec![0u8; n];
    getrandom::fill(&mut bytes).map_err(|error| error.to_string())?;
    Ok(bytes)
}

/// A fresh random token: 32 random bytes in lowercase hexadecimal.
pub fn random_token() -> (r: Result<String, String>)
    ensures
        r matches Ok(t) ==> exists|b: Seq<u8>| b.len() == 32 && t@ == hex_spec(b),
{
    let bytes = random_bytes(32)?;
    Ok(hex(bytes.as_slice()))
}

/// A fresh identifier: the prefix, `-`, and 12 random bytes in lowercase hexadecimal.
pub fn new_id(prefix: &str) -> (r: Result<String, String>)
    ensures
        r matches Ok(t) ==> exists|b: Seq<u8>| b.len() == 12 && t@ == prefix@ + seq!['-'] + hex_spec(b),
{
    let bytes = random_bytes(12)?;
    let h = hex(bytes.as_slice());
    let mut out = to_chars(prefix);
    out.push('-');
    push_str_chars(&mut out, h.as_str());
    Ok(from_chars(out.as_slice()))
}

} // verus!
