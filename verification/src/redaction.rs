use vstd::prelude::*;

pub mod helpers;

use crate::json::{entries_view, entry_value, field, items_view, json_text, json_to_string, json_view, lemma_entries_view, obj_insert, obj_lookup, obj_set, set_field, with_field, Json, JsonNumber, JsonV, NumberV};
use helpers::{embedded_spec, file_contents_spec, omit_bodies, omit_spec, redact_embedded_json_bodies, redact_file_contents, redact_key_value_rows, redact_request_shapes, redact_url_query, rows_spec, shapes_spec, url_query_spec};
use crate::security::{is_sensitive_name, is_sensitive_spec};
use crate::text::{strings_of, ascii_lower, chars_eq, chars_within, contains_chars, lemma_chars_within_take, ends_with_chars, from_chars, lower_chars, owned, prefix_then, prefix_within, replace_all, replace_char, replace_char_chars, replace_chars, occurs_at, seq_contains, seq_ends_with, to_chars, trim_chars, trim_spec, utf8_len, utf8_width};

verus! {

/// What replaces a secret.
pub open spec fn redacted() -> Seq<char> {
    "<redacted>"@
}

/// A name or pattern normalised for custom matching: ASCII-lowered, with
/// `-` and spaces read as `_`.
pub open spec fn normalize_custom(s: Seq<char>) -> Seq<char> {
    replace_char(replace_char(ascii_lower(s), '-', '_'), ' ', '_')
}

/// A custom pattern matches a name when, once both are normalised (and the
/// pattern trimmed), the pattern is not empty and the name is it, ends with
/// `_` and it, or contains it.
pub open spec fn pattern_matches(name: Seq<char>, pattern: Seq<char>) -> bool {
    let n = normalize_custom(name);
    let p = normalize_custom(trim_spec(pattern));
    p.len() > 0 && (n == p || seq_ends_with(n, seq!['_'] + p) || seq_contains(n, p))
}

/// A name is sensitive when it is a known secret name or a custom pattern matches it.
pub open spec fn sensitive_spec(name: Seq<char>, patterns: Seq<Seq<char>>) -> bool {
    is_sensitive_spec(name) || exists|i: int| 0 <= i < patterns.len() && pattern_matches(name, #[trigger] patterns[i])
}


fn normalize_custom_exec(s: &[char]) -> (out: Vec<char>)
    ensures
        out@ == normalize_custom(s@),
{
    let lowered = lower_chars(s);
    let a = replace_char_chars(lowered.as_slice(), '-', '_');
    replace_char_chars(a.as_slice(), ' ', '_')
}

fn pattern_matches_exec(n: &[char], pattern: &str) -> (b: bool)
    requires
        exists|name: Seq<char>| n@ == normalize_custom(name),
    ensures
        forall|name: Seq<char>| n@ == normalize_custom(name) ==> b == pattern_matches(name, pattern@),
{
    let pc = to_chars(pattern);
    let trimmed = trim_chars(pc.as_slice());
    let p = normalize_custom_exec(trimmed.as_slice());
    if p.len() == 0 {
        return false;
    }
    if chars_eq(n, p.as_slice()) {
        return true;
    }
    let mut suffix: Vec<char> = Vec::new();
    suffix.push('_');
    let mut i: usize = 0;
    while i < p.len()
        invariant
            i <= p.len(),
            suffix@ == seq!['_'] + p@.take(i as int),
        decreases p.len() - i,
    {
        suffix.push(p[i]);
        assert(p@.take(i + 1) == p@.take(i as int).push(p@[i as int]));
        i += 1;
    }
    assert(p@.take(p.len() as int) == p@);
    ends_with_chars(n, suffix.as_slice()) || contains_chars(n, p.as_slice())
}

/// Whether a key names a secret: a known secret name (see
/// `is_sensitive_name`), or one that a custom pattern matches.
pub fn sensitive_name(name: &str, patterns: &[String]) -> (b: bool)
    ensures
        b == sensitive_spec(name@, strings_of(patterns@)),
{
    if is_sensitive_name(name) {
        return true;
    }
    let chars = to_chars(name);
    let n = normalize_custom_exec(chars.as_slice());
    let mut i: usize = 0;
    while i < patterns.len()
        invariant
            i <= patterns.len(),
            n@ == normalize_custom(name@),
            forall|j: int| 0 <= j < i ==> !pattern_matches(name@, #[trigger] strings_of(patterns@)[j]),
        decreases patterns.len() - i,
    {
        if pattern_matches_exec(n.as_slice(), patterns[i].as_str()) {
            assert(strings_of(patterns@)[i as int] == patterns@[i as int]@);
            return true;
        }
        i += 1;
    }
    assert(!(exists|j: int| 0 <= j < patterns.len() && pattern_matches(name@, #[trigger] strings_of(patterns@)[j])));
    false
}

/// `text` with every non-empty known secret replaced by `<redacted>`, one
/// secret after the other.
pub open spec fn scrub_spec(text: Seq<char>, secrets: Seq<Seq<char>>) -> Seq<char>
    decreases secrets.len(),
{
    if secrets.len() == 0 {
        text
    } else {
        let before = scrub_spec(text, secrets.drop_last());
        if secrets.last().len() == 0 {
            before
        } else {
            replace_all(before, secrets.last(), redacted())
        }
    }
}

/// Removes known secret values from a text: every occurrence of every
/// non-empty secret becomes `<redacted>`.
pub fn scrub(text: &str, known_secrets: &[String]) -> (out: String)
    ensures
        out@ == scrub_spec(text@, strings_of(known_secrets@)),
{
    let mut acc = to_chars(text);
    let marker = to_chars("<redacted>");
    let mut i: usize = 0;
    while i < known_secrets.len()
        invariant
            i <= known_secrets.len(),
            marker@ == redacted(),
            acc@ == scrub_spec(text@, strings_of(known_secrets@.take(i as int))),
        decreases known_secrets.len() - i,
    {
        let secret = to_chars(known_secrets[i].as_str());
        assert(strings_of(known_secrets@.take(i + 1)).drop_last() == strings_of(known_secrets@.take(i as int)));
        assert(strings_of(known_secrets@.take(i + 1)).last() == known_secrets@[i as int]@);
        if secret.len() > 0 {
            acc = replace_chars(acc.as_slice(), secret.as_slice(), marker.as_slice());
        }
        i += 1;
    }
    assert(known_secrets@.take(known_secrets.len() as int) == known_secrets@);
    from_chars(acc.as_slice())
}

/// A secret that scrubbing can hide for good: it has no `<` or `>`, and it
/// is not part of the marker `<redacted>` itself.
pub open spec fn hideable_secret(p: Seq<char>) -> bool {
    &&& forall|i: int| 0 <= i < p.len() ==> p[i] != '<' && p[i] != '>'
    &&& !seq_contains(redacted(), p)
}

/// Where the replacement of `p` in `t` starts with no `<`, it agrees with
/// `t` itself.
proof fn lemma_replace_prefix_plain(t: Seq<char>, p: Seq<char>, k: int)
    requires
        p.len() > 0,
        0 <= k <= replace_all(t, p, redacted()).len(),
        forall|i: int| 0 <= i < k ==> replace_all(t, p, redacted())[i] != '<',
    ensures
        k <= t.len(),
        replace_all(t, p, redacted()).subrange(0, k) == t.subrange(0, k),
    decreases t.len(),
{
    reveal_strlit("<redacted>");
    let r = redacted();
    let out = replace_all(t, p, r);
    if t.len() < p.len() {
    } else if t.subrange(0, p.len() as int) == p {
        if k > 0 {
            assert(out[0] == r[0]);
        }
    } else if k > 0 {
        let t1 = t.drop_first();
        let out1 = replace_all(t1, p, r);
        assert(out == seq![t[0]] + out1);
        assert forall|i: int| 0 <= i < k - 1 implies out1[i] != '<' by {
            assert(out1[i] == out[i + 1]);
        }
        lemma_replace_prefix_plain(t1, p, k - 1);
        assert forall|i: int| 0 <= i < k implies out[i] == t[i] by {
            if i > 0 {
                assert(out[i] == out1[i - 1]);
                assert(out1.subrange(0, k - 1)[i - 1] == t1.subrange(0, k - 1)[i - 1]);
            }
        }
        assert(out.subrange(0, k) =~= t.subrange(0, k));
    }
}

/// A hideable text that occurs after replacing `p` already occurred before.
proof fn lemma_replace_keeps_absent(s: Seq<char>, p: Seq<char>, q: Seq<char>, j: int)
    requires
        p.len() > 0,
        q.len() > 0,
        hideable_secret(q),
        occurs_at(replace_all(s, p, redacted()), j, q),
    ensures
        seq_contains(s, q),
    decreases s.len(),
{
    reveal_strlit("<redacted>");
    let r = redacted();
    let out = replace_all(s, p, r);
    if s.len() < p.len() {
        assert(occurs_at(s, j, q));
    } else if s.subrange(0, p.len() as int) == p {
        let rest = s.skip(p.len() as int);
        let out2 = replace_all(rest, p, r);
        assert(out == r + out2);
        if j < r.len() {
            if j + q.len() <= r.len() {
                assert(r.subrange(j, j + q.len()) =~= q);
                assert(occurs_at(r, j, q));
            } else {
                assert(q[r.len() - 1 - j] == out[r.len() - 1]);
            }
        } else {
            assert(out2.subrange(j - r.len(), j - r.len() + q.len()) =~= out.subrange(j, j + q.len()));
            lemma_replace_keeps_absent(rest, p, q, j - r.len());
            let i = choose|i: int| occurs_at(rest, i, q);
            assert(s.subrange(i + p.len(), i + p.len() + q.len()) =~= rest.subrange(i, i + q.len()));
            assert(occurs_at(s, i + p.len(), q));
        }
    } else {
        let t1 = s.drop_first();
        let out1 = replace_all(t1, p, r);
        assert(out == seq![s[0]] + out1);
        if j >= 1 {
            assert(out1.subrange(j - 1, j - 1 + q.len()) =~= out.subrange(j, j + q.len()));
            lemma_replace_keeps_absent(t1, p, q, j - 1);
            let i = choose|i: int| occurs_at(t1, i, q);
            assert(s.subrange(i + 1, i + 1 + q.len()) =~= t1.subrange(i, i + q.len()));
            assert(occurs_at(s, i + 1, q));
        } else {
            assert forall|i: int| 0 <= i < q.len() - 1 implies out1[i] != '<' by {
                assert(out1[i] == out[i + 1]);
                assert(out[i + 1] == q[i + 1]);
            }
            lemma_replace_prefix_plain(t1, p, q.len() - 1);
            assert forall|i: int| 0 <= i < q.len() implies s[i] == out[i] by {
                if i > 0 {
                    assert(out[i] == out1[i - 1]);
                    assert(out1.subrange(0, q.len() - 1)[i - 1] == t1.subrange(0, q.len() - 1)[i - 1]);
                }
            }
            assert(s.subrange(0, q.len() as int) =~= out.subrange(0, q.len() as int));
            assert(occurs_at(s, 0, q));
        }
    }
}

/// After every occurrence of a hideable `p` is replaced, `p` no longer occurs.
proof fn lemma_replace_removes(s: Seq<char>, p: Seq<char>, j: int)
    requires
        p.len() > 0,
        hideable_secret(p),
    ensures
        !occurs_at(replace_all(s, p, redacted()), j, p),
    decreases s.len(),
{
    reveal_strlit("<redacted>");
    let r = redacted();
    let out = replace_all(s, p, r);
    if !occurs_at(out, j, p) {
        return;
    }
    if s.len() < p.len() {
    } else if s.subrange(0, p.len() as int) == p {
        let rest = s.skip(p.len() as int);
        let out2 = replace_all(rest, p, r);
        assert(out == r + out2);
        if j < r.len() {
            if j + p.len() <= r.len() {
                assert(r.subrange(j, j + p.len()) =~= p);
                assert(occurs_at(r, j, p));
            } else {
                assert(p[r.len() - 1 - j] == out[r.len() - 1]);
            }
        } else {
            assert(out2.subrange(j - r.len(), j - r.len() + p.len()) =~= out.subrange(j, j + p.len()));
            lemma_replace_removes(rest, p, j - r.len());
        }
    } else {
        let t1 = s.drop_first();
        let out1 = replace_all(t1, p, r);
        assert(out == seq![s[0]] + out1);
        if j >= 1 {
            assert(out1.subrange(j - 1, j - 1 + p.len()) =~= out.subrange(j, j + p.len()));
            lemma_replace_removes(t1, p, j - 1);
        } else {
            assert forall|i: int| 0 <= i < p.len() - 1 implies out1[i] != '<' by {
                assert(out1[i] == out[i + 1]);
                assert(out[i + 1] == p[i + 1]);
            }
            lemma_replace_prefix_plain(t1, p, p.len() - 1);
            assert forall|i: int| 0 <= i < p.len() implies s[i] == out[i] by {
                if i > 0 {
                    assert(out[i] == out1[i - 1]);
                    assert(out1.subrange(0, p.len() - 1)[i - 1] == t1.subrange(0, p.len() - 1)[i - 1]);
                }
            }
            assert(s.subrange(0, p.len() as int) =~= out.subrange(0, p.len() as int));
        }
    }
}

/// Scrubbing hides every known secret: no non-empty secret occurs in the
/// scrubbed text, provided that no non-empty secret has `<` or `>` in it or is part of
/// the marker `<redacted>` (those could reappear through the marker).
pub proof fn law_scrub_hides_secrets(text: Seq<char>, secrets: Seq<Seq<char>>)
    requires
        forall|i: int| 0 <= i < secrets.len() && secrets[i].len() > 0 ==> hideable_secret(#[trigger] secrets[i]),
    ensures
        forall|i: int|
            0 <= i < secrets.len() && secrets[i].len() > 0 ==> !seq_contains(scrub_spec(text, secrets), #[trigger] secrets[i]),
    decreases secrets.len(),
{
    if secrets.len() > 0 {
        let front = secrets.drop_last();
        law_scrub_hides_secrets(text, front);
        let before = scrub_spec(text, front);
        let last = secrets.last();
        assert forall|i: int| 0 <= i < secrets.len() && secrets[i].len() > 0 implies !seq_contains(
            scrub_spec(text, secrets),
            #[trigger] secrets[i],
        ) by {
            if last.len() == 0 {
                assert(scrub_spec(text, secrets) == before);
                assert(front[i] == secrets[i]);
            } else {
                let after = replace_all(before, last, redacted());
                assert(scrub_spec(text, secrets) == after);
                if i == secrets.len() - 1 {
                    assert forall|j: int| !occurs_at(after, j, last) by {
                        lemma_replace_removes(before, last, j);
                    }
                } else {
                    assert(front[i] == secrets[i]);
                    if seq_contains(after, secrets[i]) {
                        let j = choose|j: int| occurs_at(after, j, secrets[i]);
                        lemma_replace_keeps_absent(before, last, secrets[i], j);
                    }
                }
            }
        }
    }
}

/// Replacing a text that does not occur changes nothing.
proof fn lemma_replace_absent(s: Seq<char>, p: Seq<char>)
    requires
        p.len() > 0,
        !seq_contains(s, p),
    ensures
        replace_all(s, p, redacted()) == s,
    decreases s.len(),
{
    if s.len() >= p.len() {
        if s.subrange(0, p.len() as int) == p {
            assert(occurs_at(s, 0, p));
        } else {
            let t = s.drop_first();
            if seq_contains(t, p) {
                let i = choose|i: int| occurs_at(t, i, p);
                assert(s.subrange(i + 1, i + 1 + p.len()) =~= t.subrange(i, i + p.len()));
                assert(occurs_at(s, i + 1, p));
            }
            lemma_replace_absent(t, p);
            assert(seq![s[0]] + t =~= s);
        }
    }
}

/// A text that holds none of the secrets is left as it is.
proof fn lemma_scrub_clean(text: Seq<char>, secrets: Seq<Seq<char>>)
    requires
        forall|i: int| 0 <= i < secrets.len() && secrets[i].len() > 0 ==> !seq_contains(text, #[trigger] secrets[i]),
    ensures
        scrub_spec(text, secrets) == text,
    decreases secrets.len(),
{
    if secrets.len() > 0 {
        let front = secrets.drop_last();
        assert forall|i: int| 0 <= i < front.len() && front[i].len() > 0 implies !seq_contains(text, #[trigger] front[i]) by {
            assert(front[i] == secrets[i]);
        }
        lemma_scrub_clean(text, front);
        if secrets.last().len() > 0 {
            lemma_replace_absent(text, secrets.last());
        }
    }
}

/// Scrubbing a scrubbed text changes nothing, for secrets that scrubbing
/// can hide.
pub proof fn law_scrub_idempotent(text: Seq<char>, secrets: Seq<Seq<char>>)
    requires
        forall|i: int| 0 <= i < secrets.len() && secrets[i].len() > 0 ==> hideable_secret(#[trigger] secrets[i]),
    ensures
        scrub_spec(scrub_spec(text, secrets), secrets) == scrub_spec(text, secrets),
{
    law_scrub_hides_secrets(text, secrets);
    lemma_scrub_clean(scrub_spec(text, secrets), secrets);
}

/// What `truncate` returns: the text itself when its UTF-8 encoding fits in
/// `max` bytes, otherwise its longest prefix that fits followed by
/// `"\n<truncated>"`.
pub open spec fn truncate_spec(text: Seq<char>, max: int) -> (Seq<char>, bool) {
    if utf8_len(text) <= max {
        (text, false)
    } else {
        (text.take(chars_within(text, max) as int) + "\n<truncated>"@, true)
    }
}

/// Cuts a text to at most `max_bytes` bytes of UTF-8 without splitting a
/// character, marking the cut; the flag says whether it was cut.
pub fn truncate(text: &str, max_bytes: usize) -> (r: (String, bool))
    ensures
        r.0@ == truncate_spec(text@, max_bytes as int).0,
        r.1 == truncate_spec(text@, max_bytes as int).1,
{
    let chars = to_chars(text);
    let (n, cut) = prefix_within(chars.as_slice(), max_bytes);
    if !cut {
        return (owned(text), false);
    }
    proof {
        lemma_chars_within_le(text@, max_bytes as int);
    }
    (prefix_then(chars.as_slice(), n, "\n<truncated>"), true)
}

/// Truncation returns a text that fits whole, and otherwise a prefix of it
/// that fits in `max` bytes of UTF-8, followed by the marker.
pub proof fn law_truncate_within(text: Seq<char>, max: int)
    requires
        max >= 0,
    ensures
        !truncate_spec(text, max).1 ==> truncate_spec(text, max).0 == text && utf8_len(text) <= max,
        truncate_spec(text, max).1 ==> exists|k: int|
            0 <= k <= text.len() && truncate_spec(text, max).0 == text.take(k) + "\n<truncated>"@ && utf8_len(text.take(k))
                <= max,
{
    lemma_chars_within_take(text, max);
    if truncate_spec(text, max).1 {
        let k = chars_within(text, max) as int;
        assert(truncate_spec(text, max).0 == text.take(k) + "\n<truncated>"@);
    }
}

proof fn lemma_chars_within_le(s: Seq<char>, max: int)
    ensures
        chars_within(s, max) <= s.len(),
    decreases s.len(),
{
    if s.len() > 0 && utf8_width(s[0]) <= max {
        lemma_chars_within_le(s.drop_first(), max - utf8_width(s[0]));
    }
}

} // verus!

verus! {

/// `redact_value_with_patterns`: every field whose key is sensitive becomes
/// `"<redacted>"`, every string has the known secrets scrubbed, and
/// everything else is kept.
pub open spec fn redact_value_spec(v: JsonV, secrets: Seq<Seq<char>>, patterns: Seq<Seq<char>>) -> JsonV
    decreases v,
{
    match v {
        JsonV::Object(es) => JsonV::Object(redact_entries_spec(es, secrets, patterns)),
        JsonV::Array(items) => JsonV::Array(redact_items_spec(items, secrets, patterns)),
        JsonV::Str(t) => JsonV::Str(scrub_spec(t, secrets)),
        _ => v,
    }
}

pub open spec fn redact_items_spec(items: Seq<JsonV>, secrets: Seq<Seq<char>>, patterns: Seq<Seq<char>>) -> Seq<JsonV>
    decreases items,
{
    if items.len() == 0 {
        seq![]
    } else {
        redact_items_spec(items.drop_last(), secrets, patterns).push(
            redact_value_spec(items.last(), secrets, patterns),
        )
    }
}

pub open spec fn redact_entries_spec(
    es: Seq<(Seq<char>, JsonV)>,
    secrets: Seq<Seq<char>>,
    patterns: Seq<Seq<char>>,
) -> Seq<(Seq<char>, JsonV)>
    decreases es,
{
    if es.len() == 0 {
        seq![]
    } else {
        let (k, v) = es.last();
        redact_entries_spec(es.drop_last(), secrets, patterns).push(
            (k, if sensitive_spec(k, patterns) { JsonV::Str(redacted()) } else { redact_value_spec(v, secrets, patterns) }),
        )
    }
}

/// A JSON string of the given text.
pub fn json_str(s: &str) -> (r: Json)
    ensures
        r@ == JsonV::Str(s@),
{
    Json::Str(owned(s))
}

/// Redacts a document: sensitive keys (see `sensitive_name`) get the value
/// `"<redacted>"`, and known secrets are scrubbed from every string.
pub fn redact_value_with_patterns(value: &Json, known_secrets: &[String], sensitive_patterns: &[String]) -> (r: Json)
    ensures
        r@ == redact_value_spec(value@, strings_of(known_secrets@), strings_of(sensitive_patterns@)),
    decreases value,
{
    let ghost secrets = strings_of(known_secrets@);
    let ghost patterns = strings_of(sensitive_patterns@);
    match value {
        Json::Object(entries) => {
            let mut out: Vec<(String, Json)> = Vec::new();
            let mut i: usize = 0;
            while i < entries.len()
                invariant
                    i <= entries.len(),
                    *value == Json::Object(*entries),
                    secrets == strings_of(known_secrets@),
                    patterns == strings_of(sensitive_patterns@),
                    entries_view(out@) == redact_entries_spec(entries_view(entries@.take(i as int)), secrets, patterns),
                decreases entries.len() - i,
            {
                let key = &entries[i].0;
                let safe = if sensitive_name(key.as_str(), sensitive_patterns) {
                    json_str("<redacted>")
                } else {
                    proof {
                        assert(decreases_to!(*value => (*value)->Object_0));
                        assert(decreases_to!(*entries => entries@));
                        assert(decreases_to!(entries@ => entries@[i as int]));
                        assert(decreases_to!(entries@[i as int] => entries@[i as int].1));
                    }
                    redact_value_with_patterns(&entries[i].1, known_secrets, sensitive_patterns)
                };
                let ghost before = out@;
                out.push((key.clone(), safe));
                proof {
                    assert(out@.drop_last() == before);
                    assert(entries@.take(i + 1).drop_last() == entries@.take(i as int));
                    assert(entries_view(entries@.take(i + 1)).drop_last() == entries_view(entries@.take(i as int)));
                    assert(entries_view(entries@.take(i + 1)).last() == (entries@[i as int].0@, json_view(entries@[i as int].1)));
                }
                i += 1;
            }
            assert(entries@.take(entries.len() as int) == entries@);
            Json::Object(out)
        },
        Json::Array(items) => {
            let mut out: Vec<Json> = Vec::new();
            let mut i: usize = 0;
            while i < items.len()
                invariant
                    i <= items.len(),
                    *value == Json::Array(*items),
                    secrets == strings_of(known_secrets@),
                    patterns == strings_of(sensitive_patterns@),
                    items_view(out@) == redact_items_spec(items_view(items@.take(i as int)), secrets, patterns),
                decreases items.len() - i,
            {
                proof {
                    assert(decreases_to!(*value => (*value)->Array_0));
                    assert(decreases_to!(*items => items@));
                    assert(decreases_to!(items@ => items@[i as int]));
                }
                let safe = redact_value_with_patterns(&items[i], known_secrets, sensitive_patterns);
                let ghost before = out@;
                out.push(safe);
                proof {
                    assert(out@.drop_last() == before);
                    assert(items@.take(i + 1).drop_last() == items@.take(i as int));
                    assert(items_view(items@.take(i + 1)).drop_last() == items_view(items@.take(i as int)));
                    assert(items_view(items@.take(i + 1)).last() == json_view(items@[i as int]));
                }
                i += 1;
            }
            assert(items@.take(items.len() as int) == items@);
            Json::Array(out)
        },
        Json::Str(text) => Json::Str(scrub(text.as_str(), known_secrets)),
        _ => value.deep_clone(),
    }
}

/// `redact_value_with_patterns` without custom patterns.
pub fn redact_value(value: &Json, known_secrets: &[String]) -> (r: Json)
    ensures
        r@ == redact_value_spec(value@, strings_of(known_secrets@), seq![]),
{
    let none: Vec<String> = Vec::new();
    proof {
        assert(strings_of(none@) =~= seq![]);
    }
    redact_value_with_patterns(value, known_secrets, none.as_slice())
}


/// The largest tool output, in bytes of JSON.
pub const MAX_TOOL_OUTPUT_BYTES: usize = 512 * 1024;

/// The largest activity summary, in bytes of JSON.
pub const MAX_ACTIVITY_SUMMARY_BYTES: usize = 64 * 1024;

/// An `auth` field that is a text without a `{{` placeholder is redacted.
pub open spec fn auth_fix(es: Seq<(Seq<char>, JsonV)>, key: Seq<char>) -> Seq<(Seq<char>, JsonV)> {
    match obj_lookup(es, key) {
        Some(JsonV::Str(t)) => if !seq_contains(t, "{{"@) {
            obj_insert(es, key, JsonV::Str(redacted()))
        } else {
            es
        },
        _ => es,
    }
}

/// In an `auth` object, `token`, `password` and `value` are redacted unless
/// they hold a placeholder.
pub open spec fn auth_spec(v: JsonV) -> JsonV {
    match field(v, "auth"@) {
        Some(JsonV::Object(es)) => set_field(v, "auth"@, JsonV::Object(auth_fix(auth_fix(auth_fix(es, "token"@), "password"@), "value"@))),
        _ => v,
    }
}

/// What `redact_request_with_patterns` returns: the request redacted field
/// by field, then its key/value rows, URL query, embedded JSON bodies, auth
/// secrets and uploaded file bytes.
pub open spec fn request_spec(v: JsonV, patterns: Seq<Seq<char>>) -> JsonV {
    file_contents_spec(
        auth_spec(
            embedded_spec(url_query_spec(rows_spec(redact_value_spec(v, seq![], patterns), patterns), patterns), patterns),
        ),
    )
}

fn auth_fix_exec(es: &mut Vec<(String, Json)>, key: &str)
    ensures
        entries_view(final(es)@) == auth_fix(entries_view(old(es)@), key@),
{
    let open = to_chars("{{");
    proof {
        reveal_strlit("{{");
    }
    let hit = match entry_value(es, key) {
        Some(Json::Str(t)) => {
            let tc = to_chars(t.as_str());
            !contains_chars(tc.as_slice(), open.as_slice())
        },
        _ => false,
    };
    if hit {
        obj_set(es, key, json_str("<redacted>"));
    }
}

fn redact_auth(value: Json) -> (r: Json)
    ensures
        r@ == auth_spec(value@),
{
    let auth = match value.get("auth") {
        Some(a) => a.deep_clone(),
        None => return value,
    };
    match auth {
        Json::Object(mut es) => {
            auth_fix_exec(&mut es, "token");
            auth_fix_exec(&mut es, "password");
            auth_fix_exec(&mut es, "value");
            with_field(value, "auth", Json::Object(es))
        },
        _ => value,
    }
}

/// Redacts a request for logging or display: sensitive keys and rows,
/// sensitive query parameters, secrets inside JSON bodies, auth secrets
/// that are not placeholders, and the bytes of uploaded files.
pub fn redact_request_with_patterns(value: &Json, sensitive_patterns: &[String]) -> (r: Json)
    ensures
        r@ == request_spec(value@, strings_of(sensitive_patterns@)),
{
    let none: Vec<String> = Vec::new();
    assert(strings_of(none@) =~= seq![]);
    let safe = redact_value_with_patterns(value, none.as_slice(), sensitive_patterns);
    let safe = redact_key_value_rows(&safe, sensitive_patterns);
    let safe = redact_url_query(safe, sensitive_patterns);
    let safe = redact_embedded_json_bodies(&safe, sensitive_patterns);
    let safe = redact_auth(safe);
    redact_file_contents(safe)
}

/// `redact_request_with_patterns` without custom patterns.
pub fn redact_request(value: &Json) -> (r: Json)
    ensures
        r@ == request_spec(value@, seq![]),
{
    let none: Vec<String> = Vec::new();
    assert(strings_of(none@) =~= seq![]);
    redact_request_with_patterns(value, none.as_slice())
}

/// What `limit_output` returns: the document itself when its compact JSON
/// fits in `max` bytes, else a summary with a truncated preview of the text.
pub open spec fn limit_spec(v: JsonV, max: usize) -> JsonV {
    let t = json_text(v);
    let n = utf8_len(t) as usize;
    if n <= max {
        v
    } else {
        let preview = truncate_spec(t, if max >= 256 { max - 256 } else { 0 }).0;
        JsonV::Object(seq![
            ("preview"@, JsonV::Str(preview)),
            ("returnedBytes"@, JsonV::Number(NumberV::PosInt((utf8_len(preview) as usize) as u64))),
            ("totalBytes"@, JsonV::Number(NumberV::PosInt(n as u64))),
            ("truncated"@, JsonV::Bool(true)),
        ])
    }
}

/// Keeps a document within `max_bytes` of JSON, replacing it by a
/// truncated preview of its text when it is larger.
pub fn limit_output(value: &Json, max_bytes: usize) -> (r: Json)
    ensures
        r@ == limit_spec(value@, max_bytes),
{
    let serialized = json_to_string(value);
    let total = serialized.as_str().len();
    if total <= max_bytes {
        return value.deep_clone();
    }
    let budget = if max_bytes >= 256 { max_bytes - 256 } else { 0 };
    let (preview, _) = truncate(serialized.as_str(), budget);
    let returned = preview.as_str().len();
    let es = vec![
        (owned("preview"), Json::Str(preview)),
        (owned("returnedBytes"), Json::Number(JsonNumber::PosInt(returned as u64))),
        (owned("totalBytes"), Json::Number(JsonNumber::PosInt(total as u64))),
        (owned("truncated"), Json::Bool(true)),
    ];
    proof {
        lemma_entries_view(es@);
        let t = json_text(value@);
        let p = truncate_spec(t, budget as int).0;
        assert(entries_view(es@) =~= seq![
            ("preview"@, JsonV::Str(p)),
            ("returnedBytes"@, JsonV::Number(NumberV::PosInt((utf8_len(p) as usize) as u64))),
            ("totalBytes"@, JsonV::Number(NumberV::PosInt(total as u64))),
            ("truncated"@, JsonV::Bool(true)),
        ]);
    }
    Json::Object(es)
}

/// What `activity_summary` keeps of a tool call for the activity log.
pub open spec fn activity_spec(v: JsonV, patterns: Seq<Seq<char>>, store_body_previews: bool) -> JsonV {
    let safe = file_contents_spec(embedded_spec(shapes_spec(rows_spec(redact_value_spec(v, seq![], patterns), patterns), patterns), patterns));
    let safe = if store_body_previews { safe } else { omit_spec(safe) };
    limit_spec(safe, MAX_ACTIVITY_SUMMARY_BYTES)
}

/// The redacted summary of a tool call that the activity log keeps: keys,
/// rows, embedded requests and JSON bodies redacted, file bytes omitted,
/// bodies omitted unless previews are stored, at most 64 KiB of JSON.
pub fn activity_summary(value: &Json, sensitive_patterns: &[String], store_body_previews: bool) -> (r: Json)
    ensures
        r@ == activity_spec(value@, strings_of(sensitive_patterns@), store_body_previews),
{
    let none: Vec<String> = Vec::new();
    assert(strings_of(none@) =~= seq![]);
    let safe = redact_value_with_patterns(value, none.as_slice(), sensitive_patterns);
    let safe = redact_key_value_rows(&safe, sensitive_patterns);
    let safe = redact_request_shapes(&safe, sensitive_patterns);
    let safe = redact_embedded_json_bodies(&safe, sensitive_patterns);
    let safe = redact_file_contents(safe);
    let safe = if store_body_previews {
        safe
    } else {
        omit_bodies(&safe)
    };
    limit_output(&safe, MAX_ACTIVITY_SUMMARY_BYTES)
}

/// What `safe_response` returns: the redacted headers, the body with known
/// secrets scrubbed and cut to `max_body` bytes, and whether it was cut.
pub open spec fn safe_response_spec(headers: JsonV, body: Seq<char>, secrets: Seq<Seq<char>>, patterns: Seq<Seq<char>>, max_body: usize) -> JsonV {
    let t = truncate_spec(scrub_spec(body, secrets), max_body as int);
    JsonV::Object(seq![
        ("body"@, JsonV::Str(t.0)),
        ("headers"@, redact_value_spec(headers, secrets, patterns)),
        ("truncated"@, JsonV::Bool(t.1)),
    ])
}

/// A response made safe to hand to a client: headers redacted, body scrubbed
/// of known secrets and truncated.
pub fn safe_response(headers: &Json, body: &str, known_secrets: &[String], sensitive_patterns: &[String], max_body: usize) -> (r: Json)
    ensures
        r@ == safe_response_spec(headers@, body@, strings_of(known_secrets@), strings_of(sensitive_patterns@), max_body),
{
    let safe_headers = redact_value_with_patterns(headers, known_secrets, sensitive_patterns);
    let scrubbed = scrub(body, known_secrets);
    let (text, truncated) = truncate(scrubbed.as_str(), max_body);
    let es = vec![
        (owned("body"), Json::Str(text)),
        (owned("headers"), safe_headers),
        (owned("truncated"), Json::Bool(truncated)),
    ];
    proof {
        lemma_entries_view(es@);
        let t = truncate_spec(scrub_spec(body@, strings_of(known_secrets@)), max_body as int);
        assert(entries_view(es@) =~= seq![
            ("body"@, JsonV::Str(t.0)),
            ("headers"@, redact_value_spec(headers@, strings_of(known_secrets@), strings_of(sensitive_patterns@))),
            ("truncated"@, JsonV::Bool(t.1)),
        ]);
    }
    Json::Object(es)
}

} // verus!
