use vstd::prelude::*;

use crate::order::{lemma_lex_asymmetric, lemma_lex_irreflexive, lex_lt, sorted_unique};
use crate::types::McpSafetySettings;
use crate::text::{char_vecs_of, strings_of, ascii_lower, chars_eq, from_chars, is_ws, lower_char, lower_chars, to_chars, trim_chars, trim_end_spec, trim_spec, trim_start_spec};

verus! {

/// A list entry as it is stored: trimmed and ASCII-lowered.
pub open spec fn normalized_entry(v: Seq<char>) -> Seq<char> {
    ascii_lower(trim_spec(v))
}

/// `x` is the stored form of some entry of `values` and is not empty.
pub open spec fn is_normalized_member(values: Seq<Seq<char>>, x: Seq<char>) -> bool {
    x.len() > 0 && exists|i: int| 0 <= i < values.len() && normalized_entry(#[trigger] values[i]) == x
}

/// `r` lists, in strictly increasing order, exactly the non-empty stored
/// forms of `values`: the sorted, deduplicated list.
pub open spec fn is_normalized_list(values: Seq<Seq<char>>, r: Seq<Seq<char>>) -> bool {
    &&& forall|i: int, j: int| 0 <= i < j < r.len() ==> lex_lt(r[i], r[j])
    &&& forall|i: int| 0 <= i < r.len() ==> is_normalized_member(values, #[trigger] r[i])
    &&& forall|x: Seq<char>| is_normalized_member(values, x) ==> r.contains(x)
}


/// Trims and lowers every entry, drops the empty ones, sorts and removes duplicates.
pub fn normalize_list(values: &[String]) -> (r: Vec<String>)
    ensures
        is_normalized_list(strings_of(values@), strings_of(r@)),
{
    let ghost vs = strings_of(values@);
    let mut items: Vec<Vec<char>> = Vec::new();
    let mut i: usize = 0;
    while i < values.len()
        invariant
            i <= values.len(),
            vs == strings_of(values@),
            forall|k: int| 0 <= k < items.len() ==> is_normalized_member(vs, (#[trigger] items@[k])@),
            forall|j: int|
                0 <= j < i && normalized_entry(#[trigger] vs[j]).len() > 0 ==> exists|k: int|
                    0 <= k < items.len() && (#[trigger] items@[k])@ == normalized_entry(vs[j]),
        decreases values.len() - i,
    {
        let c = to_chars(values[i].as_str());
        let t = trim_chars(c.as_slice());
        let l = lower_chars(t.as_slice());
        assert(vs[i as int] == values@[i as int]@);
        if l.len() > 0 {
            let ghost before = items@;
            items.push(l);
            assert(items@[items.len() - 1]@ == normalized_entry(vs[i as int]));
            assert forall|j: int|
                0 <= j < i + 1 && normalized_entry(#[trigger] vs[j]).len() > 0 implies exists|k: int|
                    0 <= k < items.len() && (#[trigger] items@[k])@ == normalized_entry(vs[j]) by {
                if j < i {
                    let k = choose|k: int| 0 <= k < before.len() && (#[trigger] before[k])@ == normalized_entry(vs[j]);
                    assert(items@[k] == before[k]);
                } else {
                    assert(items@[items.len() - 1]@ == normalized_entry(vs[j]));
                }
            }
        }
        i += 1;
    }
    let out = sorted_unique(&items);
    proof {
        let ts = char_vecs_of(items@);
        let os = char_vecs_of(out@);
        assert forall|x: int| 0 <= x < out.len() implies is_normalized_member(vs, (#[trigger] out@[x])@) by {
            assert(os[x] == out@[x]@);
            assert(ts.contains(os[x]));
            let m = choose|m: int| 0 <= m < ts.len() && ts[m] == os[x];
            assert(ts[m] == items@[m]@);
        }
        assert forall|x: Seq<char>| is_normalized_member(vs, x) implies exists|a: int| 0 <= a < out.len() && (#[trigger] out@[a])@ == x by {
            let j = choose|j: int| 0 <= j < vs.len() && normalized_entry(#[trigger] vs[j]) == x;
            let m = choose|m: int| 0 <= m < items.len() && (#[trigger] items@[m])@ == normalized_entry(vs[j]);
            assert(ts[m] == items@[m]@);
            assert(os.contains(ts[m]));
            let a = choose|a: int| 0 <= a < os.len() && os[a] == ts[m];
            assert(os[a] == out@[a]@);
        }
        assert forall|a: int, b: int| 0 <= a < b < out.len() implies lex_lt(out@[a]@, out@[b]@) by {
            assert(os[a] == out@[a]@);
            assert(os[b] == out@[b]@);
        }
    }
    let mut r: Vec<String> = Vec::new();
    let mut a: usize = 0;
    while a < out.len()
        invariant
            a <= out.len(),
            r.len() == a,
            forall|b: int| 0 <= b < a ==> (#[trigger] r@[b])@ == out@[b]@,
        decreases out.len() - a,
    {
        r.push(from_chars(out[a].as_slice()));
        a += 1;
    }
    proof {
        let rs = strings_of(r@);
        assert forall|b: int| 0 <= b < rs.len() implies rs[b] == out@[b]@ by {}
        assert forall|x: Seq<char>| is_normalized_member(vs, x) implies rs.contains(x) by {
            let b = choose|b: int| 0 <= b < out.len() && (#[trigger] out@[b])@ == x;
            assert(rs[b] == x);
        }
    }
    r
}

proof fn lemma_trim_start_shape(s: Seq<char>)
    ensures
        trim_start_spec(s).len() == 0 || !is_ws(trim_start_spec(s)[0]),
        exists|k: int| 0 <= k <= s.len() && trim_start_spec(s) == s.skip(k),
    decreases s.len(),
{
    if s.len() > 0 && is_ws(s[0]) {
        lemma_trim_start_shape(s.drop_first());
        let k = choose|k: int| 0 <= k <= s.drop_first().len() && trim_start_spec(s.drop_first()) == s.drop_first().skip(k);
        assert(s.drop_first().skip(k) == s.skip(k + 1));
    } else {
        assert(s.skip(0) == s);
    }
}

proof fn lemma_trim_end_shape(s: Seq<char>)
    ensures
        trim_end_spec(s).len() == 0 || !is_ws(trim_end_spec(s).last()),
        exists|k: int| 0 <= k <= s.len() && trim_end_spec(s) == s.take(k),
    decreases s.len(),
{
    if s.len() > 0 && is_ws(s.last()) {
        lemma_trim_end_shape(s.drop_last());
        let k = choose|k: int| 0 <= k <= s.drop_last().len() && trim_end_spec(s.drop_last()) == s.drop_last().take(k);
        assert(s.drop_last().take(k) == s.take(k));
    } else {
        assert(s.take(s.len() as int) == s);
    }
}

/// A trimmed text has no white space at either end.
proof fn lemma_trim_ends(s: Seq<char>)
    ensures
        trim_spec(s).len() > 0 ==> !is_ws(trim_spec(s)[0]) && !is_ws(trim_spec(s).last()),
{
    let a = trim_start_spec(s);
    lemma_trim_start_shape(s);
    lemma_trim_end_shape(a);
    let k = choose|k: int| 0 <= k <= a.len() && trim_end_spec(a) == a.take(k);
    if trim_spec(s).len() > 0 {
        assert(trim_spec(s)[0] == a[0]);
    }
}

/// Lowering keeps white space and everything else apart.
proof fn lemma_lower_keeps_ws(c: char)
    ensures
        is_ws(lower_char(c)) == is_ws(c),
        lower_char(lower_char(c)) == lower_char(c),
{
}

/// A text without white space at either end is its own trim.
pub proof fn lemma_trim_fixed(s: Seq<char>)
    requires
        s.len() > 0 ==> !is_ws(s[0]) && !is_ws(s.last()),
    ensures
        trim_spec(s) == s,
{
    assert(trim_start_spec(s) == s);
}

/// Normalizing an entry twice is normalizing it once.
pub proof fn lemma_normalized_entry_idempotent(v: Seq<char>)
    ensures
        normalized_entry(normalized_entry(v)) == normalized_entry(v),
{
    let t = trim_spec(v);
    let l = ascii_lower(t);
    lemma_trim_ends(v);
    if l.len() > 0 {
        lemma_lower_keeps_ws(t[0]);
        lemma_lower_keeps_ws(t.last());
        assert(l[0] == lower_char(t[0]));
        assert(l.last() == lower_char(t.last()));
    }
    lemma_trim_fixed(l);
    assert forall|i: int| 0 <= i < l.len() implies #[trigger] ascii_lower(l)[i] == l[i] by {
        lemma_lower_keeps_ws(t[i]);
    }
    assert(ascii_lower(l) =~= l);
}

/// Two strictly increasing lists with the same elements are the same list.
pub proof fn lemma_sorted_sets_equal(a: Seq<Seq<char>>, b: Seq<Seq<char>>)
    requires
        forall|i: int, j: int| 0 <= i < j < a.len() ==> lex_lt(a[i], a[j]),
        forall|i: int, j: int| 0 <= i < j < b.len() ==> lex_lt(b[i], b[j]),
        forall|x: Seq<char>| a.contains(x) <==> b.contains(x),
    ensures
        a == b,
    decreases a.len(),
{
    if a.len() == 0 {
        if b.len() > 0 {
            assert(b.contains(b[0]));
        }
        assert(b.len() == 0);
        assert(a =~= b);
    } else {
        assert(a.contains(a[0]));
        assert(b.len() > 0);
        assert(b.contains(b[0]));
        let j = choose|j: int| 0 <= j < b.len() && b[j] == a[0];
        let k = choose|k: int| 0 <= k < a.len() && a[k] == b[0];
        if j > 0 && k > 0 {
            lemma_lex_asymmetric(b[0], a[0]);
        } else if j > 0 {
            lemma_lex_irreflexive(b[0]);
        } else if k > 0 {
            lemma_lex_irreflexive(a[0]);
        }
        assert(a[0] == b[0]);
        let a1 = a.drop_first();
        let b1 = b.drop_first();
        assert forall|x: Seq<char>| a1.contains(x) <==> b1.contains(x) by {
            if a1.contains(x) {
                let i = choose|i: int| 0 <= i < a1.len() && a1[i] == x;
                assert(a.contains(x));
                let m = choose|m: int| 0 <= m < b.len() && b[m] == x;
                if m == 0 {
                    assert(lex_lt(a[0], a[i + 1]));
                    lemma_lex_irreflexive(x);
                }
                assert(b1[m - 1] == x);
            }
            if b1.contains(x) {
                let i = choose|i: int| 0 <= i < b1.len() && b1[i] == x;
                assert(b.contains(x));
                let m = choose|m: int| 0 <= m < a.len() && a[m] == x;
                if m == 0 {
                    assert(lex_lt(b[0], b[i + 1]));
                    lemma_lex_irreflexive(x);
                }
                assert(a1[m - 1] == x);
            }
        }
        lemma_sorted_sets_equal(a1, b1);
        assert(a =~= seq![a[0]] + a1);
        assert(b =~= seq![b[0]] + b1);
    }
}

/// Normalizing a normalized list gives it back: stored lists are stable
/// under normalization.
pub proof fn law_normalize_list_idempotent(values: Seq<Seq<char>>, r: Seq<Seq<char>>, r2: Seq<Seq<char>>)
    requires
        is_normalized_list(values, r),
        is_normalized_list(r, r2),
    ensures
        r2 == r,
{
    assert forall|x: Seq<char>| r.contains(x) <==> r2.contains(x) by {
        if r.contains(x) {
            let i = choose|i: int| 0 <= i < r.len() && r[i] == x;
            assert(is_normalized_member(values, r[i]));
            let j = choose|j: int| 0 <= j < values.len() && normalized_entry(#[trigger] values[j]) == x;
            lemma_normalized_entry_idempotent(values[j]);
            assert(normalized_entry(r[i]) == x);
            assert(is_normalized_member(r, x));
        }
        if r2.contains(x) {
            let i = choose|i: int| 0 <= i < r2.len() && r2[i] == x;
            assert(is_normalized_member(r, r2[i]));
            let j = choose|j: int| 0 <= j < r.len() && normalized_entry(#[trigger] r[j]) == x;
            assert(is_normalized_member(values, r[j]));
            let m = choose|m: int| 0 <= m < values.len() && normalized_entry(#[trigger] values[m]) == r[j];
            lemma_normalized_entry_idempotent(values[m]);
            assert(r.contains(r[j]));
        }
    }
    lemma_sorted_sets_equal(r, r2);
}

} // verus!

verus! {

/// A value clamped to `lo..=hi`.
pub open spec fn clamp(v: i64, lo: i64, hi: i64) -> i64 {
    if v < lo { lo } else if v > hi { hi } else { v }
}

fn clamp_exec(v: i64, lo: i64, hi: i64) -> (r: i64)
    requires
        lo <= hi,
    ensures
        r == clamp(v, lo, hi),
{
    if v < lo { lo } else if v > hi { hi } else { v }
}

/// The settings as they are stored: both lists normalized, the retention
/// clamped to 1..=365 days and the row limit to 100..=100000.
pub open spec fn is_normalized_safety(input: McpSafetySettings, r: McpSafetySettings) -> bool {
    &&& r.store_body_previews == input.store_body_previews
    &&& is_normalized_list(strings_of(input.sensitive_key_patterns@), strings_of(r.sensitive_key_patterns@))
    &&& is_normalized_list(strings_of(input.trusted_destinations@), strings_of(r.trusted_destinations@))
    &&& r.activity_retention_days == clamp(input.activity_retention_days, 1, 365)
    &&& r.activity_max_rows == clamp(input.activity_max_rows, 100, 100000)
}

/// Normalizes safety settings before they are stored.
pub fn normalize_safety(settings: &McpSafetySettings) -> (r: McpSafetySettings)
    ensures
        is_normalized_safety(*settings, r),
{
    McpSafetySettings {
        store_body_previews: settings.store_body_previews,
        sensitive_key_patterns: normalize_list(settings.sensitive_key_patterns.as_slice()),
        trusted_destinations: normalize_list(settings.trusted_destinations.as_slice()),
        activity_retention_days: clamp_exec(settings.activity_retention_days, 1, 365),
        activity_max_rows: clamp_exec(settings.activity_max_rows, 100, 100000),
    }
}

/// The default retention, in days.
pub const DEFAULT_ACTIVITY_RETENTION_DAYS: i64 = 30;

/// The default number of activity rows kept.
pub const DEFAULT_ACTIVITY_MAX_ROWS: i64 = 10000;

/// The safety settings read back from storage: each stored value (or its
/// default when absent or unreadable), with both limits clamped.
pub fn stored_safety(
    store_body_previews: Option<bool>,
    sensitive_key_patterns: Option<Vec<String>>,
    trusted_destinations: Option<Vec<String>>,
    activity_retention_days: Option<i64>,
    activity_max_rows: Option<i64>,
) -> (r: McpSafetySettings)
    ensures
        r.store_body_previews == (match store_body_previews { Some(b) => b, None => false }),
        r.sensitive_key_patterns@ == (match sensitive_key_patterns { Some(v) => v@, None => Seq::<String>::empty() }),
        r.trusted_destinations@ == (match trusted_destinations { Some(v) => v@, None => Seq::<String>::empty() }),
        r.activity_retention_days == clamp(match activity_retention_days { Some(d) => d, None => 30 }, 1, 365),
        r.activity_max_rows == clamp(match activity_max_rows { Some(m) => m, None => 10000 }, 100, 100000),
{
    McpSafetySettings {
        store_body_previews: match store_body_previews { Some(b) => b, None => false },
        sensitive_key_patterns: match sensitive_key_patterns { Some(v) => v, None => Vec::new() },
        trusted_destinations: match trusted_destinations { Some(v) => v, None => Vec::new() },
        activity_retention_days: clamp_exec(match activity_retention_days { Some(d) => d, None => DEFAULT_ACTIVITY_RETENTION_DAYS }, 1, 365),
        activity_max_rows: clamp_exec(match activity_max_rows { Some(m) => m, None => DEFAULT_ACTIVITY_MAX_ROWS }, 100, 100000),
    }
}

} // verus!
