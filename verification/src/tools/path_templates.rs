use vstd::prelude::*;

use crate::http_path::{find_path_end, lemma_path_end_bounds, path_end};
use crate::json::{field_array, field_str, items_view, json_view, lemma_items_view, set_field, with_field, Json, JsonV};
use crate::text::{chars_eq, from_chars, push_chars, to_chars, trim_chars, trim_spec};

verus! {

/// The rows of the `pathVariables` field (none when it is not an array).
pub open spec fn path_rows(request: JsonV) -> Seq<JsonV> {
    match field_array(request, "pathVariables"@) {
        Some(rows) => rows,
        None => seq![],
    }
}

/// Some row declares the path variable `name`.
pub open spec fn key_listed(rows: Seq<JsonV>, name: Seq<char>) -> bool {
    exists|i: int| 0 <= i < rows.len() && field_str(#[trigger] rows[i], "key"@) == Some(name)
}

/// One of the first `i` rows declares `name`.
pub open spec fn listed_before(rows: Seq<JsonV>, i: int, name: Seq<char>) -> bool {
    exists|j: int| 0 <= j < i && field_str(#[trigger] rows[j], "key"@) == Some(name)
}

/// `name` is one of the keys.
pub open spec fn in_keys(keys: Seq<Vec<char>>, name: Seq<char>) -> bool {
    exists|k: int| 0 <= k < keys.len() && (#[trigger] keys[k])@ == name
}

/// Some row has a text key.
pub open spec fn any_keyed(rows: Seq<JsonV>) -> bool {
    exists|i: int| 0 <= i < rows.len() && field_str(#[trigger] rows[i], "key"@) is Some
}

/// The name inside a `{{ name }}` segment (trimmed), if the segment is one.
pub open spec fn template_name(seg: Seq<char>) -> Option<Seq<char>> {
    let t = trim_spec(seg);
    if t.len() >= 4 && t[0] == '{' && t[1] == '{' && t[t.len() - 2] == '}' && t[t.len() - 1] == '}' {
        Some(trim_spec(t.subrange(2, t.len() - 2)))
    } else {
        None
    }
}

/// A `{{ name }}` segment of a declared variable becomes `:name`; any other is kept.
pub open spec fn segment_spec(seg: Seq<char>, rows: Seq<JsonV>) -> Seq<char> {
    match template_name(seg) {
        Some(n) => if key_listed(rows, n) { seq![':'] + n } else { seg },
        None => seg,
    }
}

/// `str::split('/')`: the segments between slashes (one more than the slashes).
pub open spec fn split_slash(s: Seq<char>) -> Seq<Seq<char>>
    decreases s.len(),
{
    if s.len() == 0 {
        seq![seq![]]
    } else {
        let p = split_slash(s.drop_last());
        if s.last() == '/' {
            p.push(seq![])
        } else {
            p.update(p.len() - 1, p.last().push(s.last()))
        }
    }
}

/// The converted segments joined with `/`.
pub open spec fn join_segments(segs: Seq<Seq<char>>, rows: Seq<JsonV>) -> Seq<char>
    decreases segs.len(),
{
    if segs.len() == 0 {
        seq![]
    } else if segs.len() == 1 {
        segment_spec(segs[0], rows)
    } else {
        join_segments(segs.drop_last(), rows) + seq!['/'] + segment_spec(segs.last(), rows)
    }
}

/// Each converted segment followed by `/`.
pub open spec fn prefix_join(segs: Seq<Seq<char>>, rows: Seq<JsonV>) -> Seq<char>
    decreases segs.len(),
{
    if segs.len() == 0 {
        seq![]
    } else {
        prefix_join(segs.drop_last(), rows) + segment_spec(segs.last(), rows) + seq!['/']
    }
}

proof fn lemma_join_push(segs: Seq<Seq<char>>, x: Seq<char>, rows: Seq<JsonV>)
    ensures
        join_segments(segs.push(x), rows) == prefix_join(segs, rows) + segment_spec(x, rows),
    decreases segs.len(),
{
    assert(segs.push(x).drop_last() == segs);
    if segs.len() == 0 {
        assert(segs.push(x)[0] == x);
        assert(prefix_join(segs, rows) + segment_spec(x, rows) == segment_spec(x, rows));
    } else {
        lemma_join_push(segs.drop_last(), segs.last(), rows);
        assert(segs.drop_last().push(segs.last()) == segs);
    }
}

proof fn lemma_split_len(s: Seq<char>)
    ensures
        split_slash(s).len() >= 1,
    decreases s.len(),
{
    if s.len() > 0 {
        lemma_split_len(s.drop_last());
    }
}

/// What `normalize` makes of a request: when rows declare path variables and
/// the URL is a text, each path segment `{{ name }}` naming a declared
/// variable becomes `:name`; the query and fragment are kept.
pub open spec fn normalize_spec(request: JsonV) -> JsonV {
    match request {
        JsonV::Object(_) => {
            let rows = path_rows(request);
            if !any_keyed(rows) {
                request
            } else {
                match field_str(request, "url"@) {
                    Some(u) => {
                        let e = path_end(u, 0);
                        set_field(request, "url"@, JsonV::Str(join_segments(split_slash(u.take(e)), rows) + u.skip(e)))
                    },
                    None => request,
                }
            }
        },
        _ => request,
    }
}

fn segment_exec(seg: &[char], keys: &Vec<Vec<char>>, Ghost(rows): Ghost<Seq<JsonV>>) -> (r: Vec<char>)
    requires
        forall|n: Seq<char>| key_listed(rows, n) <==> #[trigger] in_keys(keys@, n),
    ensures
        r@ == segment_spec(seg@, rows),
{
    let t = trim_chars(seg);
    let n = t.len();
    if n >= 4 && t[0] == '{' && t[1] == '{' && t[n - 2] == '}' && t[n - 1] == '}' {
        let inner = crate::text::sub_chars(t.as_slice(), 2, n - 2);
        let name = trim_chars(inner.as_slice());
        assert(template_name(seg@) == Some(name@));
        let mut k: usize = 0;
        while k < keys.len()
            invariant
                k <= keys.len(),
                forall|j: int| 0 <= j < k ==> (#[trigger] keys@[j])@ != name@,
                template_name(seg@) == Some(name@),
                forall|m: Seq<char>| key_listed(rows, m) <==> #[trigger] in_keys(keys@, m),
            decreases keys.len() - k,
        {
            if chars_eq(keys[k].as_slice(), name.as_slice()) {
                assert(in_keys(keys@, name@));
                let mut out: Vec<char> = Vec::new();
                out.push(':');
                push_chars(&mut out, name.as_slice());
                assert(out@ == seq![':'] + name@);
                return out;
            }
            k += 1;
        }
        assert(!in_keys(keys@, name@));
        let mut copy: Vec<char> = Vec::new();
        push_chars(&mut copy, seg);
        assert(copy@ == seg@);
        copy
    } else {
        let mut copy: Vec<char> = Vec::new();
        push_chars(&mut copy, seg);
        assert(copy@ == seg@);
        copy
    }
}

/// Rewrites `{{ name }}` path segments of the URL as `:name` for the
/// declared path variables, so that the path matches the variables rows.
pub fn normalize(request: Json) -> (r: Json)
    ensures
        r@ == normalize_spec(request@),
{
    match request {
        Json::Object(_) => {},
        _ => return request,
    }
    let empty: Vec<Json> = Vec::new();
    let rows: &Vec<Json> = match request.get_array("pathVariables") {
        Some(r) => r,
        None => &empty,
    };
    let ghost rv = items_view(rows@);
    assert(rv == path_rows(request@));
    proof {
        lemma_items_view(rows@);
    }
    let mut keys: Vec<Vec<char>> = Vec::new();
    let mut i: usize = 0;
    while i < rows.len()
        invariant
            i <= rows.len(),
            rv == items_view(rows@),
            rv.len() == rows.len(),
            forall|m: int| 0 <= m < rows.len() ==> #[trigger] rv[m] == json_view(rows@[m]),
            forall|n: Seq<char>| #[trigger] listed_before(rv, i as int, n) <==> in_keys(keys@, n),
            keys.len() == 0 <==> !(exists|j: int| 0 <= j < i && field_str(#[trigger] rv[j], "key"@) is Some),
        decreases rows.len() - i,
    {
        match rows[i].get_str("key") {
            Some(k) => {
                let ghost before = keys@;
                keys.push(to_chars(k.as_str()));
                proof {
                    assert forall|n: Seq<char>| #[trigger] listed_before(rv, i + 1, n) implies in_keys(keys@, n) by {
                        let j = choose|j: int| 0 <= j < i + 1 && field_str(#[trigger] rv[j], "key"@) == Some(n);
                        if j < i {
                            assert(listed_before(rv, i as int, n));
                            let k = choose|k: int| 0 <= k < before.len() && (#[trigger] before[k])@ == n;
                            assert(keys@[k] == before[k]);
                        } else {
                            assert(keys@[keys.len() - 1]@ == n);
                        }
                    }
                    assert forall|n: Seq<char>| in_keys(keys@, n) implies #[trigger] listed_before(rv, i + 1, n) by {
                        let k = choose|k: int| 0 <= k < keys.len() && (#[trigger] keys@[k])@ == n;
                        if k < before.len() {
                            assert(keys@[k] == before[k]);
                            assert(in_keys(before, n));
                            assert(listed_before(rv, i as int, n));
                        } else {
                            assert(field_str(rv[i as int], "key"@) == Some(n));
                        }
                    }
                    assert(field_str(rv[i as int], "key"@) is Some);
                }
            },
            None => {
                proof {
                    assert forall|n: Seq<char>| #[trigger] listed_before(rv, i + 1, n) implies in_keys(keys@, n) by {
                        let j = choose|j: int| 0 <= j < i + 1 && field_str(#[trigger] rv[j], "key"@) == Some(n);
                        assert(listed_before(rv, i as int, n));
                    }
                    assert forall|n: Seq<char>| in_keys(keys@, n) implies #[trigger] listed_before(rv, i + 1, n) by {
                        assert(listed_before(rv, i as int, n));
                    }
                }
            },
        }
        i += 1;
    }
    proof {
        assert forall|n: Seq<char>| key_listed(rv, n) <==> #[trigger] in_keys(keys@, n) by {
            assert(key_listed(rv, n) == listed_before(rv, rows.len() as int, n));
        }
    }
    if keys.len() == 0 {
        assert(!any_keyed(rv));
        return request;
    }
    assert(any_keyed(rv));
    let url = match request.get_str("url") {
        Some(u) => to_chars(u.as_str()),
        None => return request,
    };
    let e = find_path_end(url.as_slice());
    let ghost p = url@.take(e as int);
    let mut out: Vec<char> = Vec::new();
    let mut cur: Vec<char> = Vec::new();
    let ghost mut done: Seq<Seq<char>> = seq![];
    let mut j: usize = 0;
    assert(p.take(0) == Seq::<char>::empty());
    while j < e
        invariant
            j <= e,
            e <= url.len(),
            p == url@.take(e as int),
            forall|n: Seq<char>| key_listed(rv, n) <==> #[trigger] in_keys(keys@, n),
            split_slash(p.take(j as int)) == done.push(cur@),
            out@ == prefix_join(done, rv),
        decreases e - j,
    {
        assert(p.take(j + 1).drop_last() == p.take(j as int));
        assert(p.take(j + 1).last() == url@[j as int]);
        if url[j] == '/' {
            let s = segment_exec(cur.as_slice(), &keys, Ghost(rv));
            push_chars(&mut out, s.as_slice());
            out.push('/');
            proof {
                assert(done.push(cur@).drop_last() == done);
                done = done.push(cur@);
            }
            cur = Vec::new();
            assert(split_slash(p.take(j + 1)) == done.push(cur@));
        } else {
            proof {
                assert(done.push(cur@).update(done.len() as int, cur@.push(url@[j as int])) == done.push(cur@.push(url@[j as int])));
            }
            cur.push(url[j]);
        }
        j += 1;
    }
    let s = segment_exec(cur.as_slice(), &keys, Ghost(rv));
    push_chars(&mut out, s.as_slice());
    proof {
        assert(p.take(e as int) == p);
        lemma_join_push(done, cur@, rv);
        lemma_path_end_bounds(url@, 0);
    }
    let mut k = e;
    let ghost head = out@;
    while k < url.len()
        invariant
            e <= k <= url.len(),
            out@ == head + url@.subrange(e as int, k as int),
        decreases url.len() - k,
    {
        out.push(url[k]);
        assert(url@.subrange(e as int, k + 1) == url@.subrange(e as int, k as int).push(url@[k as int]));
        k += 1;
    }
    assert(url@.subrange(e as int, url.len() as int) == url@.skip(e as int));
    with_field(request, "url", Json::Str(from_chars(out.as_slice())))
}

} // verus!
