use vstd::prelude::*;
use vstd::string::*;

use crate::json::{entries_view, lemma_entries_view, lemma_items_view_push, field, field_array, field_bool, field_str, items_view, json_view, lemma_items_view, opt_json_view, Json, JsonV};
use crate::order::{is_sorted_set, is_stable_sort, lex_lt, pair_keys, sorted_unique, stable_order};
use crate::types::WorkspaceEnvironmentOption;
use crate::text::{ascii_lower, lower_chars, owned, chars_to_strings, strings_to_chars, strings_of, chars_eq, find_from, find_from_exec, from_chars, lemma_find_from_some, occurs_at, push_chars, replace_all, replace_chars, sub_chars, to_chars, trim_chars, trim_spec};
use crate::url::pairs_view;

verus! {

/// JSON-pointer escaping of one reference token: `~` becomes `~0`, then
/// `/` becomes `~1`.
pub open spec fn escape_pointer_spec(v: Seq<char>) -> Seq<char> {
    replace_all(replace_all(v, seq!['~'], seq!['~', '0']), seq!['/'], seq!['~', '1'])
}

/// Escapes a text for use as one token of a JSON pointer.
pub fn escape_pointer(value: &str) -> (r: String)
    ensures
        r@ == escape_pointer_spec(value@),
{
    let cs = to_chars(value);
    let tilde = vec!['~'];
    let tilde_esc = vec!['~', '0'];
    let slash = vec!['/'];
    let slash_esc = vec!['~', '1'];
    proof {
        assert(tilde@ == seq!['~']);
        assert(slash@ == seq!['/']);
        assert(tilde_esc@ == seq!['~', '0']);
        assert(slash_esc@ == seq!['~', '1']);
    }
    let a = replace_chars(cs.as_slice(), tilde.as_slice(), tilde_esc.as_slice());
    let b = replace_chars(a.as_slice(), slash.as_slice(), slash_esc.as_slice());
    from_chars(b.as_slice())
}

/// The value that the last pair with key `key` gives: later pairs replace
/// earlier ones, as when they are inserted into a map in order.
pub open spec fn lookup_last(vals: Seq<(Seq<char>, Seq<char>)>, key: Seq<char>) -> Option<Seq<char>>
    decreases vals.len(),
{
    if vals.len() == 0 {
        None
    } else if vals.last().0 == key {
        Some(vals.last().1)
    } else {
        lookup_last(vals.drop_last(), key)
    }
}

/// The value of the last pair whose key is `key`.
pub fn lookup_value<'a>(values: &'a [(String, String)], key: &[char]) -> (r: Option<&'a String>)
    ensures
        match r {
            Some(v) => lookup_last(pairs_view(values@), key@) == Some(v@),
            None => lookup_last(pairs_view(values@), key@) is None,
        },
{
    let mut j = values.len();
    assert(values@.take(j as int) == values@);
    while j > 0
        invariant
            j <= values.len(),
            lookup_last(pairs_view(values@), key@) == lookup_last(pairs_view(values@.take(j as int)), key@),
        decreases j,
    {
        assert(pairs_view(values@.take(j as int)).drop_last() == pairs_view(values@.take(j - 1)));
        assert(pairs_view(values@.take(j as int)).last() == (values@[j - 1].0@, values@[j - 1].1@));
        j -= 1;
        let k = to_chars(values[j].0.as_str());
        if chars_eq(k.as_slice(), key) {
            return Some(&values[j].1);
        }
    }
    None
}

/// What `resolve_text` makes of `s` from position `i` on: the output text
/// and the names it could not resolve, in order. `{{ name }}` is replaced by
/// the value of the trimmed name; an unknown name keeps its placeholder and
/// is reported; an opening `{{` without a closing `}}` is kept as it is.
pub open spec fn resolve_from(s: Seq<char>, i: int, vals: Seq<(Seq<char>, Seq<char>)>) -> (Seq<char>, Seq<Seq<char>>)
    decreases s.len() - i,
{
    if i < 0 || i >= s.len() {
        (seq![], seq![])
    } else if i + 1 < s.len() && s[i] == '{' && s[i + 1] == '{' {
        match find_from(s, seq!['}', '}'], i + 2) {
            None => (s.subrange(i, s.len() as int), seq![]),
            Some(e) => {
                proof {
                    lemma_find_from_some(s, seq!['}', '}'], i + 2);
                }
                let key = trim_spec(s.subrange(i + 2, e));
                let rest = resolve_from(s, e + 2, vals);
                match lookup_last(vals, key) {
                    Some(v) => (v + rest.0, rest.1),
                    None => (s.subrange(i, e + 2) + rest.0, seq![key] + rest.1),
                }
            },
        }
    } else {
        let rest = resolve_from(s, i + 1, vals);
        (seq![s[i]] + rest.0, rest.1)
    }
}

/// Replaces each `{{ name }}` placeholder of `text` by the value of `name`;
/// names without a value are appended to `unresolved`, in order.
pub fn resolve_text(text: &str, values: &[(String, String)], unresolved: &mut Vec<String>) -> (r: String)
    ensures
        r@ == resolve_from(text@, 0, pairs_view(values@)).0,
        strings_of(final(unresolved)@) == strings_of(old(unresolved)@) + resolve_from(text@, 0, pairs_view(values@)).1,
{
    let ghost vals = pairs_view(values@);
    let s = to_chars(text);
    let close = vec!['}', '}'];
    assert(close@ == seq!['}', '}']);
    let mut out: Vec<char> = Vec::new();
    let mut i: usize = 0;
    while i < s.len()
        invariant
            i <= s.len(),
            s@ == text@,
            close@ == seq!['}', '}'],
            vals == pairs_view(values@),
            out@ + resolve_from(s@, i as int, vals).0 == resolve_from(s@, 0, vals).0,
            strings_of(unresolved@) + resolve_from(s@, i as int, vals).1 == strings_of(old(unresolved)@)
                + resolve_from(s@, 0, vals).1,
        decreases s.len() - i,
    {
        let ghost before_out = out@;
        let ghost before_un = strings_of(unresolved@);
        if i + 1 < s.len() && s[i] == '{' && s[i + 1] == '{' {
            match find_from_exec(s.as_slice(), close.as_slice(), i + 2) {
                None => {
                    let ghost tail = s@.subrange(i as int, s.len() as int);
                    let rest = sub_chars(s.as_slice(), i, s.len());
                    push_chars(&mut out, rest.as_slice());
                    assert(resolve_from(s@, s.len() as int, vals) == (Seq::<char>::empty(), Seq::<Seq<char>>::empty()));
                    assert(out@ + resolve_from(s@, s.len() as int, vals).0 == out@);
                    assert(strings_of(unresolved@) + resolve_from(s@, s.len() as int, vals).1 == strings_of(unresolved@));
                    i = s.len();
                },
                Some(e) => {
                    proof {
                        lemma_find_from_some(s@, seq!['}', '}'], i + 2);
                    }
                    let raw = sub_chars(s.as_slice(), i + 2, e);
                    let key = trim_chars(raw.as_slice());
                    match lookup_value(values, key.as_slice()) {
                        Some(v) => {
                            let vc = to_chars(v.as_str());
                            push_chars(&mut out, vc.as_slice());
                        },
                        None => {
                            let whole = sub_chars(s.as_slice(), i, e + 2);
                            push_chars(&mut out, whole.as_slice());
                            unresolved.push(from_chars(key.as_slice()));
                            assert(strings_of(unresolved@) == before_un.push(key@));
                            assert(before_un.push(key@) + resolve_from(s@, e + 2, vals).1 == before_un + (seq![key@] + resolve_from(s@, e + 2, vals).1));
                        },
                    }
                    i = e + 2;
                },
            }
        } else {
            out.push(s[i]);
            i += 1;
        }
    }
    assert(resolve_from(s@, i as int, vals) == (Seq::<char>::empty(), Seq::<Seq<char>>::empty()));
    assert(out@ + Seq::<char>::empty() == out@);
    assert(strings_of(unresolved@) + Seq::<Seq<char>>::empty() == strings_of(unresolved@));
    from_chars(out.as_slice())
}


/// What `resolve_value` makes of a document: every string resolved as by
/// `resolve_text`, with the unresolved names of all strings in document order.
pub open spec fn resolve_value_spec(v: JsonV, vals: Seq<(Seq<char>, Seq<char>)>) -> (JsonV, Seq<Seq<char>>)
    decreases v,
{
    match v {
        JsonV::Str(t) => {
            let r = resolve_from(t, 0, vals);
            (JsonV::Str(r.0), r.1)
        },
        JsonV::Array(items) => {
            let r = resolve_items_spec(items, vals);
            (JsonV::Array(r.0), r.1)
        },
        JsonV::Object(es) => {
            let r = resolve_entries_spec(es, vals);
            (JsonV::Object(r.0), r.1)
        },
        _ => (v, seq![]),
    }
}

pub open spec fn resolve_items_spec(items: Seq<JsonV>, vals: Seq<(Seq<char>, Seq<char>)>) -> (Seq<JsonV>, Seq<Seq<char>>)
    decreases items,
{
    if items.len() == 0 {
        (seq![], seq![])
    } else {
        let a = resolve_items_spec(items.drop_last(), vals);
        let b = resolve_value_spec(items.last(), vals);
        (a.0.push(b.0), a.1 + b.1)
    }
}

pub open spec fn resolve_entries_spec(es: Seq<(Seq<char>, JsonV)>, vals: Seq<(Seq<char>, Seq<char>)>) -> (Seq<(Seq<char>, JsonV)>, Seq<Seq<char>>)
    decreases es,
{
    if es.len() == 0 {
        (seq![], seq![])
    } else {
        let a = resolve_entries_spec(es.drop_last(), vals);
        let b = resolve_value_spec(es.last().1, vals);
        (a.0.push((es.last().0, b.0)), a.1 + b.1)
    }
}

/// Resolves the placeholders of every string of a document; unresolved
/// names are appended to `unresolved` in document order.
pub fn resolve_value(value: &Json, values: &[(String, String)], unresolved: &mut Vec<String>) -> (r: Json)
    ensures
        r@ == resolve_value_spec(value@, pairs_view(values@)).0,
        strings_of(final(unresolved)@) == strings_of(old(unresolved)@) + resolve_value_spec(value@, pairs_view(values@)).1,
    decreases value,
{
    let ghost vals = pairs_view(values@);
    match value {
        Json::Str(text) => Json::Str(resolve_text(text.as_str(), values, unresolved)),
        Json::Array(items) => {
            let mut out: Vec<Json> = Vec::new();
            let mut i: usize = 0;
            while i < items.len()
                invariant
                    i <= items.len(),
                    *value == Json::Array(*items),
                    vals == pairs_view(values@),
                    items_view(out@) == resolve_items_spec(items_view(items@.take(i as int)), vals).0,
                    strings_of(unresolved@) == strings_of(old(unresolved)@) + resolve_items_spec(items_view(items@.take(i as int)), vals).1,
                decreases items.len() - i,
            {
                proof {
                    assert(decreases_to!(*value => (*value)->Array_0));
                    assert(decreases_to!(*items => items@));
                    assert(decreases_to!(items@ => items@[i as int]));
                }
                let ghost before_un = strings_of(unresolved@);
                let child = resolve_value(&items[i], values, unresolved);
                let ghost before = out@;
                out.push(child);
                proof {
                    assert(out@.drop_last() == before);
                    assert(items@.take(i + 1).drop_last() == items@.take(i as int));
                    assert(items_view(items@.take(i + 1)).drop_last() == items_view(items@.take(i as int)));
                    assert(items_view(items@.take(i + 1)).last() == json_view(items@[i as int]));
                    let a = resolve_items_spec(items_view(items@.take(i as int)), vals);
                    let b = resolve_value_spec(json_view(items@[i as int]), vals);
                    assert(strings_of(old(unresolved)@) + a.1 + b.1 == strings_of(old(unresolved)@) + (a.1 + b.1));
                }
                i += 1;
            }
            assert(items@.take(items.len() as int) == items@);
            Json::Array(out)
        },
        Json::Object(entries) => {
            let mut out: Vec<(String, Json)> = Vec::new();
            let mut i: usize = 0;
            while i < entries.len()
                invariant
                    i <= entries.len(),
                    *value == Json::Object(*entries),
                    vals == pairs_view(values@),
                    entries_view(out@) == resolve_entries_spec(entries_view(entries@.take(i as int)), vals).0,
                    strings_of(unresolved@) == strings_of(old(unresolved)@) + resolve_entries_spec(entries_view(entries@.take(i as int)), vals).1,
                decreases entries.len() - i,
            {
                proof {
                    assert(decreases_to!(*value => (*value)->Object_0));
                    assert(decreases_to!(*entries => entries@));
                    assert(decreases_to!(entries@ => entries@[i as int]));
                    assert(decreases_to!(entries@[i as int] => entries@[i as int].1));
                }
                let child = resolve_value(&entries[i].1, values, unresolved);
                let ghost before = out@;
                out.push((entries[i].0.clone(), child));
                proof {
                    assert(out@.drop_last() == before);
                    assert(entries@.take(i + 1).drop_last() == entries@.take(i as int));
                    assert(entries_view(entries@.take(i + 1)).drop_last() == entries_view(entries@.take(i as int)));
                    assert(entries_view(entries@.take(i + 1)).last() == (entries@[i as int].0@, json_view(entries@[i as int].1)));
                    let a = resolve_entries_spec(entries_view(entries@.take(i as int)), vals);
                    let b = resolve_value_spec(json_view(entries@[i as int].1), vals);
                    assert(strings_of(old(unresolved)@) + a.1 + b.1 == strings_of(old(unresolved)@) + (a.1 + b.1));
                }
                i += 1;
            }
            assert(entries@.take(entries.len() as int) == entries@);
            Json::Object(out)
        },
        _ => value.deep_clone(),
    }
}


/// A text, or the empty text.
pub open spec fn or_empty(o: Option<Seq<char>>) -> Seq<char> {
    match o {
        Some(s) => s,
        None => seq![],
    }
}

/// The first item whose `id` field is the text `id`.
pub open spec fn first_with_id(items: Seq<JsonV>, id: Seq<char>) -> Option<JsonV>
    decreases items.len(),
{
    if items.len() == 0 {
        None
    } else if field_str(items[0], "id"@) == Some(id) {
        Some(items[0])
    } else {
        first_with_id(items.drop_first(), id)
    }
}

/// The environment with the given id in the shared environments file.
pub open spec fn find_environment(shared: JsonV, id: Seq<char>) -> Option<JsonV> {
    match field_array(shared, "environments"@) {
        Some(items) => first_with_id(items, id),
        None => None,
    }
}

/// The variables of an environment (none when the field is not an array).
pub open spec fn variables_of(env: JsonV) -> Seq<JsonV> {
    match field_array(env, "variables"@) {
        Some(v) => v,
        None => seq![],
    }
}

/// A variable is secret unless it says `"secret": false`.
pub open spec fn is_secret(var: JsonV) -> bool {
    field_bool(var, "secret"@) != Some(false)
}

/// The key under which the local file keeps a secret variable's value.
pub open spec fn local_key(env_id: Seq<char>, var: JsonV) -> Seq<char> {
    env_id + seq!['/'] + or_empty(field_str(var, "id"@))
}

/// The text the local file keeps under `values` for a key.
pub open spec fn local_value(local: JsonV, key: Seq<char>) -> Option<Seq<char>> {
    match field(local, "values"@) {
        Some(vs) => field_str(vs, key),
        None => None,
    }
}

/// The value of a variable: a secret's from the local file, any other's
/// from its own `value` field (empty when absent).
pub open spec fn variable_value(local: JsonV, env_id: Seq<char>, var: JsonV) -> Seq<char> {
    if is_secret(var) {
        or_empty(local_value(local, local_key(env_id, var)))
    } else {
        or_empty(field_str(var, "value"@))
    }
}

/// A variable takes part unless it says `"enabled": false`, and only when
/// its key is not empty.
pub open spec fn is_active(var: JsonV) -> bool {
    field_bool(var, "enabled"@) != Some(false) && or_empty(field_str(var, "key"@)).len() > 0
}

/// The (key, value) pairs of the active variables, in order.
pub open spec fn env_pairs(vars: Seq<JsonV>, local: JsonV, env_id: Seq<char>) -> Seq<(Seq<char>, Seq<char>)>
    decreases vars.len(),
{
    if vars.len() == 0 {
        seq![]
    } else {
        let before = env_pairs(vars.drop_last(), local, env_id);
        let v = vars.last();
        if is_active(v) {
            before.push((or_empty(field_str(v, "key"@)), variable_value(local, env_id, v)))
        } else {
            before
        }
    }
}

/// The non-empty values of the active secret variables, in order.
pub open spec fn env_secrets(vars: Seq<JsonV>, local: JsonV, env_id: Seq<char>) -> Seq<Seq<char>>
    decreases vars.len(),
{
    if vars.len() == 0 {
        seq![]
    } else {
        let before = env_secrets(vars.drop_last(), local, env_id);
        let v = vars.last();
        if is_active(v) && is_secret(v) && variable_value(local, env_id, v).len() > 0 {
            before.push(variable_value(local, env_id, v))
        } else {
            before
        }
    }
}

fn str_field_or_empty(v: &Json, key: &str) -> (r: String)
    ensures
        r@ == or_empty(field_str(v@, key@)),
{
    match v.get_str(key) {
        Some(s) => s.clone(),
        None => String::new(),
    }
}

/// Finds the environment with id `environment_id` in the shared file.
pub fn find_environment_exec<'a>(shared: &'a Json, environment_id: &str) -> (r: Option<&'a Json>)
    ensures
        opt_json_view(r) == find_environment(shared@, environment_id@),
{
    match shared.get_array("environments") {
        None => None,
        Some(items) => {
            proof {
                lemma_items_view(items@);
            }
            let ghost iv = items_view(items@);
            let mut i: usize = 0;
            assert(iv.skip(0) == iv);
            while i < items.len()
                invariant
                    i <= items.len(),
                    iv == items_view(items@),
                    field_array(shared@, "environments"@) == Some(iv),
                    iv.len() == items.len(),
                    forall|k: int| 0 <= k < items.len() ==> #[trigger] iv[k] == json_view(items@[k]),
                    first_with_id(iv, environment_id@) == first_with_id(iv.skip(i as int), environment_id@),
                decreases items.len() - i,
            {
                assert(iv.skip(i as int).drop_first() == iv.skip(i + 1));
                assert(iv.skip(i as int)[0] == iv[i as int]);
                match items[i].get_str("id") {
                    Some(id) => {
                        if crate::text::str_eq(id.as_str(), environment_id) {
                            assert(iv.skip(i as int).len() > 0);
                            assert(field_str(iv.skip(i as int)[0], "id"@) == Some(environment_id@));
                            assert(first_with_id(iv.skip(i as int), environment_id@) == Some(iv[i as int]));
                            assert(field_array(shared@, "environments"@) == Some(iv));
                            assert(find_environment(shared@, environment_id@) == Some(iv[i as int]));
                            assert(iv[i as int] == items@[i as int]@);
                            return Some(&items[i]);
                        }
                    },
                    None => {},
                }
                i += 1;
            }
            None
        },
    }
}

fn variable_value_exec(local: &Json, environment_id: &str, var: &Json) -> (r: String)
    ensures
        r@ == variable_value(local@, environment_id@, var@),
{
    let secret = match var.get_bool("secret") {
        Some(b) => b,
        None => true,
    };
    if secret {
        let id = str_field_or_empty(var, "id");
        let mut key = to_chars(environment_id);
        key.push('/');
        let idc = to_chars(id.as_str());
        push_chars(&mut key, idc.as_slice());
        assert(key@ == local_key(environment_id@, var@));
        let key = from_chars(key.as_slice());
        match local.get("values") {
            Some(values) => str_field_or_empty(values, key.as_str()),
            None => String::new(),
        }
    } else {
        str_field_or_empty(var, "value")
    }
}

/// The pairs and secret values that an environment defines.
fn environment_values(env: &Json, local: &Json, environment_id: &str) -> (r: (Vec<(String, String)>, Vec<String>))
    ensures
        pairs_view(r.0@) == env_pairs(variables_of(env@), local@, environment_id@),
        strings_of(r.1@) == env_secrets(variables_of(env@), local@, environment_id@),
{
    let empty: Vec<Json> = Vec::new();
    let vars: &Vec<Json> = match env.get_array("variables") {
        Some(v) => v,
        None => &empty,
    };
    assert(items_view(vars@) == variables_of(env@));
    let ghost vv = items_view(vars@);
    let mut values: Vec<(String, String)> = Vec::new();
    let mut secrets: Vec<String> = Vec::new();
    let mut i: usize = 0;
    while i < vars.len()
        invariant
            i <= vars.len(),
            vv == items_view(vars@),
            pairs_view(values@) == env_pairs(items_view(vars@.take(i as int)), local@, environment_id@),
            strings_of(secrets@) == env_secrets(items_view(vars@.take(i as int)), local@, environment_id@),
        decreases vars.len() - i,
    {
        let var = &vars[i];
        proof {
            assert(vars@.take(i + 1).drop_last() == vars@.take(i as int));
            assert(items_view(vars@.take(i + 1)).drop_last() == items_view(vars@.take(i as int)));
            assert(items_view(vars@.take(i + 1)).last() == json_view(vars@[i as int]));
        }
        let key = str_field_or_empty(var, "key");
        let enabled = match var.get_bool("enabled") {
            Some(b) => b,
            None => true,
        };
        if enabled && !key.as_str().is_empty() {
            let secret = match var.get_bool("secret") {
                Some(b) => b,
                None => true,
            };
            let value = variable_value_exec(local, environment_id, var);
            let ghost before = values@;
            let is_secret_value = secret && !value.as_str().is_empty();
            if is_secret_value {
                let ghost before_s = secrets@;
                secrets.push(value.clone());
                assert(strings_of(secrets@) == strings_of(before_s).push(value@));
            }
            values.push((key, value));
            assert(pairs_view(values@) == pairs_view(before).push((values@.last().0@, values@.last().1@)));
        }
        i += 1;
    }
    assert(vars@.take(vars.len() as int) == vars@);
    (values, secrets)
}

/// What `resolve_request` gives for a request in an environment: the
/// request with every placeholder resolved, the unresolved names sorted and
/// without duplicates, and the secret values used.
pub open spec fn resolve_request_spec(shared: JsonV, local: JsonV, env_id: Seq<char>, request: JsonV, value: JsonV, unresolved: Seq<Seq<char>>, secrets: Seq<Seq<char>>) -> bool {
    match find_environment(shared, env_id) {
        Some(env) => {
            let vals = env_pairs(variables_of(env), local, env_id);
            let res = resolve_value_spec(request, vals);
            &&& value == res.0
            &&& is_sorted_set(res.1, unresolved)
            &&& secrets == env_secrets(variables_of(env), local, env_id)
        },
        None => false,
    }
}

/// Resolves a request against an environment of the shared file
/// (`shared`), with secret values from the local file (`local`). The local
/// value of a secret is the one under `values` at the key
/// `"<environment id>/<variable id>"`.
pub fn resolve_request(shared: &Json, local: &Json, environment_id: &str, request: &Json) -> (r: Result<(Json, Vec<String>, Vec<String>), String>)
    ensures
        match r {
            Ok((value, unresolved, secrets)) => resolve_request_spec(shared@, local@, environment_id@, request@, value@, strings_of(unresolved@), strings_of(secrets@)),
            Err(e) => find_environment(shared@, environment_id@) is None && e@ == "Environment not found"@,
        },
{
    let env = match find_environment_exec(shared, environment_id) {
        Some(env) => env,
        None => return Err(String::from_str("Environment not found")),
    };
    let (values, secrets) = environment_values(env, local, environment_id);
    let mut unresolved: Vec<String> = Vec::new();
    let resolved = resolve_value(request, values.as_slice(), &mut unresolved);
    assert(strings_of(unresolved@) == Seq::<Seq<char>>::empty() + resolve_value_spec(request@, pairs_view(values@)).1);
    let chars = strings_to_chars(&unresolved);
    let unique = sorted_unique(&chars);
    let names = chars_to_strings(&unique);
    Ok((resolved, names, secrets))
}


/// A field's value, or `null` when absent.
pub open spec fn or_null(o: Option<JsonV>) -> JsonV {
    match o {
        Some(v) => v,
        None => JsonV::Null,
    }
}

/// What the metadata says of one variable: its key, description and
/// enabled flag as stored, whether it is secret, and whether it has a value.
pub open spec fn variable_metadata(local: JsonV, env_id: Seq<char>, var: JsonV) -> JsonV {
    JsonV::Object(seq![
        ("description"@, or_null(field(var, "description"@))),
        ("enabled"@, or_null(field(var, "enabled"@))),
        ("key"@, or_null(field(var, "key"@))),
        ("resolved"@, JsonV::Bool(variable_value(local, env_id, var).len() > 0)),
        ("secret"@, JsonV::Bool(is_secret(var))),
    ])
}

/// The metadata of an environment: its id, its name and its variables,
/// without any value.
pub open spec fn environment_metadata_spec(local: JsonV, env_id: Seq<char>, env: JsonV) -> JsonV {
    JsonV::Object(seq![
        ("id"@, JsonV::Str(env_id)),
        ("name"@, or_null(field(env, "name"@))),
        ("variables"@, JsonV::Array(variables_of(env).map_values(|v: JsonV| variable_metadata(local, env_id, v)))),
    ])
}

fn field_or_null(v: &Json, key: &str) -> (r: Json)
    ensures
        r@ == or_null(field(v@, key@)),
{
    match v.get(key) {
        Some(f) => f.deep_clone(),
        None => Json::Null,
    }
}

fn variable_metadata_exec(local: &Json, environment_id: &str, var: &Json) -> (r: Json)
    ensures
        r@ == variable_metadata(local@, environment_id@, var@),
{
    let secret = match var.get_bool("secret") {
        Some(b) => b,
        None => true,
    };
    let value = variable_value_exec(local, environment_id, var);
    let entries = vec![
        (owned("description"), field_or_null(var, "description")),
        (owned("enabled"), field_or_null(var, "enabled")),
        (owned("key"), field_or_null(var, "key")),
        (owned("resolved"), Json::Bool(!value.as_str().is_empty())),
        (owned("secret"), Json::Bool(secret)),
    ];
    proof {
        lemma_entries_view(entries@);
        assert(entries_view(entries@) =~= seq![
            ("description"@, or_null(field(var@, "description"@))),
            ("enabled"@, or_null(field(var@, "enabled"@))),
            ("key"@, or_null(field(var@, "key"@))),
            ("resolved"@, JsonV::Bool(variable_value(local@, environment_id@, var@).len() > 0)),
            ("secret"@, JsonV::Bool(is_secret(var@))),
        ]);
    }
    Json::Object(entries)
}

/// The metadata of the environment `environment_id`: for each variable its
/// key, description, enabled flag, whether it is secret and whether it has
/// a value; never a value itself.
pub fn environment_metadata(shared: &Json, local: &Json, environment_id: &str) -> (r: Result<Json, String>)
    ensures
        match r {
            Ok(v) => find_environment(shared@, environment_id@) matches Some(env) && v@ == environment_metadata_spec(local@, environment_id@, env),
            Err(e) => find_environment(shared@, environment_id@) is None && e@ == "Environment not found"@,
        },
{
    let env = match find_environment_exec(shared, environment_id) {
        Some(env) => env,
        None => return Err(String::from_str("Environment not found")),
    };
    let empty: Vec<Json> = Vec::new();
    let vars: &Vec<Json> = match env.get_array("variables") {
        Some(v) => v,
        None => &empty,
    };
    assert(items_view(vars@) == variables_of(env@));
    let ghost f = |v: JsonV| variable_metadata(local@, environment_id@, v);
    let mut out: Vec<Json> = Vec::new();
    let mut i: usize = 0;
    while i < vars.len()
        invariant
            i <= vars.len(),
            f == (|v: JsonV| variable_metadata(local@, environment_id@, v)),
            items_view(out@) == items_view(vars@.take(i as int)).map_values(f),
        decreases vars.len() - i,
    {
        let m = variable_metadata_exec(local, environment_id, &vars[i]);
        let ghost before = out@;
        out.push(m);
        proof {
            lemma_items_view_push(before, m);
            assert(out@ == before.push(m));
            assert(vars@.take(i + 1).drop_last() == vars@.take(i as int));
            assert(items_view(vars@.take(i + 1)) == items_view(vars@.take(i as int)).push(json_view(vars@[i as int])));
            assert(items_view(vars@.take(i + 1)).map_values(f) =~= items_view(vars@.take(i as int)).map_values(f).push(f(json_view(vars@[i as int]))));
        }
        i += 1;
    }
    assert(vars@.take(vars.len() as int) == vars@);
    let entries = vec![
        (owned("id"), Json::Str(owned(environment_id))),
        (owned("name"), field_or_null(env, "name")),
        (owned("variables"), Json::Array(out)),
    ];
    proof {
        lemma_entries_view(entries@);
        assert(entries_view(entries@) =~= seq![
            ("id"@, JsonV::Str(environment_id@)),
            ("name"@, or_null(field(env@, "name"@))),
            ("variables"@, JsonV::Array(variables_of(env@).map_values(f))),
        ]);
    }
    Ok(Json::Object(entries))
}


/// The number of secret variables.
pub open spec fn secret_count(vars: Seq<JsonV>) -> nat
    decreases vars.len(),
{
    if vars.len() == 0 {
        0
    } else {
        secret_count(vars.drop_last()) + if is_secret(vars.last()) { 1nat } else { 0nat }
    }
}

/// The name an environment is listed under.
pub open spec fn environment_name(env: JsonV) -> Seq<char> {
    match field_str(env, "name"@) {
        Some(n) => n,
        None => "Environment"@,
    }
}

/// The sort key of an environment: its name in ASCII lowercase, then its id.
pub open spec fn option_keys(items: Seq<JsonV>) -> Seq<(Seq<char>, Seq<char>)> {
    Seq::new(items.len(), |i: int| (ascii_lower(environment_name(items[i])), or_empty(field_str(items[i], "id"@))))
}

/// The option listed for an environment.
pub open spec fn is_option_of(o: WorkspaceEnvironmentOption, env: JsonV) -> bool {
    &&& o.id@ == or_empty(field_str(env, "id"@))
    &&& o.name@ == environment_name(env)
    &&& o.variable_count == variables_of(env).len()
    &&& o.secret_count == secret_count(variables_of(env))
}

/// The environments of the shared file (none when it has no list).
pub open spec fn environments_of(shared: JsonV) -> Seq<JsonV> {
    match field_array(shared, "environments"@) {
        Some(items) => items,
        None => seq![],
    }
}

fn environment_option(env: &Json) -> (r: WorkspaceEnvironmentOption)
    ensures
        is_option_of(r, env@),
{
    let empty: Vec<Json> = Vec::new();
    let vars: &Vec<Json> = match env.get_array("variables") {
        Some(v) => v,
        None => &empty,
    };
    assert(items_view(vars@) == variables_of(env@));
    proof {
        lemma_items_view(vars@);
    }
    let mut count: usize = 0;
    let mut i: usize = 0;
    while i < vars.len()
        invariant
            i <= vars.len(),
            count <= i,
            count == secret_count(items_view(vars@.take(i as int))),
        decreases vars.len() - i,
    {
        proof {
            assert(vars@.take(i + 1).drop_last() == vars@.take(i as int));
            assert(items_view(vars@.take(i + 1)).drop_last() == items_view(vars@.take(i as int)));
            assert(items_view(vars@.take(i + 1)).last() == json_view(vars@[i as int]));
        }
        let secret = match vars[i].get_bool("secret") {
            Some(b) => b,
            None => true,
        };
        if secret {
            count += 1;
        }
        i += 1;
    }
    assert(vars@.take(vars.len() as int) == vars@);
    proof {
        reveal_strlit("Environment");
    }
    let name = match env.get_str("name") {
        Some(n) => n.clone(),
        None => owned("Environment"),
    };
    WorkspaceEnvironmentOption {
        id: str_field_or_empty(env, "id"),
        name,
        variable_count: vars.len(),
        secret_count: count,
    }
}

/// The environments of the shared file, sorted by name (ASCII
/// case-insensitively), then by id; environments with equal keys keep their order.
pub fn list_environment_options(shared: &Json) -> (r: Vec<WorkspaceEnvironmentOption>)
    ensures
        exists|order: Seq<usize>|
            is_stable_sort(option_keys(environments_of(shared@)), order) && r.len() == order.len() && forall|k: int|
                0 <= k < r.len() ==> is_option_of(#[trigger] r@[k], environments_of(shared@)[order[k] as int]),
{
    let empty: Vec<Json> = Vec::new();
    let items: &Vec<Json> = match shared.get_array("environments") {
        Some(v) => v,
        None => &empty,
    };
    let ghost envs = items_view(items@);
    assert(envs == environments_of(shared@));
    proof {
        lemma_items_view(items@);
    }
    let mut options: Vec<WorkspaceEnvironmentOption> = Vec::new();
    let mut names: Vec<Vec<char>> = Vec::new();
    let mut ids: Vec<Vec<char>> = Vec::new();
    let mut i: usize = 0;
    while i < items.len()
        invariant
            i <= items.len(),
            envs == items_view(items@),
            envs.len() == items.len(),
            forall|k: int| 0 <= k < items.len() ==> #[trigger] envs[k] == json_view(items@[k]),
            options.len() == i,
            names.len() == i,
            ids.len() == i,
            forall|k: int| 0 <= k < i ==> is_option_of(#[trigger] options@[k], envs[k]),
            forall|k: int| 0 <= k < i ==> (#[trigger] names@[k])@ == ascii_lower(environment_name(envs[k])),
            forall|k: int| 0 <= k < i ==> (#[trigger] ids@[k])@ == or_empty(field_str(envs[k], "id"@)),
        decreases items.len() - i,
    {
        let o = environment_option(&items[i]);
        let nc = to_chars(o.name.as_str());
        names.push(lower_chars(nc.as_slice()));
        ids.push(to_chars(o.id.as_str()));
        options.push(o);
        i += 1;
    }
    let order = stable_order(&names, &ids);
    assert(pair_keys(names@, ids@) =~= option_keys(envs));
    let mut out: Vec<WorkspaceEnvironmentOption> = Vec::new();
    let mut k: usize = 0;
    while k < order.len()
        invariant
            k <= order.len(),
            is_stable_sort(option_keys(envs), order@),
            options.len() == envs.len(),
            forall|m: int| 0 <= m < options.len() ==> is_option_of(#[trigger] options@[m], envs[m]),
            out.len() == k,
            forall|m: int| 0 <= m < k ==> is_option_of(#[trigger] out@[m], envs[order@[m] as int]),
        decreases order.len() - k,
    {
        let idx = order[k];
        let src = &options[idx];
        out.push(WorkspaceEnvironmentOption {
            id: src.id.clone(),
            name: src.name.clone(),
            variable_count: src.variable_count,
            secret_count: src.secret_count,
        });
        k += 1;
    }
    out
}

} // verus!

verus! {

/// A variable that says `"enabled": false` gives no pair: when every
/// variable whose key is `key` is disabled, no pair of the environment has
/// that key.
pub proof fn law_disabled_variables_give_no_pair(vars: Seq<JsonV>, local: JsonV, env_id: Seq<char>, key: Seq<char>)
    requires
        forall|i: int|
            0 <= i < vars.len() && field_str(#[trigger] vars[i], "key"@) == Some(key) ==> field_bool(vars[i], "enabled"@)
                == Some(false),
    ensures
        forall|j: int|
            0 <= j < env_pairs(vars, local, env_id).len() ==> (#[trigger] env_pairs(vars, local, env_id)[j]).0 != key,
    decreases vars.len(),
{
    if vars.len() > 0 {
        let front = vars.drop_last();
        assert forall|i: int|
            0 <= i < front.len() && field_str(#[trigger] front[i], "key"@) == Some(key) implies field_bool(front[i], "enabled"@)
                == Some(false) by {
            assert(front[i] == vars[i]);
        }
        law_disabled_variables_give_no_pair(front, local, env_id, key);
        let v = vars.last();
        assert(v == vars[vars.len() - 1]);
        let before = env_pairs(front, local, env_id);
        if is_active(v) {
            let pk = or_empty(field_str(v, "key"@));
            assert(field_str(v, "key"@) == Some(pk));
            assert forall|j: int|
                0 <= j < env_pairs(vars, local, env_id).len() implies (#[trigger] env_pairs(vars, local, env_id)[j]).0
                != key by {
                if j < before.len() {
                    assert(env_pairs(vars, local, env_id)[j] == before[j]);
                }
            }
        }
    }
}

proof fn lemma_lookup_absent(vals: Seq<(Seq<char>, Seq<char>)>, key: Seq<char>)
    requires
        forall|j: int| 0 <= j < vals.len() ==> (#[trigger] vals[j]).0 != key,
    ensures
        lookup_last(vals, key) is None,
    decreases vals.len(),
{
    if vals.len() > 0 {
        let front = vals.drop_last();
        assert forall|j: int| 0 <= j < front.len() implies (#[trigger] front[j]).0 != key by {
            assert(front[j] == vals[j]);
        }
        assert(vals.last() == vals[vals.len() - 1]);
        lemma_lookup_absent(front, key);
    }
}

proof fn lemma_find_close(s: Seq<char>, j: int, e: int)
    requires
        0 <= j <= e,
        e + 2 == s.len(),
        forall|m: int| j <= m < e ==> s[m] != '}',
        s[e] == '}',
        s[e + 1] == '}',
    ensures
        find_from(s, seq!['}', '}'], j) == Some(e),
    decreases e - j,
{
    if j < e {
        assert(!occurs_at(s, j, seq!['}', '}'])) by {
            if occurs_at(s, j, seq!['}', '}']) {
                assert(s.subrange(j, j + 2)[0] == s[j]);
            }
        }
        lemma_find_close(s, j + 1, e);
    } else {
        assert(s.subrange(e, e + 2) =~= seq!['}', '}']);
    }
}

/// A placeholder whose name only disabled variables carry is not resolved:
/// resolving the text `{{key}}` in such an environment leaves it as it is
/// and reports `key`, the one unresolved name.
pub proof fn law_disabled_variable_unresolved(
    shared: JsonV,
    local: JsonV,
    env_id: Seq<char>,
    key: Seq<char>,
    value: JsonV,
    unresolved: Seq<Seq<char>>,
    secrets: Seq<Seq<char>>,
)
    requires
        key.len() > 0,
        trim_spec(key) == key,
        forall|m: int| 0 <= m < key.len() ==> key[m] != '}',
        find_environment(shared, env_id) matches Some(env) && forall|i: int|
            0 <= i < variables_of(env).len() && field_str(#[trigger] variables_of(env)[i], "key"@) == Some(key)
                ==> field_bool(variables_of(env)[i], "enabled"@) == Some(false),
        resolve_request_spec(
            shared,
            local,
            env_id,
            JsonV::Str(seq!['{', '{'] + key + seq!['}', '}']),
            value,
            unresolved,
            secrets,
        ),
    ensures
        value == JsonV::Str(seq!['{', '{'] + key + seq!['}', '}']),
        unresolved == seq![key],
{
    let env = find_environment(shared, env_id)->0;
    let vars = variables_of(env);
    let vals = env_pairs(vars, local, env_id);
    law_disabled_variables_give_no_pair(vars, local, env_id, key);
    lemma_lookup_absent(vals, key);
    let text = seq!['{', '{'] + key + seq!['}', '}'];
    let e: int = key.len() as int + 2;
    assert forall|m: int| 2 <= m < e implies text[m] != '}' by {
        assert(text[m] == key[m - 2]);
    }
    lemma_find_close(text, 2, e);
    assert(text.subrange(2, e) =~= key);
    assert(text.subrange(0, e + 2) =~= text);
    assert(resolve_from(text, e + 2, vals) == (Seq::<char>::empty(), Seq::<Seq<char>>::empty()));
    let r = resolve_from(text, 0, vals);
    assert(r.0 =~= text);
    assert(r.1 =~= seq![key]);
    assert(resolve_value_spec(JsonV::Str(text), vals) == (JsonV::Str(text), seq![key]));
    assert(is_sorted_set(seq![key], unresolved));
    assert(seq![key][0] == key);
    assert(unresolved.contains(key));
    assert forall|a: int| 0 <= a < unresolved.len() implies unresolved[a] == key by {
        assert(seq![key].contains(unresolved[a]));
    }
    if unresolved.len() > 1 {
        assert(unresolved[0] == key && unresolved[1] == key);
        crate::order::lemma_lex_irreflexive(key);
        assert(lex_lt(unresolved[0], unresolved[1]));
    }
    assert(unresolved =~= seq![key]);
}

} // verus!
