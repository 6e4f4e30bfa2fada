use vstd::prelude::*;
use crate::text::{chars_eq, char_vecs_of};

verus! {

/// Lexicographic order of character sequences by code point, which is the
/// order of `String`'s `Ord` (UTF-8 byte order agrees with code-point order).
pub open spec fn lex_lt(a: Seq<char>, b: Seq<char>) -> bool
    decreases a.len(),
{
    if a.len() == 0 {
        b.len() > 0
    } else if b.len() == 0 {
        false
    } else if a[0] != b[0] {
        a[0] < b[0]
    } else {
        lex_lt(a.drop_first(), b.drop_first())
    }
}

pub proof fn lemma_lex_irreflexive(a: Seq<char>)
    ensures
        !lex_lt(a, a),
    decreases a.len(),
{
    if a.len() > 0 {
        lemma_lex_irreflexive(a.drop_first());
    }
}

pub proof fn lemma_lex_transitive(a: Seq<char>, b: Seq<char>, c: Seq<char>)
    requires
        lex_lt(a, b),
        lex_lt(b, c),
    ensures
        lex_lt(a, c),
    decreases a.len(),
{
    if a.len() > 0 && b.len() > 0 && c.len() > 0 {
        if a[0] == b[0] && b[0] == c[0] {
            lemma_lex_transitive(a.drop_first(), b.drop_first(), c.drop_first());
        }
    }
}

pub proof fn lemma_lex_total(a: Seq<char>, b: Seq<char>)
    ensures
        a == b || lex_lt(a, b) || lex_lt(b, a),
    decreases a.len(),
{
    if a.len() > 0 && b.len() > 0 {
        if a[0] == b[0] {
            lemma_lex_total(a.drop_first(), b.drop_first());
            if a.drop_first() == b.drop_first() {
                assert(a == seq![a[0]] + a.drop_first());
                assert(b == seq![b[0]] + b.drop_first());
            }
        } else {
        }
    } else if a.len() == 0 && b.len() == 0 {
        assert(a == b);
    }
}

pub proof fn lemma_lex_asymmetric(a: Seq<char>, b: Seq<char>)
    requires
        lex_lt(a, b),
    ensures
        !lex_lt(b, a),
{
    if lex_lt(b, a) {
        lemma_lex_transitive(a, b, a);
        lemma_lex_irreflexive(a);
    }
}

/// Whether `a` sorts before `b` as strings.
pub fn chars_lt(a: &[char], b: &[char]) -> (r: bool)
    ensures
        r == lex_lt(a@, b@),
{
    let mut i: usize = 0;
    assert(a@.skip(0) == a@);
    assert(b@.skip(0) == b@);
    while i < a.len() && i < b.len()
        invariant
            i <= a.len(),
            i <= b.len(),
            a@.take(i as int) == b@.take(i as int),
            lex_lt(a@, b@) == lex_lt(a@.skip(i as int), b@.skip(i as int)),
        decreases a.len() - i,
    {
        if a[i] != b[i] {
            assert(a@.skip(i as int)[0] == a@[i as int]);
            assert(b@.skip(i as int)[0] == b@[i as int]);
            return a[i] < b[i];
        }
        assert(a@.skip(i as int).drop_first() == a@.skip(i + 1));
        assert(b@.skip(i as int).drop_first() == b@.skip(i + 1));
        assert(a@.take(i + 1) == a@.take(i as int).push(a@[i as int]));
        assert(b@.take(i + 1) == b@.take(i as int).push(b@[i as int]));
        i += 1;
    }
    i < b.len()
}

/// A sort key: a primary and a secondary text.
pub open spec fn key_lt(a: (Seq<char>, Seq<char>), b: (Seq<char>, Seq<char>)) -> bool {
    lex_lt(a.0, b.0) || (a.0 == b.0 && lex_lt(a.1, b.1))
}

/// Element `i` comes before element `j` in the stable order by key: its key
/// is smaller, or the keys are equal and `i` came first.
pub open spec fn stable_before(keys: Seq<(Seq<char>, Seq<char>)>, i: int, j: int) -> bool {
    key_lt(keys[i], keys[j]) || (keys[i] == keys[j] && i < j)
}

/// `order` lists every index of `keys` exactly once, sorted stably by key.
pub open spec fn is_stable_sort(keys: Seq<(Seq<char>, Seq<char>)>, order: Seq<usize>) -> bool {
    &&& order.len() == keys.len()
    &&& forall|k: int| 0 <= k < order.len() ==> #[trigger] order[k] < keys.len()
    &&& forall|k: int, l: int| 0 <= k < l < order.len() ==> order[k] != order[l]
    &&& forall|k: int, l: int|
        0 <= k < l < order.len() ==> stable_before(keys, order[k] as int, order[l] as int)
    &&& forall|m: usize| (m as int) < keys.len() ==> order.contains(m)
}

pub proof fn lemma_stable_before_transitive(keys: Seq<(Seq<char>, Seq<char>)>, i: int, j: int, k: int)
    requires
        stable_before(keys, i, j),
        stable_before(keys, j, k),
    ensures
        stable_before(keys, i, k),
{
    let (a, b, c) = (keys[i], keys[j], keys[k]);
    if lex_lt(a.0, b.0) && lex_lt(b.0, c.0) {
        lemma_lex_transitive(a.0, b.0, c.0);
    }
    if a.0 == b.0 && b.0 == c.0 && lex_lt(a.1, b.1) && lex_lt(b.1, c.1) {
        lemma_lex_transitive(a.1, b.1, c.1);
    }
}

pub proof fn lemma_stable_before_total(keys: Seq<(Seq<char>, Seq<char>)>, i: int, j: int)
    requires
        i != j,
    ensures
        stable_before(keys, i, j) || stable_before(keys, j, i),
{
    lemma_lex_total(keys[i].0, keys[j].0);
    lemma_lex_total(keys[i].1, keys[j].1);
    if keys[i].0 == keys[j].0 && keys[i].1 == keys[j].1 {
        assert(keys[i] == keys[j]);
    }
}

/// The sort keys of `primary` and `secondary`, position by position.
pub open spec fn pair_keys(primary: Seq<Vec<char>>, secondary: Seq<Vec<char>>) -> Seq<(Seq<char>, Seq<char>)> {
    Seq::new(primary.len(), |i: int| (primary[i]@, secondary[i]@))
}

fn before_exec(primary: &Vec<Vec<char>>, secondary: &Vec<Vec<char>>, i: usize, j: usize) -> (r: bool)
    requires
        primary.len() == secondary.len(),
        i < primary.len(),
        j < primary.len(),
    ensures
        r == stable_before(pair_keys(primary@, secondary@), i as int, j as int),
{
    let ghost keys = pair_keys(primary@, secondary@);
    let p_lt = chars_lt(primary[i].as_slice(), primary[j].as_slice());
    if p_lt {
        return true;
    }
    let p_gt = chars_lt(primary[j].as_slice(), primary[i].as_slice());
    if p_gt {
        proof {
            lemma_lex_asymmetric(primary@[j as int]@, primary@[i as int]@);
            if primary@[i as int]@ == primary@[j as int]@ {
                lemma_lex_irreflexive(primary@[i as int]@);
            }
        }
        return false;
    }
    proof {
        lemma_lex_total(primary@[i as int]@, primary@[j as int]@);
    }
    let s_lt = chars_lt(secondary[i].as_slice(), secondary[j].as_slice());
    if s_lt {
        return true;
    }
    let s_gt = chars_lt(secondary[j].as_slice(), secondary[i].as_slice());
    if s_gt {
        proof {
            lemma_lex_asymmetric(secondary@[j as int]@, secondary@[i as int]@);
            if secondary@[i as int]@ == secondary@[j as int]@ {
                lemma_lex_irreflexive(secondary@[i as int]@);
            }
        }
        return false;
    }
    proof {
        lemma_lex_total(secondary@[i as int]@, secondary@[j as int]@);
        assert(keys[i as int] == keys[j as int]);
    }
    i < j
}

/// The stable sort of the indices `0..n` by `(primary[i], secondary[i])`,
/// as `slice::sort_by` with a comparison of these keys returns it.
pub fn stable_order(primary: &Vec<Vec<char>>, secondary: &Vec<Vec<char>>) -> (order: Vec<usize>)
    requires
        primary.len() == secondary.len(),
    ensures
        is_stable_sort(pair_keys(primary@, secondary@), order@),
{
    let ghost keys = pair_keys(primary@, secondary@);
    let n = primary.len();
    let mut order: Vec<usize> = Vec::new();
    let mut i: usize = 0;
    while i < n
        invariant
            n == primary.len(),
            n == secondary.len(),
            keys == pair_keys(primary@, secondary@),
            i <= n,
            order.len() == i,
            forall|k: int| 0 <= k < order.len() ==> #[trigger] order@[k] < i,
            forall|k: int, l: int| 0 <= k < l < order.len() ==> order@[k] != order@[l],
            forall|k: int, l: int|
                0 <= k < l < order.len() ==> stable_before(keys, order@[k] as int, order@[l] as int),
            forall|m: usize| m < i ==> order@.contains(m),
        decreases n - i,
    {
        let mut pos: usize = 0;
        while pos < order.len() && !before_exec(primary, secondary, i, order[pos])
            invariant
                n == primary.len(),
                n == secondary.len(),
                keys == pair_keys(primary@, secondary@),
                i < n,
                pos <= order.len(),
                forall|k: int| 0 <= k < order.len() ==> #[trigger] order@[k] < i,
                forall|k: int| 0 <= k < pos ==> !stable_before(keys, i as int, #[trigger] order@[k] as int),
            decreases order.len() - pos,
        {
            pos += 1;
        }
        proof {
            assert forall|k: int| 0 <= k < pos implies stable_before(keys, #[trigger] order@[k] as int, i as int) by {
                assert(!stable_before(keys, i as int, order@[k] as int));
                lemma_stable_before_total(keys, i as int, order@[k] as int);
            }
            if pos < order.len() {
                assert(stable_before(keys, i as int, order@[pos as int] as int));
                assert forall|k: int| pos <= k < order.len() implies stable_before(keys, i as int, #[trigger] order@[k] as int) by {
                    if k > pos {
                        lemma_stable_before_transitive(keys, i as int, order@[pos as int] as int, order@[k] as int);
                    }
                }
            }
        }
        let ghost old_order = order@;
        order.insert(pos, i);
        proof {
            assert(order@ == old_order.insert(pos as int, i));
            assert forall|m: usize| m < i + 1 implies order@.contains(m) by {
                if m < i {
                    assert(old_order.contains(m));
                    let k = choose|k: int| 0 <= k < old_order.len() && old_order[k] == m;
                    if k < pos {
                        assert(old_order.insert(pos as int, i)[k] == old_order[k]);
                        assert(order@[k] == m);
                    } else {
                        assert(old_order.insert(pos as int, i)[k + 1] == old_order[k]);
                        assert(order@[k + 1] == m);
                    }
                } else {
                    assert(order@[pos as int] == m);
                }
            }
            assert forall|k: int| 0 <= k < order.len() implies #[trigger] order@[k] < i + 1 by {
                if k < pos {
                    assert(order@[k] == old_order[k]);
                } else if k > pos {
                    assert(order@[k] == old_order[k - 1]);
                }
            }
            assert forall|k: int, l: int| 0 <= k < l < order.len() implies order@[k] != order@[l] by {
                if k < pos && l < pos {
                } else if k > pos && l > pos {
                    assert(order@[k] == old_order[k - 1]);
                    assert(order@[l] == old_order[l - 1]);
                } else if k < pos {
                    if l > pos {
                        assert(order@[l] == old_order[l - 1]);
                    }
                } else {
                    assert(order@[l] == old_order[l - 1]);
                }
            }
            assert forall|k: int, l: int| 0 <= k < l < order.len() implies stable_before(
                keys,
                order@[k] as int,
                order@[l] as int,
            ) by {
                if k < pos && l < pos {
                } else if k > pos && l > pos {
                    assert(order@[k] == old_order[k - 1]);
                    assert(order@[l] == old_order[l - 1]);
                } else if k < pos {
                    if l > pos {
                        assert(order@[l] == old_order[l - 1]);
                        lemma_stable_before_transitive(keys, order@[k] as int, i as int, order@[l] as int);
                    }
                } else {
                    assert(order@[l] == old_order[l - 1]);
                }
            }
        }
        i += 1;
    }
    order
}


/// `out` lists, in strictly increasing order, exactly the texts of `items`:
/// what sorting and then removing adjacent duplicates gives.
pub open spec fn is_sorted_set(items: Seq<Seq<char>>, out: Seq<Seq<char>>) -> bool {
    &&& forall|i: int, j: int| 0 <= i < j < out.len() ==> lex_lt(out[i], out[j])
    &&& forall|a: int| 0 <= a < out.len() ==> items.contains(#[trigger] out[a])
    &&& forall|m: int| 0 <= m < items.len() ==> out.contains(#[trigger] items[m])
}


/// Sorts the texts and removes duplicates (`sort` then `dedup`).
pub fn sorted_unique(items: &Vec<Vec<char>>) -> (out: Vec<Vec<char>>)
    ensures
        is_sorted_set(char_vecs_of(items@), char_vecs_of(out@)),
{
    let ghost ts = char_vecs_of(items@);
    let mut empties: Vec<Vec<char>> = Vec::new();
    let mut e: usize = 0;
    while e < items.len()
        invariant
            e <= items.len(),
            empties.len() == e,
            forall|m: int| 0 <= m < empties.len() ==> (#[trigger] empties@[m])@.len() == 0,
        decreases items.len() - e,
    {
        empties.push(Vec::new());
        e += 1;
    }
    let order = stable_order(items, &empties);
    let ghost keys = pair_keys(items@, empties@);
    let mut out: Vec<Vec<char>> = Vec::new();
    let mut k: usize = 0;
    while k < order.len()
        invariant
            k <= order.len(),
            is_stable_sort(keys, order@),
            keys == pair_keys(items@, empties@),
            ts == char_vecs_of(items@),
            items.len() == empties.len(),
            forall|m: int| 0 <= m < empties.len() ==> (#[trigger] empties@[m])@.len() == 0,
            forall|a: int, b: int| 0 <= a < b < out.len() ==> lex_lt(out@[a]@, out@[b]@),
            forall|a: int| 0 <= a < out.len() ==> exists|m: int| 0 <= m < items.len() && (#[trigger] out@[a])@ == items@[m]@,
            k > 0 ==> out.len() > 0 && out@[out.len() - 1]@ == items@[order@[k - 1] as int]@,
            k == 0 ==> out.len() == 0,
            forall|m: int| 0 <= m < k ==> exists|a: int| 0 <= a < out.len() && (#[trigger] out@[a])@ == items@[(#[trigger] order@[m]) as int]@,
        decreases order.len() - k,
    {
        let idx = order[k];
        let ghost old_out = out@;
        let fresh = if out.len() == 0 {
            true
        } else {
            !chars_eq(out[out.len() - 1].as_slice(), items[idx].as_slice())
        };
        if fresh {
            proof {
                if k > 0 {
                    let prev = order@[k - 1] as int;
                    assert(stable_before(keys, prev, idx as int));
                    assert(keys[prev] == (items@[prev]@, empties@[prev]@));
                    assert(keys[idx as int] == (items@[idx as int]@, empties@[idx as int]@));
                    assert(empties@[prev]@ == empties@[idx as int]@);
                    if !lex_lt(items@[prev]@, items@[idx as int]@) {
                        lemma_lex_irreflexive(empties@[prev]@);
                        assert(keys[prev] == keys[idx as int]);
                    }
                    assert forall|a: int| 0 <= a < out.len() implies lex_lt(out@[a]@, items@[idx as int]@) by {
                        if a < out.len() - 1 {
                            lemma_lex_transitive(out@[a]@, out@[out.len() - 1]@, items@[idx as int]@);
                        }
                    }
                }
            }
            let item = items[idx].clone();
            out.push(item);
            proof {
                assert forall|a: int| 0 <= a < out.len() implies exists|m: int| 0 <= m < items.len() && (#[trigger] out@[a])@ == items@[m]@ by {
                    if a < out.len() - 1 {
                        assert(out@[a] == old_out[a]);
                    } else {
                        assert(out@[a]@ == items@[idx as int]@);
                    }
                }
            }
        }
        proof {
            assert forall|m: int| 0 <= m < k + 1 implies exists|a: int| 0 <= a < out.len() && (#[trigger] out@[a])@ == items@[(#[trigger] order@[m]) as int]@ by {
                if m < k {
                    let a = choose|a: int| 0 <= a < old_out.len() && (#[trigger] old_out[a])@ == items@[order@[m] as int]@;
                    assert(out@[a] == old_out[a]);
                } else {
                    assert(out@[out.len() - 1]@ == items@[order@[m] as int]@);
                }
            }
        }
        k += 1;
    }
    proof {
        let os = char_vecs_of(out@);
        assert forall|a: int| 0 <= a < os.len() implies ts.contains(#[trigger] os[a]) by {
            let m = choose|m: int| 0 <= m < items.len() && (#[trigger] out@[a])@ == items@[m]@;
            assert(ts[m] == os[a]);
        }
        assert forall|m: int| 0 <= m < ts.len() implies os.contains(#[trigger] ts[m]) by {
            assert(0 <= m < keys.len());
            assert(order@.contains(m as usize));
            let p = choose|p: int| 0 <= p < order@.len() && order@[p] == m as usize;
            assert(order@[p] as int == m);
            let a = choose|a: int| 0 <= a < out.len() && (#[trigger] out@[a])@ == items@[(order@[p]) as int]@;
            assert(os[a] == ts[m]);
        }
    }
    out
}

} // verus!
