//! The deterministic order in which connectors are set up: by interface
//! name, then interface number, as `(String, u32)` keys compare, keeping
//! the kernel's order among equal keys.

use vstd::prelude::*;

verus! {

/// `a` sorts strictly before `b` character by character, as `String`s
/// compare (UTF-8 byte order is code point order).
pub open spec fn lex_lt(a: Seq<char>, b: Seq<char>) -> bool
    decreases a.len(),
{
    if a.len() == 0 {
        b.len() > 0
    } else if b.len() == 0 {
        false
    } else if a[0] != b[0] {
        (a[0] as int) < (b[0] as int)
    } else {
        lex_lt(a.drop_first(), b.drop_first())
    }
}

/// A connector's sort key: its interface name and number.
pub open spec fn key_of(k: (String, u32)) -> (Seq<char>, u32) {
    (k.0@, k.1)
}

/// `a` sorts strictly before `b`: by name, then by number.
pub open spec fn key_lt(a: (Seq<char>, u32), b: (Seq<char>, u32)) -> bool {
    lex_lt(a.0, b.0) || (a.0 == b.0 && a.1 < b.1)
}

/// `order` lists every index of `keys` once, by key, and keeps the given
/// order of indices whose keys are equal (a stable sort).
pub open spec fn is_stable_order(keys: Seq<(String, u32)>, order: Seq<usize>) -> bool {
    &&& order.len() == keys.len()
    &&& forall|a: int| 0 <= a < order.len() ==> #[trigger] order[a] < keys.len()
    &&& forall|i: usize| i < keys.len() ==> #[trigger] order.contains(i)
    &&& forall|a: int, b: int| 0 <= a < b < order.len() ==> order[a] != order[b]
    &&& forall|a: int, b: int|
        0 <= a < b < order.len() ==> !key_lt(
            key_of(keys[order[b] as int]),
            key_of(keys[order[a] as int]),
        )
    &&& forall|a: int, b: int|
        0 <= a < b < order.len() && key_of(keys[order[a] as int]) == key_of(keys[order[b] as int])
            ==> order[a] < order[b]
}

/// No string sorts before itself.
pub proof fn lemma_lex_irreflexive(a: Seq<char>)
    ensures
        !lex_lt(a, a),
    decreases a.len(),
{
    if a.len() > 0 {
        lemma_lex_irreflexive(a.drop_first());
    }
}

/// Sorting before is transitive.
pub proof fn lemma_lex_transitive(a: Seq<char>, b: Seq<char>, c: Seq<char>)
    requires
        lex_lt(a, b),
        lex_lt(b, c),
    ensures
        lex_lt(a, c),
    decreases a.len(),
{
    if a.len() > 0 && b.len() > 0 && c.len() > 0 && a[0] == b[0] && b[0] == c[0] {
        lemma_lex_transitive(a.drop_first(), b.drop_first(), c.drop_first());
    }
}

/// Of two different strings, one sorts before the other.
pub proof fn lemma_lex_total(a: Seq<char>, b: Seq<char>)
    requires
        a != b,
    ensures
        lex_lt(a, b) || lex_lt(b, a),
    decreases a.len(),
{
    if a.len() > 0 && b.len() > 0 && a[0] == b[0] {
        if a.drop_first() =~= b.drop_first() {
            assert forall|k: int| 0 <= k < a.len() implies a[k] == b[k] by {
                if k > 0 {
                    assert(a[k] == a.drop_first()[k - 1]);
                    assert(b[k] == b.drop_first()[k - 1]);
                }
            }
            assert(a =~= b);
        } else {
            lemma_lex_total(a.drop_first(), b.drop_first());
        }
    } else if a.len() == 0 && b.len() == 0 {
        assert(a =~= b);
    } else if a.len() > 0 && b.len() > 0 {
        assert((a[0] as int) != (b[0] as int));
    }
}

proof fn lemma_key_facts(x: (Seq<char>, u32), y: (Seq<char>, u32), z: (Seq<char>, u32))
    ensures
        !key_lt(x, x),
        key_lt(x, y) && key_lt(y, z) ==> key_lt(x, z),
        x != y ==> key_lt(x, y) || key_lt(y, x),
{
    lemma_lex_irreflexive(x.0);
    if lex_lt(x.0, y.0) && lex_lt(y.0, z.0) {
        lemma_lex_transitive(x.0, y.0, z.0);
    }
    if x.0 != y.0 {
        lemma_lex_total(x.0, y.0);
    }
}

/// Whether `a` sorts strictly before `b`.
fn lex_less(a: &str, b: &str) -> (r: bool)
    ensures
        r == lex_lt(a@, b@),
{
    let alen = a.unicode_len();
    let blen = b.unicode_len();
    let mut k: usize = 0;
    assert(a@.skip(0) =~= a@);
    assert(b@.skip(0) =~= b@);
    while k < alen && k < blen
        invariant
            alen == a@.len(),
            blen == b@.len(),
            k <= alen,
            k <= blen,
            lex_lt(a@, b@) == lex_lt(a@.skip(k as int), b@.skip(k as int)),
        decreases alen - k,
    {
        let ca = a.get_char(k);
        let cb = b.get_char(k);
        assert(a@.skip(k as int)[0] == ca);
        assert(b@.skip(k as int)[0] == cb);
        if ca != cb {
            return (ca as u32) < (cb as u32);
        }
        assert(a@.skip(k as int).drop_first() =~= a@.skip(k + 1));
        assert(b@.skip(k as int).drop_first() =~= b@.skip(k + 1));
        k = k + 1;
    }
    if k == alen {
        k < blen
    } else {
        false
    }
}

/// Whether key `a` sorts strictly before key `b`.
fn key_less(a: &(String, u32), b: &(String, u32)) -> (r: bool)
    ensures
        r == key_lt(key_of(*a), key_of(*b)),
{
    if lex_less(a.0.as_str(), b.0.as_str()) {
        return true;
    }
    a.0 == b.0 && a.1 < b.1
}

/// The indices of `keys` in setup order: sorted by key, and stable among
/// equal keys.
pub fn connector_order(keys: &Vec<(String, u32)>) -> (r: Vec<usize>)
    ensures
        is_stable_order(keys@, r@),
{
    let mut out: Vec<usize> = Vec::new();
    let mut i: usize = 0;
    while i < keys.len()
        invariant
            i <= keys@.len(),
            out@.len() == i,
            forall|a: int| 0 <= a < out@.len() ==> #[trigger] out@[a] < i,
            forall|j: usize| j < i ==> #[trigger] out@.contains(j),
            forall|a: int, b: int| 0 <= a < b < out@.len() ==> out@[a] != out@[b],
            forall|a: int, b: int|
                0 <= a < b < out@.len() ==> !key_lt(
                    key_of(keys@[out@[b] as int]),
                    key_of(keys@[out@[a] as int]),
                ),
            forall|a: int, b: int|
                0 <= a < b < out@.len() && key_of(keys@[out@[a] as int]) == key_of(
                    keys@[out@[b] as int],
                ) ==> out@[a] < out@[b],
        decreases keys@.len() - i,
    {
        let ghost ki = key_of(keys@[i as int]);
        let mut p: usize = 0;
        while p < out.len() && !key_less(&keys[i], &keys[out[p]])
            invariant
                i < keys@.len(),
                ki == key_of(keys@[i as int]),
                p <= out@.len(),
                forall|a: int| 0 <= a < out@.len() ==> #[trigger] out@[a] < i,
                forall|a: int| 0 <= a < p ==> !key_lt(ki, key_of(keys@[#[trigger] out@[a] as int])),
            decreases out@.len() - p,
        {
            p = p + 1;
        }
        let ghost old_out = out@;
        out.insert(p, i);
        proof {
            let new_out = out@;
            assert(new_out =~= old_out.insert(p as int, i));
            assert forall|j: usize| j < i + 1 implies #[trigger] new_out.contains(j) by {
                if j == i {
                    assert(new_out[p as int] == i);
                } else {
                    assert(old_out.contains(j));
                    let a = choose|a: int| 0 <= a < old_out.len() && old_out[a] == j;
                    if a < p {
                        assert(new_out[a] == old_out[a]);
                    } else {
                        assert(new_out[a + 1] == old_out[a]);
                    }
                }
            }
            assert forall|a: int| 0 <= a < new_out.len() implies #[trigger] new_out[a] < i + 1 by {
                if a < p {
                    assert(new_out[a] == old_out[a]);
                } else if a > p {
                    assert(new_out[a] == old_out[a - 1]);
                }
            }
            assert forall|a: int, b: int| 0 <= a < b < new_out.len() implies new_out[a] != new_out[b]
                && !key_lt(key_of(keys@[new_out[b] as int]), key_of(keys@[new_out[a] as int]))
                && (key_of(keys@[new_out[a] as int]) == key_of(keys@[new_out[b] as int])
                ==> new_out[a] < new_out[b]) by {
                let ka = key_of(keys@[new_out[a] as int]);
                let kb = key_of(keys@[new_out[b] as int]);
                if b < p {
                    assert(new_out[a] == old_out[a] && new_out[b] == old_out[b]);
                } else if b == p {
                    assert(new_out[a] == old_out[a]);
                    assert(new_out[b] == i);
                } else if a == p {
                    assert(new_out[a] == i);
                    assert(new_out[b] == old_out[b - 1]);
                    let kp = key_of(keys@[old_out[p as int] as int]);
                    assert(key_lt(ki, kp));
                    lemma_key_facts(kb, ki, kp);
                    lemma_key_facts(kp, kp, kp);
                    if b - 1 > p {
                        assert(!key_lt(kb, kp));
                    }
                } else if a > p {
                    assert(new_out[a] == old_out[a - 1] && new_out[b] == old_out[b - 1]);
                } else {
                    assert(new_out[a] == old_out[a] && new_out[b] == old_out[b - 1]);
                }
            }
        }
        i = i + 1;
    }
    out
}

/// The keys in setup order.
pub open spec fn ordered_keys(keys: Seq<(String, u32)>, order: Seq<usize>) -> Seq<(Seq<char>, u32)> {
    Seq::new(order.len(), |a: int| key_of(keys[order[a] as int]))
}

/// No two connectors share a key.
pub open spec fn keys_distinct(keys: Seq<(String, u32)>) -> bool {
    forall|i: int, j: int|
        0 <= i < keys.len() && 0 <= j < keys.len() && i != j ==> key_of(keys[i]) != key_of(keys[j])
}

/// Every key of `keys1` is a key of `keys2`.
pub open spec fn keys_within(keys1: Seq<(String, u32)>, keys2: Seq<(String, u32)>) -> bool {
    forall|i: int|
        #![trigger keys1[i]]
        0 <= i < keys1.len() ==> exists|j: int|
            0 <= j < keys2.len() && key_of(keys1[i]) == key_of(#[trigger] keys2[j])
}

/// Each key sorts strictly before the next.
pub open spec fn strictly_increasing(s: Seq<(Seq<char>, u32)>) -> bool {
    forall|a: int, b: int| 0 <= a < b < s.len() ==> key_lt(#[trigger] s[a], #[trigger] s[b])
}

/// Every element of `s1` occurs in `s2`.
pub open spec fn all_in(s1: Seq<(Seq<char>, u32)>, s2: Seq<(Seq<char>, u32)>) -> bool {
    forall|a: int| 0 <= a < s1.len() ==> s2.contains(#[trigger] s1[a])
}

proof fn lemma_ordered_keys_increasing(keys: Seq<(String, u32)>, order: Seq<usize>)
    requires
        is_stable_order(keys, order),
        keys_distinct(keys),
        keys.len() <= usize::MAX,
    ensures
        strictly_increasing(ordered_keys(keys, order)),
        forall|i: int| 0 <= i < keys.len() ==> ordered_keys(keys, order).contains(#[trigger] key_of(keys[i])),
{
    let s = ordered_keys(keys, order);
    assert forall|a: int, b: int| 0 <= a < b < s.len() implies key_lt(#[trigger] s[a], #[trigger] s[b]) by {
        lemma_key_facts(s[a], s[b], s[b]);
    }
    assert forall|i: int| 0 <= i < keys.len() implies s.contains(#[trigger] key_of(keys[i])) by {
        let iu = i as usize;
        assert(order.contains(iu));
        let a = choose|a: int| 0 <= a < order.len() && order[a] == iu;
        assert(s[a] == key_of(keys[i]));
    }
}

proof fn lemma_increasing_prefix_equal(s1: Seq<(Seq<char>, u32)>, s2: Seq<(Seq<char>, u32)>, k: int)
    requires
        s1.len() == s2.len(),
        0 <= k <= s1.len(),
        strictly_increasing(s1),
        strictly_increasing(s2),
        all_in(s1, s2),
        all_in(s2, s1),
    ensures
        forall|a: int| 0 <= a < k ==> s1[a] == s2[a],
    decreases k,
{
    if k > 0 {
        let a = k - 1;
        lemma_increasing_prefix_equal(s1, s2, a);
        assert(s2.contains(s1[a]));
        assert(s1.contains(s2[a]));
        let b = choose|b: int| 0 <= b < s2.len() && s2[b] == s1[a];
        let c = choose|c: int| 0 <= c < s1.len() && s1[c] == s2[a];
        lemma_key_facts(s1[a], s2[a], s1[a]);
        lemma_key_facts(s2[a], s1[a], s2[a]);
        if b < a {
            assert(s2[b] == s1[b]);
            assert(key_lt(s1[b], s1[a]));
        } else if c < a {
            assert(s1[c] == s2[c]);
            assert(key_lt(s2[c], s2[a]));
        } else if b > a && c > a {
            assert(key_lt(s2[a], s2[b]));
            assert(key_lt(s1[a], s1[c]));
        }
    }
}

/// The setup order does not depend on the order in which the kernel lists
/// the connectors: for two listings of the same connectors (no two sharing
/// a key), the keys come out in the same order.
pub proof fn lemma_order_independent_of_listing(
    keys1: Seq<(String, u32)>,
    order1: Seq<usize>,
    keys2: Seq<(String, u32)>,
    order2: Seq<usize>,
)
    requires
        is_stable_order(keys1, order1),
        is_stable_order(keys2, order2),
        keys1.len() == keys2.len(),
        keys1.len() <= usize::MAX,
        keys_distinct(keys1),
        keys_distinct(keys2),
        keys_within(keys1, keys2),
        keys_within(keys2, keys1),
    ensures
        ordered_keys(keys1, order1) == ordered_keys(keys2, order2),
{
    let s1 = ordered_keys(keys1, order1);
    let s2 = ordered_keys(keys2, order2);
    lemma_ordered_keys_increasing(keys1, order1);
    lemma_ordered_keys_increasing(keys2, order2);
    assert forall|a: int| 0 <= a < s1.len() implies s2.contains(#[trigger] s1[a]) by {
        let i = order1[a] as int;
        assert(s1[a] == key_of(keys1[i]));
        let j = choose|j: int| 0 <= j < keys2.len() && key_of(keys1[i]) == key_of(keys2[j]);
        assert(s2.contains(key_of(keys2[j])));
    }
    assert forall|a: int| 0 <= a < s2.len() implies s1.contains(#[trigger] s2[a]) by {
        let i = order2[a] as int;
        assert(s2[a] == key_of(keys2[i]));
        let j = choose|j: int| 0 <= j < keys1.len() && key_of(keys2[i]) == key_of(keys1[j]);
        assert(s1.contains(key_of(keys1[j])));
    }
    lemma_increasing_prefix_equal(s1, s2, s1.len() as int);
    assert(s1 =~= s2);
}

} // verus!
