//! Specification helpers for association lists: sequences of key/value
//! pairs looked up by key, inserted with replace-on-equal-key semantics,
//! and removed by key. One family works over any key compared with `==`;
//! two more compare `String` and `Option<String>` keys by their text.

use vstd::prelude::*;

verus! {

/// Index of the first pair at or after `i` whose key is `k`; -1 when none.
pub open spec fn find_from<K, V>(s: Seq<(K, V)>, i: int, k: K) -> int
    decreases s.len() - i,
{
    if i < 0 || i >= s.len() {
        -1
    } else if s[i].0 == k {
        i
    } else {
        find_from(s, i + 1, k)
    }
}

/// The value paired with key `k`, searching from `i`; `None` when absent.
pub open spec fn lookup_from<K, V>(s: Seq<(K, V)>, i: int, k: K) -> Option<V>
    decreases s.len() - i,
{
    if i < 0 || i >= s.len() {
        None
    } else if s[i].0 == k {
        Some(s[i].1)
    } else {
        lookup_from(s, i + 1, k)
    }
}

/// The value paired with key `k`; `None` when absent.
pub open spec fn lookup<K, V>(s: Seq<(K, V)>, k: K) -> Option<V> {
    lookup_from(s, 0, k)
}

/// The pairs at or after `i` whose key is not `k`, in order.
pub open spec fn remove_key_from<K, V>(s: Seq<(K, V)>, i: int, k: K) -> Seq<(K, V)>
    decreases s.len() - i,
{
    if i < 0 || i >= s.len() {
        Seq::empty()
    } else if s[i].0 == k {
        remove_key_from(s, i + 1, k)
    } else {
        seq![s[i]] + remove_key_from(s, i + 1, k)
    }
}

/// `s` without every pair keyed `k`.
pub open spec fn remove_key<K, V>(s: Seq<(K, V)>, k: K) -> Seq<(K, V)> {
    remove_key_from(s, 0, k)
}

/// Looking up from `i` finds nothing exactly when no pair at or after
/// `i` carries the key.
pub proof fn lemma_lookup_from_none<K, V>(s: Seq<(K, V)>, i: int, k: K)
    requires
        0 <= i <= s.len(),
    ensures
        lookup_from(s, i, k) is None <==> forall|j: int| i <= j < s.len() ==> (#[trigger] s[j].0)
            != k,
    decreases s.len() - i,
{
    if i < s.len() {
        lemma_lookup_from_none(s, i + 1, k);
    }
}

/// Index of the first pair at or after `i` whose `String` key reads `k`;
/// -1 when none.
pub open spec fn str_find_from<V>(s: Seq<(String, V)>, i: int, k: Seq<char>) -> int
    decreases s.len() - i,
{
    if i < 0 || i >= s.len() {
        -1
    } else if s[i].0@ == k {
        i
    } else {
        str_find_from(s, i + 1, k)
    }
}

/// The value paired with the `String` key reading `k`, searching from `i`.
pub open spec fn str_lookup_from<V>(s: Seq<(String, V)>, i: int, k: Seq<char>) -> Option<V>
    decreases s.len() - i,
{
    if i < 0 || i >= s.len() {
        None
    } else if s[i].0@ == k {
        Some(s[i].1)
    } else {
        str_lookup_from(s, i + 1, k)
    }
}

/// The value paired with the `String` key reading `k`; `None` when absent.
pub open spec fn str_lookup<V>(s: Seq<(String, V)>, k: Seq<char>) -> Option<V> {
    str_lookup_from(s, 0, k)
}

/// `s` with `(k, v)`: replacing the first pair whose key reads like `k`,
/// else appended.
pub open spec fn str_upsert<V>(s: Seq<(String, V)>, k: String, v: V) -> Seq<(String, V)> {
    let i = str_find_from(s, 0, k@);
    if i >= 0 {
        s.update(i, (k, v))
    } else {
        s.push((k, v))
    }
}

/// The text of an optional name: `None` stands for the default.
pub open spec fn oname_view(id: Option<String>) -> Option<Seq<char>> {
    match id {
        None => None,
        Some(s) => Some(s@),
    }
}

/// Index of the first pair at or after `i` whose optional-name key reads
/// `k`; -1 when none.
pub open spec fn oname_find_from<V>(
    s: Seq<(Option<String>, V)>,
    i: int,
    k: Option<Seq<char>>,
) -> int
    decreases s.len() - i,
{
    if i < 0 || i >= s.len() {
        -1
    } else if oname_view(s[i].0) == k {
        i
    } else {
        oname_find_from(s, i + 1, k)
    }
}

/// The value paired with the optional-name key reading `k`, searching
/// from `i`.
pub open spec fn oname_lookup_from<V>(
    s: Seq<(Option<String>, V)>,
    i: int,
    k: Option<Seq<char>>,
) -> Option<V>
    decreases s.len() - i,
{
    if i < 0 || i >= s.len() {
        None
    } else if oname_view(s[i].0) == k {
        Some(s[i].1)
    } else {
        oname_lookup_from(s, i + 1, k)
    }
}

/// The value paired with the optional-name key reading `k`.
pub open spec fn oname_lookup<V>(s: Seq<(Option<String>, V)>, k: Option<Seq<char>>) -> Option<V> {
    oname_lookup_from(s, 0, k)
}

/// `s` with `(k, v)`: replacing the first pair whose optional-name key
/// reads like `k`, else appended.
pub open spec fn oname_upsert<V>(s: Seq<(Option<String>, V)>, k: Option<String>, v: V) -> Seq<
    (Option<String>, V),
> {
    let i = oname_find_from(s, 0, oname_view(k));
    if i >= 0 {
        s.update(i, (k, v))
    } else {
        s.push((k, v))
    }
}

/// The pairs at or after `i` whose optional-name key does not read `k`.
pub open spec fn oname_remove_key_from<V>(
    s: Seq<(Option<String>, V)>,
    i: int,
    k: Option<Seq<char>>,
) -> Seq<(Option<String>, V)>
    decreases s.len() - i,
{
    if i < 0 || i >= s.len() {
        Seq::empty()
    } else if oname_view(s[i].0) == k {
        oname_remove_key_from(s, i + 1, k)
    } else {
        seq![s[i]] + oname_remove_key_from(s, i + 1, k)
    }
}

/// `s` without every pair whose optional-name key reads `k`.
pub open spec fn oname_remove_key<V>(s: Seq<(Option<String>, V)>, k: Option<Seq<char>>) -> Seq<
    (Option<String>, V),
> {
    oname_remove_key_from(s, 0, k)
}

/// Compare two optional names by their text.
pub fn oname_eq(a: &Option<String>, b: &Option<String>) -> (r: bool)
    ensures
        r == (oname_view(*a) == oname_view(*b)),
{
    match (a, b) {
        (None, None) => true,
        (Some(x), Some(y)) => *x == *y,
        _ => false,
    }
}

} // verus!

verus! {

/// Copy an optional name, keeping its value.
pub fn oname_clone(a: &Option<String>) -> (r: Option<String>)
    ensures
        r == *a,
{
    match a {
        None => None,
        Some(s) => Some(s.clone()),
    }
}

/// Looking up a key in a sequence with one more pair finds the old
/// value when the key was present, and the new pair's value when the
/// new pair carries the key.
pub proof fn lemma_lookup_push<K, V>(s: Seq<(K, V)>, p: (K, V), k: K, i: int)
    requires
        0 <= i <= s.len(),
    ensures
        lookup_from(s.push(p), i, k) == if lookup_from(s, i, k) is Some {
            lookup_from(s, i, k)
        } else if p.0 == k {
            Some(p.1)
        } else {
            None
        },
    decreases s.len() - i,
{
    reveal_with_fuel(lookup_from, 3);
    if i < s.len() {
        assert(s.push(p)[i] == s[i]);
        lemma_lookup_push(s, p, k, i + 1);
    } else {
        assert(s.push(p)[i] == p);
    }
}

/// After removing a key no pair carries it, and every other key still
/// finds what it found from the same point on.
pub proof fn lemma_lookup_remove_key_from<K, V>(s: Seq<(K, V)>, i: int, k: K, k2: K)
    requires
        0 <= i <= s.len(),
    ensures
        lookup(remove_key_from(s, i, k), k2) == if k2 == k {
            None::<V>
        } else {
            lookup_from(s, i, k2)
        },
    decreases s.len() - i,
{
    if i < s.len() {
        lemma_lookup_remove_key_from(s, i + 1, k, k2);
        if s[i].0 != k {
            lemma_lookup_first_rest(remove_key_from(s, i + 1, k), s[i], k2);
        }
    }
}

/// After removing a key no pair carries it, and every other key still
/// finds what it found.
pub proof fn lemma_lookup_remove_key<K, V>(s: Seq<(K, V)>, k: K, k2: K)
    ensures
        lookup(remove_key(s, k), k2) == if k2 == k {
            None::<V>
        } else {
            lookup(s, k2)
        },
{
    lemma_lookup_remove_key_from(s, 0, k, k2);
}

/// Looking up in a sequence starting with one pair checks that pair
/// first, then the rest.
pub proof fn lemma_lookup_first_rest<K, V>(s: Seq<(K, V)>, p: (K, V), k: K)
    ensures
        lookup(seq![p] + s, k) == if p.0 == k {
            Some(p.1)
        } else {
            lookup(s, k)
        },
{
    let cat = seq![p] + s;
    assert(cat[0] == p);
    lemma_lookup_shift(s, p, k, 0);
}

/// Looking up from index `i + 1` of a sequence with `p` prepended is
/// looking up from `i` of the original.
pub proof fn lemma_lookup_shift<K, V>(s: Seq<(K, V)>, p: (K, V), k: K, i: int)
    requires
        0 <= i <= s.len(),
    ensures
        lookup_from(seq![p] + s, i + 1, k) == lookup_from(s, i, k),
    decreases s.len() - i,
{
    let cat = seq![p] + s;
    if i < s.len() {
        assert(cat[i + 1] == s[i]);
        lemma_lookup_shift(s, p, k, i + 1);
    }
}

} // verus!

verus! {

/// A found index agrees with the lookup: the pair there carries the key
/// and its value is what the lookup finds.
pub proof fn lemma_find_lookup<K, V>(s: Seq<(K, V)>, i: int, k: K)
    requires
        0 <= i <= s.len(),
    ensures
        find_from(s, i, k) >= 0 ==> i <= find_from(s, i, k) < s.len() && s[find_from(s, i, k)].0
            == k && lookup_from(s, i, k) == Some(s[find_from(s, i, k)].1),
        find_from(s, i, k) < 0 ==> lookup_from(s, i, k) is None,
        find_from(s, i, k) >= 0 ==> forall|j: int|
            i <= j < find_from(s, i, k) ==> (#[trigger] s[j]).0 != k,
    decreases s.len() - i,
{
    if i < s.len() && s[i].0 != k {
        lemma_find_lookup(s, i + 1, k);
    }
}

/// When keys are pairwise distinct, removing the pair at the key's
/// index is removing the key.
pub proof fn lemma_remove_at_unique<K, V>(s: Seq<(K, V)>, i: int, k: K)
    requires
        0 <= i < s.len(),
        s[i].0 == k,
        forall|a: int, b: int| 0 <= a < b < s.len() ==> (#[trigger] s[a]).0 != (#[trigger] s[b]).0,
    ensures
        remove_key(s, k) == s.remove(i),
{
    lemma_remove_key_split(s, 0, i, k);
    lemma_remove_key_clean(s, i + 1, k);
    assert(remove_key(s, k) =~= s.remove(i));
}

/// Up to the key's index, removal keeps every pair.
proof fn lemma_remove_key_split<K, V>(s: Seq<(K, V)>, j: int, i: int, k: K)
    requires
        0 <= j <= i < s.len(),
        s[i].0 == k,
        forall|a: int, b: int| 0 <= a < b < s.len() ==> (#[trigger] s[a]).0 != (#[trigger] s[b]).0,
    ensures
        remove_key_from(s, j, k) == s.subrange(j, i) + remove_key_from(s, i + 1, k),
    decreases i - j,
{
    if j < i {
        lemma_remove_key_split(s, j + 1, i, k);
        assert(s[j].0 != k);
        assert(remove_key_from(s, j, k) =~= s.subrange(j, i) + remove_key_from(s, i + 1, k));
    } else {
        assert(s.subrange(i, i) =~= Seq::<(K, V)>::empty());
        assert(remove_key_from(s, i, k) =~= s.subrange(i, i) + remove_key_from(s, i + 1, k));
    }
}

/// Past the key's only occurrence, removal keeps the tail whole.
proof fn lemma_remove_key_clean<K, V>(s: Seq<(K, V)>, j: int, k: K)
    requires
        0 <= j <= s.len(),
        forall|a: int| j <= a < s.len() ==> (#[trigger] s[a]).0 != k,
    ensures
        remove_key_from(s, j, k) == s.subrange(j, s.len() as int),
    decreases s.len() - j,
{
    if j < s.len() {
        lemma_remove_key_clean(s, j + 1, k);
        assert(remove_key_from(s, j, k) =~= s.subrange(j, s.len() as int));
    } else {
        assert(remove_key_from(s, j, k) =~= s.subrange(j, s.len() as int));
    }
}

/// When no pair carries the key, removal changes nothing.
pub proof fn lemma_remove_key_absent<K, V>(s: Seq<(K, V)>, k: K)
    requires
        forall|a: int| 0 <= a < s.len() ==> (#[trigger] s[a]).0 != k,
    ensures
        remove_key(s, k) == s,
{
    lemma_remove_key_clean(s, 0, k);
    assert(s.subrange(0, s.len() as int) =~= s);
}

} // verus!

verus! {

/// A found `String` index agrees with the lookup.
pub proof fn lemma_str_find_lookup<V>(s: Seq<(String, V)>, i: int, k: Seq<char>)
    requires
        0 <= i <= s.len(),
    ensures
        str_find_from(s, i, k) >= 0 ==> i <= str_find_from(s, i, k) < s.len() && s[str_find_from(
            s,
            i,
            k,
        )].0@ == k && str_lookup_from(s, i, k) == Some(s[str_find_from(s, i, k)].1),
        str_find_from(s, i, k) < 0 ==> str_lookup_from(s, i, k) is None,
    decreases s.len() - i,
{
    if i < s.len() && s[i].0@ != k {
        lemma_str_find_lookup(s, i + 1, k);
    }
}

} // verus!

verus! {

/// Looking a text up in a sequence starting with one pair checks that
/// pair first, then the rest.
pub proof fn lemma_str_lookup_first_rest<V>(s: Seq<(String, V)>, p: (String, V), k: Seq<char>)
    ensures
        str_lookup(seq![p] + s, k) == if p.0@ == k {
            Some(p.1)
        } else {
            str_lookup(s, k)
        },
{
    let cat = seq![p] + s;
    assert(cat[0] == p);
    lemma_str_lookup_shift(s, p, k, 0);
}

/// Looking a text up from index `i + 1` of a sequence with `p`
/// prepended is looking it up from `i` of the original.
pub proof fn lemma_str_lookup_shift<V>(s: Seq<(String, V)>, p: (String, V), k: Seq<char>, i: int)
    requires
        0 <= i <= s.len(),
    ensures
        str_lookup_from(seq![p] + s, i + 1, k) == str_lookup_from(s, i, k),
    decreases s.len() - i,
{
    let cat = seq![p] + s;
    if i < s.len() {
        assert(cat[i + 1] == s[i]);
        lemma_str_lookup_shift(s, p, k, i + 1);
    }
}

} // verus!

verus! {

/// When a text is not found, no pair from `i` on carries it.
pub proof fn lemma_str_lookup_from_none_ids<V>(s: Seq<(String, V)>, i: int, k: Seq<char>)
    requires
        0 <= i <= s.len(),
        str_lookup_from(s, i, k) is None,
    ensures
        forall|j: int| i <= j < s.len() ==> (#[trigger] s[j]).0@ != k,
    decreases s.len() - i,
{
    if i < s.len() {
        lemma_str_lookup_from_none_ids(s, i + 1, k);
    }
}

} // verus!
