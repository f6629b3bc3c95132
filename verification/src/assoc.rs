//! Association lists: sequences of key-value pairs read as finite maps in
//! which the first pair with a key is the one that counts.

use vstd::prelude::*;

verus! {

/// The first index from `from` on whose key is `k`, or the length of `s` if
/// there is none.
pub open spec fn find_from<K, V>(s: Seq<(K, V)>, k: K, from: int) -> int
    decreases s.len() - from,
{
    if from < 0 || from >= s.len() {
        s.len() as int
    } else if s[from].0 == k {
        from
    } else {
        find_from(s, k, from + 1)
    }
}

/// The first index whose key is `k`, or the length of `s` if there is none.
pub open spec fn find<K, V>(s: Seq<(K, V)>, k: K) -> int {
    find_from(s, k, 0)
}

/// Whether some pair has key `k`.
pub open spec fn has<K, V>(s: Seq<(K, V)>, k: K) -> bool {
    find(s, k) < s.len()
}

/// The value of the first pair with key `k`.
pub open spec fn get<K, V>(s: Seq<(K, V)>, k: K) -> Option<V> {
    if has(s, k) {
        Some(s[find(s, k)].1)
    } else {
        None
    }
}

/// `s` with `k` bound to `v`: in place where `k` was bound, at the end
/// otherwise.
pub open spec fn put<K, V>(s: Seq<(K, V)>, k: K, v: V) -> Seq<(K, V)> {
    if has(s, k) {
        s.update(find(s, k), (k, v))
    } else {
        s.push((k, v))
    }
}

/// `s` without the first pair with key `k`.
pub open spec fn without<K, V>(s: Seq<(K, V)>, k: K) -> Seq<(K, V)> {
    if has(s, k) {
        s.remove(find(s, k))
    } else {
        s
    }
}

/// No key occurs twice.
pub open spec fn distinct<K, V>(s: Seq<(K, V)>) -> bool {
    forall|i: int, j: int| 0 <= i < j < s.len() ==> (#[trigger] s[i]).0 != (#[trigger] s[j]).0
}

/// `find_from` returns an index in range whose key matches, or the length;
/// nothing before it from `from` on matches.
pub proof fn lemma_find_from<K, V>(s: Seq<(K, V)>, k: K, from: int)
    requires
        0 <= from <= s.len(),
    ensures
        from <= find_from(s, k, from) <= s.len(),
        find_from(s, k, from) < s.len() ==> s[find_from(s, k, from)].0 == k,
        forall|i: int| from <= i < find_from(s, k, from) ==> (#[trigger] s[i]).0 != k,
    decreases s.len() - from,
{
    if from < s.len() && s[from].0 != k {
        lemma_find_from(s, k, from + 1);
    }
}

/// `find` returns the first index whose key matches, or the length.
pub proof fn lemma_find<K, V>(s: Seq<(K, V)>, k: K)
    ensures
        0 <= find(s, k) <= s.len(),
        has(s, k) ==> s[find(s, k)].0 == k,
        forall|i: int| 0 <= i < find(s, k) ==> (#[trigger] s[i]).0 != k,
{
    lemma_find_from(s, k, 0);
}

/// An index whose key matches, with no match before it, is what `find`
/// returns.
pub proof fn lemma_find_is<K, V>(s: Seq<(K, V)>, k: K, at: int)
    requires
        0 <= at <= s.len(),
        at < s.len() ==> s[at].0 == k,
        forall|i: int| 0 <= i < at ==> (#[trigger] s[i]).0 != k,
    ensures
        find(s, k) == at,
{
    lemma_find(s, k);
    let f = find(s, k);
    if f < at {
        assert(s[f].0 != k);
    } else if f > at {
        assert(s[at].0 != k);
    }
}

/// Reading after writing: the written key has the written value, every other
/// key what it had.
pub proof fn lemma_get_put<K, V>(s: Seq<(K, V)>, k: K, v: V, q: K)
    ensures
        get(put(s, k, v), q) == if q == k {
            Some(v)
        } else {
            get(s, q)
        },
{
    lemma_find(s, k);
    lemma_find(s, q);
    let t = put(s, k, v);
    let fk = find(s, k);
    let fq = find(s, q);
    if q == k {
        assert forall|i: int| 0 <= i < fk implies (#[trigger] t[i]).0 != k by {
            assert(t[i] == s[i]);
        }
        lemma_find_is(t, k, fk);
    } else {
        assert forall|i: int| 0 <= i < fq implies (#[trigger] t[i]).0 != q by {
            assert(s[i].0 != q);
        }
        if fq < s.len() {
            assert(t[fq] == s[fq]);
            lemma_find_is(t, q, fq);
        } else {
            lemma_find_is(t, q, t.len() as int);
        }
    }
}

/// Writing keeps the keys distinct.
pub proof fn lemma_put_distinct<K, V>(s: Seq<(K, V)>, k: K, v: V)
    requires
        distinct(s),
    ensures
        distinct(put(s, k, v)),
{
    lemma_find(s, k);
    let t = put(s, k, v);
    assert forall|i: int, j: int| 0 <= i < j < t.len() implies (#[trigger] t[i]).0 != (
    #[trigger] t[j]).0 by {
        if has(s, k) {
            assert(t[i].0 == s[i].0);
            assert(t[j].0 == s[j].0);
        } else {
            if j == s.len() {
                assert(s[i].0 != k);
            }
        }
    }
}

/// Reading after removing, where no key occurs twice: the removed key is
/// gone, every other key has what it had.
pub proof fn lemma_get_without<K, V>(s: Seq<(K, V)>, k: K, q: K)
    requires
        distinct(s),
    ensures
        distinct(without(s, k)),
        get(without(s, k), q) == if q == k {
            None
        } else {
            get(s, q)
        },
{
    lemma_find(s, k);
    lemma_find(s, q);
    let t = without(s, k);
    let fk = find(s, k);
    let fq = find(s, q);
    if has(s, k) {
        assert forall|i: int, j: int| 0 <= i < j < t.len() implies (#[trigger] t[i]).0 != (
        #[trigger] t[j]).0 by {
            let si = if i < fk { i } else { i + 1 };
            let sj = if j < fk { j } else { j + 1 };
            assert(t[i] == s[si]);
            assert(t[j] == s[sj]);
        }
        if q == k {
            assert forall|i: int| 0 <= i < t.len() implies (#[trigger] t[i]).0 != k by {
                let si = if i < fk { i } else { i + 1 };
                assert(t[i] == s[si]);
                if si < fk {
                    assert(s[si].0 != s[fk].0);
                } else {
                    assert(s[fk].0 != s[si].0);
                }
            }
            lemma_find_is(t, k, t.len() as int);
        } else {
            let at = if fq < fk { fq } else { fq - 1 };
            assert forall|i: int| 0 <= i < at implies (#[trigger] t[i]).0 != q by {
                let si = if i < fk { i } else { i + 1 };
                assert(t[i] == s[si]);
                assert(s[si].0 != q);
            }
            if fq < s.len() {
                assert(t[at] == s[fq]);
            }
            lemma_find_is(t, q, at);
        }
    }
}

} // verus!
