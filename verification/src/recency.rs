//! The mathematical model of one bounded partition: a sequence of
//! key-value entries without repeated keys, the most recently used entry
//! first, together with the operations a least-recently-used store performs
//! on it and the laws those operations obey.

use vstd::prelude::*;

verus! {

/// Some entry of `s` is filed under `k`.
pub open spec fn has_key<K, V>(s: Seq<(K, V)>, k: K) -> bool {
    exists|i: int| 0 <= i < s.len() && (#[trigger] s[i]).0 == k
}

/// A position at which `k` is filed; the only one when keys are distinct.
pub open spec fn index_of<K, V>(s: Seq<(K, V)>, k: K) -> int {
    choose|i: int| 0 <= i < s.len() && (#[trigger] s[i]).0 == k
}

/// No key is filed twice.
pub open spec fn distinct_keys<K, V>(s: Seq<(K, V)>) -> bool {
    forall|i: int, j: int| 0 <= i < j < s.len() ==> (#[trigger] s[i]).0 != (#[trigger] s[j]).0
}

/// What a partition of capacity `cap` always satisfies.
pub open spec fn bounded<K, V>(s: Seq<(K, V)>, cap: nat) -> bool {
    distinct_keys(s) && s.len() <= cap
}

/// The value filed under `k`, if any.
pub open spec fn lookup<K, V>(s: Seq<(K, V)>, k: K) -> Option<V> {
    if has_key(s, k) {
        Some(s[index_of(s, k)].1)
    } else {
        None
    }
}

/// The entries after `k` was read: a hit moves its entry to the front, a
/// miss changes nothing.
pub open spec fn promote<K, V>(s: Seq<(K, V)>, k: K) -> Seq<(K, V)> {
    if has_key(s, k) {
        seq![s[index_of(s, k)]] + s.remove(index_of(s, k))
    } else {
        s
    }
}

/// The entries after `v` was filed under `k` in a partition of capacity
/// `cap`. A key already present gets the new value and moves to the front.
/// A new key goes to the front, and pushes the last entry out when the
/// partition is full. With capacity zero nothing is ever kept.
pub open spec fn store<K, V>(s: Seq<(K, V)>, cap: nat, k: K, v: V) -> Seq<(K, V)> {
    if has_key(s, k) {
        seq![(k, v)] + s.remove(index_of(s, k))
    } else if cap == 0 {
        s
    } else if s.len() >= cap {
        seq![(k, v)] + s.drop_last()
    } else {
        seq![(k, v)] + s
    }
}

/// The entries after each item of `items` was filed in turn, first item first.
pub open spec fn store_all<K, V>(s: Seq<(K, V)>, cap: nat, items: Seq<(K, V)>) -> Seq<(K, V)>
    decreases items.len(),
{
    if items.len() == 0 {
        s
    } else {
        store(store_all(s, cap, items.drop_last()), cap, items.last().0, items.last().1)
    }
}

/// The last `cap` items of `items` (all of them if there are fewer), the
/// latest first.
pub open spec fn latest<K, V>(items: Seq<(K, V)>, cap: nat) -> Seq<(K, V)> {
    Seq::new(
        if items.len() <= cap { items.len() } else { cap },
        |i: int| items[items.len() - 1 - i],
    )
}

/// With distinct keys, a key is found exactly where it stands.
pub proof fn lemma_index_unique<K, V>(s: Seq<(K, V)>, k: K, j: int)
    requires
        distinct_keys(s),
        0 <= j < s.len(),
        s[j].0 == k,
    ensures
        has_key(s, k),
        index_of(s, k) == j,
        lookup(s, k) == Some(s[j].1),
{
    let i = index_of(s, k);
    assert(0 <= i < s.len() && s[i].0 == k);
    if i < j {
        assert(s[i].0 != s[j].0);
    } else if j < i {
        assert(s[j].0 != s[i].0);
    }
}

/// Removing one entry keeps the keys distinct and removes exactly its key.
pub proof fn lemma_remove_keys<K, V>(s: Seq<(K, V)>, j: int)
    requires
        distinct_keys(s),
        0 <= j < s.len(),
    ensures
        distinct_keys(s.remove(j)),
        !has_key(s.remove(j), s[j].0),
        forall|k: K| k != s[j].0 ==> (has_key(s.remove(j), k) <==> has_key(s, k)),
        forall|k: K| k != s[j].0 ==> lookup(s.remove(j), k) == lookup(s, k),
{
    let r = s.remove(j);
    assert forall|a: int, b: int| 0 <= a < b < r.len() implies (#[trigger] r[a]).0 != (
    #[trigger] r[b]).0 by {
        let a0 = if a < j { a } else { a + 1 };
        let b0 = if b < j { b } else { b + 1 };
        assert(r[a] == s[a0] && r[b] == s[b0]);
        assert(s[a0].0 != s[b0].0);
    }
    if has_key(r, s[j].0) {
        let a = index_of(r, s[j].0);
        let a0 = if a < j { a } else { a + 1 };
        assert(r[a] == s[a0]);
        if a0 < j {
            assert(s[a0].0 != s[j].0);
        } else {
            assert(s[j].0 != s[a0].0);
        }
    }
    assert forall|k: K| k != s[j].0 implies (has_key(r, k) <==> has_key(s, k)) && lookup(r, k)
        == lookup(s, k) by {
        if has_key(r, k) {
            let a = index_of(r, k);
            let a0 = if a < j { a } else { a + 1 };
            assert(r[a] == s[a0]);
            lemma_index_unique(s, k, a0);
            lemma_index_unique(r, k, a);
        }
        if has_key(s, k) {
            let a0 = index_of(s, k);
            assert(a0 != j);
            let a = if a0 < j { a0 } else { a0 - 1 };
            assert(r[a] == s[a0]);
            lemma_index_unique(r, k, a);
            lemma_index_unique(s, k, a0);
        }
    }
}

/// Putting a fresh key in front keeps the keys distinct.
pub proof fn lemma_front_keys<K, V>(s: Seq<(K, V)>, k: K, v: V)
    requires
        distinct_keys(s),
        !has_key(s, k),
    ensures
        distinct_keys(seq![(k, v)] + s),
        has_key(seq![(k, v)] + s, k),
        lookup(seq![(k, v)] + s, k) == Some(v),
        forall|q: K| q != k ==> (has_key(seq![(k, v)] + s, q) <==> has_key(s, q)),
        forall|q: K| q != k ==> lookup(seq![(k, v)] + s, q) == lookup(s, q),
{
    let r = seq![(k, v)] + s;
    assert forall|a: int, b: int| 0 <= a < b < r.len() implies (#[trigger] r[a]).0 != (
    #[trigger] r[b]).0 by {
        assert(r[b] == s[b - 1]);
        if a == 0 {
            assert(r[a].0 == k);
        } else {
            assert(r[a] == s[a - 1]);
            assert(s[a - 1].0 != s[b - 1].0);
        }
    }
    assert(r[0] == (k, v));
    lemma_index_unique(r, k, 0);
    assert forall|q: K| q != k implies (has_key(r, q) <==> has_key(s, q)) && lookup(r, q)
        == lookup(s, q) by {
        if has_key(r, q) {
            let a = index_of(r, q);
            assert(a != 0);
            assert(r[a] == s[a - 1]);
            lemma_index_unique(s, q, a - 1);
            lemma_index_unique(r, q, a);
        }
        if has_key(s, q) {
            let a = index_of(s, q);
            assert(r[a + 1] == s[a]);
            lemma_index_unique(r, q, a + 1);
            lemma_index_unique(s, q, a);
        }
    }
}

/// Dropping the last entry keeps the keys distinct and loses only its key.
pub proof fn lemma_drop_last_keys<K, V>(s: Seq<(K, V)>)
    requires
        distinct_keys(s),
        s.len() > 0,
    ensures
        distinct_keys(s.drop_last()),
        !has_key(s.drop_last(), s.last().0),
        forall|k: K| k != s.last().0 ==> (has_key(s.drop_last(), k) <==> has_key(s, k)),
        forall|k: K| k != s.last().0 ==> lookup(s.drop_last(), k) == lookup(s, k),
{
    assert(s.drop_last() =~= s.remove(s.len() - 1));
    lemma_remove_keys(s, s.len() - 1);
}

/// Filing keeps a partition within its bound, files the value at the front,
/// grows the partition by at most one entry, and touches no other key's
/// value: another key either keeps its value or, if it stood last in a full
/// partition, is gone.
pub proof fn lemma_store<K, V>(s: Seq<(K, V)>, cap: nat, k: K, v: V)
    requires
        bounded(s, cap),
    ensures
        bounded(store(s, cap, k, v), cap),
        cap == 0 ==> store(s, cap, k, v) == s,
        cap > 0 ==> store(s, cap, k, v)[0] == (k, v) && lookup(store(s, cap, k, v), k) == Some(v),
        has_key(s, k) ==> store(s, cap, k, v).len() == s.len(),
        !has_key(s, k) && s.len() < cap ==> store(s, cap, k, v).len() == s.len() + 1,
        !has_key(s, k) && s.len() == cap ==> store(s, cap, k, v).len() == s.len(),
        forall|q: K|
            q != k && has_key(store(s, cap, k, v), q) ==> lookup(store(s, cap, k, v), q) == lookup(
                s,
                q,
            ),
        forall|q: K|
            q != k && has_key(s, q) && (has_key(s, k) || s.len() < cap || q != s.last().0)
                ==> has_key(store(s, cap, k, v), q),
{
    let r = store(s, cap, k, v);
    if has_key(s, k) {
        let j = index_of(s, k);
        lemma_remove_keys(s, j);
        lemma_front_keys(s.remove(j), k, v);
    } else if cap == 0 {
    } else if s.len() >= cap {
        lemma_drop_last_keys(s);
        lemma_front_keys(s.drop_last(), k, v);
    } else {
        lemma_front_keys(s, k, v);
    }
}

/// Reading keeps a partition within its bound and keeps every key and value;
/// only the order changes, and the key read, if present, stands first.
pub proof fn lemma_promote<K, V>(s: Seq<(K, V)>, cap: nat, k: K)
    requires
        bounded(s, cap),
    ensures
        bounded(promote(s, k), cap),
        promote(s, k).len() == s.len(),
        has_key(s, k) ==> promote(s, k)[0].0 == k,
        forall|q: K| has_key(promote(s, k), q) <==> has_key(s, q),
        forall|q: K| lookup(promote(s, k), q) == lookup(s, q),
{
    if has_key(s, k) {
        let j = index_of(s, k);
        let e = s[j];
        lemma_remove_keys(s, j);
        lemma_front_keys(s.remove(j), e.0, e.1);
        lemma_index_unique(s, k, j);
        assert(seq![(e.0, e.1)] + s.remove(j) =~= promote(s, k));
    }
}

/// Filing the same value under the same key a second time changes nothing:
/// neither the entries, nor their order, nor their number.
pub proof fn law_store_twice<K, V>(s: Seq<(K, V)>, cap: nat, k: K, v: V)
    requires
        bounded(s, cap),
    ensures
        store(store(s, cap, k, v), cap, k, v) == store(s, cap, k, v),
{
    let r = store(s, cap, k, v);
    lemma_store(s, cap, k, v);
    if cap > 0 {
        lemma_index_unique(r, k, 0);
        assert(r.remove(0) =~= r.subrange(1, r.len() as int));
        assert(seq![(k, v)] + r.remove(0) =~= r);
    }
}

/// A partition of capacity zero is always empty: filing leaves it empty and
/// reading what was just filed finds nothing.
pub proof fn law_disabled<K, V>(s: Seq<(K, V)>, k: K, v: V, q: K)
    requires
        bounded(s, 0),
    ensures
        s.len() == 0,
        store(s, 0, k, v) == s,
        lookup(store(s, 0, k, v), q) == None::<V>,
        promote(store(s, 0, k, v), q) == s,
{
    assert(!has_key(s, k));
    assert(!has_key(s, q));
}

/// Filing items with distinct keys into an empty partition leaves exactly
/// the last `cap` of them, the latest first.
pub proof fn lemma_store_all_fresh<K, V>(cap: nat, items: Seq<(K, V)>)
    requires
        distinct_keys(items),
    ensures
        store_all(Seq::<(K, V)>::empty(), cap, items) == latest(items, cap),
        bounded(latest(items, cap), cap),
    decreases items.len(),
{
    let empty = Seq::<(K, V)>::empty();
    let n = items.len() as int;
    let now = latest(items, cap);
    assert forall|a: int, b: int| 0 <= a < b < now.len() implies (#[trigger] now[a]).0 != (
    #[trigger] now[b]).0 by {
        assert(items[n - 1 - b].0 != items[n - 1 - a].0);
    }
    if n == 0 {
        assert(store_all(empty, cap, items) =~= now);
    } else {
        let before = items.drop_last();
        let prev = latest(before, cap);
        let k = items.last().0;
        let v = items.last().1;
        assert(distinct_keys(before)) by {
            assert forall|a: int, b: int| 0 <= a < b < before.len() implies (
            #[trigger] before[a]).0 != (#[trigger] before[b]).0 by {
                assert(items[a].0 != items[b].0);
            }
        }
        lemma_store_all_fresh(cap, before);
        assert(!has_key(prev, k)) by {
            if has_key(prev, k) {
                let a = index_of(prev, k);
                assert(prev[a] == items[n - 2 - a]);
                assert(items[n - 2 - a].0 != items[n - 1].0);
            }
        }
        assert(store(prev, cap, k, v) =~= now);
    }
}

/// Filing one key more than a partition holds, all keys distinct, into an
/// empty partition of positive capacity leaves it exactly full: the key
/// filed first is gone and every later one is still there with its value.
pub proof fn law_overflow_evicts_oldest<K, V>(cap: nat, items: Seq<(K, V)>)
    requires
        cap > 0,
        distinct_keys(items),
        items.len() == cap + 1,
    ensures
        store_all(Seq::<(K, V)>::empty(), cap, items).len() == cap,
        !has_key(store_all(Seq::<(K, V)>::empty(), cap, items), items[0].0),
        forall|i: int|
            1 <= i <= cap ==> lookup(
                store_all(Seq::<(K, V)>::empty(), cap, items),
                (#[trigger] items[i]).0,
            ) == Some(items[i].1),
{
    let r = store_all(Seq::<(K, V)>::empty(), cap, items);
    lemma_store_all_fresh(cap, items);
    if has_key(r, items[0].0) {
        let a = index_of(r, items[0].0);
        assert(r[a] == items[cap - a]);
        assert(items[0].0 != items[cap - a].0);
    }
    assert forall|i: int| 1 <= i <= cap implies lookup(r, (#[trigger] items[i]).0) == Some(
        items[i].1,
    ) by {
        assert(r[cap - i] == items[i]);
        lemma_index_unique(r, items[i].0, cap - i);
    }
}

/// A key that was just read survives the next filing of any other key,
/// provided the partition holds at least two entries: the entry pushed out,
/// if any, is one that was used less recently.
pub proof fn law_read_protects<K, V>(s: Seq<(K, V)>, cap: nat, read: K, k: K, v: V)
    requires
        bounded(s, cap),
        cap >= 2,
        has_key(s, read),
        read != k,
    ensures
        lookup(store(promote(s, read), cap, k, v), read) == lookup(s, read),
        has_key(store(promote(s, read), cap, k, v), read),
{
    let p = promote(s, read);
    lemma_promote(s, cap, read);
    lemma_store(p, cap, k, v);
    assert(has_key(p, read));
    if !has_key(p, k) && p.len() >= cap {
        assert(p[0].0 != p[p.len() - 1].0);
    }
}

} // verus!
