//! Walking maps with integer keys.

use std::collections::HashMap;
use vstd::prelude::*;
use vstd::std_specs::hash::{obeys_key_model, spec_keys_iter};
use vstd::std_specs::iter::IteratorSpec;

verus! {

/// `keys` holds each member of `dom` once, and nothing else.
pub open spec fn lists<K>(keys: Seq<K>, dom: Set<K>) -> bool {
    &&& keys.no_duplicates()
    &&& forall|k: K| #[trigger] dom.contains(k) <==> keys.contains(k)
}

/// One more element of a sequence is one more member of its set.
pub proof fn lemma_take_to_set<K>(s: Seq<K>, i: int)
    requires
        0 <= i < s.len(),
    ensures
        s.take(i + 1).to_set() == s.take(i).to_set().insert(s[i]),
{
    let a = s.take(i);
    let b = s.take(i + 1);
    assert forall|k: K| b.contains(k) <==> a.contains(k) || k == s[i] by {
        if a.contains(k) {
            let j = a.index_of(k);
            assert(b[j] == k);
        }
        if k == s[i] {
            assert(b[i] == k);
        }
        if b.contains(k) && k != s[i] {
            let j = b.index_of(k);
            assert(a[j] == k);
        }
    }
    assert(b.to_set() =~= a.to_set().insert(s[i]));
}

/// Of no key at all, nothing is picked.
pub proof fn lemma_pick_none<K>(keys: Seq<K>, p: spec_fn(K) -> bool)
    ensures
        lists(Seq::<K>::empty(), keys.take(0).to_set().filter(p)),
{
}

/// One key further: a list of the keys that satisfy a predicate grows by the key,
/// where it does.
pub proof fn lemma_pick_next<K>(keys: Seq<K>, i: int, p: spec_fn(K) -> bool, picked: Seq<K>)
    requires
        keys.no_duplicates(),
        0 <= i < keys.len(),
        lists(picked, keys.take(i).to_set().filter(p)),
    ensures
        lists(
            if p(keys[i]) {
                picked.push(keys[i])
            } else {
                picked
            },
            keys.take(i + 1).to_set().filter(p),
        ),
{
    let now = keys.take(i).to_set().filter(p);
    let next = keys.take(i + 1).to_set().filter(p);
    let grown = picked.push(keys[i]);
    lemma_take_to_set(keys, i);
    assert(!now.contains(keys[i])) by {
        if keys.take(i).contains(keys[i]) {
            let j = keys.take(i).index_of(keys[i]);
            assert(keys[j] == keys[i]);
        }
    }
    assert forall|k: K| grown.contains(k) <==> picked.contains(k) || k == keys[i] by {
        if picked.contains(k) {
            let j = picked.index_of(k);
            assert(grown[j] == k);
        }
        if k == keys[i] {
            assert(grown[picked.len() as int] == k);
        }
    }
    assert forall|k: K| #[trigger] next.contains(k) <==> (if p(keys[i]) {
        grown
    } else {
        picked
    }).contains(k) by {
        assert(now.contains(k) <==> picked.contains(k));
    }
    assert(!picked.contains(keys[i]));
}

/// After the last key of a map, the picked ones are those of its domain.
pub proof fn lemma_pick_all<K>(keys: Seq<K>, dom: Set<K>, p: spec_fn(K) -> bool, picked: Seq<K>)
    requires
        lists(keys, dom),
        lists(picked, keys.take(keys.len() as int).to_set().filter(p)),
    ensures
        lists(picked, dom.filter(p)),
{
    assert(keys.take(keys.len() as int) =~= keys);
    assert forall|k: K| #[trigger] dom.filter(p).contains(k) <==> picked.contains(k) by {
        assert(dom.contains(k) <==> keys.contains(k));
        assert(keys.to_set().filter(p).contains(k) <==> picked.contains(k));
    }
}

/// How many elements of a sequence satisfy a predicate.
pub open spec fn count_where<K>(s: Seq<K>, p: spec_fn(K) -> bool) -> nat
    decreases s.len(),
{
    if s.len() == 0 {
        0
    } else {
        count_where(s.drop_last(), p) + if p(s.last()) {
            1nat
        } else {
            0nat
        }
    }
}

/// Counting in a sequence without duplicates is counting in its set.
pub proof fn lemma_count_where<K>(s: Seq<K>, p: spec_fn(K) -> bool)
    requires
        s.no_duplicates(),
    ensures
        s.to_set().filter(p).finite(),
        count_where(s, p) == s.to_set().filter(p).len(),
    decreases s.len(),
{
    if s.len() == 0 {
        assert(s.to_set().filter(p) =~= Set::<K>::empty());
    } else {
        let init = s.drop_last();
        let last = s.last();
        lemma_count_where(init, p);
        lemma_take_to_set(s, s.len() - 1);
        assert(s.take(s.len() - 1) =~= init);
        assert(s.take(s.len() as int) =~= s);
        assert(!init.contains(last)) by {
            if init.contains(last) {
                let j = init.index_of(last);
                assert(s[j] == s[s.len() - 1]);
            }
        }
        if p(last) {
            assert(s.to_set().filter(p) =~= init.to_set().filter(p).insert(last));
        } else {
            assert(s.to_set().filter(p) =~= init.to_set().filter(p));
        }
    }
}

/// No more elements satisfy a predicate than there are.
pub proof fn lemma_count_bound<K>(s: Seq<K>, p: spec_fn(K) -> bool)
    ensures
        count_where(s, p) <= s.len(),
    decreases s.len(),
{
    if s.len() > 0 {
        lemma_count_bound(s.drop_last(), p);
    }
}

/// Counting one element further.
pub proof fn lemma_count_take<K>(s: Seq<K>, p: spec_fn(K) -> bool, i: int)
    requires
        0 <= i < s.len(),
    ensures
        count_where(s.take(i + 1), p) == count_where(s.take(i), p) + if p(s[i]) {
            1nat
        } else {
            0nat
        },
{
    assert(s.take(i + 1).drop_last() =~= s.take(i));
}

/// The keys of a map, in some order.
pub fn keys_of<K: Copy, V>(m: &HashMap<K, V>) -> (r: Vec<K>)
    requires
        obeys_key_model::<K>(),
    ensures
        lists(r@, m@.dom()),
{
    broadcast use vstd::std_specs::hash::group_hash_axioms;

    let ghost all = spec_keys_iter(m).remaining().unref();
    let mut r: Vec<K> = Vec::new();
    for k in it: m.keys()
        invariant
            it.seq().unref() == all,
            r@ == all.take(it.index()),
    {
        proof {
            assert(all.take(it.index() + 1) =~= all.take(it.index()).push(*k));
        }
        r.push(*k);
    }
    proof {
        assert(r@ =~= all);
        assert(all.to_set() == m@.dom());
        assert forall|k: K| #[trigger] m@.dom().contains(k) <==> r@.contains(k) by {
            assert(all.to_set().contains(k) <==> all.contains(k));
        }
    }
    r
}

} // verus!
