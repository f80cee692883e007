//! The map described by a flat list of entries, each carrying a key
//! and a value, later entries superseding earlier ones. The backing
//! lists kept by the executable structures hold each key at most once;
//! these lemmas connect list surgery to map operations.

use vstd::map::*;
use vstd::prelude::*;

verus! {

/// The map described by a list of entries under the given key and
/// value functions.
pub open spec fn entry_map<E, K, V>(
    es: Seq<E>,
    key: spec_fn(E) -> K,
    val: spec_fn(E) -> V,
) -> Map<K, V>
    decreases es.len(),
{
    if es.len() == 0 {
        Map::empty()
    } else {
        entry_map(es.drop_last(), key, val).insert(key(es.last()), val(es.last()))
    }
}

/// No two entries carry the same key.
pub open spec fn unique_keys<E, K>(es: Seq<E>, key: spec_fn(E) -> K) -> bool {
    forall|i: int, j: int| 0 <= i < j < es.len() ==> key(es[i]) != key(es[j])
}

pub proof fn lemma_entry_map_contains<E, K, V>(
    es: Seq<E>,
    key: spec_fn(E) -> K,
    val: spec_fn(E) -> V,
    k: K,
)
    ensures
        entry_map(es, key, val).contains_key(k) <==> exists|i: int|
            0 <= i < es.len() && key(es[i]) == k,
    decreases es.len(),
{
    if es.len() == 0 {
    } else {
        lemma_entry_map_contains(es.drop_last(), key, val, k);
        if key(es.last()) == k {
            assert(key(es[es.len() - 1]) == k);
        } else {
            if entry_map(es, key, val).contains_key(k) {
                let i = choose|i: int|
                    0 <= i < es.drop_last().len() && key(es.drop_last()[i]) == k;
                assert(key(es[i]) == k);
            }
            if exists|i: int| 0 <= i < es.len() && key(es[i]) == k {
                let i = choose|i: int| 0 <= i < es.len() && key(es[i]) == k;
                assert(key(es.drop_last()[i]) == k);
            }
        }
    }
}

pub proof fn lemma_entry_map_index<E, K, V>(
    es: Seq<E>,
    key: spec_fn(E) -> K,
    val: spec_fn(E) -> V,
    i: int,
)
    requires
        unique_keys(es, key),
        0 <= i < es.len(),
    ensures
        entry_map(es, key, val).contains_key(key(es[i])),
        entry_map(es, key, val)[key(es[i])] == val(es[i]),
    decreases es.len(),
{
    if i == es.len() - 1 {
    } else {
        assert forall|a: int, b: int|
            0 <= a < b < es.drop_last().len() implies key(es.drop_last()[a]) != key(
            es.drop_last()[b],
        ) by {
            assert(es.drop_last()[a] == es[a]);
            assert(es.drop_last()[b] == es[b]);
        }
        lemma_entry_map_index(es.drop_last(), key, val, i);
        assert(es.drop_last()[i] == es[i]);
        assert(key(es.last()) != key(es[i]));
    }
}

pub proof fn lemma_entry_map_push<E, K, V>(
    es: Seq<E>,
    key: spec_fn(E) -> K,
    val: spec_fn(E) -> V,
    e: E,
)
    ensures
        entry_map(es.push(e), key, val) == entry_map(es, key, val).insert(key(e), val(e)),
        unique_keys(es, key) && !entry_map(es, key, val).contains_key(key(e)) ==> unique_keys(
            es.push(e),
            key,
        ),
{
    assert(es.push(e).drop_last() =~= es);
    assert(es.push(e).last() == e);
    if unique_keys(es, key) && !entry_map(es, key, val).contains_key(key(e)) {
        lemma_entry_map_contains(es, key, val, key(e));
        assert forall|a: int, b: int|
            0 <= a < b < es.push(e).len() implies key(es.push(e)[a]) != key(es.push(e)[b]) by {
            assert(es.push(e)[a] == es[a]);
            if b < es.len() {
                assert(es.push(e)[b] == es[b]);
            }
        }
    }
}

pub proof fn lemma_entry_map_remove<E, K, V>(
    es: Seq<E>,
    key: spec_fn(E) -> K,
    val: spec_fn(E) -> V,
    i: int,
)
    requires
        unique_keys(es, key),
        0 <= i < es.len(),
    ensures
        unique_keys(es.remove(i), key),
        entry_map(es.remove(i), key, val) == entry_map(es, key, val).remove(key(es[i])),
{
    let r = es.remove(i);
    let p = key(es[i]);
    assert forall|a: int, b: int| 0 <= a < b < r.len() implies key(r[a]) != key(r[b]) by {
        let a0: int = if a < i {
            a
        } else {
            a + 1
        };
        let b0: int = if b < i {
            b
        } else {
            b + 1
        };
        assert(r[a] == es[a0]);
        assert(r[b] == es[b0]);
    }
    assert_maps_equal!(entry_map(es.remove(i), key, val), entry_map(es, key, val).remove(key(es[i])), k => {
        lemma_entry_map_contains(r, key, val, k);
        lemma_entry_map_contains(es, key, val, k);
        if entry_map(r, key, val).contains_key(k) {
            let a = choose|a: int| 0 <= a < r.len() && key(r[a]) == k;
            let a0: int = if a < i { a } else { a + 1 };
            assert(r[a] == es[a0]);
            lemma_entry_map_index(r, key, val, a);
            lemma_entry_map_index(es, key, val, a0);
            assert(key(es[a0]) != key(es[i]));
        }
        if entry_map(es, key, val).remove(p).contains_key(k) {
            let a0 = choose|a0: int| 0 <= a0 < es.len() && key(es[a0]) == k;
            let a: int = if a0 < i { a0 } else { a0 - 1 };
            assert(a0 != i);
            assert(r[a] == es[a0]);
            assert(entry_map(r, key, val).contains_key(k));
        }
    });
}

} // verus!
