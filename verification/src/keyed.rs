//! A sequence of items with distinct keys, read as a map from key to value.

use vstd::prelude::*;

verus! {

/// Whether place `i` of `items` holds the item with this key.
pub open spec fn keyed_at<T, K>(items: Seq<T>, key_of: spec_fn(T) -> K, key: K, i: int) -> bool {
    0 <= i < items.len() && key_of(items[i]) == key
}

/// No two places hold the same key.
pub open spec fn distinct_keys<T, K>(items: Seq<T>, key_of: spec_fn(T) -> K) -> bool {
    forall|i: int, j: int|
        #![trigger items[i], items[j]]
        0 <= i < j < items.len() ==> key_of(items[i]) != key_of(items[j])
}

/// The map from each key that occurs in `items` to the value of its item.
pub open spec fn table<T, K, V>(
    items: Seq<T>,
    key_of: spec_fn(T) -> K,
    value_of: spec_fn(T) -> V,
) -> Map<K, V> {
    Map::new(
        |key: K| exists|i: int| keyed_at(items, key_of, key, i),
        |key: K| value_of(items[choose|i: int| keyed_at(items, key_of, key, i)]),
    )
}

/// With distinct keys, a key is found at one place only.
pub proof fn lemma_one_place<T, K>(items: Seq<T>, key_of: spec_fn(T) -> K, key: K, i: int, j: int)
    requires
        distinct_keys(items, key_of),
        keyed_at(items, key_of, key, i),
        keyed_at(items, key_of, key, j),
    ensures
        i == j,
{
    if i < j {
        assert(key_of(items[i]) != key_of(items[j]));
    } else if j < i {
        assert(key_of(items[j]) != key_of(items[i]));
    }
}

/// The item at a place is what the table holds under the item's key.
pub proof fn lemma_found<T, K, V>(
    items: Seq<T>,
    key_of: spec_fn(T) -> K,
    value_of: spec_fn(T) -> V,
    i: int,
)
    requires
        distinct_keys(items, key_of),
        0 <= i < items.len(),
    ensures
        table(items, key_of, value_of).contains_key(key_of(items[i])),
        table(items, key_of, value_of)[key_of(items[i])] == value_of(items[i]),
{
    let key = key_of(items[i]);
    assert(keyed_at(items, key_of, key, i));
    let at = choose|k: int| keyed_at(items, key_of, key, k);
    lemma_one_place(items, key_of, key, i, at);
}

/// A key that no place holds is not in the table.
pub proof fn lemma_absent<T, K, V>(
    items: Seq<T>,
    key_of: spec_fn(T) -> K,
    value_of: spec_fn(T) -> V,
    key: K,
)
    requires
        forall|i: int| !keyed_at(items, key_of, key, i),
    ensures
        !table(items, key_of, value_of).contains_key(key),
{
}

/// Putting an item in the place of the one with its key, or at the end
/// where no item has its key, keeps the keys distinct and inserts the item
/// into the table.
pub proof fn lemma_put<T, K, V>(
    before: Seq<T>,
    after: Seq<T>,
    key_of: spec_fn(T) -> K,
    value_of: spec_fn(T) -> V,
    item: T,
    i: int,
)
    requires
        distinct_keys(before, key_of),
        if i < before.len() {
            keyed_at(before, key_of, key_of(item), i) && after == before.update(i, item)
        } else {
            (forall|k: int| 0 <= k < before.len() ==> key_of(#[trigger] before[k]) != key_of(item))
                && after == before.push(item)
        },
    ensures
        distinct_keys(after, key_of),
        table(after, key_of, value_of) == table(before, key_of, value_of).insert(
            key_of(item),
            value_of(item),
        ),
{
    let key = key_of(item);
    let place = if i < before.len() { i } else { before.len() as int };
    assert(after[place] == item);
    assert forall|a: int, b: int| 0 <= a < b < after.len() implies key_of(after[a]) != key_of(
        after[b],
    ) by {
        if a == place {
            if b < before.len() {
                assert(!keyed_at(before, key_of, key, b)) by {
                    if keyed_at(before, key_of, key, b) {
                        lemma_one_place(before, key_of, key, i, b);
                    }
                }
            }
        } else if b == place {
            assert(!keyed_at(before, key_of, key, a)) by {
                if keyed_at(before, key_of, key, a) && i < before.len() {
                    lemma_one_place(before, key_of, key, i, a);
                }
            }
        } else {
            assert(key_of(before[a]) != key_of(before[b]));
        }
    }
    let old_table = table(before, key_of, value_of);
    let new_table = table(after, key_of, value_of);
    assert forall|k: K| new_table.contains_key(k) <==> old_table.insert(
        key,
        value_of(item),
    ).contains_key(k) by {
        if k == key {
            assert(keyed_at(after, key_of, key, place));
        } else {
            if new_table.contains_key(k) {
                let at = choose|j: int| keyed_at(after, key_of, k, j);
                assert(keyed_at(before, key_of, k, at));
            }
            if old_table.contains_key(k) {
                let at = choose|j: int| keyed_at(before, key_of, k, j);
                assert(keyed_at(after, key_of, k, at));
            }
        }
    }
    assert forall|k: K| new_table.contains_key(k) implies new_table[k] == old_table.insert(
        key,
        value_of(item),
    )[k] by {
        let at = choose|j: int| keyed_at(after, key_of, k, j);
        if k == key {
            assert(keyed_at(after, key_of, key, place));
            lemma_one_place(after, key_of, key, place, at);
        } else {
            assert(keyed_at(before, key_of, k, at));
            let was = choose|j: int| keyed_at(before, key_of, k, j);
            lemma_one_place(before, key_of, k, at, was);
        }
    }
    assert(new_table =~= old_table.insert(key, value_of(item)));
}

/// With distinct keys, the table holds as many keys as there are items.
pub proof fn lemma_size<T, K, V>(
    items: Seq<T>,
    key_of: spec_fn(T) -> K,
    value_of: spec_fn(T) -> V,
)
    requires
        distinct_keys(items, key_of),
    ensures
        table(items, key_of, value_of).dom().finite(),
        table(items, key_of, value_of).dom().len() == items.len(),
    decreases items.len(),
{
    if items.len() == 0 {
        assert(table(items, key_of, value_of).dom() =~= Set::empty());
    } else {
        let rest = items.drop_last();
        let last = items.last();
        assert(items =~= rest.push(last));
        assert forall|i: int, j: int| 0 <= i < j < rest.len() implies key_of(rest[i]) != key_of(
            rest[j],
        ) by {
            assert(key_of(items[i]) != key_of(items[j]));
        }
        assert forall|k: int| 0 <= k < rest.len() implies key_of(#[trigger] rest[k]) != key_of(
            last,
        ) by {
            assert(key_of(items[k]) != key_of(items[items.len() - 1]));
        }
        lemma_size(rest, key_of, value_of);
        lemma_put(rest, items, key_of, value_of, last, rest.len() as int);
        lemma_absent(rest, key_of, value_of, key_of(last));
        assert(table(items, key_of, value_of).dom() =~= table(rest, key_of, value_of).dom().insert(
            key_of(last),
        ));
    }
}

} // verus!
