//! Association lists keyed by text, viewed as maps and sets.
use vstd::prelude::*;

verus! {

/// Whether some entry of `entries` has key `key`.
pub open spec fn has_key<V>(entries: Seq<(Seq<char>, V)>, key: Seq<char>) -> bool {
    exists|i: int| 0 <= i < entries.len() && (#[trigger] entries[i]).0 == key
}

/// No two entries share a key.
pub open spec fn keys_distinct<V>(entries: Seq<(Seq<char>, V)>) -> bool {
    forall|i: int, j: int|
        0 <= i < entries.len() && 0 <= j < entries.len() && i != j ==> (#[trigger] entries[i]).0
            != (#[trigger] entries[j]).0
}

/// The map from each key to the value of the entry that holds it.
pub open spec fn entries_map<V>(entries: Seq<(Seq<char>, V)>) -> Map<Seq<char>, V> {
    Map::new(
        |k: Seq<char>| has_key(entries, k),
        |k: Seq<char>| entries[choose|i: int| 0 <= i < entries.len() && entries[i].0 == k].1,
    )
}

/// The entry at `i` is what the map gives for its key.
pub proof fn lemma_entries_lookup<V>(entries: Seq<(Seq<char>, V)>, i: int)
    requires
        keys_distinct(entries),
        0 <= i < entries.len(),
    ensures
        entries_map(entries).contains_key(entries[i].0),
        entries_map(entries)[entries[i].0] == entries[i].1,
{
    let k = entries[i].0;
    assert(has_key(entries, k));
    let j = choose|j: int| 0 <= j < entries.len() && entries[j].0 == k;
    assert(entries[j].0 == k);
    assert(j == i);
}

/// Appending an entry with a new key inserts it into the map.
pub proof fn lemma_entries_push<V>(entries: Seq<(Seq<char>, V)>, key: Seq<char>, value: V)
    requires
        keys_distinct(entries),
        !has_key(entries, key),
    ensures
        keys_distinct(entries.push((key, value))),
        entries_map(entries.push((key, value))) == entries_map(entries).insert(key, value),
{
    let s = entries.push((key, value));
    assert forall|i: int, j: int|
        0 <= i < s.len() && 0 <= j < s.len() && i != j implies (#[trigger] s[i]).0 != (
        #[trigger] s[j]).0 by {
        if i < entries.len() && j < entries.len() {
            assert(s[i] == entries[i] && s[j] == entries[j]);
        } else if i < entries.len() {
            assert(s[i] == entries[i]);
        } else {
            assert(s[j] == entries[j]);
        }
    }
    let m = entries_map(entries).insert(key, value);
    assert forall|k: Seq<char>| #[trigger] has_key(s, k) <==> m.contains_key(k) by {
        if has_key(s, k) {
            let i = choose|i: int| 0 <= i < s.len() && s[i].0 == k;
            if i < entries.len() {
                assert(entries[i] == s[i]);
                assert(has_key(entries, k));
            }
        }
        if has_key(entries, k) {
            let i = choose|i: int| 0 <= i < entries.len() && entries[i].0 == k;
            assert(s[i] == entries[i]);
        }
        if k == key {
            assert(s[entries.len() as int].0 == k);
        }
    }
    assert forall|k: Seq<char>| #[trigger] m.contains_key(k) implies entries_map(s)[k] == m[k] by {
        let i = choose|i: int| 0 <= i < s.len() && s[i].0 == k;
        assert(has_key(s, k));
        lemma_entries_lookup(s, i);
        if i < entries.len() {
            assert(s[i] == entries[i]);
            lemma_entries_lookup(entries, i);
        }
    }
    assert(entries_map(s) =~= m);
}

/// Removing the entry at `i` removes its key from the map.
pub proof fn lemma_entries_remove<V>(entries: Seq<(Seq<char>, V)>, i: int)
    requires
        keys_distinct(entries),
        0 <= i < entries.len(),
    ensures
        keys_distinct(entries.remove(i)),
        entries_map(entries.remove(i)) == entries_map(entries).remove(entries[i].0),
{
    let s = entries.remove(i);
    let key = entries[i].0;
    assert forall|a: int| 0 <= a < s.len() implies #[trigger] s[a] == entries[if a < i {
        a
    } else {
        a + 1
    }] by {}
    assert forall|a: int, b: int|
        0 <= a < s.len() && 0 <= b < s.len() && a != b implies (#[trigger] s[a]).0 != (
        #[trigger] s[b]).0 by {
        let ea = if a < i {
            a
        } else {
            a + 1
        };
        let eb = if b < i {
            b
        } else {
            b + 1
        };
        assert(s[a] == entries[ea] && s[b] == entries[eb]);
    }
    let m = entries_map(entries).remove(key);
    assert forall|k: Seq<char>| #[trigger] has_key(s, k) <==> m.contains_key(k) by {
        if has_key(s, k) {
            let a = choose|a: int| 0 <= a < s.len() && s[a].0 == k;
            let ea = if a < i {
                a
            } else {
                a + 1
            };
            assert(s[a] == entries[ea]);
            assert(has_key(entries, k));
        }
        if m.contains_key(k) {
            let e = choose|e: int| 0 <= e < entries.len() && entries[e].0 == k;
            assert(e != i);
            let a = if e < i {
                e
            } else {
                e - 1
            };
            assert(s[a] == entries[e]);
        }
    }
    assert forall|k: Seq<char>| #[trigger] m.contains_key(k) implies entries_map(s)[k] == m[k] by {
        assert(has_key(s, k));
        let a = choose|a: int| 0 <= a < s.len() && s[a].0 == k;
        let ea = if a < i {
            a
        } else {
            a + 1
        };
        assert(s[a] == entries[ea]);
        lemma_entries_lookup(s, a);
        lemma_entries_lookup(entries, ea);
    }
    assert(entries_map(s) =~= m);
}

/// Replacing the value of the entry at `i` updates its key in the map.
pub proof fn lemma_entries_update<V>(entries: Seq<(Seq<char>, V)>, i: int, value: V)
    requires
        keys_distinct(entries),
        0 <= i < entries.len(),
    ensures
        keys_distinct(entries.update(i, (entries[i].0, value))),
        entries_map(entries.update(i, (entries[i].0, value))) == entries_map(entries).insert(
            entries[i].0,
            value,
        ),
{
    let key = entries[i].0;
    let s = entries.update(i, (key, value));
    assert forall|a: int| 0 <= a < s.len() implies (#[trigger] s[a]).0 == entries[a].0 by {}
    assert forall|a: int, b: int|
        0 <= a < s.len() && 0 <= b < s.len() && a != b implies (#[trigger] s[a]).0 != (
        #[trigger] s[b]).0 by {
        assert(s[a].0 == entries[a].0 && s[b].0 == entries[b].0);
    }
    let m = entries_map(entries).insert(key, value);
    assert forall|k: Seq<char>| #[trigger] has_key(s, k) <==> m.contains_key(k) by {
        if has_key(s, k) {
            let a = choose|a: int| 0 <= a < s.len() && s[a].0 == k;
            assert(entries[a].0 == k);
            assert(has_key(entries, k));
        }
        if has_key(entries, k) {
            let a = choose|a: int| 0 <= a < entries.len() && entries[a].0 == k;
            assert(s[a].0 == k);
        }
        if k == key {
            assert(s[i].0 == k);
        }
    }
    assert forall|k: Seq<char>| #[trigger] m.contains_key(k) implies entries_map(s)[k] == m[k] by {
        assert(has_key(s, k));
        let a = choose|a: int| 0 <= a < s.len() && s[a].0 == k;
        lemma_entries_lookup(s, a);
        if a != i {
            assert(s[a] == entries[a]);
            lemma_entries_lookup(entries, a);
        }
    }
    assert(entries_map(s) =~= m);
}

/// Appending a new element to a list without duplicates inserts it into its set.
pub proof fn lemma_set_push<T>(items: Seq<T>, item: T)
    requires
        items.no_duplicates(),
        !items.contains(item),
    ensures
        items.push(item).no_duplicates(),
        items.push(item).to_set() == items.to_set().insert(item),
{
    let s = items.push(item);
    assert forall|i: int, j: int| 0 <= i < s.len() && 0 <= j < s.len() && i != j implies s[i]
        != s[j] by {
        if i < items.len() && j < items.len() {
            assert(s[i] == items[i] && s[j] == items[j]);
        } else if i < items.len() {
            assert(s[i] == items[i]);
        } else {
            assert(s[j] == items[j]);
        }
    }
    assert forall|x: T| s.contains(x) <==> items.contains(x) || x == item by {
        if s.contains(x) {
            let i = choose|i: int| 0 <= i < s.len() && s[i] == x;
            if i < items.len() {
                assert(items[i] == x);
            }
        }
        if items.contains(x) {
            let i = choose|i: int| 0 <= i < items.len() && items[i] == x;
            assert(s[i] == x);
        }
        if x == item {
            assert(s[items.len() as int] == x);
        }
    }
    assert(s.to_set() =~= items.to_set().insert(item));
}

/// Removing the element at `i` of a list without duplicates removes it from its set.
pub proof fn lemma_set_remove<T>(items: Seq<T>, i: int)
    requires
        items.no_duplicates(),
        0 <= i < items.len(),
    ensures
        items.remove(i).no_duplicates(),
        items.remove(i).to_set() == items.to_set().remove(items[i]),
{
    let s = items.remove(i);
    assert forall|a: int| 0 <= a < s.len() implies #[trigger] s[a] == items[if a < i {
        a
    } else {
        a + 1
    }] by {}
    assert forall|a: int, b: int| 0 <= a < s.len() && 0 <= b < s.len() && a != b implies s[a]
        != s[b] by {
        let ea = if a < i {
            a
        } else {
            a + 1
        };
        let eb = if b < i {
            b
        } else {
            b + 1
        };
        assert(s[a] == items[ea] && s[b] == items[eb]);
    }
    assert forall|x: T| s.contains(x) <==> items.contains(x) && x != items[i] by {
        if s.contains(x) {
            let a = choose|a: int| 0 <= a < s.len() && s[a] == x;
            let ea = if a < i {
                a
            } else {
                a + 1
            };
            assert(s[a] == items[ea]);
        }
        if items.contains(x) && x != items[i] {
            let e = choose|e: int| 0 <= e < items.len() && items[e] == x;
            let a = if e < i {
                e
            } else {
                e - 1
            };
            assert(s[a] == items[e]);
        }
    }
    assert(s.to_set() =~= items.to_set().remove(items[i]));
}

} // verus!
