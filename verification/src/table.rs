//! Association lists: the tables behind scopes and objects. A key is bound
//! to the value of its first entry; entries keep the order in which their
//! keys were first bound.

use vstd::prelude::*;

verus! {

/// A key of a table: it can be compared, and equal keys have equal views.
pub trait TableKey: View + Sized {
    fn same_key(&self, other: &Self) -> (r: bool)
        ensures
            r == (self@ == other@),
    ;
}

impl TableKey for String {
    fn same_key(&self, other: &Self) -> (r: bool) {
        *self == *other
    }
}

/// Whether `i` is the first entry of `entries` with the key `key`.
pub open spec fn is_first_entry<K: View, V>(entries: Seq<(K, V)>, key: K::V, i: int) -> bool {
    &&& 0 <= i < entries.len()
    &&& entries[i].0@ == key
    &&& forall|j: int| 0 <= j < i ==> (#[trigger] entries[j]).0@ != key
}

/// Whether no entry of `entries` has the key `key`.
pub open spec fn no_entry<K: View, V>(entries: Seq<(K, V)>, key: K::V) -> bool {
    forall|j: int| 0 <= j < entries.len() ==> (#[trigger] entries[j]).0@ != key
}

/// What a table binds: each key to the value of its first entry.
pub open spec fn bindings<K: View, V: View>(entries: Seq<(K, V)>) -> Map<K::V, V::V>
    decreases entries.len(),
{
    if entries.len() == 0 {
        Map::empty()
    } else {
        let rest = bindings(entries.drop_last());
        let last = entries.last();
        if rest.dom().contains(last.0@) {
            rest
        } else {
            rest.insert(last.0@, last.1@)
        }
    }
}

/// A key is bound exactly when some entry has it, and then to the value of
/// the first such entry.
pub proof fn lemma_bindings<K: View, V: View>(entries: Seq<(K, V)>, key: K::V)
    ensures
        bindings(entries).dom().contains(key) <==> !no_entry(entries, key),
        forall|i: int|
            is_first_entry(entries, key, i) ==> bindings(entries)[key] == (
            #[trigger] entries[i]).1@,
    decreases entries.len(),
{
    if entries.len() > 0 {
        let rest = entries.drop_last();
        lemma_bindings(rest, key);
        let last = entries.last();
        if no_entry(rest, key) {
            if last.0@ == key {
                assert(is_first_entry(entries, key, entries.len() - 1)) by {
                    assert forall|j: int| 0 <= j < entries.len() - 1 implies (
                    #[trigger] entries[j]).0@ != key by {
                        assert(rest[j] == entries[j]);
                    }
                }
                assert(!no_entry(entries, key));
            } else {
                assert forall|j: int| 0 <= j < entries.len() implies (#[trigger] entries[j]).0@
                    != key by {
                    if j < entries.len() - 1 {
                        assert(rest[j] == entries[j]);
                    }
                }
            }
        } else {
            let j = choose|j: int| 0 <= j < rest.len() && (#[trigger] rest[j]).0@ == key;
            assert(entries[j] == rest[j]);
        }
        assert forall|i: int| is_first_entry(entries, key, i) implies bindings(entries)[key] == (
        #[trigger] entries[i]).1@ by {
            if i < entries.len() - 1 {
                assert(rest[i] == entries[i]);
                assert(is_first_entry(rest, key, i)) by {
                    assert forall|j: int| 0 <= j < i implies (#[trigger] rest[j]).0@ != key by {
                        assert(rest[j] == entries[j]);
                    }
                }
            } else {
                assert(no_entry(rest, key)) by {
                    assert forall|j: int| 0 <= j < rest.len() implies (#[trigger] rest[j]).0@
                        != key by {
                        assert(rest[j] == entries[j]);
                    }
                }
            }
        }
    }
}

/// Replacing the value of the first entry of a key binds the key to the new
/// value and changes nothing else.
pub proof fn lemma_bindings_update<K: View, V: View>(
    entries: Seq<(K, V)>,
    i: int,
    key: K,
    value: V,
)
    requires
        is_first_entry(entries, key@, i),
    ensures
        bindings(entries.update(i, (key, value))) == bindings(entries).insert(key@, value@),
{
    let after = entries.update(i, (key, value));
    assert forall|k: K::V|
        bindings(after).dom().contains(k) == bindings(entries).insert(
            key@,
            value@,
        ).dom().contains(k) by {
        lemma_bindings(entries, k);
        lemma_bindings(after, k);
        if !no_entry(after, k) {
            let j = choose|j: int| 0 <= j < after.len() && (#[trigger] after[j]).0@ == k;
            assert(entries[j].0@ == k);
        }
        if !no_entry(entries, k) {
            let j = choose|j: int| 0 <= j < entries.len() && (#[trigger] entries[j]).0@ == k;
            assert(after[j].0@ == k);
        }
        assert(after[i].0@ == key@);
    }
    assert forall|k: K::V| #[trigger]
        bindings(after).dom().contains(k) implies bindings(after)[k] == bindings(entries).insert(
        key@,
        value@,
    )[k] by {
        lemma_bindings(entries, k);
        lemma_bindings(after, k);
        lemma_first_entry_exists(after, k);
        let j = choose|j: int| is_first_entry(after, k, j);
        if k == key@ {
            assert(is_first_entry(after, k, i)) by {
                assert forall|m: int| 0 <= m < i implies (#[trigger] after[m]).0@ != k by {
                    assert(entries[m].0@ != k);
                }
            }
            assert(after[i].1@ == value@);
        } else {
            assert(j != i);
            assert(is_first_entry(entries, k, j)) by {
                assert forall|m: int| 0 <= m < j implies (#[trigger] entries[m]).0@ != k by {
                    assert(after[m].0@ != k);
                }
            }
            assert(after[j] == entries[j]);
        }
    }
    assert(bindings(after) =~= bindings(entries).insert(key@, value@));
}

/// Appending an entry for a key that no entry has binds the key to the new
/// value and changes nothing else.
pub proof fn lemma_bindings_push<K: View, V: View>(entries: Seq<(K, V)>, key: K, value: V)
    requires
        no_entry(entries, key@),
    ensures
        bindings(entries.push((key, value))) == bindings(entries).insert(key@, value@),
{
    let after = entries.push((key, value));
    assert(after.drop_last() =~= entries);
    lemma_bindings(entries, key@);
}

/// What a table binds is what it binds without its first entry, with the
/// first entry's binding put over it.
pub proof fn lemma_bindings_front<K: View, V: View>(entries: Seq<(K, V)>)
    requires
        entries.len() > 0,
    ensures
        bindings(entries) == bindings(entries.drop_first()).insert(entries[0].0@, entries[0].1@),
    decreases entries.len(),
{
    let tail = entries.drop_first();
    if entries.len() == 1 {
        assert(entries.drop_last() =~= Seq::<(K, V)>::empty());
        assert(tail =~= Seq::<(K, V)>::empty());
        assert(bindings(entries) =~= bindings(tail).insert(entries[0].0@, entries[0].1@));
    } else {
        let init = entries.drop_last();
        lemma_bindings_front(init);
        assert(init.drop_first() =~= tail.drop_last());
        assert(init[0] == entries[0]);
        assert(tail.last() == entries.last());
        assert(bindings(entries) =~= bindings(tail).insert(entries[0].0@, entries[0].1@));
    }
}

/// The members of a list are those of the list without its first item,
/// and the first item.
pub proof fn lemma_members_front<K: View>(items: Seq<K>)
    requires
        items.len() > 0,
    ensures
        members(items) == members(items.drop_first()).insert(items[0]@),
{
    let tail = items.drop_first();
    assert forall|k: K::V| members(items).contains(k) == members(tail).insert(items[0]@).contains(
        k,
    ) by {
        if members(items).contains(k) {
            let i = choose|i: int| 0 <= i < items.len() && (#[trigger] items[i])@ == k;
            if i > 0 {
                assert(tail[i - 1]@ == k);
            }
        }
        if members(tail).contains(k) {
            let i = choose|i: int| 0 <= i < tail.len() && (#[trigger] tail[i])@ == k;
            assert(items[i + 1]@ == k);
        }
    }
    assert(members(items) =~= members(tail).insert(items[0]@));
}

/// A key that some entry has also has a first entry.
pub proof fn lemma_first_entry_exists<K: View, V>(entries: Seq<(K, V)>, key: K::V)
    requires
        !no_entry(entries, key),
    ensures
        exists|i: int| is_first_entry(entries, key, i),
    decreases entries.len(),
{
    let j = choose|j: int| 0 <= j < entries.len() && (#[trigger] entries[j]).0@ == key;
    let rest = entries.subrange(0, j);
    if no_entry(rest, key) {
        assert(is_first_entry(entries, key, j)) by {
            assert forall|m: int| 0 <= m < j implies (#[trigger] entries[m]).0@ != key by {
                assert(rest[m] == entries[m]);
            }
        }
    } else {
        lemma_first_entry_exists(rest, key);
        let i = choose|i: int| is_first_entry(rest, key, i);
        assert(is_first_entry(entries, key, i)) by {
            assert(rest[i] == entries[i]);
            assert forall|m: int| 0 <= m < i implies (#[trigger] entries[m]).0@ != key by {
                assert(rest[m] == entries[m]);
            }
        }
    }
}

/// The index of the first entry with the key, if there is one.
pub fn find_entry<K: TableKey, V>(entries: &Vec<(K, V)>, key: &K) -> (r: Option<usize>)
    ensures
        match r {
            Some(i) => is_first_entry(entries@, key@, i as int),
            None => no_entry(entries@, key@),
        },
{
    let mut i: usize = 0;
    while i < entries.len()
        invariant
            i <= entries.len(),
            forall|j: int| 0 <= j < i ==> (#[trigger] entries@[j]).0@ != key@,
        decreases entries.len() - i,
    {
        if entries[i].0.same_key(key) {
            return Some(i);
        }
        i += 1;
    }
    None
}

/// The set of the views of a list's items.
pub open spec fn members<K: View>(items: Seq<K>) -> Set<K::V> {
    Set::new(|k: K::V| exists|i: int| 0 <= i < items.len() && (#[trigger] items[i])@ == k)
}

/// Whether the list holds the key.
pub fn holds<K: TableKey>(items: &Vec<K>, key: &K) -> (r: bool)
    ensures
        r == members(items@).contains(key@),
{
    let mut i: usize = 0;
    while i < items.len()
        invariant
            i <= items.len(),
            forall|j: int| 0 <= j < i ==> (#[trigger] items@[j])@ != key@,
        decreases items.len() - i,
    {
        if items[i].same_key(key) {
            return true;
        }
        i += 1;
    }
    false
}

/// Adding an item to a list adds its view to the members.
pub proof fn lemma_members_push<K: View>(items: Seq<K>, key: K)
    ensures
        members(items.push(key)) == members(items).insert(key@),
{
    let after = items.push(key);
    assert forall|k: K::V| members(after).contains(k) == members(items).insert(key@).contains(
        k,
    ) by {
        if members(after).contains(k) {
            let i = choose|i: int| 0 <= i < after.len() && (#[trigger] after[i])@ == k;
            if i < items.len() {
                assert(items[i]@ == k);
            }
        }
        if members(items).contains(k) {
            let i = choose|i: int| 0 <= i < items.len() && (#[trigger] items[i])@ == k;
            assert(after[i]@ == k);
        }
        if k == key@ {
            assert(after[items.len() as int]@ == k);
        }
    }
    assert(members(after) =~= members(items).insert(key@));
}

} // verus!
