//! Lists of named entries, looked up by their first occurrence.

use vstd::prelude::*;
use crate::text;

verus! {

/// The position of the first entry called `key`, or the number of entries.
pub open spec fn index_in<V>(table: Seq<(Seq<char>, V)>, key: Seq<char>) -> int
    decreases table.len(),
{
    if table.len() == 0 || table[0].0 == key {
        0
    } else {
        1 + index_in(table.drop_first(), key)
    }
}

/// The value of the first entry called `key`.
pub open spec fn lookup<V>(table: Seq<(Seq<char>, V)>, key: Seq<char>) -> Option<V> {
    if index_in(table, key) < table.len() {
        Some(table[index_in(table, key)].1)
    } else {
        None
    }
}

/// No two entries have the same name.
pub open spec fn distinct<V>(table: Seq<(Seq<char>, V)>) -> bool {
    forall|i: int, j: int| 0 <= i < j < table.len() ==> table[i].0 != table[j].0
}

/// The position that [`index_in`] gives is the first at which the name stands.
pub proof fn lemma_index<V>(table: Seq<(Seq<char>, V)>, key: Seq<char>)
    ensures
        0 <= index_in(table, key) <= table.len(),
        forall|k: int| 0 <= k < index_in(table, key) ==> table[k].0 != key,
        index_in(table, key) < table.len() ==> table[index_in(table, key)].0 == key,
    decreases table.len(),
{
    if table.len() > 0 && table[0].0 != key {
        let rest = table.drop_first();
        lemma_index(rest, key);
        assert forall|k: int| 0 <= k < index_in(table, key) implies table[k].0 != key by {
            if k > 0 {
                assert(table[k] == rest[k - 1]);
            }
        }
        if index_in(table, key) < table.len() {
            assert(table[index_in(table, key)] == rest[index_in(rest, key)]);
        }
    }
}

/// A position at which the name first stands is the one [`index_in`] gives.
pub proof fn lemma_index_is<V>(table: Seq<(Seq<char>, V)>, key: Seq<char>, n: int)
    requires
        0 <= n <= table.len(),
        forall|k: int| 0 <= k < n ==> table[k].0 != key,
        n < table.len() ==> table[n].0 == key,
    ensures
        index_in(table, key) == n,
{
    lemma_index(table, key);
    let p = index_in(table, key);
    if p < n {
        assert(table[p].0 != key);
    }
}

/// An entry added at the end counts only where the name is new.
pub proof fn lemma_lookup_push<V>(table: Seq<(Seq<char>, V)>, key: Seq<char>, value: V)
    ensures
        forall|q: Seq<char>| #[trigger]
            lookup(table.push((key, value)), q) == (match lookup(table, q) {
                Some(v) => Some(v),
                None => if q == key {
                    Some(value)
                } else {
                    None
                },
            }),
        lookup(table, key) is None && distinct(table) ==> distinct(table.push((key, value))),
{
    let after = table.push((key, value));
    assert forall|q: Seq<char>| #[trigger] lookup(after, q) == (match lookup(table, q) {
        Some(v) => Some(v),
        None => if q == key {
            Some(value)
        } else {
            None
        },
    }) by {
        lemma_index(table, q);
        let p = index_in(table, q);
        if p < table.len() {
            lemma_index_is(after, q, p);
        } else if q == key {
            lemma_index_is(after, q, p);
        } else {
            lemma_index_is(after, q, after.len() as int);
        }
    }
    lemma_index(table, key);
}

/// Looking a name up in two lists one after the other.
pub proof fn lemma_lookup_concat<V>(
    a: Seq<(Seq<char>, V)>,
    b: Seq<(Seq<char>, V)>,
    key: Seq<char>,
)
    ensures
        lookup(a + b, key) == (match lookup(a, key) {
            Some(v) => Some(v),
            None => lookup(b, key),
        }),
{
    lemma_index(a, key);
    lemma_index(b, key);
    if index_in(a, key) < a.len() {
        lemma_index_is(a + b, key, index_in(a, key));
    } else {
        assert forall|k: int| 0 <= k < a.len() + index_in(b, key) implies (a + b)[k].0 != key by {
            if k >= a.len() {
                assert((a + b)[k] == b[k - a.len()]);
            }
        }
        lemma_index_is(a + b, key, a.len() + index_in(b, key));
    }
}

/// The number of leading entries whose names do not come after `key`.
pub open spec fn rank<V>(table: Seq<(Seq<char>, V)>, key: Seq<char>) -> int
    decreases table.len(),
{
    if table.len() == 0 || text::text_before(key, table[0].0) {
        0
    } else {
        1 + rank(table.drop_first(), key)
    }
}

/// `table` with an entry put before the first one whose name comes after it.
pub open spec fn inserted<V>(table: Seq<(Seq<char>, V)>, key: Seq<char>, value: V) -> Seq<
    (Seq<char>, V),
> {
    table.insert(rank(table, key), (key, value))
}

/// The entries of `table` in the order of their names; entries of the same name
/// keep their order.
pub open spec fn ordered<V>(table: Seq<(Seq<char>, V)>) -> Seq<(Seq<char>, V)>
    decreases table.len(),
{
    if table.len() == 0 {
        Seq::empty()
    } else {
        inserted(ordered(table.drop_last()), table.last().0, table.last().1)
    }
}

/// No entry's name comes before that of an earlier one.
pub open spec fn is_ordered<V>(table: Seq<(Seq<char>, V)>) -> bool {
    forall|i: int, j: int|
        0 <= i < j < table.len() ==> !text::text_before(
            (#[trigger] table[j]).0,
            (#[trigger] table[i]).0,
        )
}

/// The place that [`rank`] gives lies after the entries that do not come after
/// the name, and before the first one that does.
pub proof fn lemma_rank<V>(table: Seq<(Seq<char>, V)>, key: Seq<char>)
    ensures
        0 <= rank(table, key) <= table.len(),
        forall|k: int| 0 <= k < rank(table, key) ==> !text::text_before(key, (#[trigger] table[k]).0),
        rank(table, key) < table.len() ==> text::text_before(key, table[rank(table, key)].0),
    decreases table.len(),
{
    if table.len() > 0 && !text::text_before(key, table[0].0) {
        let rest = table.drop_first();
        lemma_rank(rest, key);
        assert forall|k: int| 0 <= k < rank(table, key) implies !text::text_before(
            key,
            (#[trigger] table[k]).0,
        ) by {
            if k > 0 {
                assert(table[k] == rest[k - 1]);
            }
        }
        if rank(table, key) < table.len() {
            assert(table[rank(table, key)] == rest[rank(rest, key)]);
        }
    }
}

/// A place with the properties of [`lemma_rank`] is the one [`rank`] gives.
pub proof fn lemma_rank_is<V>(table: Seq<(Seq<char>, V)>, key: Seq<char>, n: int)
    requires
        0 <= n <= table.len(),
        forall|k: int| 0 <= k < n ==> !text::text_before(key, (#[trigger] table[k]).0),
        n < table.len() ==> text::text_before(key, table[n].0),
    ensures
        rank(table, key) == n,
{
    lemma_rank(table, key);
    let p = rank(table, key);
    if p < n {
        assert(!text::text_before(key, table[p].0));
    }
    if n < p {
        assert(!text::text_before(key, table[n].0));
    }
}

/// Inserting an entry at its place keeps a table ordered.
pub proof fn lemma_inserted_ordered<V>(table: Seq<(Seq<char>, V)>, key: Seq<char>, value: V)
    requires
        is_ordered(table),
    ensures
        is_ordered(inserted(table, key, value)),
{
    lemma_rank(table, key);
    let p = rank(table, key);
    let after = inserted(table, key, value);
    assert forall|i: int, j: int| 0 <= i < j < after.len() implies !text::text_before(
        (#[trigger] after[j]).0,
        (#[trigger] after[i]).0,
    ) by {
        if i < p && j == p {
            assert(after[i] == table[i]);
        } else if i == p {
            assert(after[j] == table[j - 1]);
            assert(text::text_before(key, table[p].0));
            text::lemma_before_total(key, table[j - 1].0);
            if text::text_before(table[j - 1].0, key) {
                text::lemma_before_transitive(table[j - 1].0, key, table[p].0);
                if j - 1 > p {
                    assert(!text::text_before(table[j - 1].0, table[p].0));
                } else {
                    text::lemma_before_total(table[p].0, table[p].0);
                }
            }
        } else {
            let a = if i < p {
                i
            } else {
                i - 1
            };
            let b = if j < p {
                j
            } else {
                j - 1
            };
            assert(after[i] == table[a] && after[j] == table[b]);
        }
    }
}

/// Ordering a table keeps its entries and puts their names in order.
pub proof fn law_ordered<V>(table: Seq<(Seq<char>, V)>)
    ensures
        is_ordered(ordered(table)),
        ordered(table).to_multiset() == table.to_multiset(),
        ordered(table).len() == table.len(),
    decreases table.len(),
{
    broadcast use vstd::seq_lib::group_to_multiset_ensures;

    if table.len() > 0 {
        let rest = table.drop_last();
        let last = table.last();
        law_ordered(rest);
        lemma_inserted_ordered(ordered(rest), last.0, last.1);
        lemma_rank(ordered(rest), last.0);
        assert(table == rest.push(last));
        assert(ordered(table).to_multiset() == ordered(rest).to_multiset().insert(last));
    } else {
        assert(table == Seq::<(Seq<char>, V)>::empty());
    }
}

/// Tables with the same entries, no name of which stands twice, are the same
/// once they are ordered: the order that the entries came in does not matter.
pub proof fn law_order_forgotten<V>(a: Seq<(Seq<char>, V)>, b: Seq<(Seq<char>, V)>)
    requires
        a.to_multiset() == b.to_multiset(),
        distinct(a),
    ensures
        ordered(a) == ordered(b),
{
    law_ordered(a);
    law_ordered(b);
    lemma_ordered_distinct(a);
    lemma_same_order(ordered(a), ordered(b));
}

/// Ordering a table keeps its names distinct.
proof fn lemma_ordered_distinct<V>(table: Seq<(Seq<char>, V)>)
    requires
        distinct(table),
    ensures
        distinct(ordered(table)),
    decreases table.len(),
{
    broadcast use vstd::seq_lib::group_to_multiset_ensures;

    if table.len() > 0 {
        let rest = table.drop_last();
        let last = table.last();
        lemma_ordered_distinct(rest);
        law_ordered(rest);
        lemma_rank(ordered(rest), last.0);
        let before = ordered(rest);
        let p = rank(before, last.0);
        let after = ordered(table);
        assert forall|k: int| 0 <= k < before.len() implies (#[trigger] before[k]).0 != last.0 by {
            assert(before.to_multiset().count(before[k]) > 0);
            assert(rest.contains(before[k]));
            let n = choose|n: int| 0 <= n < rest.len() && rest[n] == before[k];
            assert(table[n] == rest[n]);
        }
        assert forall|i: int, j: int| 0 <= i < j < after.len() implies after[i].0 != after[j].0 by {
            assert(after[i] == (if i < p {
                before[i]
            } else if i == p {
                (last.0, last.1)
            } else {
                before[i - 1]
            }));
            assert(after[j] == (if j < p {
                before[j]
            } else if j == p {
                (last.0, last.1)
            } else {
                before[j - 1]
            }));
        }
    }
}

/// Two ordered tables with the same entries are the same.
proof fn lemma_same_order<V>(a: Seq<(Seq<char>, V)>, b: Seq<(Seq<char>, V)>)
    requires
        is_ordered(a),
        is_ordered(b),
        distinct(a),
        a.to_multiset() == b.to_multiset(),
    ensures
        a == b,
    decreases a.len(),
{
    broadcast use vstd::seq_lib::group_to_multiset_ensures;

    a.to_multiset_ensures();
    b.to_multiset_ensures();
    assert(a.len() == b.len());
    if a.len() > 0 {
        assert(b.contains(b[0]));
        assert(b.to_multiset().count(b[0]) > 0);
        assert(a.to_multiset().count(b[0]) > 0);
        let i = choose|i: int| 0 <= i < a.len() && a[i] == b[0];
        assert(a.contains(a[0]));
        assert(a.to_multiset().count(a[0]) > 0);
        assert(b.to_multiset().count(a[0]) > 0);
        let j = choose|j: int| 0 <= j < b.len() && b[j] == a[0];
        if i > 0 {
            assert(!text::text_before(a[i].0, a[0].0));
            if j > 0 {
                assert(!text::text_before(b[j].0, b[0].0));
            }
            text::lemma_before_total(a[0].0, b[0].0);
            assert(a[0].0 == a[i].0);
        }
        let a_rest = a.drop_first();
        let b_rest = b.drop_first();
        assert(a == seq![a[0]] + a_rest);
        assert(b == seq![b[0]] + b_rest);
        assert(a_rest =~= a.remove(0));
        assert(b_rest =~= b.remove(0));
        assert(a_rest.to_multiset() == b_rest.to_multiset());
        assert forall|x: int, y: int| 0 <= x < y < a_rest.len() implies !text::text_before(
            (#[trigger] a_rest[y]).0,
            (#[trigger] a_rest[x]).0,
        ) by {
            assert(a_rest[y] == a[y + 1] && a_rest[x] == a[x + 1]);
        }
        assert forall|x: int, y: int| 0 <= x < y < b_rest.len() implies !text::text_before(
            (#[trigger] b_rest[y]).0,
            (#[trigger] b_rest[x]).0,
        ) by {
            assert(b_rest[y] == b[y + 1] && b_rest[x] == b[x + 1]);
        }
        assert forall|x: int, y: int| 0 <= x < y < a_rest.len() implies a_rest[x].0
            != a_rest[y].0 by {
            assert(a_rest[y] == a[y + 1] && a_rest[x] == a[x + 1]);
        }
        lemma_same_order(a_rest, b_rest);
    }
}

/// `table` with the entry called `key` replaced, or added at the end.
pub open spec fn with_entry<V>(table: Seq<(Seq<char>, V)>, key: Seq<char>, value: V) -> Seq<
    (Seq<char>, V),
> {
    if index_in(table, key) < table.len() {
        table.update(index_in(table, key), (key, value))
    } else {
        table.push((key, value))
    }
}

/// After an entry is put in, its name leads to it, every other name leads where
/// it led before, no name stands twice if none did, and the first entry keeps
/// its name.
pub proof fn law_with_entry<V>(table: Seq<(Seq<char>, V)>, key: Seq<char>, value: V)
    ensures
        lookup(with_entry(table, key, value), key) == Some(value),
        forall|other: Seq<char>|
            other != key ==> #[trigger] lookup(with_entry(table, key, value), other) == lookup(
                table,
                other,
            ),
        distinct(table) ==> distinct(with_entry(table, key, value)),
        table.len() > 0 ==> with_entry(table, key, value)[0].0 == table[0].0,
{
    let after = with_entry(table, key, value);
    let p = index_in(table, key);
    lemma_index(table, key);
    if p < table.len() {
        lemma_index_is(after, key, p);
        assert forall|other: Seq<char>| other != key implies #[trigger] lookup(after, other)
            == lookup(table, other) by {
            lemma_index(table, other);
            lemma_index_is(after, other, index_in(table, other));
        }
    } else {
        lemma_lookup_push(table, key, value);
    }
}

/// `table` with other values.
pub open spec fn with_values<V, W>(table: Seq<(Seq<char>, V)>, f: spec_fn(V) -> W) -> Seq<
    (Seq<char>, W),
> {
    table.map_values(|e: (Seq<char>, V)| (e.0, f(e.1)))
}

/// Ordering goes by names alone.
pub proof fn lemma_ordered_values<V, W>(table: Seq<(Seq<char>, V)>, f: spec_fn(V) -> W)
    ensures
        ordered(with_values(table, f)) == with_values(ordered(table), f),
    decreases table.len(),
{
    let other = with_values(table, f);
    if table.len() > 0 {
        let rest = table.drop_last();
        lemma_ordered_values(rest, f);
        assert(other.drop_last() == with_values(rest, f));
        let a = ordered(rest);
        let b = with_values(a, f);
        let key = table.last().0;
        lemma_rank(a, key);
        assert forall|k: int| 0 <= k < rank(a, key) implies !text::text_before(
            key,
            (#[trigger] b[k]).0,
        ) by {
            assert(b[k].0 == a[k].0);
        }
        lemma_rank_is(b, key, rank(a, key));
        assert(ordered(other) == with_values(ordered(table), f));
    } else {
        assert(ordered(other) == with_values(ordered(table), f));
    }
}

/// Names, each with its position.
pub open spec fn numbered(names: Seq<Seq<char>>) -> Seq<(Seq<char>, int)> {
    Seq::new(names.len(), |i: int| (names[i], i))
}

/// The positions of `names` in the order of the names; positions of the same
/// name keep their order.
pub fn name_order(names: &Vec<String>) -> (r: Vec<usize>)
    ensures
        forall|k: int| 0 <= k < r@.len() ==> (#[trigger] r@[k]) < names@.len(),
        r@.map_values(|i: usize| (names@[i as int]@, i as int)) == ordered(
            numbered(text::texts(names@)),
        ),
{
    let ghost all = numbered(text::texts(names@));
    let ghost entry = |i: usize| (names@[i as int]@, i as int);
    let mut r: Vec<usize> = Vec::new();
    let mut i: usize = 0;
    proof {
        assert(r@.map_values(entry) == ordered(all.take(0)));
    }
    while i < names.len()
        invariant
            i <= names@.len(),
            all == numbered(text::texts(names@)),
            entry == (|i: usize| (names@[i as int]@, i as int)),
            forall|k: int| 0 <= k < r@.len() ==> (#[trigger] r@[k]) < names@.len(),
            r@.map_values(entry) == ordered(all.take(i as int)),
        decreases names@.len() - i,
    {
        let ghost sorted = r@.map_values(entry);
        let name = names[i].as_str();
        let mut k: usize = 0;
        while k < r.len() && !text::before(name, names[r[k]].as_str())
            invariant
                k <= r@.len(),
                sorted == r@.map_values(entry),
                entry == (|i: usize| (names@[i as int]@, i as int)),
                forall|j: int| 0 <= j < r@.len() ==> (#[trigger] r@[j]) < names@.len(),
                forall|j: int| 0 <= j < k ==> !text::text_before(name@, (#[trigger] sorted[j]).0),
            decreases r@.len() - k,
        {
            k = k + 1;
        }
        proof {
            lemma_rank_is(sorted, name@, k as int);
            assert(all.take(i + 1).drop_last() == all.take(i as int));
            assert(all.take(i + 1).last() == (name@, i as int));
        }
        r.insert(k, i);
        proof {
            assert(r@.map_values(entry) == sorted.insert(k as int, (name@, i as int)));
        }
        i = i + 1;
    }
    proof {
        assert(all.take(i as int) == all);
    }
    r
}

/// What is found under a name is the value of the first entry of that name, and
/// nothing where there is none.
pub proof fn law_lookup<V>(table: Seq<(Seq<char>, V)>, key: Seq<char>, k: int)
    requires
        0 <= k <= table.len(),
        forall|j: int| 0 <= j < k ==> (#[trigger] table[j]).0 != key,
    ensures
        k < table.len() && table[k].0 == key ==> lookup(table, key) == Some(table[k].1),
        k == table.len() ==> lookup(table, key) is None,
{
    if k == table.len() || table[k].0 == key {
        lemma_index_is(table, key, k);
    }
}

} // verus!
