//! Rows under text keys, read as a map.

use crate::utils::text::str_eq;
use vstd::prelude::*;

verus! {

/// Whether no two rows share a key.
pub open spec fn distinct_keys<V>(rows: Seq<(String, V)>) -> bool {
    forall|i: int, j: int| 0 <= i < j < rows.len() ==> rows[i].0@ != rows[j].0@
}

/// Whether a row is filed under `key`.
pub open spec fn has_key<V>(rows: Seq<(String, V)>, key: Seq<char>) -> bool {
    exists|i: int| 0 <= i < rows.len() && (#[trigger] rows[i]).0@ == key
}

/// The place of the row under `key`.
pub open spec fn place_of<V>(rows: Seq<(String, V)>, key: Seq<char>) -> int {
    choose|i: int| 0 <= i < rows.len() && (#[trigger] rows[i]).0@ == key
}

/// The rows as a map from key to value.
pub open spec fn as_map<V>(rows: Seq<(String, V)>) -> Map<Seq<char>, V> {
    Map::new(|key: Seq<char>| has_key(rows, key), |key: Seq<char>| rows[place_of(rows, key)].1)
}

/// Under distinct keys, the row at a place is the row that the map names.
pub proof fn lemma_row_in_map<V>(rows: Seq<(String, V)>, at: int)
    requires
        distinct_keys(rows),
        0 <= at < rows.len(),
    ensures
        as_map(rows).contains_key(rows[at].0@),
        as_map(rows)[rows[at].0@] == rows[at].1,
        place_of(rows, rows[at].0@) == at,
{
}

/// A new row under a key that no row has adds that key to the map.
pub proof fn lemma_insert_row<V>(rows: Seq<(String, V)>, at: int, key: String, value: V)
    requires
        distinct_keys(rows),
        0 <= at <= rows.len(),
        !has_key(rows, key@),
    ensures
        distinct_keys(rows.insert(at, (key, value))),
        as_map(rows.insert(at, (key, value))) == as_map(rows).insert(key@, value),
{
    let after = rows.insert(at, (key, value));
    assert forall|i: int, j: int| 0 <= i < j < after.len() implies after[i].0@ != after[j].0@ by {}
    assert forall|k: Seq<char>| #[trigger]
        as_map(after).contains_key(k) == as_map(rows).insert(key@, value).contains_key(k) by {
        if has_key(rows, k) {
            let a = place_of(rows, k);
            let i = if a < at { a } else { a + 1 };
            assert(after[i] == rows[a]);
        }
        if k == key@ {
            assert(after[at].0@ == k);
        }
    }
    assert forall|k: Seq<char>| as_map(after).contains_key(k) implies as_map(after)[k]
        == as_map(rows).insert(key@, value)[k] by {
        let i = place_of(after, k);
        lemma_row_in_map(after, i);
        if i != at {
            lemma_row_in_map(rows, if i < at { i } else { i - 1 });
        }
    }
}

/// Taking a row out takes its key out of the map.
pub proof fn lemma_remove_row<V>(rows: Seq<(String, V)>, at: int)
    requires
        distinct_keys(rows),
        0 <= at < rows.len(),
    ensures
        distinct_keys(rows.remove(at)),
        as_map(rows.remove(at)) == as_map(rows).remove(rows[at].0@),
        !has_key(rows.remove(at), rows[at].0@),
{
    let after = rows.remove(at);
    let gone = rows[at].0@;
    assert forall|i: int, j: int| 0 <= i < j < after.len() implies after[i].0@ != after[j].0@ by {}
    assert forall|k: Seq<char>| #[trigger]
        as_map(after).contains_key(k) == as_map(rows).remove(gone).contains_key(k) by {
        if has_key(rows, k) && k != gone {
            let a = place_of(rows, k);
            let i = if a < at { a } else { a - 1 };
            assert(after[i] == rows[a]);
        }
    }
    assert forall|k: Seq<char>| as_map(after).contains_key(k) implies as_map(after)[k]
        == as_map(rows).remove(gone)[k] by {
        let i = place_of(after, k);
        lemma_row_in_map(after, i);
        lemma_row_in_map(rows, if i < at { i } else { i + 1 });
    }
}

/// A row that takes the place of the row under its own key replaces that
/// key's value in the map.
pub proof fn lemma_replace_row<V>(rows: Seq<(String, V)>, at: int, key: String, value: V)
    requires
        distinct_keys(rows),
        0 <= at < rows.len(),
        rows[at].0@ == key@,
    ensures
        distinct_keys(rows.update(at, (key, value))),
        as_map(rows.update(at, (key, value))) == as_map(rows).insert(key@, value),
{
    let after = rows.update(at, (key, value));
    assert forall|i: int, j: int| 0 <= i < j < after.len() implies after[i].0@ != after[j].0@ by {}
    assert forall|k: Seq<char>| #[trigger]
        as_map(after).contains_key(k) == as_map(rows).insert(key@, value).contains_key(k) by {
        if has_key(rows, k) {
            let i = place_of(rows, k);
            assert(after[i].0@ == k);
        }
    }
    assert forall|k: Seq<char>| as_map(after).contains_key(k) implies as_map(after)[k]
        == as_map(rows).insert(key@, value)[k] by {
        let i = place_of(after, k);
        lemma_row_in_map(after, i);
        if i != at {
            lemma_row_in_map(rows, i);
        }
    }
}

/// A table without rows is the empty map.
pub proof fn lemma_no_rows<V>()
    ensures
        as_map(Seq::<(String, V)>::empty()) == Map::<Seq<char>, V>::empty(),
        distinct_keys(Seq::<(String, V)>::empty()),
{
}

/// The place of the row under `key`, if there is one.
pub fn find<V>(rows: &Vec<(String, V)>, key: &str) -> (place: Option<usize>)
    ensures
        match place {
            Some(at) => at < rows@.len() && rows@[at as int].0@ == key@,
            None => !has_key(rows@, key@),
        },
{
    let mut i: usize = 0;
    while i < rows.len()
        invariant
            i <= rows.len(),
            forall|j: int| 0 <= j < i ==> (#[trigger] rows@[j]).0@ != key@,
        decreases rows.len() - i,
    {
        if str_eq(rows[i].0.as_str(), key) {
            return Some(i);
        }
        i += 1;
    }
    None
}

/// Files `value` under `key`, in place of the value that was there.
pub fn put<V>(rows: &mut Vec<(String, V)>, key: String, value: V)
    requires
        distinct_keys(old(rows)@),
    ensures
        distinct_keys(final(rows)@),
        as_map(final(rows)@) == as_map(old(rows)@).insert(key@, value),
{
    match find(rows, key.as_str()) {
        Some(at) => {
            proof {
                lemma_replace_row(rows@, at as int, key, value);
            }
            rows.set(at, (key, value));
        },
        None => {
            proof {
                lemma_insert_row(rows@, rows@.len() as int, key, value);
                assert(rows@.insert(rows@.len() as int, (key, value)) =~= rows@.push((key, value)));
            }
            rows.push((key, value));
        },
    }
}

} // verus!
