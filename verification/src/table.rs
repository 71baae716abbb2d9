use vstd::prelude::*;

verus! {

/// An entity stored in a projection table under a 128-bit identifier.
pub trait Keyed {
    spec fn spec_key(&self) -> u128;

    fn key(&self) -> (k: u128)
        ensures
            k == self.spec_key(),
    ;
}

/// A table holds its rows in strictly increasing key order, so each key
/// occurs at most once and rows are visited in key order.
pub open spec fn sorted_keys<T: Keyed>(rows: Seq<T>) -> bool {
    forall|i: int, j: int| 0 <= i < j < rows.len() ==> rows[i].spec_key() < rows[j].spec_key()
}

/// Whether the table holds a row under `key`.
pub open spec fn has_key<T: Keyed>(rows: Seq<T>, key: u128) -> bool {
    exists|i: int| 0 <= i < rows.len() && rows[i].spec_key() == key
}

/// The row stored under `key`, if any.
pub open spec fn lookup<T: Keyed>(rows: Seq<T>, key: u128) -> Option<T> {
    if has_key(rows, key) {
        Some(rows[choose|i: int| 0 <= i < rows.len() && rows[i].spec_key() == key])
    } else {
        None
    }
}

/// In a sorted table the row at `i` is the one stored under its key.
pub proof fn lemma_lookup_at<T: Keyed>(rows: Seq<T>, i: int)
    requires
        sorted_keys(rows),
        0 <= i < rows.len(),
    ensures
        lookup(rows, rows[i].spec_key()) == Some(rows[i]),
{
    let k = rows[i].spec_key();
    assert(has_key(rows, k));
    let j = choose|j: int| 0 <= j < rows.len() && rows[j].spec_key() == k;
    if j < i {
        assert(rows[j].spec_key() < rows[i].spec_key());
    } else if i < j {
        assert(rows[i].spec_key() < rows[j].spec_key());
    }
}

/// The position of the row stored under `key`, if any.
pub fn find_index<T: Keyed>(rows: &Vec<T>, key: u128) -> (r: Option<usize>)
    requires
        sorted_keys(rows@),
    ensures
        match r {
            Some(i) => i < rows@.len() && rows@[i as int].spec_key() == key && lookup(rows@, key)
                == Some(rows@[i as int]),
            None => !has_key(rows@, key) && lookup(rows@, key) is None,
        },
{
    let mut i: usize = 0;
    while i < rows.len()
        invariant
            sorted_keys(rows@),
            i <= rows@.len(),
            forall|j: int| 0 <= j < i ==> rows@[j].spec_key() != key,
        decreases rows@.len() - i,
    {
        if rows[i].key() == key {
            proof {
                lemma_lookup_at(rows@, i as int);
            }
            return Some(i);
        }
        i = i + 1;
    }
    None
}

/// Whether the table holds a row under `key`.
pub fn contains_key<T: Keyed>(rows: &Vec<T>, key: u128) -> (r: bool)
    requires
        sorted_keys(rows@),
    ensures
        r == has_key(rows@, key),
{
    find_index(rows, key).is_some()
}

/// The row stored under `key`, if any.
pub fn get<'a, T: Keyed>(rows: &'a Vec<T>, key: u128) -> (r: Option<&'a T>)
    requires
        sorted_keys(rows@),
    ensures
        match r {
            Some(row) => lookup(rows@, key) == Some(*row),
            None => lookup(rows@, key) is None,
        },
{
    match find_index(rows, key) {
        Some(i) => Some(&rows[i]),
        None => None,
    }
}

/// `after` is the sorted table `before` with `row` stored under its key:
/// every other key finds what it found before.
pub open spec fn stored<T: Keyed>(before: Seq<T>, after: Seq<T>, row: T) -> bool {
    &&& sorted_keys(after)
    &&& forall|k: u128|
        #![trigger lookup(after, k)]
        lookup(after, k) == if k == row.spec_key() {
            Some(row)
        } else {
            lookup(before, k)
        }
}

/// Stores `row` under its key, replacing any row already stored there and
/// keeping the table sorted.
pub fn upsert<T: Keyed>(rows: &mut Vec<T>, row: T)
    requires
        sorted_keys(old(rows)@),
    ensures
        stored(old(rows)@, final(rows)@, row),
{
    let key = row.key();
    let ghost before = rows@;
    let mut i: usize = 0;
    while i < rows.len() && rows[i].key() < key
        invariant
            rows@ == before,
            sorted_keys(before),
            i <= rows@.len(),
            forall|j: int| 0 <= j < i ==> rows@[j].spec_key() < key,
        decreases rows@.len() - i,
    {
        i = i + 1;
    }
    if i < rows.len() && rows[i].key() == key {
        rows.set(i, row);
        proof {
            assert forall|a: int, b: int| 0 <= a < b < rows@.len() implies rows@[a].spec_key()
                < rows@[b].spec_key() by {
                assert(before[a].spec_key() < before[b].spec_key());
            }
            assert forall|k: u128| #[trigger]
                lookup(rows@, k) == (if k == key {
                    Some(row)
                } else {
                    lookup(before, k)
                }) by {
                lemma_lookup_at(rows@, i as int);
                if k != key {
                    if has_key(before, k) {
                        let j = choose|j: int| 0 <= j < before.len() && before[j].spec_key() == k;
                        lemma_lookup_at(before, j);
                        lemma_lookup_at(rows@, j);
                    } else {
                        assert(!has_key(rows@, k));
                    }
                }
            }
        }
    } else {
        rows.insert(i, row);
        proof {
            assert forall|a: int, b: int| 0 <= a < b < rows@.len() implies rows@[a].spec_key()
                < rows@[b].spec_key() by {
                if b < i {
                    assert(before[a].spec_key() < before[b].spec_key());
                } else if a < i && b == i {
                } else if a < i && b > i {
                    assert(before[a].spec_key() < before[b - 1].spec_key());
                } else if a == i {
                    if i < before.len() {
                        assert(before[i as int].spec_key() > key);
                        if b - 1 > i {
                            assert(before[i as int].spec_key() < before[b - 1].spec_key());
                        }
                    }
                } else {
                    assert(before[a - 1].spec_key() < before[b - 1].spec_key());
                }
            }
            assert forall|k: u128| #[trigger]
                lookup(rows@, k) == (if k == key {
                    Some(row)
                } else {
                    lookup(before, k)
                }) by {
                lemma_lookup_at(rows@, i as int);
                if k != key {
                    if has_key(before, k) {
                        let j = choose|j: int| 0 <= j < before.len() && before[j].spec_key() == k;
                        lemma_lookup_at(before, j);
                        if j < i {
                            lemma_lookup_at(rows@, j);
                        } else {
                            lemma_lookup_at(rows@, j + 1);
                        }
                    } else {
                        if has_key(rows@, k) {
                            let j = choose|j: int| 0 <= j < rows@.len() && rows@[j].spec_key() == k;
                            if j < i {
                                assert(before[j].spec_key() == k);
                            } else if j > i {
                                assert(before[j - 1].spec_key() == k);
                            }
                        }
                    }
                }
            }
        }
    }
}

} // verus!

verus! {

/// The row found under a key carries that key.
pub proof fn lemma_lookup_key<T: Keyed>(rows: Seq<T>, key: u128)
    requires
        lookup(rows, key) is Some,
    ensures
        lookup(rows, key)->0.spec_key() == key,
{
}

/// Replacing the row at `i` by a row with the same key stores that row.
pub proof fn lemma_update_at<T: Keyed>(rows: Seq<T>, i: int, row: T)
    requires
        sorted_keys(rows),
        0 <= i < rows.len(),
        row.spec_key() == rows[i].spec_key(),
    ensures
        stored(rows, rows.update(i, row), row),
{
    let after = rows.update(i, row);
    assert forall|a: int, b: int| 0 <= a < b < after.len() implies after[a].spec_key()
        < after[b].spec_key() by {
        assert(rows[a].spec_key() < rows[b].spec_key());
    }
    assert forall|k: u128| #[trigger]
        lookup(after, k) == (if k == row.spec_key() {
            Some(row)
        } else {
            lookup(rows, k)
        }) by {
        lemma_lookup_at(after, i);
        if k != row.spec_key() {
            if has_key(rows, k) {
                let j = choose|j: int| 0 <= j < rows.len() && rows[j].spec_key() == k;
                lemma_lookup_at(rows, j);
                lemma_lookup_at(after, j);
            } else if has_key(after, k) {
                let j = choose|j: int| 0 <= j < after.len() && after[j].spec_key() == k;
                assert(rows[j].spec_key() == k);
            }
        }
    }
}

/// In a sorted table every row can be found under its own key.
pub proof fn lemma_row_found<T: Keyed>(rows: Seq<T>, i: int)
    requires
        sorted_keys(rows),
        0 <= i < rows.len(),
    ensures
        lookup(rows, rows[i].spec_key()) is Some,
{
    lemma_lookup_at(rows, i);
}

} // verus!
