//! An ordered table of records addressed by numeric identifiers.
//!
//! Identifiers are handed out in increasing order, so the rows of a table are
//! always sorted by key and a walk over the rows is a walk in creation order.

use vstd::prelude::*;

verus! {

/// One row of a [`Table`].
pub struct Row<T> {
    pub key: u64,
    pub value: T,
}

/// Rows sorted by key, no key twice.
pub struct Table<T> {
    rows: Vec<Row<T>>,
}

/// The keys of `rows` rise strictly.
pub open spec fn rows_sorted<T>(rows: Seq<Row<T>>) -> bool {
    forall|i: int, j: int| 0 <= i < j < rows.len() ==> rows[i].key < rows[j].key
}

/// Some row carries `key`.
pub open spec fn has_key<T>(rows: Seq<Row<T>>, key: u64) -> bool {
    exists|i: int| 0 <= i < rows.len() && rows[i].key == key
}

/// The position of the row that carries `key`.
pub open spec fn key_index<T>(rows: Seq<Row<T>>, key: u64) -> int {
    choose|i: int| 0 <= i < rows.len() && rows[i].key == key
}

/// The map that `rows` stand for.
pub open spec fn rows_map<T>(rows: Seq<Row<T>>) -> Map<u64, T> {
    Map::new(|key: u64| has_key(rows, key), |key: u64| rows[key_index(rows, key)].value)
}

proof fn lemma_key_index<T>(rows: Seq<Row<T>>, i: int)
    requires
        rows_sorted(rows),
        0 <= i < rows.len(),
    ensures
        has_key(rows, rows[i].key),
        key_index(rows, rows[i].key) == i,
        rows_map(rows).contains_key(rows[i].key),
        rows_map(rows)[rows[i].key] == rows[i].value,
{
    let key = rows[i].key;
    let k = key_index(rows, key);
    assert(0 <= k < rows.len() && rows[k].key == key);
    if k < i {
        assert(rows[k].key < rows[i].key);
    } else if i < k {
        assert(rows[i].key < rows[k].key);
    }
}

impl<T> View for Table<T> {
    type V = Map<u64, T>;

    closed spec fn view(&self) -> Map<u64, T> {
        rows_map(self.rows@)
    }
}

impl<T> Table<T> {
    /// The keys in rising order.
    pub closed spec fn keys(&self) -> Seq<u64> {
        self.rows@.map_values(|row: Row<T>| row.key)
    }

    pub closed spec fn wf(&self) -> bool {
        rows_sorted(self.rows@)
    }

    /// The keys list exactly the domain of the map, in rising order.
    pub proof fn lemma_keys(&self)
        requires
            self.wf(),
        ensures
            forall|i: int, j: int|
                0 <= i < j < self.keys().len() ==> self.keys()[i] < self.keys()[j],
            forall|i: int| 0 <= i < self.keys().len() ==> self@.contains_key(#[trigger] self.keys()[i]),
            forall|key: u64| #[trigger] self@.contains_key(key) ==> self.keys().contains(key),
    {
        assert forall|i: int| 0 <= i < self.keys().len() implies self@.contains_key(
            #[trigger] self.keys()[i],
        ) by {
            lemma_key_index(self.rows@, i);
        }
        assert forall|key: u64| #[trigger] self@.contains_key(key) implies self.keys().contains(
            key,
        ) by {
            let i = key_index(self.rows@, key);
            assert(self.rows@[i].key == key);
            assert(self.keys()[i] == key);
        }
    }

    pub fn new() -> (r: Self)
        ensures
            r.wf(),
            r@ == Map::<u64, T>::empty(),
            r.keys() == Seq::<u64>::empty(),
    {
        let r = Table { rows: Vec::new() };
        assert(r@ =~= Map::<u64, T>::empty());
        assert(r.keys() =~= Seq::<u64>::empty());
        r
    }

    pub fn len(&self) -> (r: usize)
        ensures
            r == self.keys().len(),
    {
        self.rows.len()
    }

    /// The key of the `i`-th row.
    pub fn key_at(&self, i: usize) -> (r: u64)
        requires
            self.wf(),
            i < self.keys().len(),
        ensures
            r == self.keys()[i as int],
            self@.contains_key(r),
    {
        proof {
            lemma_key_index(self.rows@, i as int);
        }
        self.rows[i].key
    }

    /// The value of the `i`-th row.
    pub fn value_at(&self, i: usize) -> (r: &T)
        requires
            self.wf(),
            i < self.keys().len(),
        ensures
            self@.contains_key(self.keys()[i as int]),
            *r == self@[self.keys()[i as int]],
    {
        proof {
            lemma_key_index(self.rows@, i as int);
        }
        &self.rows[i].value
    }

    fn position(&self, key: u64) -> (r: Option<usize>)
        requires
            self.wf(),
        ensures
            match r {
                Some(i) => i < self.rows@.len() && self.rows@[i as int].key == key
                    && key_index(self.rows@, key) == i && self@.contains_key(key),
                None => !has_key(self.rows@, key) && !self@.contains_key(key),
            },
    {
        let mut low: usize = 0;
        let mut high: usize = self.rows.len();
        while low < high
            invariant
                low <= high <= self.rows@.len(),
                rows_sorted(self.rows@),
                forall|i: int| 0 <= i < low ==> self.rows@[i].key < key,
                forall|i: int| high <= i < self.rows@.len() ==> self.rows@[i].key > key,
            decreases high - low,
        {
            let mid: usize = low + (high - low) / 2;
            let found: u64 = self.rows[mid].key;
            if found == key {
                proof {
                    lemma_key_index(self.rows@, mid as int);
                }
                return Some(mid);
            }
            if found < key {
                low = mid + 1;
            } else {
                high = mid;
            }
        }
        None
    }

    pub fn contains(&self, key: u64) -> (r: bool)
        requires
            self.wf(),
        ensures
            r == self@.contains_key(key),
    {
        self.position(key).is_some()
    }

    pub fn get(&self, key: u64) -> (r: Option<&T>)
        requires
            self.wf(),
        ensures
            match r {
                Some(value) => self@.contains_key(key) && *value == self@[key],
                None => !self@.contains_key(key),
            },
    {
        match self.position(key) {
            Some(i) => {
                proof {
                    lemma_key_index(self.rows@, i as int);
                }
                Some(&self.rows[i].value)
            },
            None => None,
        }
    }

    /// Appends a row; its key must be larger than every key in the table.
    pub fn append(&mut self, key: u64, value: T)
        requires
            old(self).wf(),
            forall|other: u64| #[trigger] old(self)@.contains_key(other) ==> other < key,
        ensures
            final(self).wf(),
            final(self)@ == old(self)@.insert(key, value),
            final(self).keys() == old(self).keys().push(key),
    {
        let ghost before = self.rows@;
        proof {
            assert forall|i: int| 0 <= i < before.len() implies #[trigger] before[i].key < key by {
                lemma_key_index(before, i);
                assert(self@.contains_key(before[i].key));
            }
        }
        self.rows.push(Row { key, value });
        proof {
            let after = self.rows@;
            assert(after.drop_last() =~= before);
            assert forall|k: u64| has_key(after, k) == (has_key(before, k) || k == key) by {
                if has_key(before, k) {
                    let i = key_index(before, k);
                    assert(after[i].key == k);
                }
                if k == key {
                    assert(after[before.len() as int].key == k);
                }
            }
            assert forall|k: u64| has_key(after, k) implies rows_map(after)[k]
                == #[trigger] rows_map(before).insert(key, value)[k] by {
                let i = key_index(after, k);
                lemma_key_index(after, i);
                if i < before.len() {
                    assert(before[i] == after[i]);
                    lemma_key_index(before, i);
                }
            }
            assert(rows_map(after) =~= rows_map(before).insert(key, value));
            assert(self.keys() =~= old(self).keys().push(key));
        }
    }

    /// Gives mutable access to the value of `key`.
    pub fn get_mut(&mut self, key: u64) -> (r: Option<&mut T>)
        requires
            old(self).wf(),
        ensures
            final(self).wf(),
            final(self).keys() == old(self).keys(),
            match r {
                Some(value) => old(self)@.contains_key(key) && *value == old(self)@[key]
                    && final(self)@ == old(self)@.insert(key, *final(value)),
                None => !old(self)@.contains_key(key) && final(self)@ == old(self)@,
            },
    {
        match self.position(key) {
            Some(i) => {
                let ghost before = self.rows@;
                proof {
                    lemma_key_index(before, i as int);
                    assert forall|v: T| #[trigger]
                        rows_update_ok(before, i as int, v) by {
                        lemma_rows_update(before, i as int, v);
                    }
                }
                let row = &mut self.rows[i];
                assert(rows_update_ok(before, i as int, (*final(row)).value));
                Some(&mut row.value)
            },
            None => None,
        }
    }

    /// Gives mutable access to the value of a key that is there.
    pub fn at_mut(&mut self, key: u64) -> (r: &mut T)
        requires
            old(self).wf(),
            old(self)@.contains_key(key),
        ensures
            final(self).wf(),
            final(self).keys() == old(self).keys(),
            *r == old(self)@[key],
            final(self)@ == old(self)@.insert(key, *final(r)),
    {
        let i: usize = self.position(key).unwrap();
        let ghost before = self.rows@;
        proof {
            lemma_key_index(before, i as int);
            assert forall|v: T| #[trigger] rows_update_ok(before, i as int, v) by {
                lemma_rows_update(before, i as int, v);
            }
        }
        let row = &mut self.rows[i];
        assert(rows_update_ok(before, i as int, (*final(row)).value));
        &mut row.value
    }

    /// Stores a value under `key`.
    pub fn insert(&mut self, key: u64, value: T)
        requires
            old(self).wf(),
        ensures
            final(self).wf(),
            final(self)@ == old(self)@.insert(key, value),
    {
        if self.contains(key) {
            *self.at_mut(key) = value;
            return;
        }
        let ghost before = self.rows@;
        let mut i: usize = 0;
        while i < self.rows.len() && self.rows[i].key < key
            invariant
                i <= self.rows@.len(),
                forall|j: int| 0 <= j < i ==> self.rows@[j].key < key,
            decreases self.rows@.len() - i,
        {
            i += 1;
        }
        proof {
            assert forall|j: int| i <= j < before.len() implies before[j].key > key by {
                lemma_key_index(before, j);
                if j > i {
                    assert(before[i as int].key < before[j].key);
                }
            }
        }
        self.rows.insert(i, Row { key, value });
        proof {
            lemma_rows_insert(before, i as int, Row { key, value });
        }
    }

    /// Removes the row of `key` and hands its value back.
    pub fn remove(&mut self, key: u64) -> (r: Option<T>)
        requires
            old(self).wf(),
        ensures
            final(self).wf(),
            match r {
                Some(value) => old(self)@.contains_key(key) && value == old(self)@[key]
                    && final(self)@ == old(self)@.remove(key) && final(self).keys()
                    == old(self).keys().remove_value(key),
                None => !old(self)@.contains_key(key) && final(self)@ == old(self)@
                    && final(self).keys() == old(self).keys(),
            },
    {
        match self.position(key) {
            Some(i) => {
                let ghost before = self.rows@;
                proof {
                    lemma_key_index(before, i as int);
                }
                let row = self.rows.remove(i);
                proof {
                    lemma_rows_remove(before, i as int);
                    let keys = old(self).keys();
                    assert(keys[i as int] == key);
                    assert forall|j: int| 0 <= j < i implies keys[j] != key by {}
                    lemma_index_of_first(keys, key, i as int);
                    assert(self.keys() =~= keys.remove(i as int));
                }
                Some(row.value)
            },
            None => None,
        }
    }
}

/// Writing the value of row `i` updates the map at that row's key only.
spec fn rows_update_ok<T>(rows: Seq<Row<T>>, i: int, value: T) -> bool {
    let after = rows.update(i, Row { key: rows[i].key, value });
    &&& rows_sorted(after)
    &&& rows_map(after) == rows_map(rows).insert(rows[i].key, value)
    &&& after.map_values(|row: Row<T>| row.key) == rows.map_values(|row: Row<T>| row.key)
}

proof fn lemma_rows_update<T>(rows: Seq<Row<T>>, i: int, value: T)
    requires
        rows_sorted(rows),
        0 <= i < rows.len(),
    ensures
        rows_update_ok(rows, i, value),
{
    let after = rows.update(i, Row { key: rows[i].key, value });
    assert(rows_sorted(after));
    assert forall|k: u64| has_key(after, k) == has_key(rows, k) by {
        if has_key(rows, k) {
            let j = key_index(rows, k);
            assert(after[j].key == k);
        }
        if has_key(after, k) {
            let j = key_index(after, k);
            assert(rows[j].key == k);
        }
    }
    lemma_key_index(rows, i);
    assert forall|k: u64| has_key(after, k) implies #[trigger] rows_map(after)[k] == rows_map(
        rows,
    ).insert(rows[i].key, value)[k] by {
        let j = key_index(after, k);
        lemma_key_index(after, j);
        lemma_key_index(rows, j);
    }
    assert(rows_map(after) =~= rows_map(rows).insert(rows[i].key, value));
    assert(after.map_values(|row: Row<T>| row.key) =~= rows.map_values(|row: Row<T>| row.key));
}

proof fn lemma_rows_insert<T>(rows: Seq<Row<T>>, i: int, row: Row<T>)
    requires
        rows_sorted(rows),
        0 <= i <= rows.len(),
        forall|j: int| 0 <= j < i ==> rows[j].key < row.key,
        forall|j: int| i <= j < rows.len() ==> rows[j].key > row.key,
    ensures
        rows_sorted(rows.insert(i, row)),
        rows_map(rows.insert(i, row)) == rows_map(rows).insert(row.key, row.value),
{
    let after = rows.insert(i, row);
    assert(rows_sorted(after));
    assert(after[i] == row);
    assert(after.remove(i) =~= rows);
    lemma_rows_remove(after, i);
    lemma_key_index(after, i);
    assert(rows_map(after) =~= rows_map(rows).insert(row.key, row.value));
}

proof fn lemma_rows_remove<T>(rows: Seq<Row<T>>, i: int)
    requires
        rows_sorted(rows),
        0 <= i < rows.len(),
    ensures
        rows_sorted(rows.remove(i)),
        rows_map(rows.remove(i)) == rows_map(rows).remove(rows[i].key),
{
    let after = rows.remove(i);
    assert forall|a: int, b: int| 0 <= a < b < after.len() implies after[a].key < after[b].key by {
        let x = if a < i { a } else { a + 1 };
        let y = if b < i { b } else { b + 1 };
        assert(after[a] == rows[x] && after[b] == rows[y]);
    }
    assert forall|k: u64| has_key(after, k) == (has_key(rows, k) && k != rows[i].key) by {
        if has_key(rows, k) && k != rows[i].key {
            let j = key_index(rows, k);
            if j < i {
                assert(after[j].key == k);
            } else {
                assert(after[j - 1].key == k);
            }
        }
        if has_key(after, k) {
            let j = key_index(after, k);
            if j < i {
                assert(rows[j].key == k);
                assert(rows[j].key < rows[i].key);
            } else {
                assert(rows[j + 1].key == k);
                assert(rows[i].key < rows[j + 1].key);
            }
        }
    }
    assert forall|k: u64| has_key(after, k) implies #[trigger] rows_map(after)[k] == rows_map(
        rows,
    )[k] by {
        let j = key_index(after, k);
        lemma_key_index(after, j);
        if j < i {
            assert(rows[j] == after[j]);
            lemma_key_index(rows, j);
        } else {
            assert(rows[j + 1] == after[j]);
            lemma_key_index(rows, j + 1);
        }
    }
    assert(rows_map(after) =~= rows_map(rows).remove(rows[i].key));
}

/// `remove_value` drops the first occurrence.
proof fn lemma_index_of_first(keys: Seq<u64>, key: u64, i: int)
    requires
        0 <= i < keys.len(),
        keys[i] == key,
        forall|j: int| 0 <= j < i ==> keys[j] != key,
    ensures
        keys.remove_value(key) == keys.remove(i),
{
    keys.index_of_first_ensures(key);
}

} // verus!
