//! A small map from strings to values, kept as a list of rows with pairwise
//! different keys and viewed as a mathematical `Map` keyed by the text of
//! each key.

use vstd::prelude::*;
use crate::text::{list_contains, str_eq};

verus! {

/// No two rows of `rows` carry the same key text.
pub open spec fn keys_distinct<V>(rows: Seq<(String, V)>) -> bool {
    forall|i: int, j: int| 0 <= i < j < rows.len() ==> (#[trigger] rows[i]).0@ != (#[trigger] rows[j]).0@
}

/// Some row of `rows` carries the key `key`.
pub open spec fn has_key<V>(rows: Seq<(String, V)>, key: Seq<char>) -> bool {
    exists|i: int| 0 <= i < rows.len() && (#[trigger] rows[i]).0@ == key
}

/// The index of a row of `rows` that carries `key`.
pub open spec fn row_of<V>(rows: Seq<(String, V)>, key: Seq<char>) -> int {
    choose|i: int| 0 <= i < rows.len() && (#[trigger] rows[i]).0@ == key
}

/// The map that a list of rows stands for.
pub open spec fn rows_map<V>(rows: Seq<(String, V)>) -> Map<Seq<char>, V> {
    Map::new(|k: Seq<char>| has_key(rows, k), |k: Seq<char>| rows[row_of(rows, k)].1)
}

/// With pairwise different keys, the row at index `i` is the one the map
/// holds under its key.
pub proof fn lemma_row_lookup<V>(rows: Seq<(String, V)>, i: int)
    requires
        keys_distinct(rows),
        0 <= i < rows.len(),
    ensures
        has_key(rows, rows[i].0@),
        row_of(rows, rows[i].0@) == i,
        rows_map(rows).dom().contains(rows[i].0@),
        rows_map(rows)[rows[i].0@] == rows[i].1,
{
    let k = rows[i].0@;
    assert(has_key(rows, k));
    let j = row_of(rows, k);
    if j < i {
        assert(rows[j].0@ != rows[i].0@);
    } else if i < j {
        assert(rows[i].0@ != rows[j].0@);
    }
}

/// A list of rows with pairwise different keys stands for a finite map with
/// as many entries as there are rows.
pub proof fn lemma_rows_count<V>(rows: Seq<(String, V)>)
    requires
        keys_distinct(rows),
    ensures
        rows_map(rows).dom().finite(),
        rows_map(rows).dom().len() == rows.len(),
    decreases rows.len(),
{
    if rows.len() == 0 {
        assert(rows_map(rows).dom() =~= Set::<Seq<char>>::empty());
    } else {
        let front = rows.drop_last();
        let last = rows.last();
        assert forall|i: int, j: int| 0 <= i < j < front.len() implies (#[trigger] front[i]).0@ != (
        #[trigger] front[j]).0@ by {
            assert(front[i] == rows[i]);
            assert(front[j] == rows[j]);
        }
        lemma_rows_count(front);
        assert(!has_key(front, last.0@)) by {
            if has_key(front, last.0@) {
                let i = row_of(front, last.0@);
                assert(front[i] == rows[i]);
                assert(rows[i].0@ != rows[rows.len() - 1].0@);
            }
        }
        assert(rows_map(rows).dom() =~= rows_map(front).dom().insert(last.0@)) by {
            assert forall|k: Seq<char>| rows_map(rows).dom().contains(k) implies rows_map(
                front,
            ).dom().insert(last.0@).contains(k) by {
                let i = row_of(rows, k);
                if i < front.len() {
                    assert(front[i] == rows[i]);
                    assert(has_key(front, k));
                }
            }
            assert forall|k: Seq<char>|
                rows_map(front).dom().insert(last.0@).contains(k) implies rows_map(
                rows,
            ).dom().contains(k) by {
                if k == last.0@ {
                    assert(rows[rows.len() - 1].0@ == k);
                } else {
                    let i = row_of(front, k);
                    assert(front[i] == rows[i]);
                }
            }
        }
    }
}

/// Taking the row at index `i` out of a list with pairwise different keys
/// leaves such a list, which stands for the same map without that row's
/// key.
pub proof fn lemma_remove_row<V>(rows: Seq<(String, V)>, i: int)
    requires
        keys_distinct(rows),
        0 <= i < rows.len(),
    ensures
        keys_distinct(rows.remove(i)),
        rows_map(rows.remove(i)) == rows_map(rows).remove(rows[i].0@),
        forall|q: Seq<char>| #[trigger]
            has_key(rows.remove(i), q) <==> (has_key(rows, q) && q != rows[i].0@),
{
    let before = rows;
    let after = rows.remove(i);
    let key = rows[i].0@;
    assert forall|a: int| 0 <= a < after.len() implies #[trigger] after[a] == before[if a < i {
        a
    } else {
        a + 1
    }] by {}
    assert forall|a: int, b: int| 0 <= a < b < after.len() implies (#[trigger] after[a]).0@ != (
    #[trigger] after[b]).0@ by {
        let a0 = if a < i { a } else { a + 1 };
        let b0 = if b < i { b } else { b + 1 };
        assert(before[a0].0@ != before[b0].0@);
    }
    assert forall|q: Seq<char>| #[trigger] has_key(after, q) <==> (has_key(before, q) && q != key) by {
        if has_key(after, q) {
            let a = row_of(after, q);
            let a0 = if a < i { a } else { a + 1 };
            assert(before[a0].0@ == q);
            if a0 < i {
                assert(before[a0].0@ != before[i].0@);
            } else {
                assert(before[i].0@ != before[a0].0@);
            }
        }
        if has_key(before, q) && q != key {
            let a0 = row_of(before, q);
            let a = if a0 < i { a0 } else { a0 - 1 };
            assert(after[a].0@ == q);
        }
    }
    assert forall|q: Seq<char>| has_key(after, q) implies #[trigger] rows_map(after)[q] == rows_map(
        before,
    )[q] by {
        let a = row_of(after, q);
        let a0 = if a < i { a } else { a + 1 };
        lemma_row_lookup(after, a);
        lemma_row_lookup(before, a0);
    }
    assert(rows_map(after) =~= rows_map(before).remove(key));
}

/// A map from strings to values of type `V`.
pub struct TextMap<V> {
    rows: Vec<(String, V)>,
}

impl<V> TextMap<V> {
    /// The keys of the rows are pairwise different.
    pub closed spec fn wf(&self) -> bool {
        keys_distinct(self.rows@)
    }

    /// A well-formed map is finite and has one entry for each row.
    pub proof fn lemma_count(&self)
        requires
            self.wf(),
        ensures
            keys_distinct(self.rows()),
            self.map().dom().finite(),
            self.map().dom().len() == self.rows().len(),
    {
        lemma_rows_count(self.rows@);
    }

    /// The rows in the order in which their keys were first inserted.
    pub closed spec fn rows(&self) -> Seq<(String, V)> {
        self.rows@
    }

    /// The map from key text to value.
    pub open spec fn map(&self) -> Map<Seq<char>, V> {
        rows_map(self.rows())
    }

    /// The empty map.
    pub fn new() -> (m: Self)
        ensures
            m.wf(),
            m.rows() == Seq::<(String, V)>::empty(),
            m.map() == Map::<Seq<char>, V>::empty(),
    {
        let m = TextMap { rows: Vec::new() };
        assert(m.map() =~= Map::<Seq<char>, V>::empty());
        m
    }

    /// The number of entries.
    pub fn len(&self) -> (n: usize)
        requires
            self.wf(),
        ensures
            n == self.rows().len(),
            n == self.map().dom().len(),
    {
        proof {
            self.lemma_count();
        }
        self.rows.len()
    }

    /// The index of the row stored under `key`, if there is one.
    pub fn position(&self, key: &str) -> (r: Option<usize>)
        requires
            self.wf(),
        ensures
            match r {
                Some(i) => i < self.rows().len() && self.rows()[i as int].0@ == key@
                    && self.map().dom().contains(key@) && self.map()[key@] == self.rows()[i as int].1,
                None => !self.map().dom().contains(key@),
            },
    {
        let mut i: usize = 0;
        while i < self.rows.len()
            invariant
                i <= self.rows.len(),
                keys_distinct(self.rows@),
                forall|j: int| 0 <= j < i ==> (#[trigger] self.rows@[j]).0@ != key@,
            decreases self.rows.len() - i,
        {
            if str_eq(self.rows[i].0.as_str(), key) {
                proof {
                    lemma_row_lookup(self.rows@, i as int);
                }
                return Some(i);
            }
            i += 1;
        }
        None
    }

    /// Whether an entry is stored under `key`.
    pub fn contains_key(&self, key: &str) -> (b: bool)
        requires
            self.wf(),
        ensures
            b == self.map().dom().contains(key@),
    {
        self.position(key).is_some()
    }

    /// The value stored under `key`, if there is one.
    pub fn get(&self, key: &str) -> (r: Option<&V>)
        requires
            self.wf(),
        ensures
            match r {
                Some(v) => self.map().dom().contains(key@) && *v == self.map()[key@],
                None => !self.map().dom().contains(key@),
            },
    {
        match self.position(key) {
            Some(i) => Some(&self.rows[i].1),
            None => None,
        }
    }

    /// The key of the row at index `i`.
    pub fn key_at(&self, i: usize) -> (k: &String)
        requires
            self.wf(),
            i < self.rows().len(),
        ensures
            *k == self.rows()[i as int].0,
            self.map().dom().contains(k@),
    {
        proof {
            lemma_row_lookup(self.rows@, i as int);
        }
        &self.rows[i].0
    }

    /// The value of the row at index `i`.
    pub fn value_at(&self, i: usize) -> (v: &V)
        requires
            self.wf(),
            i < self.rows().len(),
        ensures
            *v == self.rows()[i as int].1,
            *v == self.map()[self.rows()[i as int].0@],
    {
        proof {
            lemma_row_lookup(self.rows@, i as int);
        }
        &self.rows[i].1
    }

    /// Stores `value` under `key`, replacing what was stored there before.
    /// A key that is already present keeps its place in the row order; a
    /// new key goes last.
    pub fn insert(&mut self, key: String, value: V)
        requires
            old(self).wf(),
        ensures
            final(self).wf(),
            final(self).map() == old(self).map().insert(key@, value),
            old(self).map().dom().contains(key@) ==> final(self).rows().len() == old(self).rows().len(),
            !old(self).map().dom().contains(key@) ==> final(self).rows() == old(self).rows().push(
                (key, value),
            ),
    {
        let ghost before = self.rows@;
        let pos = self.position(key.as_str());
        match pos {
            Some(i) => {
                let ghost k = key@;
                self.rows.set(i, (key, value));
                proof {
                    let after = self.rows@;
                    assert forall|a: int, b: int| 0 <= a < b < after.len() implies (
                    #[trigger] after[a]).0@ != (#[trigger] after[b]).0@ by {
                        assert(before[a].0@ != before[b].0@);
                    }
                    assert forall|q: Seq<char>| #[trigger] has_key(after, q) <==> has_key(before, q) by {
                        if has_key(after, q) {
                            let a = row_of(after, q);
                            assert(before[a].0@ == q);
                        }
                        if has_key(before, q) {
                            let a = row_of(before, q);
                            assert(after[a].0@ == q);
                        }
                    }
                    assert forall|q: Seq<char>| has_key(after, q) implies #[trigger] rows_map(after)[q]
                        == rows_map(before).insert(k, value)[q] by {
                        let a = row_of(after, q);
                        lemma_row_lookup(after, a);
                        lemma_row_lookup(before, a);
                    }
                    assert(rows_map(after) =~= rows_map(before).insert(k, value));
                }
            },
            None => {
                let ghost k = key@;
                self.rows.push((key, value));
                proof {
                    let after = self.rows@;
                    assert forall|a: int, b: int| 0 <= a < b < after.len() implies (
                    #[trigger] after[a]).0@ != (#[trigger] after[b]).0@ by {
                        if b < before.len() {
                            assert(before[a].0@ != before[b].0@);
                        } else {
                            assert(before[a].0@ != k) by {
                                if before[a].0@ == k {
                                    assert(has_key(before, k));
                                }
                            }
                        }
                    }
                    assert forall|q: Seq<char>| #[trigger] has_key(after, q) <==> (has_key(before, q) || q
                        == k) by {
                        if has_key(after, q) {
                            let a = row_of(after, q);
                            if a < before.len() {
                                assert(before[a].0@ == q);
                            }
                        }
                        if has_key(before, q) {
                            let a = row_of(before, q);
                            assert(after[a].0@ == q);
                        }
                        if q == k {
                            assert(after[before.len() as int].0@ == q);
                        }
                    }
                    assert forall|q: Seq<char>| has_key(after, q) implies #[trigger] rows_map(after)[q]
                        == rows_map(before).insert(k, value)[q] by {
                        let a = row_of(after, q);
                        lemma_row_lookup(after, a);
                        if a < before.len() {
                            lemma_row_lookup(before, a);
                        }
                    }
                    assert(rows_map(after) =~= rows_map(before).insert(k, value));
                }
            },
        }
    }

    /// Removes the entry stored under `key`, if there is one, and says
    /// whether there was. The other rows keep their order.
    pub fn remove(&mut self, key: &str) -> (removed: bool)
        requires
            old(self).wf(),
        ensures
            final(self).wf(),
            removed == old(self).map().dom().contains(key@),
            final(self).map() == old(self).map().remove(key@),
            final(self).rows().len() == old(self).rows().len() - (if removed { 1int } else { 0int }),
    {
        let ghost before = self.rows@;
        let pos = self.position(key);
        match pos {
            Some(i) => {
                self.rows.remove(i);
                proof {
                    lemma_remove_row(before, i as int);
                }
                true
            },
            None => {
                assert(rows_map(before) =~= rows_map(before).remove(key@));
                false
            },
        }
    }
    /// Keeps the entries whose key is listed in `keep` and removes the
    /// others; returns how many were removed.
    pub fn retain_listed(&mut self, keep: &Vec<String>) -> (removed: usize)
        requires
            old(self).wf(),
        ensures
            final(self).wf(),
            final(self).map() == old(self).map().restrict(keep.deep_view().to_set()),
            removed == old(self).rows().len() - final(self).rows().len(),
    {
        let ghost before = self.rows@;
        let ghost kept = keep.deep_view().to_set();
        let total: usize = self.rows.len();
        let mut removed: usize = 0;
        let mut i: usize = 0;
        while i < self.rows.len()
            invariant
                i <= self.rows.len(),
                total == before.len(),
                kept == keep.deep_view().to_set(),
                keys_distinct(self.rows@),
                self.rows.len() + removed == before.len(),
                forall|j: int| 0 <= j < i ==> kept.contains((#[trigger] self.rows@[j]).0@),
                forall|q: Seq<char>| #[trigger]
                    has_key(self.rows@, q) ==> has_key(before, q) && rows_map(self.rows@)[q]
                        == rows_map(before)[q],
                forall|q: Seq<char>| has_key(before, q) && kept.contains(q) ==> #[trigger] has_key(
                    self.rows@,
                    q,
                ),
            decreases self.rows.len() - i,
        {
            if list_contains(keep, self.rows[i].0.as_str()) {
                i += 1;
            } else {
                proof {
                    lemma_remove_row(self.rows@, i as int);
                }
                self.rows.remove(i);
                removed += 1;
            }
        }
        proof {
            let after = self.rows@;
            assert forall|q: Seq<char>| has_key(after, q) implies kept.contains(q) by {
                let a = row_of(after, q);
            }
            assert(rows_map(after) =~= rows_map(before).restrict(kept));
        }
        removed
    }
}

} // verus!
