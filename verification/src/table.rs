//! Ledger entries of one kind, found by their key.

use crate::types::DataKey;
use vstd::prelude::*;

verus! {

/// Entries of one kind. Where a key stands in more than one row, the first row
/// counts.
#[derive(Clone, Debug)]
pub struct Table<V> {
    pub rows: Vec<(DataKey, V)>,
}

/// The entries that rows hold.
pub open spec fn rows_map<V: View>(rows: Seq<(DataKey, V)>) -> Map<DataKey, V::V>
    decreases rows.len(),
{
    if rows.len() == 0 {
        Map::empty()
    } else {
        rows_map(rows.drop_first()).insert(rows[0].0, rows[0].1@)
    }
}

impl<V: View> View for Table<V> {
    type V = Map<DataKey, V::V>;

    open spec fn view(&self) -> Map<DataKey, V::V> {
        rows_map(self.rows@)
    }
}

proof fn lemma_rows_push<V: View>(rows: Seq<(DataKey, V)>, key: DataKey, value: V)
    requires
        forall|j: int| 0 <= j < rows.len() ==> (#[trigger] rows[j]).0 != key,
    ensures
        rows_map(rows.push((key, value))) == rows_map(rows).insert(key, value@),
    decreases rows.len(),
{
    let longer = rows.push((key, value));
    if rows.len() == 0 {
        assert(longer.drop_first() =~= rows);
    } else {
        let rest = rows.drop_first();
        assert(longer.drop_first() =~= rest.push((key, value)));
        assert(rows[0].0 != key);
        lemma_rows_push(rest, key, value);
        assert(rows_map(longer) =~= rows_map(rows).insert(key, value@));
    }
}

proof fn lemma_rows_update<V: View>(rows: Seq<(DataKey, V)>, at: int, key: DataKey, value: V)
    requires
        0 <= at < rows.len(),
        rows[at].0 == key,
        forall|j: int| 0 <= j < at ==> (#[trigger] rows[j]).0 != key,
    ensures
        rows_map(rows.update(at, (key, value))) == rows_map(rows).insert(key, value@),
    decreases rows.len(),
{
    let changed = rows.update(at, (key, value));
    let rest = rows.drop_first();
    if at == 0 {
        assert(changed.drop_first() =~= rest);
        assert(rows_map(changed) =~= rows_map(rows).insert(key, value@));
    } else {
        assert(changed.drop_first() =~= rest.update(at - 1, (key, value)));
        assert(rows[0].0 != key);
        lemma_rows_update(rest, at - 1, key, value);
        assert(rows_map(changed) =~= rows_map(rows).insert(key, value@));
    }
}

pub(crate) proof fn lemma_rows_lookup<V: View>(rows: Seq<(DataKey, V)>, at: int, key: DataKey)
    requires
        0 <= at <= rows.len(),
        forall|j: int| 0 <= j < at ==> (#[trigger] rows[j]).0 != key,
    ensures
        at < rows.len() && rows[at].0 == key ==> rows_map(rows).contains_key(key) && rows_map(
            rows,
        )[key] == rows[at].1@,
        at == rows.len() ==> !rows_map(rows).contains_key(key),
    decreases rows.len(),
{
    if rows.len() > 0 && at > 0 {
        assert(rows[0].0 != key);
        lemma_rows_lookup(rows.drop_first(), at - 1, key);
    }
}

/// A table holds finitely many entries.
pub proof fn lemma_rows_finite<V: View>(rows: Seq<(DataKey, V)>)
    ensures
        rows_map(rows).dom().finite(),
    decreases rows.len(),
{
    if rows.len() > 0 {
        lemma_rows_finite(rows.drop_first());
    }
}

impl<V: View> Table<V> {
    /// A table without entries.
    pub fn new() -> (table: Self)
        ensures
            table@ == Map::<DataKey, V::V>::empty(),
    {
        Table { rows: Vec::new() }
    }

    /// The row that counts for a key, or the number of rows if there is none.
    fn position(&self, key: DataKey) -> (at: usize)
        ensures
            at <= self.rows@.len(),
            at < self.rows@.len() ==> self.rows@[at as int].0 == key,
            forall|j: int| 0 <= j < at ==> (#[trigger] self.rows@[j]).0 != key,
    {
        let mut i: usize = 0;
        while i < self.rows.len()
            invariant
                i <= self.rows@.len(),
                forall|j: int| 0 <= j < i ==> (#[trigger] self.rows@[j]).0 != key,
            decreases self.rows@.len() - i,
        {
            if self.rows[i].0 == key {
                return i;
            }
            i += 1;
        }
        i
    }

    /// The entry under `key`, if there is one.
    pub fn get(&self, key: DataKey) -> (entry: Option<&V>)
        ensures
            entry is Some <==> self@.contains_key(key),
            entry matches Some(value) ==> value@ == self@[key],
    {
        let at: usize = self.position(key);
        proof {
            lemma_rows_lookup(self.rows@, at as int, key);
        }
        if at < self.rows.len() {
            Some(&self.rows[at].1)
        } else {
            None
        }
    }

    /// Whether there is an entry under `key`.
    pub fn has(&self, key: DataKey) -> (found: bool)
        ensures
            found == self@.contains_key(key),
    {
        let at: usize = self.position(key);
        proof {
            lemma_rows_lookup(self.rows@, at as int, key);
        }
        at < self.rows.len()
    }

    /// Puts `value` under `key` and leaves every other entry alone.
    pub fn set(&mut self, key: DataKey, value: V)
        ensures
            final(self)@ == old(self)@.insert(key, value@),
    {
        let at: usize = self.position(key);
        if at < self.rows.len() {
            proof {
                lemma_rows_update(self.rows@, at as int, key, value);
            }
            self.rows.set(at, (key, value));
        } else {
            proof {
                lemma_rows_push(self.rows@, key, value);
            }
            self.rows.push((key, value));
        }
    }
}

} // verus!
