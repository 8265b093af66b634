//! Keyed stores: records of one kind, at most one under each key.

use vstd::prelude::*;

verus! {

/// A record that a store keeps under a key of its own.
pub trait Record: Sized {
    /// What a record is found by.
    type Key;

    /// What a record holds besides its key.
    type Value;

    /// The key of the record.
    spec fn key(&self) -> Self::Key;

    /// What the record holds besides its key.
    spec fn value(&self) -> Self::Value;

    /// Whether the record has this key.
    fn has_key(&self, key: &Self::Key) -> (same: bool)
        ensures
            same == (self.key() == *key),
    ;

    /// Whether the record has the key of `other`.
    fn same_key(&self, other: &Self) -> (same: bool)
        ensures
            same == (self.key() == other.key()),
    ;
}

/// The map from keys to values that a list of records stands for.
pub open spec fn records_by_key<R: Record>(records: Seq<R>) -> Map<R::Key, R::Value>
    decreases records.len(),
{
    if records.len() == 0 {
        Map::empty()
    } else {
        records_by_key(records.drop_last()).insert(records.last().key(), records.last().value())
    }
}

/// No two records of the list have one key.
pub open spec fn keys_are_unique<R: Record>(records: Seq<R>) -> bool {
    forall|i: int, j: int| 0 <= i < j < records.len() ==> records[i].key() != records[j].key()
}

/// In a list without two records of one key, each record is found under its
/// key, and nothing is found under a key that no record has.
proof fn lemma_records_by_key<R: Record>(records: Seq<R>)
    requires
        keys_are_unique(records),
    ensures
        forall|i: int|
            0 <= i < records.len() ==> records_by_key(records).dom().contains(
                #[trigger] records[i].key(),
            ) && records_by_key(records)[records[i].key()] == records[i].value(),
        forall|key: R::Key| #[trigger]
            records_by_key(records).dom().contains(key) ==> exists|i: int|
                0 <= i < records.len() && #[trigger] records[i].key() == key,
    decreases records.len(),
{
    if records.len() > 0 {
        let init = records.drop_last();
        lemma_records_by_key(init);
        assert forall|i: int| 0 <= i < records.len() implies records_by_key(records).dom().contains(
            #[trigger] records[i].key(),
        ) && records_by_key(records)[records[i].key()] == records[i].value() by {
            if i < records.len() - 1 {
                assert(init[i] == records[i]);
                assert(records[i].key() != records.last().key());
            }
        }
        assert forall|key: R::Key| #[trigger]
            records_by_key(records).dom().contains(key) implies exists|i: int|
            0 <= i < records.len() && #[trigger] records[i].key() == key by {
            if key == records.last().key() {
                assert(records[records.len() - 1].key() == key);
            } else {
                assert(records_by_key(init).dom().contains(key));
                let i = choose|i: int| 0 <= i < init.len() && #[trigger] init[i].key() == key;
                assert(records[i].key() == key);
            }
        }
    }
}

/// Replacing a record by one with the same key replaces the value under that
/// key, and keeps the keys apart.
proof fn lemma_replace_record<R: Record>(records: Seq<R>, i: int, record: R)
    requires
        keys_are_unique(records),
        0 <= i < records.len(),
        records[i].key() == record.key(),
    ensures
        keys_are_unique(records.update(i, record)),
        records_by_key(records.update(i, record)) == records_by_key(records).insert(
            record.key(),
            record.value(),
        ),
    decreases records.len(),
{
    let replaced = records.update(i, record);
    assert(keys_are_unique(replaced)) by {
        assert forall|a: int, b: int| 0 <= a < b < replaced.len() implies replaced[a].key()
            != replaced[b].key() by {
            assert(replaced[a].key() == records[a].key());
            assert(replaced[b].key() == records[b].key());
        }
    }
    if i == records.len() - 1 {
        assert(replaced.drop_last() =~= records.drop_last());
        assert(records_by_key(replaced) =~= records_by_key(records).insert(
            record.key(),
            record.value(),
        ));
    } else {
        lemma_replace_record(records.drop_last(), i, record);
        assert(replaced.drop_last() =~= records.drop_last().update(i, record));
        assert(replaced.last() == records.last());
        assert(records[i].key() != records[records.len() - 1].key());
        assert(records_by_key(replaced) =~= records_by_key(records).insert(
            record.key(),
            record.value(),
        ));
    }
}

/// Records of one kind, at most one under each key.
pub struct Store<R: Record> {
    records: Vec<R>,
}

impl<R: Record> Store<R> {
    /// No two records of the store have one key. Every store that `new` and
    /// `put` make is such.
    pub closed spec fn wf(&self) -> bool {
        keys_are_unique(self.records@)
    }

    /// The value of each record, by the record's key.
    pub closed spec fn view(&self) -> Map<R::Key, R::Value> {
        records_by_key(self.records@)
    }

    /// A store without records.
    pub fn new() -> (store: Self)
        ensures
            store.wf(),
            store@ == Map::<R::Key, R::Value>::empty(),
    {
        Store { records: Vec::new() }
    }

    /// Where the record under `key` stands, if there is one.
    fn position(&self, key: &R::Key) -> (found: Option<usize>)
        ensures
            match found {
                Some(i) => i < self.records@.len() && self.records@[i as int].key() == *key,
                None => forall|j: int|
                    0 <= j < self.records@.len() ==> self.records@[j].key() != *key,
            },
    {
        let mut i: usize = 0;
        while i < self.records.len()
            invariant
                i <= self.records.len(),
                forall|j: int| 0 <= j < i ==> self.records@[j].key() != *key,
            decreases self.records.len() - i,
        {
            if self.records[i].has_key(key) {
                return Some(i);
            }
            i = i + 1;
        }
        None
    }

    /// Where the record with the key of `record` stands, if there is one.
    fn position_of(&self, record: &R) -> (found: Option<usize>)
        ensures
            match found {
                Some(i) => i < self.records@.len() && self.records@[i as int].key() == record.key(),
                None => forall|j: int|
                    0 <= j < self.records@.len() ==> self.records@[j].key() != record.key(),
            },
    {
        let mut i: usize = 0;
        while i < self.records.len()
            invariant
                i <= self.records.len(),
                forall|j: int| 0 <= j < i ==> self.records@[j].key() != record.key(),
            decreases self.records.len() - i,
        {
            if self.records[i].same_key(record) {
                return Some(i);
            }
            i = i + 1;
        }
        None
    }

    /// The record under `key`, if there is one.
    pub fn get(&self, key: &R::Key) -> (found: Option<&R>)
        requires
            self.wf(),
        ensures
            match found {
                Some(record) => self@.dom().contains(*key) && self@[*key] == record.value()
                    && record.key() == *key,
                None => !self@.dom().contains(*key),
            },
    {
        proof {
            lemma_records_by_key(self.records@);
        }
        match self.position(key) {
            Some(i) => Some(&self.records[i]),
            None => None,
        }
    }

    /// Puts `record` under its key, in place of the record that was there, if
    /// there was one.
    pub fn put(&mut self, record: R)
        requires
            old(self).wf(),
        ensures
            final(self).wf(),
            final(self)@ == old(self)@.insert(record.key(), record.value()),
    {
        let ghost before = self.records@;
        match self.position_of(&record) {
            Some(i) => {
                proof {
                    lemma_replace_record(before, i as int, record);
                }
                self.records[i] = record;
            },
            None => {
                self.records.push(record);
                assert(self.records@.drop_last() =~= before);
            },
        }
    }
}

} // verus!
