use vstd::prelude::*;
use crate::models::{NewUrl, Url};

verus! {

/// Failures of the mapping store.
#[derive(Debug, Clone, Copy, PartialEq, Eq, Structural)]
pub enum StoreError {
    /// The identifier is already taken by a live mapping.
    DuplicateIdentifier,
    /// No live mapping has the identifier.
    NotFound,
    /// The store could not carry out the operation.
    StorageFailure,
}

/// A row is due for deletion when its creation time lies strictly before `cutoff`.
/// A row without a creation time is never due.
pub open spec fn is_older(r: Url, cutoff: i64) -> bool {
    match r.created_at {
        Some(t) => t < cutoff,
        None => false,
    }
}

fn row_is_older(r: &Url, cutoff: i64) -> (b: bool)
    ensures
        b == is_older(*r, cutoff),
{
    match r.created_at {
        Some(t) => t < cutoff,
        None => false,
    }
}

/// Some row carries the identifier `id`.
pub open spec fn holds(rows: Seq<Url>, id: Seq<char>) -> bool {
    exists|i: int| 0 <= i < rows.len() && #[trigger] rows[i].short_url@ == id
}

/// No two rows share an identifier.
pub open spec fn ids_unique(rows: Seq<Url>) -> bool {
    forall|i: int, j: int|
        0 <= i < rows.len() && 0 <= j < rows.len() && i != j ==> #[trigger] rows[i].short_url@
            != #[trigger] rows[j].short_url@
}

/// The target stored under `id`, if any.
pub open spec fn target_of(rows: Seq<Url>, id: Seq<char>) -> Option<Seq<char>> {
    if holds(rows, id) {
        Some(rows[choose|i: int| 0 <= i < rows.len() && #[trigger] rows[i].short_url@ == id].name@)
    } else {
        None
    }
}

/// `new` is `old` with one row appended under the previously unused
/// identifier `id`, pointing at `target`.
pub open spec fn created(old: Seq<Url>, new: Seq<Url>, id: Seq<char>, target: Seq<char>) -> bool {
    &&& !holds(old, id)
    &&& new.len() == old.len() + 1
    &&& new.drop_last() == old
    &&& new.last().short_url@ == id
    &&& new.last().name@ == target
}

/// With unique identifiers, the row found at `i` is the one that `target_of` names.
pub proof fn lemma_target_at(rows: Seq<Url>, i: int)
    requires
        ids_unique(rows),
        0 <= i < rows.len(),
    ensures
        target_of(rows, rows[i].short_url@) == Some(rows[i].name@),
{
    let id = rows[i].short_url@;
    assert(holds(rows, id));
    let j = choose|j: int| 0 <= j < rows.len() && #[trigger] rows[j].short_url@ == id;
    assert(j == i);
}

/// The mapping table: rows in insertion order, identifiers unique, creation
/// times assigned by the table and non-decreasing.
pub struct MappingTable {
    rows: Vec<Url>,
    next_id: i32,
    latest: i64,
}

impl View for MappingTable {
    type V = Seq<Url>;

    closed spec fn view(&self) -> Seq<Url> {
        self.rows@
    }
}

impl MappingTable {
    /// Identifiers unique; creation times present, bounded by the last
    /// stamp and non-decreasing; surrogate keys increasing in insertion
    /// order, at least one and below the next key.
    pub closed spec fn wf(&self) -> bool {
        &&& ids_unique(self.rows@)
        &&& self.next_id >= 1
        &&& forall|i: int|
            0 <= i < self.rows@.len() ==> 1 <= (#[trigger] self.rows@[i]).id < self.next_id
        &&& forall|i: int, j: int|
            0 <= i < j < self.rows@.len() ==> (#[trigger] self.rows@[i]).id < (
            #[trigger] self.rows@[j]).id
        &&& forall|i: int|
            0 <= i < self.rows@.len() ==> (#[trigger] self.rows@[i]).created_at.is_some()
                && self.rows@[i].created_at.unwrap() <= self.latest
        &&& forall|i: int, j: int|
            0 <= i <= j < self.rows@.len() ==> (#[trigger] self.rows@[i]).created_at.unwrap()
                <= (#[trigger] self.rows@[j]).created_at.unwrap()
    }

    /// What every well-formed table guarantees: identifiers are unique;
    /// creation times are present, no later than the last stamp, and
    /// non-decreasing in insertion order; surrogate keys are distinct,
    /// increasing in insertion order, and below the next key.
    pub proof fn lemma_wf_facts(&self)
        requires
            self.wf(),
        ensures
            ids_unique(self@),
            forall|i: int|
                0 <= i < self@.len() ==> (#[trigger] self@[i]).created_at.is_some()
                    && self@[i].created_at.unwrap() <= self.last_stamp(),
            forall|i: int, j: int|
                0 <= i <= j < self@.len() ==> (#[trigger] self@[i]).created_at.unwrap() <= (
                #[trigger] self@[j]).created_at.unwrap(),
            self.next_key() >= 1,
            forall|i: int| 0 <= i < self@.len() ==> 1 <= (#[trigger] self@[i]).id < self.next_key(),
            forall|i: int, j: int|
                0 <= i < j < self@.len() ==> (#[trigger] self@[i]).id < (#[trigger] self@[j]).id,
    {
    }

    /// The latest creation time handed out so far.
    pub closed spec fn last_stamp(&self) -> i64 {
        self.latest
    }

    /// The surrogate key the next inserted row receives.
    pub closed spec fn next_key(&self) -> i32 {
        self.next_id
    }

    /// Surrogate keys are still available for new rows.
    pub closed spec fn has_room(&self) -> bool {
        self.next_id < i32::MAX
    }

    /// An empty table.
    pub fn new() -> (r: MappingTable)
        ensures
            r.wf(),
            r@ == Seq::<Url>::empty(),
            r.has_room(),
            r.next_key() == 1,
            r.last_stamp() == i64::MIN,
    {
        MappingTable { rows: Vec::new(), next_id: 1, latest: i64::MIN }
    }

    /// Number of live mappings.
    pub fn len(&self) -> (r: usize)
        ensures
            r == self@.len(),
    {
        self.rows.len()
    }

    /// Index of the row with identifier `key`.
    fn position(&self, key: &String) -> (r: Option<usize>)
        ensures
            match r {
                Some(i) => i < self@.len() && self@[i as int].short_url@ == key@,
                None => !holds(self@, key@),
            },
    {
        let mut i: usize = 0;
        while i < self.rows.len()
            invariant
                0 <= i <= self.rows@.len(),
                forall|k: int| 0 <= k < i ==> #[trigger] self.rows@[k].short_url@ != key@,
            decreases self.rows@.len() - i,
        {
            if self.rows[i].short_url == *key {
                return Some(i);
            }
            i = i + 1;
        }
        None
    }

    /// Writes a new row stamped with `now`, or with the latest stamp if the
    /// clock went back. Nothing is written on failure.
    pub fn insert(&mut self, new: &NewUrl, now: i64) -> (r: Result<(), StoreError>)
        requires
            old(self).wf(),
        ensures
            final(self).wf(),
            r == Err::<(), StoreError>(StoreError::StorageFailure) <==> !old(self).has_room(),
            r == Err::<(), StoreError>(StoreError::DuplicateIdentifier) <==> old(self).has_room()
                && holds(old(self)@, new.short_url@),
            r is Ok <==> !holds(old(self)@, new.short_url@) && old(self).has_room(),
            r is Err ==> *final(self) == *old(self),
            r is Ok ==> {
                let stamp = if now < old(self).last_stamp() {
                    old(self).last_stamp()
                } else {
                    now
                };
                let row = final(self)@.last();
                &&& final(self)@.len() == old(self)@.len() + 1
                &&& final(self)@.drop_last() == old(self)@
                &&& row.name@ == new.name@
                &&& row.short_url@ == new.short_url@
                &&& row.created_by@ == new.created_by@
                &&& row.created_at == Some(stamp)
                &&& row.id == old(self).next_key()
                &&& final(self).last_stamp() == stamp
                &&& final(self).next_key() == old(self).next_key() + 1
            },
    {
        if self.next_id == i32::MAX {
            return Err(StoreError::StorageFailure);
        }
        let key = new.short_url.to_owned();
        if self.position(&key).is_some() {
            return Err(StoreError::DuplicateIdentifier);
        }
        let stamp = if now < self.latest {
            self.latest
        } else {
            now
        };
        let row = Url {
            id: self.next_id,
            name: new.name.to_owned(),
            short_url: key,
            created_at: Some(stamp),
            created_by: new.created_by.to_owned(),
        };
        let ghost before = self.rows@;
        self.rows.push(row);
        self.next_id = self.next_id + 1;
        self.latest = stamp;
        assert(self.rows@.drop_last() =~= before);
        Ok(())
    }

    /// The row stored under `short`.
    pub fn lookup(&self, short: &String) -> (r: Result<Url, StoreError>)
        requires
            self.wf(),
        ensures
            match r {
                Ok(u) => {
                    &&& self@.contains(u)
                    &&& u.short_url@ == short@
                    &&& target_of(self@, short@) == Some(u.name@)
                },
                Err(e) => e == StoreError::NotFound && !holds(self@, short@),
            },
            r is Ok <==> holds(self@, short@),
    {
        match self.position(short) {
            Some(i) => {
                proof {
                    lemma_target_at(self@, i as int);
                }
                Ok(self.rows[i].duplicate())
            },
            None => Err(StoreError::NotFound),
        }
    }

    /// Removes, in one step, every row created strictly before `cutoff`, and
    /// returns how many went.
    pub fn delete_older_than(&mut self, cutoff: i64) -> (count: usize)
        requires
            old(self).wf(),
        ensures
            final(self).wf(),
            final(self).last_stamp() == old(self).last_stamp(),
            final(self).has_room() == old(self).has_room(),
            final(self).next_key() == old(self).next_key(),
            count <= old(self)@.len(),
            final(self)@ == old(self)@.subrange(count as int, old(self)@.len() as int),
            forall|i: int| 0 <= i < count ==> is_older(#[trigger] old(self)@[i], cutoff),
            forall|i: int|
                count <= i < old(self)@.len() ==> !is_older(#[trigger] old(self)@[i], cutoff),
    {
        let mut k: usize = 0;
        while k < self.rows.len() && row_is_older(&self.rows[k], cutoff)
            invariant
                0 <= k <= self.rows@.len(),
                forall|i: int| 0 <= i < k ==> is_older(#[trigger] self.rows@[i], cutoff),
            decreases self.rows@.len() - k,
        {
            k = k + 1;
        }
        let ghost before = self.rows@;
        let rest = self.rows.split_off(k);
        self.rows = rest;
        assert forall|i: int| k <= i < before.len() implies !is_older(#[trigger] before[i], cutoff) by {
            assert(before[k as int].created_at.unwrap() <= before[i].created_at.unwrap());
        }
        k
    }
}

} // verus!
