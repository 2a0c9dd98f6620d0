//! The store's rules for shortcut records: upsert by id, delete by id,
//! lookup by id. Reading and writing the records is left to the caller.
use vstd::prelude::*;

use crate::definition::Shortcut;

verus! {

#[derive(Clone, Debug, PartialEq, Eq)]
pub enum StoreError {
    NotFound,
    IOFailure(String),
    CorruptData(String),
}

/// The records without those whose id is `id`.
pub open spec fn other_ids(records: Seq<Shortcut>, id: Seq<char>) -> Seq<Shortcut>
    decreases records.len(),
{
    if records.len() == 0 {
        Seq::empty()
    } else {
        let before = other_ids(records.drop_last(), id);
        if records.last().id@ == id {
            before
        } else {
            before.push(records.last())
        }
    }
}

/// The records after saving `s`: any record with its id is replaced, and
/// `s` comes last.
pub open spec fn upserted(records: Seq<Shortcut>, s: Shortcut) -> Seq<Shortcut> {
    other_ids(records, s.id@).push(s)
}

pub open spec fn has_id(records: Seq<Shortcut>, id: Seq<char>) -> bool {
    exists|k: int| 0 <= k < records.len() && (#[trigger] records[k]).id@ == id
}

/// `k` is the first position of a record with id `id`.
pub open spec fn first_with_id(records: Seq<Shortcut>, id: Seq<char>, k: int) -> bool {
    &&& 0 <= k < records.len()
    &&& records[k].id@ == id
    &&& forall|j: int| 0 <= j < k ==> (#[trigger] records[j]).id@ != id
}

/// The first record with id `id`.
pub open spec fn lookup(records: Seq<Shortcut>, id: Seq<char>) -> Option<Shortcut> {
    if has_id(records, id) {
        Some(records[choose|k: int| first_with_id(records, id, k)])
    } else {
        None
    }
}

proof fn lemma_first_unique(records: Seq<Shortcut>, id: Seq<char>, k: int)
    requires
        first_with_id(records, id, k),
    ensures
        lookup(records, id) == Some(records[k]),
{
    assert(has_id(records, id));
    let c = choose|c: int| first_with_id(records, id, c);
    assert(first_with_id(records, id, c));
    if c < k {
        assert(records[c].id@ != id);
    } else if k < c {
        assert(records[k].id@ != id);
    }
}

proof fn lemma_other_ids_lack(records: Seq<Shortcut>, id: Seq<char>)
    ensures
        !has_id(other_ids(records, id), id),
{
    let out = other_ids(records, id);
    assert forall|k: int| 0 <= k < out.len() implies (#[trigger] out[k]).id@ != id by {
        lemma_other_ids_member(records, id, k);
    }
}

/// A record that is kept when `id` is removed was in the store and has
/// another id.
pub proof fn lemma_other_ids_member(records: Seq<Shortcut>, id: Seq<char>, m: int)
    requires
        0 <= m < other_ids(records, id).len(),
    ensures
        other_ids(records, id)[m].id@ != id,
        records.contains(other_ids(records, id)[m]),
    decreases records.len(),
{
    let init = records.drop_last();
    let before = other_ids(init, id);
    if m < before.len() {
        lemma_other_ids_member(init, id, m);
        assert(other_ids(records, id)[m] == before[m]);
        let n = choose|n: int| 0 <= n < init.len() && init[n] == before[m];
        assert(records[n] == init[n]);
    } else {
        assert(other_ids(records, id)[m] == records.last());
        assert(records[records.len() - 1] == records.last());
    }
}

/// Saving a definition and then looking its id up gives that definition back.
pub proof fn lemma_save_then_lookup(records: Seq<Shortcut>, s: Shortcut)
    ensures
        lookup(upserted(records, s), s.id@) == Some(s),
{
    let rest = other_ids(records, s.id@);
    lemma_other_ids_lack(records, s.id@);
    let after = rest.push(s);
    assert forall|j: int| 0 <= j < rest.len() implies (#[trigger] after[j]).id@ != s.id@ by {
        assert(after[j] == rest[j]);
    }
    assert(first_with_id(after, s.id@, rest.len() as int));
    lemma_first_unique(after, s.id@, rest.len() as int);
}

/// After deleting an id no record has it, and the others keep their order.
pub proof fn lemma_delete_removes(records: Seq<Shortcut>, id: Seq<char>)
    ensures
        !has_id(other_ids(records, id), id),
        lookup(other_ids(records, id), id) is None,
{
    lemma_other_ids_lack(records, id);
}

/// Moves every record of `v` whose id is not `id` into a new vector, in order.
fn keep_other_ids(v: Vec<Shortcut>, id: &str) -> (r: Vec<Shortcut>)
    ensures
        r@ == other_ids(v@, id@),
{
    let ghost all = v@;
    let mut rest = v;
    let mut kept: Vec<Shortcut> = Vec::new();
    let ghost mut done: int = 0;
    proof {
        assert(all.take(0) =~= Seq::<Shortcut>::empty());
        assert(all.skip(0) =~= all);
    }
    while rest.len() > 0
        invariant
            0 <= done <= all.len(),
            rest@ == all.skip(done),
            kept@ == other_ids(all.take(done), id@),
        decreases rest.len(),
    {
        let s = rest.remove(0);
        proof {
            assert(s == all[done]);
            assert(all.take(done + 1).drop_last() =~= all.take(done));
            assert(all.take(done + 1).last() == s);
            assert(rest@ =~= all.skip(done + 1));
        }
        let keep = !same_id(&s, id);
        if keep {
            kept.push(s);
        }
        proof {
            done = done + 1;
        }
    }
    proof {
        assert(all.take(done) =~= all);
    }
    kept
}

fn same_id(s: &Shortcut, id: &str) -> (r: bool)
    ensures
        r == (s.id@ == id@),
{
    crate::chord::same_text(s.id.as_str(), id)
}

/// Shortcut records as the store holds them.
pub struct ShortcutRepository {
    records: Vec<Shortcut>,
    corruption: Option<String>,
}

impl View for ShortcutRepository {
    type V = Seq<Shortcut>;

    closed spec fn view(&self) -> Seq<Shortcut> {
        self.records@
    }
}

impl ShortcutRepository {
    /// Why the stored records could not be read, if they could not.
    pub closed spec fn corruption(&self) -> Option<String> {
        self.corruption
    }

    /// An empty store.
    pub fn new() -> (r: Result<ShortcutRepository, String>)
        ensures
            r is Ok,
            r->Ok_0@ == Seq::<Shortcut>::empty(),
            r->Ok_0.corruption() is None,
    {
        Ok(ShortcutRepository { records: Vec::new(), corruption: None })
    }

    /// The store as read: the records, or why they could not be decoded.
    /// Unreadable content leaves the store empty.
    pub fn from_loaded(loaded: Result<Vec<Shortcut>, String>) -> (r: ShortcutRepository)
        ensures
            match loaded {
                Ok(v) => r@ == v@ && r.corruption() is None,
                Err(e) => r@ == Seq::<Shortcut>::empty() && r.corruption() == Some(e),
            },
    {
        match loaded {
            Ok(v) => ShortcutRepository { records: v, corruption: None },
            Err(e) => ShortcutRepository { records: Vec::new(), corruption: Some(e) },
        }
    }

    /// Every record, in store order; none when the content was unreadable.
    pub fn get_all(&self) -> (r: &Vec<Shortcut>)
        ensures
            r@ == self@,
    {
        &self.records
    }

    /// The first record with id `id`.
    pub fn get_by_id(&self, id: &str) -> (r: Result<&Shortcut, StoreError>)
        ensures
            match self.corruption() {
                Some(e) => r == Err::<&Shortcut, StoreError>(StoreError::CorruptData(e)),
                None => match lookup(self@, id@) {
                    Some(s) => r is Ok && *r->Ok_0 == s,
                    None => r == Err::<&Shortcut, StoreError>(StoreError::NotFound),
                },
            },
    {
        if let Some(e) = &self.corruption {
            return Err(StoreError::CorruptData(e.clone()));
        }
        let mut k: usize = 0;
        while k < self.records.len()
            invariant
                k <= self@.len(),
                self.corruption() is None,
                forall|j: int| 0 <= j < k ==> (#[trigger] self@[j]).id@ != id@,
            decreases self.records.len() - k,
        {
            if same_id(&self.records[k], id) {
                proof {
                    lemma_first_unique(self@, id@, k as int);
                }
                return Ok(&self.records[k]);
            }
            k += 1;
        }
        assert(!has_id(self@, id@));
        Err(StoreError::NotFound)
    }

    /// Saves `shortcut`, replacing every record with its id.
    pub fn save(&mut self, shortcut: Shortcut) -> (r: Result<(), StoreError>)
        ensures
            match old(self).corruption() {
                Some(e) => r == Err::<(), StoreError>(StoreError::CorruptData(e))
                    && final(self)@ == old(self)@,
                None => r is Ok && final(self)@ == upserted(old(self)@, shortcut),
            },
            final(self).corruption() == old(self).corruption(),
    {
        if let Some(e) = &self.corruption {
            return Err(StoreError::CorruptData(e.clone()));
        }
        let mut all: Vec<Shortcut> = Vec::new();
        std::mem::swap(&mut all, &mut self.records);
        let mut kept = keep_other_ids(all, shortcut.id.as_str());
        kept.push(shortcut);
        self.records = kept;
        Ok(())
    }

    /// Deletes every record with id `id`.
    pub fn delete(&mut self, id: &str) -> (r: Result<(), StoreError>)
        ensures
            match old(self).corruption() {
                Some(e) => r == Err::<(), StoreError>(StoreError::CorruptData(e))
                    && final(self)@ == old(self)@,
                None => if has_id(old(self)@, id@) {
                    r is Ok && final(self)@ == other_ids(old(self)@, id@)
                } else {
                    r == Err::<(), StoreError>(StoreError::NotFound) && final(self)@ == old(self)@
                },
            },
            final(self).corruption() == old(self).corruption(),
    {
        if let Some(e) = &self.corruption {
            return Err(StoreError::CorruptData(e.clone()));
        }
        match self.get_by_id(id) {
            Ok(_) => {},
            Err(e) => {
                return Err(e);
            },
        }
        let mut all: Vec<Shortcut> = Vec::new();
        std::mem::swap(&mut all, &mut self.records);
        self.records = keep_other_ids(all, id);
        Ok(())
    }
}

} // verus!
