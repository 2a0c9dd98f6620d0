//! The write path: create, update and delete shortcut definitions.
//!
//! A chord text is parsed before anything is stored, so a bad chord leaves
//! the store untouched. Each write reports the hotkey changes it needs;
//! the caller makes them once the records are stored.
use vstd::prelude::*;

use crate::chord::{Chord, ParseError, parse_spec};
use crate::definition::{Shortcut, ShortcutRequestPayload};
use crate::repository::{
    ShortcutRepository, StoreError, has_id, lemma_delete_removes, lemma_other_ids_member, lookup,
    other_ids, upserted,
};

verus! {

#[derive(Clone, Debug, PartialEq, Eq)]
pub enum DefinitionError {
    Parse(ParseError),
    Store(StoreError),
}

/// The hotkey changes that a write asks for: a chord that no definition
/// uses any more, and a chord that must be registered.
#[derive(Clone, Copy, Debug, PartialEq, Eq, Structural)]
pub struct ChordChange {
    pub retire: Option<Chord>,
    pub install: Option<Chord>,
}

/// `s`'s chord text denotes `c`.
pub open spec fn owns_chord(s: Shortcut, c: Chord) -> bool {
    parse_spec(s.key_combination@) == Ok::<Chord, ParseError>(c)
}

/// Some record's chord text denotes `c`.
pub open spec fn chord_in_use(records: Seq<Shortcut>, c: Chord) -> bool {
    exists|k: int| 0 <= k < records.len() && owns_chord(#[trigger] records[k], c)
}

/// The definition that a request creates, or turns the record `id` into.
pub open spec fn definition_of(payload: ShortcutRequestPayload, id: String) -> Shortcut {
    Shortcut {
        id: id,
        key_combination: payload.shortcut,
        command_name: payload.name,
        description: payload.description,
        enabled: true,
        actions: payload.actions,
        scope: None,
    }
}

/// The chord to retire when `old` stops being used and `new` is now used.
pub open spec fn retired(after: Seq<Shortcut>, old: Result<Chord, ParseError>, new: Option<Chord>) -> Option<Chord> {
    match old {
        Ok(c) => if new != Some(c) && !chord_in_use(after, c) {
            Some(c)
        } else {
            None
        },
        Err(_) => None,
    }
}

/// Deleting a definition removes its id from the store, and retires its
/// chord when it was the only definition using that chord.
pub proof fn lemma_delete_retires_sole_chord(records: Seq<Shortcut>, id: Seq<char>, c: Chord)
    requires
        lookup(records, id) is Some,
        owns_chord(lookup(records, id)->Some_0, c),
        forall|k: int|
            0 <= k < records.len() && (#[trigger] records[k]).id@ != id ==> !owns_chord(
                records[k],
                c,
            ),
    ensures
        !has_id(other_ids(records, id), id),
        retired(other_ids(records, id), parse_spec(lookup(records, id)->Some_0.key_combination@), None)
            == Some(c),
{
    let rest = other_ids(records, id);
    lemma_delete_removes(records, id);
    if chord_in_use(rest, c) {
        let m = choose|m: int| 0 <= m < rest.len() && owns_chord(#[trigger] rest[m], c);
        lemma_other_ids_member(records, id, m);
        let n = choose|n: int| 0 <= n < records.len() && records[n] == rest[m];
        assert(records[n].id@ != id);
    }
}

/// Relies on `uuid::Uuid::new_v4` and its `Display`: a random identifier in
/// the 36-character hyphenated form.
#[verifier::external_body]
fn new_shortcut_id() -> (r: String)
    ensures
        r@.len() == 36,
{
    uuid::Uuid::new_v4().to_string()
}

/// Whether some record's chord text denotes `c`.
pub fn chord_used_by(records: &Vec<Shortcut>, c: Chord) -> (r: bool)
    ensures
        r == chord_in_use(records@, c),
{
    let mut k: usize = 0;
    while k < records.len()
        invariant
            k <= records@.len(),
            forall|j: int| 0 <= j < k ==> !owns_chord(#[trigger] records@[j], c),
        decreases records.len() - k,
    {
        match Chord::parse(records[k].key_combination.as_str()) {
            Ok(d) => {
                if d == c {
                    assert(owns_chord(records@[k as int], c));
                    return true;
                }
            },
            Err(_) => {},
        }
        k += 1;
    }
    false
}

fn retire_chord(after: &Vec<Shortcut>, old: Result<Chord, ParseError>, new: Option<Chord>) -> (r: Option<Chord>)
    ensures
        r == retired(after@, old, new),
{
    match old {
        Ok(c) => {
            let same = match new {
                Some(n) => n == c,
                None => false,
            };
            if !same && !chord_used_by(after, c) {
                Some(c)
            } else {
                None
            }
        },
        Err(_) => None,
    }
}

/// The write path over a store of definitions.
pub struct DefinitionFacade {
    shortcut_repository: ShortcutRepository,
}

impl View for DefinitionFacade {
    type V = Seq<Shortcut>;

    closed spec fn view(&self) -> Seq<Shortcut> {
        self.shortcut_repository@
    }
}

impl DefinitionFacade {
    pub closed spec fn repository(&self) -> ShortcutRepository {
        self.shortcut_repository
    }

    pub fn new(shortcut_repository: ShortcutRepository) -> (r: DefinitionFacade)
        ensures
            r.repository() == shortcut_repository,
            r@ == shortcut_repository@,
    {
        DefinitionFacade { shortcut_repository }
    }

    /// The store, to be written back after a successful write.
    pub fn shortcut_repository(&self) -> (r: &ShortcutRepository)
        ensures
            *r == self.repository(),
    {
        &self.shortcut_repository
    }

    /// Creates the definition `id` from `payload`, and gives the chord to
    /// register. A chord text that does not parse changes nothing.
    pub fn save_shortcut_with_id(&mut self, payload: ShortcutRequestPayload, id: String) -> (r: Result<Chord, DefinitionError>)
        ensures
            final(self).repository().corruption() == old(self).repository().corruption(),
            match parse_spec(payload.shortcut@) {
                Err(p) => r == Err::<Chord, DefinitionError>(DefinitionError::Parse(p))
                    && final(self)@ == old(self)@,
                Ok(c) => match old(self).repository().corruption() {
                    Some(e) => r == Err::<Chord, DefinitionError>(
                        DefinitionError::Store(StoreError::CorruptData(e)),
                    ) && final(self)@ == old(self)@,
                    None => r == Ok::<Chord, DefinitionError>(c)
                        && final(self)@ == upserted(old(self)@, definition_of(payload, id))
                        && lookup(final(self)@, id@) == Some(definition_of(payload, id)),
                },
            },
    {
        let chord = match Chord::parse(payload.shortcut.as_str()) {
            Ok(c) => c,
            Err(p) => {
                return Err(DefinitionError::Parse(p));
            },
        };
        let shortcut = Shortcut {
            id: id,
            key_combination: payload.shortcut,
            command_name: payload.name,
            description: payload.description,
            enabled: true,
            actions: payload.actions,
            scope: None,
        };
        proof {
            crate::repository::lemma_save_then_lookup(self@, shortcut);
        }
        match self.shortcut_repository.save(shortcut) {
            Ok(()) => Ok(chord),
            Err(e) => Err(DefinitionError::Store(e)),
        }
    }

    /// Creates a definition from `payload` under a new random id; gives the
    /// id and the chord to register.
    pub fn save_shortcut(&mut self, payload: ShortcutRequestPayload) -> (r: Result<(String, Chord), DefinitionError>)
        ensures
            final(self).repository().corruption() == old(self).repository().corruption(),
            match parse_spec(payload.shortcut@) {
                Err(p) => r == Err::<(String, Chord), DefinitionError>(DefinitionError::Parse(p))
                    && final(self)@ == old(self)@,
                Ok(c) => match old(self).repository().corruption() {
                    Some(e) => r == Err::<(String, Chord), DefinitionError>(
                        DefinitionError::Store(StoreError::CorruptData(e)),
                    ) && final(self)@ == old(self)@,
                    None => r is Ok && r->Ok_0.1 == c && r->Ok_0.0@.len() == 36
                        && final(self)@ == upserted(old(self)@, definition_of(payload, r->Ok_0.0))
                        && lookup(final(self)@, r->Ok_0.0@) == Some(definition_of(payload, r->Ok_0.0)),
                },
            },
    {
        let id = new_shortcut_id();
        let kept = id.clone();
        match self.save_shortcut_with_id(payload, id) {
            Ok(c) => Ok((kept, c)),
            Err(e) => Err(e),
        }
    }

    /// Replaces the definition `id` with `payload`, keeping its id. The old
    /// chord is retired when no definition uses it any more.
    pub fn update_shortcut(&mut self, id: &str, payload: ShortcutRequestPayload) -> (r: Result<ChordChange, DefinitionError>)
        ensures
            final(self).repository().corruption() == old(self).repository().corruption(),
            match parse_spec(payload.shortcut@) {
                Err(p) => r == Err::<ChordChange, DefinitionError>(DefinitionError::Parse(p))
                    && final(self)@ == old(self)@,
                Ok(c) => match old(self).repository().corruption() {
                    Some(e) => r == Err::<ChordChange, DefinitionError>(
                        DefinitionError::Store(StoreError::CorruptData(e)),
                    ) && final(self)@ == old(self)@,
                    None => match lookup(old(self)@, id@) {
                        None => r == Err::<ChordChange, DefinitionError>(
                            DefinitionError::Store(StoreError::NotFound),
                        ) && final(self)@ == old(self)@,
                        Some(prev) => final(self)@ == upserted(old(self)@, definition_of(payload, prev.id))
                            && r == Ok::<ChordChange, DefinitionError>(ChordChange {
                                retire: retired(final(self)@, parse_spec(prev.key_combination@), Some(c)),
                                install: Some(c),
                            }),
                    },
                },
            },
    {
        let chord = match Chord::parse(payload.shortcut.as_str()) {
            Ok(c) => c,
            Err(p) => {
                return Err(DefinitionError::Parse(p));
            },
        };
        let (existing_id, previous) = match self.shortcut_repository.get_by_id(id) {
            Ok(s) => (s.id.clone(), Chord::parse(s.key_combination.as_str())),
            Err(e) => {
                return Err(DefinitionError::Store(e));
            },
        };
        let shortcut = Shortcut {
            id: existing_id,
            key_combination: payload.shortcut,
            command_name: payload.name,
            description: payload.description,
            enabled: true,
            actions: payload.actions,
            scope: None,
        };
        match self.shortcut_repository.save(shortcut) {
            Ok(()) => {},
            Err(e) => {
                return Err(DefinitionError::Store(e));
            },
        }
        let retire = retire_chord(self.shortcut_repository.get_all(), previous, Some(chord));
        Ok(ChordChange { retire, install: Some(chord) })
    }

    /// Deletes the definition `id`, and gives its chord when no remaining
    /// definition uses it, so that it can be unregistered.
    pub fn delete_shortcut(&mut self, id: &str) -> (r: Result<Option<Chord>, DefinitionError>)
        ensures
            final(self).repository().corruption() == old(self).repository().corruption(),
            match old(self).repository().corruption() {
                Some(e) => r == Err::<Option<Chord>, DefinitionError>(
                    DefinitionError::Store(StoreError::CorruptData(e)),
                ) && final(self)@ == old(self)@,
                None => match lookup(old(self)@, id@) {
                    None => r == Err::<Option<Chord>, DefinitionError>(
                        DefinitionError::Store(StoreError::NotFound),
                    ) && final(self)@ == old(self)@,
                    Some(prev) => final(self)@ == other_ids(old(self)@, id@)
                        && r == Ok::<Option<Chord>, DefinitionError>(
                        retired(final(self)@, parse_spec(prev.key_combination@), None),
                    ),
                },
            },
    {
        let previous = match self.shortcut_repository.get_by_id(id) {
            Ok(s) => Chord::parse(s.key_combination.as_str()),
            Err(e) => {
                return Err(DefinitionError::Store(e));
            },
        };
        match self.shortcut_repository.delete(id) {
            Ok(()) => {},
            Err(e) => {
                return Err(DefinitionError::Store(e));
            },
        }
        Ok(retire_chord(self.shortcut_repository.get_all(), previous, None))
    }

    /// The first definition with id `id`.
    pub fn get_shortcut_by_id(&self, id: &str) -> (r: Result<&Shortcut, DefinitionError>)
        ensures
            match self.repository().corruption() {
                Some(e) => r == Err::<&Shortcut, DefinitionError>(
                    DefinitionError::Store(StoreError::CorruptData(e)),
                ),
                None => match lookup(self@, id@) {
                    Some(s) => r is Ok && *r->Ok_0 == s,
                    None => r == Err::<&Shortcut, DefinitionError>(
                        DefinitionError::Store(StoreError::NotFound),
                    ),
                },
            },
    {
        match self.shortcut_repository.get_by_id(id) {
            Ok(s) => Ok(s),
            Err(e) => Err(DefinitionError::Store(e)),
        }
    }

    /// The definitions that have an id, in store order.
    pub fn get_all_shortcuts(&self) -> (r: Vec<&Shortcut>)
        ensures
            r@.map_values(|s: &Shortcut| *s) == self@.filter(|s: Shortcut| s.id@.len() > 0),
    {
        let all = self.shortcut_repository.get_all();
        let ghost p = |s: Shortcut| s.id@.len() > 0;
        let mut listed: Vec<&Shortcut> = Vec::new();
        let mut i: usize = 0;
        proof {
            reveal(Seq::filter);
            assert(all@.take(0) =~= Seq::<Shortcut>::empty());
            assert(listed@.map_values(|s: &Shortcut| *s) =~= all@.take(0).filter(p));
        }
        while i < all.len()
            invariant
                all@ == self@,
                i <= all@.len(),
                listed@.map_values(|s: &Shortcut| *s) == all@.take(i as int).filter(p),
                p == (|s: Shortcut| s.id@.len() > 0),
            decreases all.len() - i,
        {
            let s = &all[i];
            let ghost before = listed@.map_values(|s: &Shortcut| *s);
            proof {
                reveal(Seq::filter);
                assert(all@.take(i + 1).drop_last() =~= all@.take(i as int));
                assert(all@.take(i + 1).last() == *s);
            }
            if s.id.as_str().unicode_len() > 0 {
                listed.push(s);
                proof {
                    assert(listed@.map_values(|s: &Shortcut| *s) =~= before.push(*s));
                }
            }
            i += 1;
        }
        proof {
            assert(all@.take(all@.len() as int) =~= all@);
        }
        listed
    }
}

} // verus!
