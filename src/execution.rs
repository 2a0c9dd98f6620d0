//! Dispatch: matching a fired chord against the cached definitions, and
//! what a press or a release of it leads to.
use vstd::prelude::*;

use crate::actions::{
    ActionStep, ExecutionError, home_directory, home_view, plan_action, planned_step, step_view,
};
use crate::chord::{Chord, ParseError, parse_spec};
use crate::definition::{ActionParameters, ActionScope, ActionType, Shortcut, ShortcutAction};
use crate::facade::{chord_in_use, owns_chord};
use crate::repository::{lemma_other_ids_member, other_ids, upserted};

verus! {

/// An action as dispatch runs it.
#[derive(Clone, Debug, PartialEq, Eq)]
pub struct ExecutionAction {
    pub action_type: ActionType,
    pub parameters: ActionParameters,
}

/// A definition as the dispatch cache holds it.
#[derive(Clone, Debug, PartialEq, Eq)]
pub struct ExecutionShortcut {
    pub id: String,
    pub key_combination: String,
    pub command_name: String,
    pub enabled: bool,
    pub actions: Vec<ExecutionAction>,
    pub scope: Option<ActionScope>,
}

/// Whether the operating system reports the chord going down or up.
#[derive(Clone, Copy, Debug, PartialEq, Eq, Structural)]
pub enum ShortcutState {
    Pressed,
    Released,
}

/// The outcome of one hotkey event.
#[derive(Clone, Copy, Debug, PartialEq, Eq, Structural)]
pub enum Dispatch {
    /// No cached definition has the fired chord.
    Unmatched,
    /// The definition at this cache position was pressed: run its actions,
    /// then notify.
    Pressed(usize),
    /// The definition at this cache position was released: notify only.
    Released(usize),
}

pub open spec fn execution_action_of(a: ShortcutAction) -> ExecutionAction {
    ExecutionAction { action_type: a.action_type, parameters: a.parameters }
}

/// `e` holds what `s` holds, but for the description.
pub open spec fn converts(s: Shortcut, e: ExecutionShortcut) -> bool {
    &&& e.id == s.id
    &&& e.key_combination == s.key_combination
    &&& e.command_name == s.command_name
    &&& e.enabled == s.enabled
    &&& e.actions@ == s.actions@.map_values(|a: ShortcutAction| execution_action_of(a))
    &&& e.scope == s.scope
}

pub open spec fn matches_chord(e: ExecutionShortcut, c: Chord) -> bool {
    parse_spec(e.key_combination@) == Ok::<Chord, ParseError>(c)
}

pub open spec fn any_match(cache: Seq<ExecutionShortcut>, c: Chord) -> bool {
    exists|k: int| 0 <= k < cache.len() && matches_chord(#[trigger] cache[k], c)
}

/// `k` is the first cache position whose chord is `c`.
pub open spec fn first_match(cache: Seq<ExecutionShortcut>, c: Chord, k: int) -> bool {
    &&& 0 <= k < cache.len()
    &&& matches_chord(cache[k], c)
    &&& forall|j: int| 0 <= j < k ==> !matches_chord(#[trigger] cache[j], c)
}

/// The outcome of `state` on chord `c`.
pub open spec fn dispatched(cache: Seq<ExecutionShortcut>, c: Chord, state: ShortcutState, r: Dispatch) -> bool {
    match r {
        Dispatch::Unmatched => !any_match(cache, c),
        Dispatch::Pressed(k) => state == ShortcutState::Pressed && first_match(cache, c, k as int),
        Dispatch::Released(k) => state == ShortcutState::Released && first_match(cache, c, k as int),
    }
}

/// The chords to register at startup: those of the cached definitions whose
/// text parses, in cache order.
pub open spec fn startup_chords(cache: Seq<ExecutionShortcut>) -> Seq<Chord>
    decreases cache.len(),
{
    if cache.len() == 0 {
        Seq::empty()
    } else {
        let before = startup_chords(cache.drop_last());
        match parse_spec(cache.last().key_combination@) {
            Ok(c) => before.push(c),
            Err(_) => before,
        }
    }
}

/// `steps` are the steps of `actions`, one for one, with `home` standing for `~`.
pub open spec fn steps_planned(
    steps: Seq<Result<ActionStep, ExecutionError>>,
    actions: Seq<ExecutionAction>,
    home: Option<Seq<char>>,
) -> bool {
    &&& steps.len() == actions.len()
    &&& forall|i: int|
        0 <= i < steps.len() ==> step_view(#[trigger] steps[i]) == planned_step(
            actions[i].action_type,
            actions[i].parameters,
            home,
        )
}

/// An update that moves a definition from one chord to another moves its
/// trigger: a cache of the updated records no longer fires on the old chord
/// once no definition uses it, and fires the updated definition's actions on
/// the new chord when no other definition uses that one.
pub proof fn lemma_update_moves_trigger(
    records: Seq<Shortcut>,
    d: Shortcut,
    old_c: Chord,
    new_c: Chord,
    cache: Seq<ExecutionShortcut>,
)
    requires
        parse_spec(d.key_combination@) == Ok::<Chord, ParseError>(new_c),
        d.enabled,
        !chord_in_use(upserted(records, d), old_c),
        forall|k: int|
            0 <= k < records.len() && (#[trigger] records[k]).id@ != d.id@ ==> !owns_chord(
                records[k],
                new_c,
            ),
        cache.len() == upserted(records, d).filter(|s: Shortcut| s.enabled).len(),
        forall|i: int|
            0 <= i < cache.len() ==> converts(
                upserted(records, d).filter(|s: Shortcut| s.enabled)[i],
                #[trigger] cache[i],
            ),
    ensures
        !any_match(cache, old_c),
        first_match(cache, new_c, cache.len() - 1),
        cache[cache.len() - 1].actions@ == d.actions@.map_values(
            |a: ShortcutAction| execution_action_of(a),
        ),
{
    let p = |s: Shortcut| s.enabled;
    let rest = other_ids(records, d.id@);
    let u = upserted(records, d);
    let f = u.filter(p);
    let f0 = rest.filter(p);
    assert(u.drop_last() =~= rest);
    assert(f == f0.push(d)) by {
        reveal(Seq::filter);
    }
    let last = cache.len() - 1;
    assert(converts(f[last], cache[last]));
    assert(f[last] == d);
    if any_match(cache, old_c) {
        let k = choose|k: int| 0 <= k < cache.len() && matches_chord(#[trigger] cache[k], old_c);
        assert(converts(f[k], cache[k]));
        assert(f.contains(f[k]));
        u.lemma_filter_contains_rev(p, f[k]);
        let j = choose|j: int| 0 <= j < u.len() && u[j] == f[k];
        assert(owns_chord(u[j], old_c));
    }
    assert forall|j: int| 0 <= j < last implies !matches_chord(#[trigger] cache[j], new_c) by {
        assert(converts(f[j], cache[j]));
        assert(f[j] == f0[j]);
        assert(f0.contains(f0[j]));
        rest.lemma_filter_contains_rev(p, f0[j]);
        let m = choose|m: int| 0 <= m < rest.len() && rest[m] == f0[j];
        lemma_other_ids_member(records, d.id@, m);
        let n = choose|n: int| 0 <= n < records.len() && records[n] == rest[m];
        assert(records[n].id@ != d.id@);
    }
}

impl ExecutionShortcut {
    /// The cached form of a definition.
    pub fn from_shortcut(shortcut: Shortcut) -> (r: ExecutionShortcut)
        ensures
            converts(shortcut, r),
    {
        let ghost all = shortcut.actions@;
        let mut rest = shortcut.actions;
        let mut actions: Vec<ExecutionAction> = Vec::new();
        let ghost mut done: int = 0;
        proof {
            assert(all.skip(0) =~= all);
        }
        while rest.len() > 0
            invariant
                0 <= done <= all.len(),
                rest@ == all.skip(done),
                actions@ == all.take(done).map_values(|a: ShortcutAction| execution_action_of(a)),
            decreases rest.len(),
        {
            let a = rest.remove(0);
            proof {
                assert(a == all[done]);
                assert(rest@ =~= all.skip(done + 1));
            }
            actions.push(ExecutionAction { action_type: a.action_type, parameters: a.parameters });
            proof {
                assert(actions@ =~= all.take(done + 1).map_values(
                    |a: ShortcutAction| execution_action_of(a),
                ));
                done = done + 1;
            }
        }
        proof {
            assert(all.take(done) =~= all);
        }
        ExecutionShortcut {
            id: shortcut.id,
            key_combination: shortcut.key_combination,
            command_name: shortcut.command_name,
            enabled: shortcut.enabled,
            actions,
            scope: shortcut.scope,
        }
    }
}

/// The dispatch cache: the enabled definitions, in store order.
pub struct ExecutionFacade {
    shortcut_cache: Vec<ExecutionShortcut>,
}

impl View for ExecutionFacade {
    type V = Seq<ExecutionShortcut>;

    closed spec fn view(&self) -> Seq<ExecutionShortcut> {
        self.shortcut_cache@
    }
}

impl ExecutionFacade {
    /// The cache of `records`: the enabled ones, in order.
    pub fn new(records: Vec<Shortcut>) -> (r: ExecutionFacade)
        ensures
            r@.len() == records@.filter(|s: Shortcut| s.enabled).len(),
            forall|i: int|
                0 <= i < r@.len() ==> converts(
                    records@.filter(|s: Shortcut| s.enabled)[i],
                    #[trigger] r@[i],
                ),
    {
        let ghost all = records@;
        let ghost p = |s: Shortcut| s.enabled;
        let mut rest = records;
        let mut cache: Vec<ExecutionShortcut> = Vec::new();
        let ghost mut done: int = 0;
        proof {
            reveal(Seq::filter);
            assert(all.skip(0) =~= all);
            assert(all.take(0) =~= Seq::<Shortcut>::empty());
        }
        while rest.len() > 0
            invariant
                0 <= done <= all.len(),
                all == records@,
                p == (|s: Shortcut| s.enabled),
                rest@ == all.skip(done),
                cache@.len() == all.take(done).filter(p).len(),
                forall|i: int|
                    0 <= i < cache@.len() ==> converts(all.take(done).filter(p)[i], #[trigger] cache@[i]),
            decreases rest.len(),
        {
            let s = rest.remove(0);
            proof {
                reveal(Seq::filter);
                assert(s == all[done]);
                assert(rest@ =~= all.skip(done + 1));
                assert(all.take(done + 1).drop_last() =~= all.take(done));
                assert(all.take(done + 1).last() == s);
            }
            if s.enabled {
                let ghost before = all.take(done).filter(p);
                let e = ExecutionShortcut::from_shortcut(s);
                cache.push(e);
                proof {
                    assert(all.take(done + 1).filter(p) == before.push(s));
                    assert forall|i: int| 0 <= i < cache@.len() implies converts(
                        all.take(done + 1).filter(p)[i],
                        #[trigger] cache@[i],
                    ) by {
                        if i < before.len() {
                            assert(all.take(done + 1).filter(p)[i] == before[i]);
                        }
                    }
                }
            }
            proof {
                done = done + 1;
            }
        }
        proof {
            assert(all.take(done) =~= all);
        }
        ExecutionFacade { shortcut_cache: cache }
    }

    /// The cached definitions.
    pub fn shortcut_cache(&self) -> (r: &Vec<ExecutionShortcut>)
        ensures
            r@ == self@,
    {
        &self.shortcut_cache
    }

    /// The first cache position whose chord text denotes `fired`.
    pub fn find_match(&self, fired: &Chord) -> (r: Option<usize>)
        ensures
            match r {
                Some(k) => first_match(self@, *fired, k as int),
                None => !any_match(self@, *fired),
            },
    {
        let mut k: usize = 0;
        while k < self.shortcut_cache.len()
            invariant
                k <= self@.len(),
                forall|j: int| 0 <= j < k ==> !matches_chord(#[trigger] self@[j], *fired),
            decreases self.shortcut_cache.len() - k,
        {
            match Chord::parse(self.shortcut_cache[k].key_combination.as_str()) {
                Ok(c) => {
                    if c == *fired {
                        return Some(k);
                    }
                },
                Err(_) => {},
            }
            k += 1;
        }
        None
    }

    /// What a hotkey event on `fired` leads to. The first matching
    /// definition in cache order wins.
    pub fn handle_shortcut_event(&self, fired: &Chord, state: ShortcutState) -> (r: Dispatch)
        ensures
            dispatched(self@, *fired, state, r),
    {
        match self.find_match(fired) {
            None => Dispatch::Unmatched,
            Some(k) => match state {
                ShortcutState::Pressed => Dispatch::Pressed(k),
                ShortcutState::Released => Dispatch::Released(k),
            },
        }
    }

    /// The steps of the actions of the definition at `index`, in order,
    /// with `home` standing for `~`. Each action is planned on its own, so
    /// one that fails does not keep the others from running.
    pub fn plan_actions(&self, index: usize, home: &Option<String>) -> (r: Vec<Result<ActionStep, ExecutionError>>)
        requires
            index < self@.len(),
        ensures
            steps_planned(r@, self@[index as int].actions@, home_view(*home)),
    {
        let actions = &self.shortcut_cache[index].actions;
        let mut steps: Vec<Result<ActionStep, ExecutionError>> = Vec::new();
        let mut i: usize = 0;
        while i < actions.len()
            invariant
                actions@ == self@[index as int].actions@,
                i <= actions@.len(),
                steps@.len() == i,
                forall|j: int|
                    0 <= j < i ==> step_view(#[trigger] steps@[j]) == planned_step(
                        actions@[j].action_type,
                        actions@[j].parameters,
                        home_view(*home),
                    ),
            decreases actions.len() - i,
        {
            let step = plan_action(actions[i].action_type, &actions[i].parameters, home);
            steps.push(step);
            i += 1;
        }
        steps
    }

    /// The steps of the actions of the definition at `index`, with the
    /// current user's home directory standing for `~`.
    pub fn execute_actions(&self, index: usize) -> (r: Vec<Result<ActionStep, ExecutionError>>)
        requires
            index < self@.len(),
        ensures
            exists|home: Option<Seq<char>>| #[trigger]
                steps_planned(r@, self@[index as int].actions@, home),
    {
        let home = home_directory();
        let steps = self.plan_actions(index, &home);
        assert(steps_planned(steps@, self@[index as int].actions@, home_view(home)));
        steps
    }

    /// The chords to register at startup. A definition whose text does not
    /// parse is skipped; the others are still registered.
    pub fn load_shortcuts_at_startup(&self) -> (r: Vec<Chord>)
        ensures
            r@ == startup_chords(self@),
    {
        let mut chords: Vec<Chord> = Vec::new();
        let mut k: usize = 0;
        proof {
            assert(self@.take(0) =~= Seq::<ExecutionShortcut>::empty());
        }
        while k < self.shortcut_cache.len()
            invariant
                k <= self@.len(),
                chords@ == startup_chords(self@.take(k as int)),
            decreases self.shortcut_cache.len() - k,
        {
            proof {
                assert(self@.take(k + 1).drop_last() =~= self@.take(k as int));
                assert(self@.take(k + 1).last() == self@[k as int]);
            }
            match Chord::parse(self.shortcut_cache[k].key_combination.as_str()) {
                Ok(c) => {
                    chords.push(c);
                },
                Err(_) => {},
            }
            k += 1;
        }
        proof {
            assert(self@.take(self@.len() as int) =~= self@);
        }
        chords
    }
}

/// The name of the event that tells the interface a shortcut fired.
pub fn trigger_event_name() -> (r: &'static str)
    ensures
        r@ == "shortcut-triggered"@,
{
    "shortcut-triggered"
}

/// The text that goes with the trigger event for `state`. It is sent for
/// every matched event, whatever the actions' outcome.
pub fn emit_shortcut_event(state: ShortcutState) -> (r: &'static str)
    ensures
        state == ShortcutState::Pressed ==> r@ == "Shortcut Pressed!"@,
        state == ShortcutState::Released ==> r@ == "Shortcut Released!"@,
{
    match state {
        ShortcutState::Pressed => "Shortcut Pressed!",
        ShortcutState::Released => "Shortcut Released!",
    }
}

} // verus!
