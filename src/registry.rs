//! The process's live global-hotkey registrations.
//!
//! The registry decides which call the operating system's hotkey facility
//! must make next and records what that call achieved; the caller performs
//! the call itself. At most one registration is ever held per chord.
use vstd::prelude::*;

use crate::chord::Chord;

verus! {

/// A call that the hotkey facility must make.
#[derive(Clone, Copy, Debug, PartialEq, Eq, Structural)]
pub enum HotkeyCall {
    Register(Chord),
    Unregister(Chord),
}

/// What the hotkey facility reported for a call.
#[derive(Clone, Debug, PartialEq, Eq)]
pub enum HotkeyOutcome {
    Done,
    Failed(String),
    TimedOut,
}

#[derive(Clone, Debug, PartialEq, Eq)]
pub enum RegistryError {
    RegistrationFailed(String),
    UnregisterFailed(String),
    Timeout,
}

/// The chords that are registered with the operating system, in the order
/// they were registered.
pub struct HotkeyRegistry {
    live: Vec<Chord>,
}

/// The live chords after `c` was registered.
pub open spec fn after_register(live: Seq<Chord>, c: Chord) -> Seq<Chord> {
    if live.contains(c) {
        live
    } else {
        live.push(c)
    }
}

/// The live chords after `c` was unregistered.
pub open spec fn after_unregister(live: Seq<Chord>, c: Chord) -> Seq<Chord> {
    if live.contains(c) {
        live.remove(live.index_of(c))
    } else {
        live
    }
}

/// The first call that registering `c` takes: an existing registration is
/// removed before a new one is installed.
pub open spec fn first_register_call(live: Seq<Chord>, c: Chord) -> HotkeyCall {
    if live.contains(c) {
        HotkeyCall::Unregister(c)
    } else {
        HotkeyCall::Register(c)
    }
}

/// `c` stands exactly once in `s`.
pub open spec fn occurs_once(s: Seq<Chord>, c: Chord) -> bool {
    exists|i: int|
        0 <= i < s.len() && s[i] == c && forall|j: int| 0 <= j < s.len() && s[j] == c ==> j == i
}

proof fn lemma_after_register_distinct(live: Seq<Chord>, c: Chord)
    requires
        live.no_duplicates(),
    ensures
        after_register(live, c).no_duplicates(),
        after_register(live, c).contains(c),
{
    if !live.contains(c) {
        let s = live.push(c);
        assert(s[live.len() as int] == c);
        assert forall|i: int, j: int| 0 <= i < s.len() && 0 <= j < s.len() && i != j implies s[i]
            != s[j] by {
            if i < live.len() && j < live.len() {
                assert(s[i] == live[i] && s[j] == live[j]);
            } else if i < live.len() {
                assert(s[i] == live[i]);
            } else {
                assert(s[j] == live[j]);
            }
        }
    }
}

proof fn lemma_after_unregister_distinct(live: Seq<Chord>, c: Chord)
    requires
        live.no_duplicates(),
    ensures
        after_unregister(live, c).no_duplicates(),
        !after_unregister(live, c).contains(c),
        forall|d: Chord| d != c ==> (after_unregister(live, c).contains(d) <==> live.contains(d)),
{
    if live.contains(c) {
        let k = live.index_of(c);
        let s = live.remove(k);
        assert(0 <= k < live.len() && live[k] == c);
        assert forall|i: int| 0 <= i < s.len() implies #[trigger] s[i] == (if i < k {
            live[i]
        } else {
            live[i + 1]
        }) by {}
        assert forall|i: int, j: int| 0 <= i < s.len() && 0 <= j < s.len() && i != j implies s[i]
            != s[j] by {
            let ii = if i < k { i } else { i + 1 };
            let jj = if j < k { j } else { j + 1 };
            assert(s[i] == live[ii] && s[j] == live[jj]);
        }
        assert forall|i: int| 0 <= i < s.len() implies s[i] != c by {
            let ii = if i < k { i } else { i + 1 };
            assert(s[i] == live[ii]);
        }
        assert forall|d: Chord| d != c implies (s.contains(d) <==> live.contains(d)) by {
            if live.contains(d) {
                let m = choose|m: int| 0 <= m < live.len() && live[m] == d;
                assert(m != k);
                let mm = if m < k { m } else { m - 1 };
                assert(s[mm] == d);
            }
            if s.contains(d) {
                let m = choose|m: int| 0 <= m < s.len() && s[m] == d;
                let mm = if m < k { m } else { m + 1 };
                assert(live[mm] == d);
            }
        }
    }
}

/// Registering a chord twice leaves exactly one registration of it: the
/// second registration first removes the one that the first installed.
pub proof fn lemma_register_twice_keeps_one(live: Seq<Chord>, c: Chord)
    requires
        live.no_duplicates(),
    ensures
        first_register_call(after_register(live, c), c) == HotkeyCall::Unregister(c),
        after_register(after_unregister(after_register(live, c), c), c).no_duplicates(),
        occurs_once(after_register(after_unregister(after_register(live, c), c), c), c),
{
    let once = after_register(live, c);
    lemma_after_register_distinct(live, c);
    let gone = after_unregister(once, c);
    lemma_after_unregister_distinct(once, c);
    let twice = after_register(gone, c);
    lemma_after_register_distinct(gone, c);
    assert(twice == gone.push(c));
    let i = gone.len() as int;
    assert(twice[i] == c);
    assert forall|j: int| 0 <= j < twice.len() && twice[j] == c implies j == i by {
        if j < i {
            assert(twice[j] == gone[j]);
        }
    }
}

impl View for HotkeyRegistry {
    type V = Seq<Chord>;

    closed spec fn view(&self) -> Seq<Chord> {
        self.live@
    }
}

impl HotkeyRegistry {
    /// No chord is registered twice.
    pub open spec fn wf(&self) -> bool {
        self@.no_duplicates()
    }

    pub fn new() -> (r: HotkeyRegistry)
        ensures
            r.wf(),
            r@ == Seq::<Chord>::empty(),
    {
        HotkeyRegistry { live: Vec::new() }
    }

    /// The registered chords, in registration order.
    pub fn registered_chords(&self) -> (r: &Vec<Chord>)
        ensures
            r@ == self@,
    {
        &self.live
    }

    fn position(&self, c: &Chord) -> (r: Option<usize>)
        ensures
            match r {
                Some(k) => k < self@.len() && self@[k as int] == *c,
                None => !self@.contains(*c),
            },
    {
        let mut k: usize = 0;
        while k < self.live.len()
            invariant
                k <= self.live@.len(),
                forall|j: int| 0 <= j < k ==> self.live@[j] != *c,
            decreases self.live.len() - k,
        {
            if self.live[k] == *c {
                return Some(k);
            }
            k += 1;
        }
        None
    }

    pub fn is_registered(&self, c: &Chord) -> (r: bool)
        ensures
            r == self@.contains(*c),
    {
        self.position(c).is_some()
    }

    /// The first call that registering `c` takes.
    pub fn register_call(&self, c: Chord) -> (r: HotkeyCall)
        ensures
            r == first_register_call(self@, c),
    {
        if self.is_registered(&c) {
            HotkeyCall::Unregister(c)
        } else {
            HotkeyCall::Register(c)
        }
    }

    /// The call that unregistering `c` takes; none when `c` is not registered.
    pub fn unregister_call(&self, c: Chord) -> (r: Option<HotkeyCall>)
        ensures
            r == (if self@.contains(c) {
                Some(HotkeyCall::Unregister(c))
            } else {
                None::<HotkeyCall>
            }),
    {
        if self.is_registered(&c) {
            Some(HotkeyCall::Unregister(c))
        } else {
            None
        }
    }

    /// Records the outcome of registering `c`.
    pub fn registered(&mut self, c: Chord, outcome: HotkeyOutcome) -> (r: Result<(), RegistryError>)
        requires
            old(self).wf(),
        ensures
            final(self).wf(),
            match outcome {
                HotkeyOutcome::Done => r is Ok && final(self)@ == after_register(old(self)@, c),
                HotkeyOutcome::Failed(e) => r == Err::<(), RegistryError>(
                    RegistryError::RegistrationFailed(e),
                ) && final(self)@ == old(self)@,
                HotkeyOutcome::TimedOut => r == Err::<(), RegistryError>(RegistryError::Timeout)
                    && final(self)@ == old(self)@,
            },
    {
        match outcome {
            HotkeyOutcome::Done => {
                proof {
                    lemma_after_register_distinct(self@, c);
                }
                if !self.is_registered(&c) {
                    self.live.push(c);
                }
                Ok(())
            },
            HotkeyOutcome::Failed(e) => Err(RegistryError::RegistrationFailed(e)),
            HotkeyOutcome::TimedOut => Err(RegistryError::Timeout),
        }
    }

    /// Records the outcome of unregistering `c`.
    pub fn unregistered(&mut self, c: Chord, outcome: HotkeyOutcome) -> (r: Result<(), RegistryError>)
        requires
            old(self).wf(),
        ensures
            final(self).wf(),
            match outcome {
                HotkeyOutcome::Done => r is Ok && final(self)@ == after_unregister(old(self)@, c),
                HotkeyOutcome::Failed(e) => r == Err::<(), RegistryError>(
                    RegistryError::UnregisterFailed(e),
                ) && final(self)@ == old(self)@,
                HotkeyOutcome::TimedOut => r == Err::<(), RegistryError>(RegistryError::Timeout)
                    && final(self)@ == old(self)@,
            },
    {
        match outcome {
            HotkeyOutcome::Done => {
                proof {
                    lemma_after_unregister_distinct(self@, c);
                }
                match self.position(&c) {
                    Some(k) => {
                        proof {
                            let i = self@.index_of(c);
                            assert(0 <= i < self@.len() && self@[i] == c);
                            assert(i == k as int);
                        }
                        self.live.remove(k);
                        proof {
                            assert(self@ =~= old(self)@.remove(k as int));
                        }
                    },
                    None => {},
                }
                Ok(())
            },
            HotkeyOutcome::Failed(e) => Err(RegistryError::UnregisterFailed(e)),
            HotkeyOutcome::TimedOut => Err(RegistryError::Timeout),
        }
    }
}

} // verus!
