//! The transport/presence state machine: session health and per-reader
//! card presence. The hardware waits, sleeps and retries live outside the
//! library; every transition here is a pure decision on the state and the
//! observed event, so the driving loop only performs what the returned
//! action says.
//!
//! A reader is marked present only after a successful read, so a failed
//! read leaves it eligible for another attempt on the next poll cycle
//! without requiring physical removal; removal always clears the
//! tracking before a new insertion on that reader can be processed.

use vstd::prelude::*;
use crate::text::str_eq;

verus! {

/// The session with the card-terminal subsystem.
#[derive(Debug, Clone, Copy, PartialEq, Eq, Structural)]
pub enum SessionState {
    /// No usable session; establishment is retried with backoff.
    NoSession,
    /// A session is up and readers are being polled.
    Healthy,
}

/// What the driving loop must do after a presence transition.
#[derive(Debug, Clone, Copy, PartialEq, Eq, Structural)]
pub enum PresenceAction {
    /// Nothing changed.
    Ignore,
    /// A card appeared in an untracked reader: run the read sequence.
    StartRead,
    /// A tracked card disappeared: emit the removal event.
    EmitRemoved,
}

/// Presence and session tracking across all enumerated readers.
#[derive(Debug)]
pub struct PresenceMonitor {
    session: SessionState,
    present: Vec<String>,
}

/// Whether a name occurs in the list.
pub open spec fn has_name(names: Seq<String>, name: Seq<char>) -> bool {
    exists|i: int| 0 <= i < names.len() && names[i]@ == name
}

/// All names are distinct.
pub open spec fn distinct_names(names: Seq<String>) -> bool {
    forall|i: int, j: int| 0 <= i < j < names.len() ==> names[i]@ != names[j]@
}

impl PresenceMonitor {
    /// The current session state.
    pub closed spec fn spec_session(self) -> SessionState {
        self.session
    }

    /// Whether a reader is tracked as holding a read card.
    pub closed spec fn is_tracked(self, name: Seq<char>) -> bool {
        has_name(self.present@, name)
    }

    /// Well-formed: each reader is tracked at most once.
    pub closed spec fn wf(self) -> bool {
        distinct_names(self.present@)
    }

    /// A fresh monitor: no session, nothing tracked.
    pub fn new() -> (r: Self)
        ensures
            r.wf(),
            r.spec_session() == SessionState::NoSession,
            (forall|n: Seq<char>| !r.is_tracked(n)),
    {
        PresenceMonitor { session: SessionState::NoSession, present: Vec::new() }
    }

    /// The current session state.
    pub fn session(&self) -> (r: SessionState)
        ensures
            r == self.spec_session(),
    {
        self.session
    }

    /// Records the result of the periodic liveness probe: an unhealthy
    /// session drops to `NoSession` and clears all presence tracking, so
    /// a silently-dead session is reset proactively.
    pub fn on_health_check(&mut self, healthy: bool)
        requires
            old(self).wf(),
        ensures
            final(self).wf(),
            healthy ==> *final(self) == *old(self),
            !healthy ==> final(self).spec_session() == SessionState::NoSession && (forall|
                n: Seq<char>,
            | !final(self).is_tracked(n)),
    {
        if !healthy {
            self.session = SessionState::NoSession;
            self.present = Vec::new();
        }
    }

    /// Records a successful session establishment.
    pub fn on_session_established(&mut self)
        requires
            old(self).wf(),
        ensures
            final(self).wf(),
            final(self).spec_session() == SessionState::Healthy,
            forall|n: Seq<char>| final(self).is_tracked(n) == old(self).is_tracked(n),
    {
        self.session = SessionState::Healthy;
    }

    /// Records the outcome of a status-change wait: a non-timeout error
    /// (or an enumeration failure) drops the session and clears all
    /// presence tracking; a timeout leaves everything as it was.
    pub fn on_status_error(&mut self, is_timeout: bool)
        requires
            old(self).wf(),
        ensures
            final(self).wf(),
            is_timeout ==> *final(self) == *old(self),
            !is_timeout ==> final(self).spec_session() == SessionState::NoSession && (forall|
                n: Seq<char>,
            | !final(self).is_tracked(n)),
    {
        if !is_timeout {
            self.session = SessionState::NoSession;
            self.present = Vec::new();
        }
    }

    fn find_name(&self, name: &str) -> (r: Option<usize>)
        ensures
            match r {
                Option::Some(i) => i < self.present@.len() && self.present@[i as int]@ == name@
                    && self.is_tracked(name@),
                Option::None => !self.is_tracked(name@),
            },
    {
        let mut i: usize = 0;
        while i < self.present.len()
            invariant
                i <= self.present@.len(),
                forall|j: int| 0 <= j < i ==> self.present@[j]@ != name@,
            decreases self.present@.len() - i,
        {
            if str_eq(self.present[i].as_str(), name) {
                return Some(i);
            }
            i += 1;
        }
        None
    }

    /// Decides what one reader's observed status means: an untracked
    /// reader showing a card starts a read sequence (the reader is not
    /// yet marked — only a successful read marks it); a tracked reader
    /// with no card emits the removal and clears its tracking, so the
    /// next insertion is processed afresh; anything else is ignored.
    pub fn on_reader_status(&mut self, name: &str, is_present: bool) -> (a: PresenceAction)
        requires
            old(self).wf(),
        ensures
            final(self).wf(),
            final(self).spec_session() == old(self).spec_session(),
            is_present && !old(self).is_tracked(name@) ==> a == PresenceAction::StartRead
                && *final(self) == *old(self),
            is_present && old(self).is_tracked(name@) ==> a == PresenceAction::Ignore
                && *final(self) == *old(self),
            !is_present && !old(self).is_tracked(name@) ==> a == PresenceAction::Ignore
                && *final(self) == *old(self),
            !is_present && old(self).is_tracked(name@) ==> a == PresenceAction::EmitRemoved
                && !final(self).is_tracked(name@),
            forall|n: Seq<char>|
                n != name@ ==> final(self).is_tracked(n) == old(self).is_tracked(n),
    {
        let found = self.find_name(name);
        match (is_present, found) {
            (true, None) => PresenceAction::StartRead,
            (true, Some(_)) => PresenceAction::Ignore,
            (false, None) => PresenceAction::Ignore,
            (false, Some(i)) => {
                let ghost before = self.present@;
                self.present.remove(i);
                proof {
                    lemma_remove_name(before, i as int, name@);
                }
                PresenceAction::EmitRemoved
            },
        }
    }

    /// Records the outcome of a read sequence: only success marks the
    /// reader present; a failure leaves it untracked, eligible for an
    /// immediate retry on the next poll cycle.
    pub fn on_read_result(&mut self, name: &str, success: bool)
        requires
            old(self).wf(),
        ensures
            final(self).wf(),
            final(self).spec_session() == old(self).spec_session(),
            success ==> final(self).is_tracked(name@),
            !success ==> *final(self) == *old(self),
            forall|n: Seq<char>|
                n != name@ ==> final(self).is_tracked(n) == old(self).is_tracked(n),
    {
        if !success {
            return ;
        }
        match self.find_name(name) {
            Some(_) => {},
            None => {
                let ghost before = self.present@;
                self.present.push(name.to_owned());
                proof {
                    assert forall|n: Seq<char>|
                        n != name@ implies has_name(self.present@, n) == has_name(before, n) by {
                        assert(forall|j: int|
                            0 <= j < before.len() ==> self.present@[j] == before[j]);
                        if has_name(before, n) {
                            let w = choose|w: int| 0 <= w < before.len() && before[w]@ == n;
                            assert(self.present@[w]@ == n);
                        }
                        if has_name(self.present@, n) {
                            let w = choose|w: int|
                                0 <= w < self.present@.len() && self.present@[w]@ == n;
                            assert(w < before.len());
                        }
                    }
                    assert(self.present@[before.len() as int]@ == name@);
                }
            },
        }
    }
}

proof fn lemma_remove_name(names: Seq<String>, i: int, name: Seq<char>)
    requires
        distinct_names(names),
        0 <= i < names.len(),
        names[i]@ == name,
    ensures
        distinct_names(names.remove(i)),
        !has_name(names.remove(i), name),
        forall|n: Seq<char>| n != name ==> has_name(names.remove(i), n) == has_name(names, n),
{
    let rem = names.remove(i);
    assert(forall|j: int| 0 <= j < i ==> rem[j] == names[j]);
    assert(forall|j: int| i <= j < rem.len() ==> rem[j] == names[j + 1]);
    assert forall|n: Seq<char>| n != name implies has_name(rem, n) == has_name(names, n) by {
        if has_name(names, n) {
            let w = choose|w: int| 0 <= w < names.len() && names[w]@ == n;
            if w < i {
                assert(rem[w]@ == n);
            } else {
                assert(w != i);
                assert(rem[w - 1]@ == n);
            }
        }
        if has_name(rem, n) {
            let w = choose|w: int| 0 <= w < rem.len() && rem[w]@ == n;
            if w < i {
                assert(names[w]@ == n);
            } else {
                assert(names[w + 1]@ == n);
            }
        }
    }
    if has_name(rem, name) {
        let w = choose|w: int| 0 <= w < rem.len() && rem[w]@ == name;
        if w < i {
            assert(names[w]@ == name && names[i]@ == name);
            assert(false);
        } else {
            assert(names[w + 1]@ == name && names[i]@ == name);
            assert(false);
        }
    }
}

} // verus!
