//! A list of terminal sessions with one active: creating, switching,
//! removing and reaping sessions.
//!
//! The manager is generic over the session type; spawning a session, and
//! telling whether one is still alive, belong to the caller.

use vstd::prelude::*;

verus! {

/// Mathematical picture of a [`TerminalManager`].
pub struct ManagerView<S> {
    pub sessions: Seq<S>,
    pub active: nat,
}

/// The sessions of `s` whose flag in `keep` is set, in order.
pub open spec fn kept<T>(s: Seq<T>, keep: Seq<bool>) -> Seq<T>
    decreases s.len(),
{
    if s.len() == 0 {
        Seq::empty()
    } else {
        let rest = kept(s.drop_last(), keep.take(s.len() - 1));
        if keep[s.len() - 1] {
            rest.push(s.last())
        } else {
            rest
        }
    }
}

/// Keeping some elements never lengthens a sequence.
pub proof fn lemma_kept_len<T>(s: Seq<T>, keep: Seq<bool>)
    ensures
        kept(s, keep).len() <= s.len(),
    decreases s.len(),
{
    if s.len() > 0 {
        lemma_kept_len(s.drop_last(), keep.take(s.len() - 1));
    }
}

/// Every kept element is an element of the sequence whose flag is set.
pub proof fn lemma_kept_from<T>(s: Seq<T>, keep: Seq<bool>)
    requires
        keep.len() == s.len(),
    ensures
        forall|k: int|
            #![trigger kept(s, keep)[k]]
            0 <= k < kept(s, keep).len() ==> exists|j: int| 0 <= j < s.len() && #[trigger] s[j] == kept(s, keep)[k]
                && keep[j],
    decreases s.len(),
{
    if s.len() > 0 {
        let s2 = s.drop_last();
        let k2 = keep.take(s.len() - 1);
        lemma_kept_from(s2, k2);
        lemma_kept_len(s2, k2);
        assert forall|k: int| #![trigger kept(s, keep)[k]] 0 <= k < kept(s, keep).len() implies exists|j: int|
            0 <= j < s.len() && #[trigger] s[j] == kept(s, keep)[k] && keep[j] by {
            if k < kept(s2, k2).len() {
                let j = choose|j: int| 0 <= j < s2.len() && #[trigger] s2[j] == kept(s2, k2)[k] && k2[j];
                assert(s[j] == s2[j]);
            } else {
                assert(s[s.len() - 1] == kept(s, keep)[k]);
            }
        }
    }
}

/// The active index after removing session `idx` (which exists) from
/// `len` sessions: a later active session moves down with its index, as
/// does the removed one itself unless it is the first.
pub open spec fn active_after_removal(active: nat, idx: nat) -> nat {
    if active >= idx && active > 0 {
        (active - 1) as nat
    } else {
        active
    }
}

/// Owns the sessions (tabs or panes) and knows which one is active.
pub struct TerminalManager<S> {
    sessions: Vec<S>,
    active_idx: usize,
}

impl<S> View for TerminalManager<S> {
    type V = ManagerView<S>;

    closed spec fn view(&self) -> ManagerView<S> {
        ManagerView { sessions: self.sessions@, active: self.active_idx as nat }
    }
}

/// Removes from `v` the elements whose flag in `keep` is clear.
pub(crate) fn retain_flagged<T>(v: &mut Vec<T>, keep: &Vec<bool>)
    requires
        keep@.len() == old(v)@.len(),
    ensures
        final(v)@ == kept(old(v)@, keep@),
{
    let ghost orig = v@;
    let mut rest: Vec<T> = Vec::new();
    std::mem::swap(v, &mut rest);
    let n = rest.len();
    let mut j: usize = 0;
    let mut reversed: Vec<T> = Vec::new();
    while rest.len() > 0
        invariant
            rest@.len() + j == n,
            n == orig.len(),
            keep@.len() == n,
            rest@ == orig.take((n - j) as int),
            reversed@.len() == j,
            forall|k: int| 0 <= k < j ==> reversed@[k] == orig[n - 1 - k],
        decreases rest@.len(),
    {
        let x = rest.pop().unwrap();
        proof {
            assert(x == orig[n - 1 - j]);
        }
        reversed.push(x);
        j += 1;
        proof {
            assert(rest@ =~= orig.take((n - j) as int));
        }
    }
    let mut i: usize = 0;
    while reversed.len() > 0
        invariant
            reversed@.len() + i == n,
            n == orig.len(),
            keep@.len() == n,
            forall|k: int| 0 <= k < reversed@.len() ==> reversed@[k] == orig[n - 1 - k],
            v@ == kept(orig.take(i as int), keep@.take(i as int)),
        decreases reversed@.len(),
    {
        let x = reversed.pop().unwrap();
        proof {
            assert(x == orig[i as int]);
            assert(orig.take(i + 1).drop_last() =~= orig.take(i as int));
            assert(keep@.take(i + 1).take(i as int) =~= keep@.take(i as int));
            assert(orig.take(i + 1).last() == orig[i as int]);
        }
        if keep[i] {
            v.push(x);
        }
        i += 1;
    }
    proof {
        assert(orig.take(n as int) =~= orig);
        assert(keep@.take(n as int) =~= keep@);
    }
}

impl<S> TerminalManager<S> {
    /// A manager holding `session`, active.
    pub fn new(session: S) -> (m: Self)
        ensures
            m@ == (ManagerView { sessions: seq![session], active: 0 }),
    {
        let mut sessions = Vec::new();
        sessions.push(session);
        proof {
            assert(sessions@ =~= seq![session]);
        }
        TerminalManager { sessions, active_idx: 0 }
    }

    /// The active session.
    pub fn active(&self) -> (s: &S)
        requires
            self@.active < self@.sessions.len(),
        ensures
            *s == self@.sessions[self@.active as int],
    {
        &self.sessions[self.active_idx]
    }

    /// The active session, to change.
    pub fn active_mut(&mut self) -> (s: &mut S)
        requires
            old(self)@.active < old(self)@.sessions.len(),
        ensures
            *s == old(self)@.sessions[old(self)@.active as int],
            final(self)@ == (ManagerView {
                sessions: old(self)@.sessions.update(old(self)@.active as int, *final(s)),
                ..old(self)@
            }),
    {
        &mut self.sessions[self.active_idx]
    }

    /// Adds `session` at the end and makes it active; returns its index.
    pub fn create_session(&mut self, session: S) -> (idx: usize)
        ensures
            idx == old(self)@.sessions.len(),
            final(self)@ == (ManagerView { sessions: old(self)@.sessions.push(session), active: idx as nat }),
    {
        let idx = self.sessions.len();
        self.sessions.push(session);
        self.active_idx = idx;
        idx
    }

    /// Removes session `idx`; returns whether none are left. An index out
    /// of range changes nothing and returns `false`.
    pub fn remove_session(&mut self, idx: usize) -> (empty: bool)
        ensures
            idx >= old(self)@.sessions.len() ==> !empty && final(self)@ == old(self)@,
            idx < old(self)@.sessions.len() ==> final(self)@ == (ManagerView {
                sessions: old(self)@.sessions.remove(idx as int),
                active: active_after_removal(old(self)@.active, idx as nat),
            }) && empty == (final(self)@.sessions.len() == 0),
    {
        if idx >= self.sessions.len() {
            return false;
        }
        if self.active_idx >= idx && self.active_idx > 0 {
            self.active_idx -= 1;
        }
        self.sessions.remove(idx);
        self.sessions.len() == 0
    }

    /// Makes session `idx` active; `false` (and no change) when there is
    /// no such session.
    pub fn switch_to(&mut self, idx: usize) -> (ok: bool)
        ensures
            ok == (idx < old(self)@.sessions.len()),
            ok ==> final(self)@ == (ManagerView { active: idx as nat, ..old(self)@ }),
            !ok ==> final(self)@ == old(self)@,
    {
        if idx < self.sessions.len() {
            self.active_idx = idx;
            true
        } else {
            false
        }
    }

    /// Number of sessions.
    pub fn len(&self) -> (n: usize)
        ensures
            n == self@.sessions.len(),
    {
        self.sessions.len()
    }

    /// No session is left.
    pub fn is_empty(&self) -> (b: bool)
        ensures
            b == (self@.sessions.len() == 0),
    {
        self.sessions.len() == 0
    }

    /// Session `idx`.
    pub fn session(&self, idx: usize) -> (s: &S)
        requires
            idx < self@.sessions.len(),
        ensures
            *s == self@.sessions[idx as int],
    {
        &self.sessions[idx]
    }

    /// Session `idx`, to change.
    pub fn session_mut(&mut self, idx: usize) -> (s: &mut S)
        requires
            idx < old(self)@.sessions.len(),
        ensures
            *s == old(self)@.sessions[idx as int],
            final(self)@ == (ManagerView {
                sessions: old(self)@.sessions.update(idx as int, *final(s)),
                ..old(self)@
            }),
    {
        &mut self.sessions[idx]
    }

    /// Keeps the sessions whose flag in `alive` is set; when the active
    /// index falls past the end it moves to the last session. Returns
    /// whether any session was removed.
    pub fn reap_dead(&mut self, alive: &Vec<bool>) -> (changed: bool)
        requires
            alive@.len() == old(self)@.sessions.len(),
        ensures
            final(self)@.sessions == kept(old(self)@.sessions, alive@),
            final(self)@.active == (if old(self)@.active >= final(self)@.sessions.len()
                && final(self)@.sessions.len() > 0 {
                (final(self)@.sessions.len() - 1) as nat
            } else {
                old(self)@.active
            }),
            changed == (final(self)@.sessions.len() != old(self)@.sessions.len()),
    {
        let before = self.sessions.len();
        retain_flagged(&mut self.sessions, alive);
        if self.active_idx >= self.sessions.len() && self.sessions.len() > 0 {
            self.active_idx = self.sessions.len() - 1;
        }
        self.sessions.len() != before
    }
}

/// While sessions remain, removing one keeps the active index in range.
pub proof fn lemma_removal_keeps_active_in_range(active: nat, idx: nat, len: nat)
    requires
        active < len,
        idx < len,
        len > 1,
    ensures
        active_after_removal(active, idx) < len - 1,
{
}

/// Removing a session other than the active one leaves the same session
/// active.
pub proof fn lemma_removal_keeps_active_session<S>(s: Seq<S>, active: nat, idx: nat)
    requires
        active < s.len(),
        idx < s.len(),
        idx != active,
    ensures
        s.remove(idx as int)[active_after_removal(active, idx) as int] == s[active as int],
{
}

} // verus!
