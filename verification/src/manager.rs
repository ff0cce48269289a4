//! The session manager: the one slot that holds the live session.
//!
//! At most one connection session exists at any time.  The slot is the
//! single source of truth: connecting first signals the cancellation of
//! whatever session the slot holds, then installs the new one; disconnecting
//! signals cancellation and empties the slot, and is a no-op when the slot
//! is already empty.  The driver owns the manager exclusively and performs
//! the returned actions in order.
use vstd::prelude::*;

verus! {

/// What the driver must do after a connect or disconnect, in order.
#[derive(Clone, Copy, PartialEq, Eq, Structural, Debug)]
pub enum ManagerAction {
    /// Fire the cancellation signal of the session with this identifier.
    Cancel(u64),
    /// Start the worker of a new session under this identifier.
    Spawn(u64),
}

/// Holds at most one live session, by identifier, and a counter that keeps
/// identifiers fresh.
pub struct SessionManager {
    pub active: Option<u64>,
    pub next_id: u64,
}

/// The manager after a connect: the fresh identifier fills the slot.
pub open spec fn connect_next(m: SessionManager) -> SessionManager {
    SessionManager { active: Some(m.next_id), next_id: (m.next_id + 1) as u64 }
}

/// What a connect does: cancel the prior session first, if one is held,
/// then spawn the new one.
pub open spec fn connect_acts(m: SessionManager) -> Seq<ManagerAction> {
    match m.active {
        Some(i) => seq![ManagerAction::Cancel(i), ManagerAction::Spawn(m.next_id)],
        None => seq![ManagerAction::Spawn(m.next_id)],
    }
}

/// What a disconnect does: cancel the held session, if any.
pub open spec fn disconnect_acts(m: SessionManager) -> Seq<ManagerAction> {
    match m.active {
        Some(i) => seq![ManagerAction::Cancel(i)],
        None => Seq::empty(),
    }
}

impl SessionManager {
    /// A manager holding no session.
    pub fn new() -> (m: SessionManager)
        ensures
            m.active is None,
            m.next_id == 1,
    {
        SessionManager { active: None, next_id: 1 }
    }

    /// Begins a new session: whatever session was active is cancelled
    /// before the new one is spawned, so at most one is ever live.
    pub fn connect(&mut self) -> (acts: Vec<ManagerAction>)
        requires
            old(self).next_id < u64::MAX,
        ensures
            *final(self) == connect_next(*old(self)),
            acts@ == connect_acts(*old(self)),
    {
        let mut acts: Vec<ManagerAction> = Vec::new();
        match self.active {
            Some(i) => acts.push(ManagerAction::Cancel(i)),
            None => {},
        }
        acts.push(ManagerAction::Spawn(self.next_id));
        self.active = Some(self.next_id);
        self.next_id = self.next_id + 1;
        assert(acts@ =~= connect_acts(*old(self)));
        acts
    }

    /// Ends the session, if one is active; with none this does nothing and
    /// does not err.
    pub fn disconnect(&mut self) -> (acts: Vec<ManagerAction>)
        ensures
            final(self).active is None,
            final(self).next_id == old(self).next_id,
            acts@ == disconnect_acts(*old(self)),
    {
        let mut acts: Vec<ManagerAction> = Vec::new();
        match self.active {
            Some(i) => acts.push(ManagerAction::Cancel(i)),
            None => {},
        }
        self.active = None;
        assert(acts@ =~= disconnect_acts(*old(self)));
        acts
    }
}

/// Law: connecting while a session is active signals that session's
/// cancellation strictly before the new session is spawned, and afterwards
/// the new session is the only one held.
pub proof fn lemma_connect_cancels_prior(m: SessionManager, i: u64)
    requires
        m.active == Some(i),
    ensures
        connect_acts(m).len() == 2,
        connect_acts(m)[0] == ManagerAction::Cancel(i),
        connect_acts(m)[1] == ManagerAction::Spawn(m.next_id),
        connect_next(m).active == Some(m.next_id),
{
}

/// Law: a disconnect with no active session does nothing: no cancellation
/// is signalled, the slot stays empty, and no error arises.
pub proof fn lemma_disconnect_idle_noop(m: SessionManager)
    requires
        m.active is None,
    ensures
        disconnect_acts(m) == Seq::<ManagerAction>::empty(),
{
}

} // verus!
