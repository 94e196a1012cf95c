//! The writer election: at most one cooperating process writes to the
//! shared store at a time.
//!
//! The store itself grants and checks the lease; this state machine
//! records the role the store granted and keeps the heartbeat flag tied to
//! it.  The role never silently becomes `Writer`: only a granted
//! registration or a granted takeover raises it.

use vstd::prelude::*;

verus! {

/// The role a daemon holds against the shared store.
#[derive(Debug, Clone, Copy, PartialEq, Eq, Structural)]
pub enum Role {
    Reader,
    Writer,
}

/// What the election adapter last did, as reported by the store.
#[derive(Debug, Clone, Copy, PartialEq, Eq, Structural)]
pub enum ElectionEvent {
    /// The store answered a registration with this role.
    RegisterResult { granted: bool },
    /// A heartbeat round completed, or failed.
    HeartbeatResult { ok: bool },
    /// The lease was released on purpose.
    Released,
    /// The store answered a takeover attempt.
    TakeoverResult { taken: bool },
}

/// The role after one event.
pub open spec fn role_after(current: Role, e: ElectionEvent) -> Role {
    match e {
        ElectionEvent::RegisterResult { granted } => if granted {
            Role::Writer
        } else {
            Role::Reader
        },
        ElectionEvent::HeartbeatResult { ok } => if ok {
            current
        } else {
            Role::Reader
        },
        ElectionEvent::Released => Role::Reader,
        ElectionEvent::TakeoverResult { taken } => if taken {
            Role::Writer
        } else {
            current
        },
    }
}

/// Does an event ever raise the role to writer?
pub open spec fn event_grants_writer(e: ElectionEvent) -> bool {
    e == (ElectionEvent::RegisterResult { granted: true }) || e == (
    ElectionEvent::TakeoverResult { taken: true })
}

/// The role is writer only through a granted registration or takeover:
/// an event that grants nothing never raises a reader to writer.
pub proof fn lemma_no_silent_promotion(current: Role, e: ElectionEvent)
    ensures
        current == Role::Reader && role_after(current, e) == Role::Writer ==> event_grants_writer(
            e,
        ),
{
}

/// The election adapter's state: the granted role, and whether the
/// heartbeat task should be alive.
pub struct WriterElection {
    role: Role,
    heartbeat_active: bool,
}

impl WriterElection {
    pub closed spec fn role_spec(&self) -> Role {
        self.role
    }

    pub closed spec fn heartbeat_spec(&self) -> bool {
        self.heartbeat_active
    }

    /// The heartbeat runs exactly while the lease is held.
    pub open spec fn inv(&self) -> bool {
        self.heartbeat_spec() == (self.role_spec() == Role::Writer)
    }

    /// A fresh adapter starts as reader with no heartbeat.
    pub fn new() -> (r: WriterElection)
        ensures
            r.inv(),
            r.role_spec() == Role::Reader,
            !r.heartbeat_spec(),
    {
        WriterElection { role: Role::Reader, heartbeat_active: false }
    }

    /// The role the store last granted.
    pub fn role(&self) -> (r: Role)
        ensures
            r == self.role_spec(),
    {
        self.role
    }

    /// Does this daemon hold the writer lease?
    pub fn is_writer(&self) -> (r: bool)
        ensures
            r == (self.role_spec() == Role::Writer),
    {
        self.role == Role::Writer
    }

    /// Should the heartbeat task be running?
    pub fn heartbeat_active(&self) -> (r: bool)
        ensures
            r == self.heartbeat_spec(),
    {
        self.heartbeat_active
    }

    /// Record what the store answered.  The new role follows
    /// `role_after`, and the heartbeat flag follows the role: started on
    /// a grant, stopped on a demotion or release.
    pub fn apply(&mut self, e: ElectionEvent)
        requires
            old(self).inv(),
        ensures
            final(self).inv(),
            final(self).role_spec() == role_after(old(self).role_spec(), e),
    {
        match e {
            ElectionEvent::RegisterResult { granted } => {
                if granted {
                    self.role = Role::Writer;
                    self.heartbeat_active = true;
                } else {
                    self.role = Role::Reader;
                    self.heartbeat_active = false;
                }
            },
            ElectionEvent::HeartbeatResult { ok } => {
                if !ok {
                    self.role = Role::Reader;
                    self.heartbeat_active = false;
                }
            },
            ElectionEvent::Released => {
                self.role = Role::Reader;
                self.heartbeat_active = false;
            },
            ElectionEvent::TakeoverResult { taken } => {
                if taken {
                    self.role = Role::Writer;
                    self.heartbeat_active = true;
                }
            },
        }
    }
}

} // verus!
