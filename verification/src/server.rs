//! Listener-side admission control: a global bound on concurrent sessions,
//! with a configured choice between a bounded wait queue and an immediate
//! busy rejection beyond the bound, plus the shutdown sequence (stop
//! accepting, drain, force-close).

use vstd::prelude::*;

verus! {

/// What to do with a connection that arrives while the session bound is
/// reached.
#[derive(Clone, Copy, Debug, PartialEq, Eq, Structural)]
pub enum AdmissionPolicy {
    /// Hold it in a bounded queue until a session ends.
    QueueBounded,
    /// Reject it immediately with a busy response.
    RejectBusy,
}

/// The verdict for one arriving connection.
#[derive(Clone, Copy, Debug, PartialEq, Eq, Structural)]
pub enum Admission {
    /// Start a session now.
    Admitted,
    /// Held in the wait queue.
    Queued,
    /// Turned away with a busy response.
    Rejected,
}

/// The proxy server's admission state: how many sessions run, how many
/// connections wait, and the configured bounds and policy.
#[derive(Clone, Copy, Debug, PartialEq, Eq, Structural)]
pub struct ProxyServer {
    pub max_sessions: usize,
    pub active: usize,
    pub queue_capacity: usize,
    pub queued: usize,
    pub policy: AdmissionPolicy,
    /// The listener still accepts new connections.
    pub accepting: bool,
}

impl ProxyServer {
    /// Sessions never exceed the bound; the queue never exceeds its
    /// capacity.
    pub open spec fn wf(self) -> bool {
        &&& self.active <= self.max_sessions
        &&& self.queued <= self.queue_capacity
    }

    /// A server that accepts, with nothing running or queued.
    pub fn new(max_sessions: usize, queue_capacity: usize, policy: AdmissionPolicy) -> (s:
        ProxyServer)
        ensures
            s.wf(),
            s == (ProxyServer {
                max_sessions,
                active: 0usize,
                queue_capacity,
                queued: 0usize,
                policy,
                accepting: true,
            }),
    {
        ProxyServer { max_sessions, active: 0, queue_capacity, queued: 0, policy, accepting: true }
    }

    /// Decide one arriving connection: admitted while below the session
    /// bound; at the bound, queued while the bounded queue has room under
    /// the queueing policy; rejected otherwise, and always rejected once
    /// the listener stopped accepting.
    pub fn on_accept(&mut self) -> (a: Admission)
        requires
            old(self).wf(),
        ensures
            final(self).wf(),
            a == (if !old(self).accepting {
                Admission::Rejected
            } else if old(self).active < old(self).max_sessions {
                Admission::Admitted
            } else if old(self).policy == AdmissionPolicy::QueueBounded && old(self).queued < old(
                self,
            ).queue_capacity {
                Admission::Queued
            } else {
                Admission::Rejected
            }),
            a == Admission::Admitted ==> *final(self) == (ProxyServer {
                active: (old(self).active + 1) as usize,
                ..*old(self)
            }),
            a == Admission::Queued ==> *final(self) == (ProxyServer {
                queued: (old(self).queued + 1) as usize,
                ..*old(self)
            }),
            a == Admission::Rejected ==> *final(self) == *old(self),
    {
        if !self.accepting {
            Admission::Rejected
        } else if self.active < self.max_sessions {
            self.active = self.active + 1;
            Admission::Admitted
        } else if matches!(self.policy, AdmissionPolicy::QueueBounded)
            && self.queued < self.queue_capacity {
            self.queued = self.queued + 1;
            Admission::Queued
        } else {
            Admission::Rejected
        }
    }

    /// A session ended: free its slot, and hand it straight to the oldest
    /// queued connection if one waits and the listener still accepts.
    /// Returns whether a queued connection was promoted to a session.
    pub fn on_session_end(&mut self) -> (promoted: bool)
        requires
            old(self).wf(),
            old(self).active > 0,
        ensures
            final(self).wf(),
            promoted == (old(self).queued > 0 && old(self).accepting),
            promoted ==> *final(self) == (ProxyServer {
                queued: (old(self).queued - 1) as usize,
                ..*old(self)
            }),
            !promoted ==> *final(self) == (ProxyServer {
                active: (old(self).active - 1) as usize,
                ..*old(self)
            }),
    {
        if self.queued > 0 && self.accepting {
            self.queued = self.queued - 1;
            true
        } else {
            self.active = self.active - 1;
            false
        }
    }

    /// Begin shutdown: stop accepting and turn the whole wait queue away;
    /// running sessions keep their grace period. Returns how many queued
    /// connections were turned away.
    pub fn begin_shutdown(&mut self) -> (dropped: usize)
        requires
            old(self).wf(),
        ensures
            final(self).wf(),
            dropped == old(self).queued,
            *final(self) == (ProxyServer { queued: 0usize, accepting: false, ..*old(self) }),
    {
        let dropped = self.queued;
        self.queued = 0;
        self.accepting = false;
        dropped
    }

    /// End of the grace period: force-close whatever still runs. Returns
    /// how many sessions were cut off; the driver cancels each of them,
    /// which releases their buffers and sockets on the terminal path.
    pub fn force_close_all(&mut self) -> (cut: usize)
        requires
            old(self).wf(),
        ensures
            final(self).wf(),
            cut == old(self).active,
            *final(self) == (ProxyServer { active: 0usize, ..*old(self) }),
    {
        let cut = self.active;
        self.active = 0;
        cut
    }

    /// How many sessions run right now.
    pub fn active_sessions(&self) -> (n: usize)
        ensures
            n == self.active,
    {
        self.active
    }

    /// How many connections wait in the queue.
    pub fn queued_connections(&self) -> (n: usize)
        ensures
            n == self.queued,
    {
        self.queued
    }
}

} // verus!
