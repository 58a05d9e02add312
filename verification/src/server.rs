//! The relay: the sessions that are connected, one bounded outbox for each,
//! and the fan-out of every envelope to all sessions but the one it came
//! from.

use crate::content::ClipboardMessage;
use crate::outbox::{pushed, Outbox};
use vstd::prelude::*;

verus! {

/// How many envelopes may wait for one session before the oldest is dropped.
pub const BROADCAST_CAPACITY: usize = 100;

struct Session {
    id: u64,
    outbox: Outbox<ClipboardMessage>,
}

/// One connected session as contracts see it: its identifier and the
/// envelopes that wait to be written to it, oldest first.
pub struct SessionView {
    pub id: u64,
    pub pending: Seq<ClipboardMessage>,
}

/// Whether a session with identifier `id` is among `sessions`.
pub open spec fn has_session(sessions: Seq<SessionView>, id: u64) -> bool {
    exists|i: int| 0 <= i < sessions.len() && (#[trigger] sessions[i]).id == id
}

/// Whether no two of `sessions` share an identifier.
pub open spec fn distinct_sessions(sessions: Seq<SessionView>) -> bool {
    forall|i: int, j: int|
        0 <= i < j < sessions.len() ==> (#[trigger] sessions[i]).id != (#[trigger] sessions[j]).id
}

/// One session after `message`, which came from `source`, was fanned out:
/// the session it came from keeps its outbox, every other one gets the
/// envelope as its newest.
pub open spec fn delivered_to(
    session: SessionView,
    source: Option<u64>,
    message: ClipboardMessage,
    capacity: nat,
) -> SessionView {
    if source == Some(session.id) {
        session
    } else {
        SessionView { id: session.id, pending: pushed(session.pending, capacity, message) }
    }
}

/// All sessions after `message`, which came from `source`, was fanned out.
/// `source` is `None` for an envelope from the relay's own clipboard.
pub open spec fn delivered(
    sessions: Seq<SessionView>,
    source: Option<u64>,
    message: ClipboardMessage,
    capacity: nat,
) -> Seq<SessionView> {
    Seq::new(sessions.len(), |i: int| delivered_to(sessions[i], source, message, capacity))
}

/// The relay's table of sessions.
pub struct SyncServer {
    capacity: usize,
    next_id: u64,
    sessions: Vec<Session>,
}

impl SyncServer {
    /// The connected sessions, in the order in which they connected.
    pub closed spec fn sessions(&self) -> Seq<SessionView> {
        Seq::new(
            self.sessions@.len(),
            |i: int| SessionView { id: self.sessions@[i].id, pending: self.sessions@[i].outbox@.pending },
        )
    }

    /// How many envelopes may wait for one session.
    pub closed spec fn capacity(&self) -> nat {
        self.capacity as nat
    }

    /// How many sessions were ever opened; the next one gets this number as
    /// its identifier.
    pub closed spec fn issued(&self) -> nat {
        self.next_id as nat
    }

    /// The invariant of the table: every session has an identifier that was
    /// issued, no two share one, and every outbox has the relay's capacity.
    pub closed spec fn wf(&self) -> bool {
        &&& forall|i: int|
            0 <= i < self.sessions@.len() ==> {
                &&& (#[trigger] self.sessions@[i]).id < self.next_id
                &&& self.sessions@[i].outbox@.capacity == self.capacity
            }
        &&& forall|i: int, j: int|
            0 <= i < j < self.sessions@.len() ==> (#[trigger] self.sessions@[i]).id != (
            #[trigger] self.sessions@[j]).id
    }

    /// In a well-formed table no two sessions share an identifier, and all
    /// identifiers are below the number issued.
    pub proof fn lemma_wf_sessions(&self)
        requires
            self.wf(),
        ensures
            distinct_sessions(self.sessions()),
            forall|i: int|
                0 <= i < self.sessions().len() ==> (#[trigger] self.sessions()[i]).id
                    < self.issued(),
    {
        assert forall|i: int, j: int| 0 <= i < j < self.sessions().len() implies (
        #[trigger] self.sessions()[i]).id != (#[trigger] self.sessions()[j]).id by {
            assert(self.sessions@[i].id != self.sessions@[j].id);
        }
        assert forall|i: int| 0 <= i < self.sessions().len() implies (
        #[trigger] self.sessions()[i]).id < self.issued() by {
            assert(self.sessions@[i].id < self.next_id);
        }
    }

    /// A relay without sessions whose outboxes hold up to
    /// `BROADCAST_CAPACITY` envelopes.
    pub fn new() -> (server: SyncServer)
        ensures
            server.wf(),
            server.sessions() == Seq::<SessionView>::empty(),
            server.capacity() == BROADCAST_CAPACITY,
            server.issued() == 0,
    {
        SyncServer::with_capacity(BROADCAST_CAPACITY)
    }

    /// A relay without sessions whose outboxes hold up to `capacity`
    /// envelopes.
    pub fn with_capacity(capacity: usize) -> (server: SyncServer)
        ensures
            server.wf(),
            server.sessions() == Seq::<SessionView>::empty(),
            server.capacity() == capacity,
            server.issued() == 0,
    {
        let server = SyncServer { capacity, next_id: 0, sessions: Vec::new() };
        assert(server.sessions() =~= Seq::<SessionView>::empty());
        server
    }

    /// The number of connected sessions.
    pub fn session_count(&self) -> (count: usize)
        ensures
            count == self.sessions().len(),
    {
        self.sessions.len()
    }

    /// Registers a session for a connection that was accepted and returns
    /// its identifier. The session starts with an empty outbox: it sees what
    /// is fanned out from now on and nothing of what went before. `None`
    /// only when all identifiers are used up.
    pub fn connect(&mut self) -> (id: Option<u64>)
        requires
            old(self).wf(),
        ensures
            final(self).wf(),
            final(self).capacity() == old(self).capacity(),
            match id {
                Some(id) => {
                    &&& id == old(self).issued()
                    &&& final(self).issued() == old(self).issued() + 1
                    &&& !has_session(old(self).sessions(), id)
                    &&& final(self).sessions() == old(self).sessions().push(
                        SessionView { id, pending: Seq::empty() },
                    )
                },
                None => {
                    &&& old(self).issued() == u64::MAX
                    &&& final(self).issued() == old(self).issued()
                    &&& final(self).sessions() == old(self).sessions()
                },
            },
    {
        if self.next_id == u64::MAX {
            return None;
        }
        let id = self.next_id;
        self.next_id = id + 1;
        self.sessions.push(Session { id, outbox: Outbox::new(self.capacity) });
        proof {
            assert(self.sessions() =~= old(self).sessions().push(
                SessionView { id, pending: Seq::empty() },
            ));
            assert(!has_session(old(self).sessions(), id)) by {
                assert forall|i: int| 0 <= i < old(self).sessions().len() implies (
                #[trigger] old(self).sessions()[i]).id != id by {
                    assert(old(self).sessions@[i].id < old(self).next_id);
                }
            }
            assert forall|i: int, j: int| 0 <= i < j < self.sessions@.len() implies (
            #[trigger] self.sessions@[i]).id != (#[trigger] self.sessions@[j]).id by {
                assert(old(self).sessions@[i].id < old(self).next_id);
            }
        }
        Some(id)
    }

    /// The place of the session `id` in the table, if it is connected.
    fn position(&self, id: u64) -> (place: Option<usize>)
        ensures
            match place {
                Some(i) => i < self.sessions@.len() && self.sessions@[i as int].id == id,
                None => !has_session(self.sessions(), id),
            },
    {
        let mut i: usize = 0;
        while i < self.sessions.len()
            invariant
                i <= self.sessions@.len(),
                forall|j: int| 0 <= j < i ==> (#[trigger] self.sessions@[j]).id != id,
            decreases self.sessions@.len() - i,
        {
            if self.sessions[i].id == id {
                return Some(i);
            }
            i += 1;
        }
        assert forall|j: int| 0 <= j < self.sessions().len() implies (
        #[trigger] self.sessions()[j]).id != id by {
            assert(self.sessions@[j].id != id);
        }
        None
    }

    /// Whether the session `id` is connected.
    pub fn is_connected(&self, id: u64) -> (connected: bool)
        ensures
            connected == has_session(self.sessions(), id),
    {
        match self.position(id) {
            Some(i) => {
                assert(self.sessions()[i as int].id == id);
                true
            },
            None => false,
        }
    }

    /// Removes the session `id` with whatever still waited for it, and says
    /// whether it was connected. The other sessions are not touched.
    pub fn disconnect(&mut self, id: u64) -> (removed: bool)
        requires
            old(self).wf(),
        ensures
            final(self).wf(),
            final(self).capacity() == old(self).capacity(),
            final(self).issued() == old(self).issued(),
            removed == has_session(old(self).sessions(), id),
            !has_session(final(self).sessions(), id),
            removed ==> exists|i: int|
                0 <= i < old(self).sessions().len() && (#[trigger] old(self).sessions()[i]).id
                    == id && final(self).sessions() == old(self).sessions().remove(i),
            !removed ==> final(self).sessions() == old(self).sessions(),
    {
        match self.position(id) {
            Some(i) => {
                let _ = self.sessions.remove(i);
                proof {
                    let k = i as int;
                    assert(old(self).sessions()[k].id == id);
                    assert(self.sessions() =~= old(self).sessions().remove(k));
                    assert forall|j: int| 0 <= j < self.sessions@.len() implies {
                        &&& (#[trigger] self.sessions@[j]).id < self.next_id
                        &&& self.sessions@[j].outbox@.capacity == self.capacity
                        &&& self.sessions@[j].id != id
                    } by {
                        if j < k {
                            assert(self.sessions@[j] == old(self).sessions@[j]);
                        } else {
                            assert(self.sessions@[j] == old(self).sessions@[j + 1]);
                        }
                    }
                    assert forall|a: int, b: int| 0 <= a < b < self.sessions@.len() implies (
                    #[trigger] self.sessions@[a]).id != (#[trigger] self.sessions@[b]).id by {
                        let a0 = if a < k { a } else { a + 1 };
                        let b0 = if b < k { b } else { b + 1 };
                        assert(self.sessions@[a] == old(self).sessions@[a0]);
                        assert(self.sessions@[b] == old(self).sessions@[b0]);
                    }
                    assert forall|j: int| 0 <= j < self.sessions().len() implies (
                    #[trigger] self.sessions()[j]).id != id by {
                        assert(self.sessions@[j].id != id);
                    }
                }
                true
            },
            None => false,
        }
    }

    /// Fans `message` out: a copy becomes the newest envelope in the outbox
    /// of every session but `source`, the session it came from. An outbox
    /// that is full loses its oldest envelope; no session ever makes the
    /// others wait. `source` is `None` for an envelope from the relay's own
    /// clipboard, which goes to every session.
    pub fn publish(&mut self, source: Option<u64>, message: &ClipboardMessage)
        requires
            old(self).wf(),
        ensures
            final(self).wf(),
            final(self).capacity() == old(self).capacity(),
            final(self).issued() == old(self).issued(),
            final(self).sessions() == delivered(
                old(self).sessions(),
                source,
                *message,
                old(self).capacity(),
            ),
    {
        let mut i: usize = 0;
        while i < self.sessions.len()
            invariant
                i <= self.sessions@.len(),
                self.sessions@.len() == old(self).sessions@.len(),
                self.capacity == old(self).capacity,
                self.next_id == old(self).next_id,
                old(self).wf(),
                forall|j: int|
                    0 <= j < self.sessions@.len() ==> {
                        &&& (#[trigger] self.sessions@[j]).id == old(self).sessions@[j].id
                        &&& self.sessions@[j].outbox@.capacity == self.capacity
                    },
                forall|j: int|
                    0 <= j < i ==> (#[trigger] self.sessions@[j]).outbox@.pending == delivered_to(
                        old(self).sessions()[j],
                        source,
                        *message,
                        self.capacity as nat,
                    ).pending,
                forall|j: int|
                    i <= j < self.sessions@.len() ==> (#[trigger] self.sessions@[j])
                        == old(self).sessions@[j],
            decreases self.sessions@.len() - i,
        {
            let is_source = match source {
                Some(origin) => origin == self.sessions[i].id,
                None => false,
            };
            if !is_source {
                self.sessions[i].outbox.push(message.clone());
            }
            i += 1;
        }
        proof {
            assert(self.sessions() =~= delivered(
                old(self).sessions(),
                source,
                *message,
                old(self).capacity(),
            ));
            assert forall|a: int, b: int| 0 <= a < b < self.sessions@.len() implies (
            #[trigger] self.sessions@[a]).id != (#[trigger] self.sessions@[b]).id by {
                assert(old(self).sessions@[a].id != old(self).sessions@[b].id);
            }
            assert forall|j: int| 0 <= j < self.sessions@.len() implies (
            #[trigger] self.sessions@[j]).id < self.next_id by {
                assert(old(self).sessions@[j].id < old(self).next_id);
            }
        }
    }

    /// Takes the oldest envelope that waits for the session `id`, to be
    /// written to its connection. `None` when nothing waits for it or it is
    /// not connected.
    pub fn next_outbound(&mut self, id: u64) -> (message: Option<ClipboardMessage>)
        requires
            old(self).wf(),
        ensures
            final(self).wf(),
            final(self).capacity() == old(self).capacity(),
            final(self).issued() == old(self).issued(),
            match message {
                Some(envelope) => exists|i: int|
                    {
                        &&& 0 <= i < old(self).sessions().len()
                        &&& (#[trigger] old(self).sessions()[i]).id == id
                        &&& old(self).sessions()[i].pending.len() > 0
                        &&& envelope == old(self).sessions()[i].pending[0]
                        &&& final(self).sessions() == old(self).sessions().update(
                            i,
                            SessionView { id, pending: old(self).sessions()[i].pending.skip(1) },
                        )
                    },
                None => {
                    &&& final(self).sessions() == old(self).sessions()
                    &&& forall|i: int|
                        0 <= i < old(self).sessions().len() && (#[trigger] old(
                            self,
                        ).sessions()[i]).id == id ==> old(self).sessions()[i].pending.len() == 0
                },
            },
    {
        match self.position(id) {
            Some(i) => {
                let message = self.sessions[i].outbox.pop();
                proof {
                    let k = i as int;
                    assert(old(self).sessions()[k].id == id);
                    assert forall|j: int| 0 <= j < self.sessions@.len() implies {
                        &&& (#[trigger] self.sessions@[j]).id == old(self).sessions@[j].id
                        &&& self.sessions@[j].outbox@.capacity == self.capacity
                        &&& self.sessions@[j].id < self.next_id
                    } by {
                        assert(old(self).sessions@[j].id < old(self).next_id);
                    }
                    assert forall|a: int, b: int| 0 <= a < b < self.sessions@.len() implies (
                    #[trigger] self.sessions@[a]).id != (#[trigger] self.sessions@[b]).id by {
                        assert(old(self).sessions@[a].id != old(self).sessions@[b].id);
                    }
                    if message.is_some() {
                        assert(self.sessions() =~= old(self).sessions().update(
                            k,
                            SessionView { id, pending: old(self).sessions()[k].pending.skip(1) },
                        ));
                    } else {
                        assert(self.sessions() =~= old(self).sessions());
                        assert forall|j: int|
                            0 <= j < old(self).sessions().len() && (#[trigger] old(
                                self,
                            ).sessions()[j]).id == id implies old(self).sessions()[j].pending.len()
                            == 0 by {
                            if j < k {
                                assert(old(self).sessions@[j].id != old(self).sessions@[k].id);
                            } else if k < j {
                                assert(old(self).sessions@[k].id != old(self).sessions@[j].id);
                            }
                        }
                    }
                }
                message
            },
            None => {
                proof {
                    assert forall|j: int|
                        0 <= j < old(self).sessions().len() && (#[trigger] old(
                            self,
                        ).sessions()[j]).id == id implies old(self).sessions()[j].pending.len()
                        == 0 by {
                        assert(has_session(old(self).sessions(), id));
                    }
                }
                None
            },
        }
    }
}

/// Every session but the one an envelope came from finds it as the newest in
/// its outbox, the session it came from finds its outbox as it was, and no
/// session is added, removed or renamed.
pub proof fn lemma_fanout_reaches_all_others(
    sessions: Seq<SessionView>,
    source: Option<u64>,
    message: ClipboardMessage,
    capacity: nat,
)
    requires
        capacity > 0,
    ensures
        delivered(sessions, source, message, capacity).len() == sessions.len(),
        forall|i: int|
            0 <= i < sessions.len() ==> (#[trigger] delivered(
                sessions,
                source,
                message,
                capacity,
            )[i]).id == sessions[i].id,
        forall|i: int|
            0 <= i < sessions.len() && source != Some(sessions[i].id) ==> {
                &&& (#[trigger] delivered(sessions, source, message, capacity)[i]).pending.len() > 0
                &&& delivered(sessions, source, message, capacity)[i].pending.last() == message
            },
        forall|i: int|
            0 <= i < sessions.len() && source == Some(sessions[i].id) ==> (#[trigger] delivered(
                sessions,
                source,
                message,
                capacity,
            )[i]) == sessions[i],
{
}

} // verus!
