//! The two loops that tie a clipboard to the network, as decisions: what a
//! reading of the local clipboard leads to, and what an envelope from the
//! network leads to, on a client and on the relay.

use crate::client::{is_echo, ConnectionState, SyncClient};
use crate::content::{ClipboardContent, ClipboardMessage, ContentView, MessageView};
use crate::fingerprint::fingerprint_of;
use crate::monitor::{differs, rebased, ClipboardMonitor};
use crate::outbox::pushed;
use crate::server::{delivered, SyncServer};
use vstd::prelude::*;

verus! {

/// Milliseconds between two readings of the local clipboard. The clipboard
/// is polled because no platform is relied on to announce a change.
pub const POLL_INTERVAL_MILLIS: u64 = 500;

/// The envelope that the relay sends for a change of its own clipboard at
/// time `now`: it names no client as its origin.
pub open spec fn local_envelope(content: ClipboardContent, now: u64) -> ClipboardMessage {
    ClipboardMessage { content, timestamp: now, client_id: None }
}

/// A client: its session with the relay and the monitor of its clipboard.
pub struct ClientOrchestrator {
    pub client: SyncClient,
    pub monitor: ClipboardMonitor,
}

impl ClientOrchestrator {
    /// Takes one reading of the local clipboard (`None` where the read
    /// failed). A value that differs from the baseline becomes the baseline
    /// and is offered to the session for sending; says whether it was
    /// queued.
    pub fn on_local_reading(&mut self, reading: Option<ClipboardContent>) -> (queued: bool)
        ensures
            final(self).client.identity() == old(self).client.identity(),
            final(self).client.connection() == old(self).client.connection(),
            final(self).client.capacity() == old(self).client.capacity(),
            final(self).monitor.backend() == old(self).monitor.backend(),
            final(self).monitor.limits() == old(self).monitor.limits(),
            match reading {
                Some(content) => {
                    &&& final(self).monitor.baseline() == rebased(
                        old(self).monitor.baseline(),
                        content@,
                    )
                    &&& queued == (differs(old(self).monitor.baseline(), content@) && old(
                        self,
                    ).client.connection() != ConnectionState::Disconnected)
                    &&& final(self).client.pending() == if queued {
                        pushed(old(self).client.pending(), old(self).client.capacity(), content)
                    } else {
                        old(self).client.pending()
                    }
                },
                None => {
                    &&& !queued
                    &&& final(self).monitor.baseline() == old(self).monitor.baseline()
                    &&& final(self).client.pending() == old(self).client.pending()
                },
            },
    {
        match self.monitor.get_clipboard_content(reading) {
            Some(content) => self.client.queue(content),
            None => false,
        }
    }

    /// Takes one envelope from the relay and hands back the value to write
    /// to the local clipboard: none for an echo of what this client sent.
    pub fn on_remote(&self, message: ClipboardMessage) -> (apply: Option<ClipboardContent>)
        ensures
            apply == if is_echo(self.client.identity(), message@) {
                None
            } else {
                Some(message.content)
            },
    {
        if self.client.accepts(&message) {
            Some(message.content)
        } else {
            None
        }
    }

    /// Takes the result of writing `content`, which came from the relay, to
    /// the local clipboard. After a write that succeeded the value is the
    /// baseline, so that reading it back sends nothing; a write that failed
    /// changes nothing.
    pub fn on_write_result(&mut self, content: &ClipboardContent, written: bool)
        ensures
            final(self).client == old(self).client,
            final(self).monitor.baseline() == if written {
                Some(fingerprint_of(content@))
            } else {
                old(self).monitor.baseline()
            },
            final(self).monitor.backend() == old(self).monitor.backend(),
            final(self).monitor.limits() == old(self).monitor.limits(),
    {
        self.monitor.on_write_result(content, written);
    }
}

/// The relay: its table of sessions, the monitor of its own clipboard, and
/// whether it leaves that clipboard alone.
pub struct ServerOrchestrator {
    pub server: SyncServer,
    pub monitor: ClipboardMonitor,
    /// Whether the relay only forwards between clients and never reads or
    /// writes a clipboard of its own.
    pub relay_only: bool,
}

impl ServerOrchestrator {
    /// Takes one reading of the relay's own clipboard at time `now`. A value
    /// that differs from the baseline becomes the baseline and goes to every
    /// session, with no origin. A relay that only forwards takes no
    /// readings.
    pub fn on_local_reading(&mut self, reading: Option<ClipboardContent>, now: u64) -> (sent:
        bool)
        requires
            old(self).server.wf(),
        ensures
            final(self).server.wf(),
            final(self).relay_only == old(self).relay_only,
            final(self).server.capacity() == old(self).server.capacity(),
            final(self).server.issued() == old(self).server.issued(),
            final(self).monitor.backend() == old(self).monitor.backend(),
            final(self).monitor.limits() == old(self).monitor.limits(),
            match reading {
                Some(content) if !old(self).relay_only => {
                    &&& sent == differs(old(self).monitor.baseline(), content@)
                    &&& final(self).monitor.baseline() == rebased(
                        old(self).monitor.baseline(),
                        content@,
                    )
                    &&& final(self).server.sessions() == if sent {
                        delivered(
                            old(self).server.sessions(),
                            None,
                            local_envelope(content, now),
                            old(self).server.capacity(),
                        )
                    } else {
                        old(self).server.sessions()
                    }
                },
                _ => {
                    &&& !sent
                    &&& final(self).monitor.baseline() == old(self).monitor.baseline()
                    &&& final(self).server.sessions() == old(self).server.sessions()
                },
            },
    {
        if self.relay_only {
            return false;
        }
        match self.monitor.get_clipboard_content(reading) {
            Some(content) => {
                let envelope = ClipboardMessage { content, timestamp: now, client_id: None };
                self.server.publish(None, &envelope);
                true
            },
            None => false,
        }
    }

    /// Takes one envelope that the session `from` received from its client.
    /// It goes to every other session as it is, origin included, and is
    /// handed back for writing to the relay's own clipboard unless the relay
    /// only forwards.
    pub fn on_client_message(&mut self, from: u64, message: ClipboardMessage) -> (apply: Option<
        ClipboardContent,
    >)
        requires
            old(self).server.wf(),
        ensures
            final(self).server.wf(),
            final(self).relay_only == old(self).relay_only,
            final(self).monitor == old(self).monitor,
            final(self).server.capacity() == old(self).server.capacity(),
            final(self).server.issued() == old(self).server.issued(),
            final(self).server.sessions() == delivered(
                old(self).server.sessions(),
                Some(from),
                message,
                old(self).server.capacity(),
            ),
            apply == if old(self).relay_only {
                None
            } else {
                Some(message.content)
            },
    {
        self.server.publish(Some(from), &message);
        if self.relay_only {
            None
        } else {
            Some(message.content)
        }
    }

    /// Takes the result of writing `content`, which came from a client, to
    /// the relay's own clipboard. After a write that succeeded the value is
    /// the baseline, so that reading it back broadcasts nothing; a write
    /// that failed changes nothing.
    pub fn on_write_result(&mut self, content: &ClipboardContent, written: bool)
        ensures
            final(self).server == old(self).server,
            final(self).relay_only == old(self).relay_only,
            final(self).monitor.baseline() == if written {
                Some(fingerprint_of(content@))
            } else {
                old(self).monitor.baseline()
            },
            final(self).monitor.backend() == old(self).monitor.backend(),
            final(self).monitor.limits() == old(self).monitor.limits(),
    {
        self.monitor.on_write_result(content, written);
    }
}

/// Echoes are suppressed. A client that captured a value, so that the value
/// is its baseline, and then receives an envelope that names the client
/// itself as its origin, applies nothing; and reading the same value from
/// its clipboard again is no change, so that nothing is sent again.
pub proof fn lemma_echo_is_suppressed(
    identity: Seq<char>,
    baseline: Option<Seq<u8>>,
    content: ContentView,
    echo: MessageView,
)
    requires
        echo.client_id == Some(identity),
        echo.content == content,
    ensures
        is_echo(identity, echo),
        !differs(rebased(baseline, content), echo.content),
        rebased(rebased(baseline, content), echo.content) == rebased(baseline, content),
{
}

/// A value that a client applied from the network is not sent back: once it
/// is the baseline, reading it from the clipboard is no change.
pub proof fn lemma_applied_is_not_resent(content: ContentView)
    ensures
        !differs(Some(fingerprint_of(content)), content),
{
}

} // verus!
