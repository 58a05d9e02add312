//! The client side of a relay connection: the reconnect state machine, the
//! queue of local changes that wait to be sent, the stamping of outgoing
//! envelopes and the suppression of echoes.

use crate::content::{ClipboardContent, ClipboardMessage, MessageView};
use crate::outbox::{pushed, Outbox};
use vstd::prelude::*;
use vstd::string::StringExecFns;

verus! {

/// Seconds to wait after a failure before the next connection attempt.
pub const RECONNECT_BACKOFF_SECS: u64 = 5;

/// How many local changes may wait for the connection before the oldest is
/// dropped.
pub const OUTGOING_CAPACITY: usize = 100;

/// Where the client stands with its one connection to the relay.
#[derive(Debug, Clone, Copy, PartialEq, Eq, Structural)]
pub enum ConnectionState {
    /// No connection and no attempt under way.
    Disconnected,
    /// An attempt to connect is under way.
    Connecting,
    /// The connection is up and carries traffic in both directions.
    Connected,
}

/// What can happen to the connection.
#[derive(Debug, Clone, Copy, PartialEq, Eq, Structural)]
pub enum ConnectionEvent {
    /// It is time to try to connect: at start-up, or after the backoff.
    RetryDue,
    /// The attempt to connect succeeded.
    Established,
    /// The attempt to connect, or a read or write on the connection, failed.
    Failed,
}

/// What the caller must do next.
#[derive(Debug, Clone, Copy, PartialEq, Eq, Structural)]
pub enum ConnectionAction {
    /// Open a connection to the relay and report `Established` or `Failed`.
    Connect,
    /// Read and write envelopes until either direction fails, then report
    /// `Failed`.
    Serve,
    /// Close what is left of the connection, wait this many seconds and
    /// report `RetryDue`.
    Backoff { seconds: u64 },
    /// The event does not concern the current state: do nothing.
    Ignore,
}

/// The state that follows `state` on `event`.
pub open spec fn next_state(state: ConnectionState, event: ConnectionEvent) -> ConnectionState {
    match (state, event) {
        (ConnectionState::Disconnected, ConnectionEvent::RetryDue) => ConnectionState::Connecting,
        (ConnectionState::Connecting, ConnectionEvent::Established) => ConnectionState::Connected,
        (ConnectionState::Connecting, ConnectionEvent::Failed) => ConnectionState::Disconnected,
        (ConnectionState::Connected, ConnectionEvent::Failed) => ConnectionState::Disconnected,
        _ => state,
    }
}

/// The action that `event` asks for in `state`.
pub open spec fn action_for(state: ConnectionState, event: ConnectionEvent) -> ConnectionAction {
    match (state, event) {
        (ConnectionState::Disconnected, ConnectionEvent::RetryDue) => ConnectionAction::Connect,
        (ConnectionState::Connecting, ConnectionEvent::Established) => ConnectionAction::Serve,
        (ConnectionState::Connecting, ConnectionEvent::Failed) => ConnectionAction::Backoff {
            seconds: RECONNECT_BACKOFF_SECS,
        },
        (ConnectionState::Connected, ConnectionEvent::Failed) => ConnectionAction::Backoff {
            seconds: RECONNECT_BACKOFF_SECS,
        },
        _ => ConnectionAction::Ignore,
    }
}

/// The character for one decimal digit.
pub open spec fn digit_char(digit: int) -> char {
    if digit == 0 {
        '0'
    } else if digit == 1 {
        '1'
    } else if digit == 2 {
        '2'
    } else if digit == 3 {
        '3'
    } else if digit == 4 {
        '4'
    } else if digit == 5 {
        '5'
    } else if digit == 6 {
        '6'
    } else if digit == 7 {
        '7'
    } else if digit == 8 {
        '8'
    } else {
        '9'
    }
}

/// A number written in decimal, without leading zeros.
pub open spec fn decimal(n: nat) -> Seq<char>
    decreases n,
{
    if n < 10 {
        seq![digit_char(n as int)]
    } else {
        decimal(n / 10).push(digit_char((n % 10) as int))
    }
}

/// The identity of a client process: the tag of its platform, a hyphen, and
/// the microseconds since the Unix epoch at which it started.
pub open spec fn identity_of(platform: Seq<char>, started_micros: nat) -> Seq<char> {
    platform + seq!['-'] + decimal(started_micros)
}

/// The text of one decimal digit.
fn digit_text(digit: u8) -> (text: &'static str)
    requires
        digit < 10,
    ensures
        text@ == seq![digit_char(digit as int)],
{
    proof {
        reveal_strlit("0");
        reveal_strlit("1");
        reveal_strlit("2");
        reveal_strlit("3");
        reveal_strlit("4");
        reveal_strlit("5");
        reveal_strlit("6");
        reveal_strlit("7");
        reveal_strlit("8");
        reveal_strlit("9");
    }
    let text = if digit == 0 {
        "0"
    } else if digit == 1 {
        "1"
    } else if digit == 2 {
        "2"
    } else if digit == 3 {
        "3"
    } else if digit == 4 {
        "4"
    } else if digit == 5 {
        "5"
    } else if digit == 6 {
        "6"
    } else if digit == 7 {
        "7"
    } else if digit == 8 {
        "8"
    } else {
        "9"
    };
    assert(text@ =~= seq![digit_char(digit as int)]);
    text
}

/// Appends `n` in decimal to `out`.
fn push_decimal(out: &mut String, n: u128)
    ensures
        final(out)@ == old(out)@ + decimal(n as nat),
    decreases n,
{
    if n >= 10 {
        push_decimal(out, n / 10);
    }
    out.append(digit_text((n % 10) as u8));
    assert(out@ =~= old(out)@ + decimal(n as nat));
}

/// Builds the identity of a client process from the tag of its platform and
/// the time at which it started.
pub fn client_identity(platform: &str, started_micros: u128) -> (identity: String)
    ensures
        identity@ == identity_of(platform@, started_micros as nat),
{
    let mut identity = String::from_str(platform);
    proof {
        reveal_strlit("-");
    }
    identity.append("-");
    assert(identity@ =~= platform@ + seq!['-']);
    push_decimal(&mut identity, started_micros);
    identity
}

/// Whether `message` is an echo for the client named `identity`: an envelope
/// that this very client produced.
pub open spec fn is_echo(identity: Seq<char>, message: MessageView) -> bool {
    message.client_id == Some(identity)
}

/// The envelope that the client named `identity` sends for `content` at time
/// `now`.
pub open spec fn stamped(content: ClipboardContent, now: u64, identity: Seq<char>) -> MessageView {
    MessageView { content: content@, timestamp: now, client_id: Some(identity) }
}

/// One client's session with the relay.
pub struct SyncClient {
    client_id: String,
    state: ConnectionState,
    outgoing: Outbox<ClipboardContent>,
}

impl SyncClient {
    /// The identity that this client stamps on what it sends.
    pub closed spec fn identity(&self) -> Seq<char> {
        self.client_id@
    }

    /// The state of the connection.
    pub closed spec fn connection(&self) -> ConnectionState {
        self.state
    }

    /// The local changes that wait to be sent, oldest first.
    pub closed spec fn pending(&self) -> Seq<ClipboardContent> {
        self.outgoing@.pending
    }

    /// How many local changes may wait to be sent.
    pub closed spec fn capacity(&self) -> nat {
        self.outgoing@.capacity
    }

    /// A client named `client_id`, not yet connected, with nothing to send.
    pub fn new(client_id: String) -> (client: SyncClient)
        ensures
            client.identity() == client_id@,
            client.connection() == ConnectionState::Disconnected,
            client.pending() == Seq::<ClipboardContent>::empty(),
            client.capacity() == OUTGOING_CAPACITY,
    {
        SyncClient {
            client_id,
            state: ConnectionState::Disconnected,
            outgoing: Outbox::new(OUTGOING_CAPACITY),
        }
    }

    /// The state of the connection.
    pub fn state(&self) -> (state: ConnectionState)
        ensures
            state == self.connection(),
    {
        self.state
    }

    /// Takes one event of the connection and says what to do next. A
    /// connection attempt starts with an empty queue and a failure empties
    /// it: what could not be sent before a disconnect is not replayed.
    pub fn on_event(&mut self, event: ConnectionEvent) -> (action: ConnectionAction)
        ensures
            final(self).identity() == old(self).identity(),
            final(self).capacity() == old(self).capacity(),
            final(self).connection() == next_state(old(self).connection(), event),
            action == action_for(old(self).connection(), event),
            final(self).pending() == if action == ConnectionAction::Connect || action
                == (ConnectionAction::Backoff { seconds: RECONNECT_BACKOFF_SECS }) {
                Seq::<ClipboardContent>::empty()
            } else {
                old(self).pending()
            },
    {
        match (self.state, event) {
            (ConnectionState::Disconnected, ConnectionEvent::RetryDue) => {
                self.outgoing.clear();
                self.state = ConnectionState::Connecting;
                ConnectionAction::Connect
            },
            (ConnectionState::Connecting, ConnectionEvent::Established) => {
                self.state = ConnectionState::Connected;
                ConnectionAction::Serve
            },
            (ConnectionState::Connecting, ConnectionEvent::Failed) => {
                self.outgoing.clear();
                self.state = ConnectionState::Disconnected;
                ConnectionAction::Backoff { seconds: RECONNECT_BACKOFF_SECS }
            },
            (ConnectionState::Connected, ConnectionEvent::Failed) => {
                self.outgoing.clear();
                self.state = ConnectionState::Disconnected;
                ConnectionAction::Backoff { seconds: RECONNECT_BACKOFF_SECS }
            },
            _ => ConnectionAction::Ignore,
        }
    }

    /// Offers a local change for sending. While the client is disconnected
    /// nobody is there to take it and it is dropped; otherwise it joins the
    /// queue, where a full queue loses its oldest entry.
    pub fn queue(&mut self, content: ClipboardContent) -> (queued: bool)
        ensures
            final(self).identity() == old(self).identity(),
            final(self).connection() == old(self).connection(),
            final(self).capacity() == old(self).capacity(),
            queued == (old(self).connection() != ConnectionState::Disconnected),
            final(self).pending() == if queued {
                pushed(old(self).pending(), old(self).capacity(), content)
            } else {
                old(self).pending()
            },
    {
        match self.state {
            ConnectionState::Disconnected => false,
            _ => {
                self.outgoing.push(content);
                true
            },
        }
    }

    /// Wraps `content` into the envelope that this client sends at time
    /// `now`.
    pub fn stamp(&self, content: ClipboardContent, now: u64) -> (message: ClipboardMessage)
        ensures
            message@ == stamped(content, now, self.identity()),
            message.content == content,
    {
        ClipboardMessage { content, timestamp: now, client_id: Some(self.client_id.clone()) }
    }

    /// Takes the next envelope to write to the relay, stamped with this
    /// client's identity and the time `now`. Only a connected client sends.
    pub fn next_outgoing(&mut self, now: u64) -> (message: Option<ClipboardMessage>)
        ensures
            final(self).identity() == old(self).identity(),
            final(self).connection() == old(self).connection(),
            final(self).capacity() == old(self).capacity(),
            match message {
                Some(envelope) => {
                    &&& old(self).connection() == ConnectionState::Connected
                    &&& old(self).pending().len() > 0
                    &&& envelope@ == stamped(old(self).pending()[0], now, old(self).identity())
                    &&& final(self).pending() == old(self).pending().skip(1)
                },
                None => {
                    &&& old(self).connection() != ConnectionState::Connected || old(
                        self,
                    ).pending().len() == 0
                    &&& final(self).pending() == old(self).pending()
                },
            },
    {
        match self.state {
            ConnectionState::Connected => {
                match self.outgoing.pop() {
                    Some(content) => Some(self.stamp(content, now)),
                    None => None,
                }
            },
            _ => None,
        }
    }

    /// Whether an envelope from the relay is to be applied locally: every
    /// one but an echo of what this client sent itself.
    pub fn accepts(&self, message: &ClipboardMessage) -> (accepted: bool)
        ensures
            accepted == !is_echo(self.identity(), message@),
    {
        match &message.client_id {
            Some(origin) => !(*origin == self.client_id),
            None => true,
        }
    }
}

/// Losing the connection leads to `Disconnected` with the fixed backoff, and
/// the end of the backoff leads back to `Connecting`.
pub proof fn lemma_reconnects_after_loss()
    ensures
        next_state(ConnectionState::Connected, ConnectionEvent::Failed)
            == ConnectionState::Disconnected,
        action_for(ConnectionState::Connected, ConnectionEvent::Failed)
            == (ConnectionAction::Backoff { seconds: 5 }),
        next_state(ConnectionState::Disconnected, ConnectionEvent::RetryDue)
            == ConnectionState::Connecting,
        action_for(ConnectionState::Disconnected, ConnectionEvent::RetryDue)
            == ConnectionAction::Connect,
{
}

/// The client never gives up: whatever state a failure finds it in, the
/// end of the backoff finds it connecting again, and every failure of an
/// attempt or of a connection asks for the same fixed backoff.
pub proof fn lemma_never_gives_up(state: ConnectionState)
    ensures
        next_state(next_state(state, ConnectionEvent::Failed), ConnectionEvent::RetryDue)
            == ConnectionState::Connecting,
        state != ConnectionState::Disconnected ==> action_for(state, ConnectionEvent::Failed)
            == (ConnectionAction::Backoff { seconds: RECONNECT_BACKOFF_SECS }),
{
}

} // verus!
