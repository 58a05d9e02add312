use copi::client::{
    client_identity, ConnectionAction, ConnectionEvent, ConnectionState, SyncClient, OUTGOING_CAPACITY,
    RECONNECT_BACKOFF_SECS,
};
use copi::content::{ClipboardContent, ClipboardMessage};
use copi::monitor::ClipboardMonitor;
use copi::orchestrator::ClientOrchestrator;

fn text(value: &str) -> ClipboardContent {
    ClipboardContent::Text(value.to_string())
}

fn connected(identity: &str) -> SyncClient {
    let mut client = SyncClient::new(identity.to_string());
    assert_eq!(client.on_event(ConnectionEvent::RetryDue), ConnectionAction::Connect);
    assert_eq!(client.on_event(ConnectionEvent::Established), ConnectionAction::Serve);
    client
}

#[test]
fn client_starts_disconnected_and_connects() {
    let mut client = SyncClient::new("linux-1".to_string());
    assert_eq!(client.state(), ConnectionState::Disconnected);
    assert_eq!(client.on_event(ConnectionEvent::RetryDue), ConnectionAction::Connect);
    assert_eq!(client.state(), ConnectionState::Connecting);
    assert_eq!(client.on_event(ConnectionEvent::Established), ConnectionAction::Serve);
    assert_eq!(client.state(), ConnectionState::Connected);
}

#[test]
fn lost_connection_backs_off_five_seconds_and_reconnects() {
    let mut client = connected("linux-1");
    assert_eq!(
        client.on_event(ConnectionEvent::Failed),
        ConnectionAction::Backoff { seconds: 5 }
    );
    assert_eq!(RECONNECT_BACKOFF_SECS, 5);
    assert_eq!(client.state(), ConnectionState::Disconnected);
    assert_eq!(client.on_event(ConnectionEvent::RetryDue), ConnectionAction::Connect);
    assert_eq!(client.state(), ConnectionState::Connecting);
}

#[test]
fn failed_attempts_are_retried_for_ever() {
    let mut client = SyncClient::new("linux-1".to_string());
    for _ in 0..1000 {
        assert_eq!(client.on_event(ConnectionEvent::RetryDue), ConnectionAction::Connect);
        assert_eq!(
            client.on_event(ConnectionEvent::Failed),
            ConnectionAction::Backoff { seconds: 5 }
        );
        assert_eq!(client.state(), ConnectionState::Disconnected);
    }
}

#[test]
fn events_out_of_place_are_ignored() {
    let mut client = SyncClient::new("linux-1".to_string());
    assert_eq!(client.on_event(ConnectionEvent::Failed), ConnectionAction::Ignore);
    assert_eq!(client.on_event(ConnectionEvent::Established), ConnectionAction::Ignore);
    assert_eq!(client.state(), ConnectionState::Disconnected);
    let mut client = connected("linux-1");
    assert_eq!(client.on_event(ConnectionEvent::RetryDue), ConnectionAction::Ignore);
    assert_eq!(client.on_event(ConnectionEvent::Established), ConnectionAction::Ignore);
    assert_eq!(client.state(), ConnectionState::Connected);
}

#[test]
fn outgoing_envelope_is_stamped() {
    let mut client = connected("linux-1");
    assert!(client.queue(text("hello")));
    assert_eq!(
        client.next_outgoing(1_700_000_000),
        Some(ClipboardMessage {
            content: text("hello"),
            timestamp: 1_700_000_000,
            client_id: Some("linux-1".to_string()),
        })
    );
    assert_eq!(client.next_outgoing(1_700_000_001), None);
}

#[test]
fn nothing_is_queued_while_disconnected() {
    let mut client = SyncClient::new("linux-1".to_string());
    assert!(!client.queue(text("lost")));
    client.on_event(ConnectionEvent::RetryDue);
    client.on_event(ConnectionEvent::Established);
    assert_eq!(client.next_outgoing(1), None);
}

#[test]
fn changes_made_while_connecting_are_sent_once_connected() {
    let mut client = SyncClient::new("linux-1".to_string());
    client.on_event(ConnectionEvent::RetryDue);
    assert!(client.queue(text("early")));
    assert_eq!(client.next_outgoing(1), None);
    client.on_event(ConnectionEvent::Established);
    assert_eq!(client.next_outgoing(2).unwrap().content, text("early"));
}

#[test]
fn undelivered_changes_are_dropped_on_disconnect() {
    let mut client = connected("linux-1");
    assert!(client.queue(text("never sent")));
    client.on_event(ConnectionEvent::Failed);
    client.on_event(ConnectionEvent::RetryDue);
    client.on_event(ConnectionEvent::Established);
    assert_eq!(client.next_outgoing(3), None);
}

#[test]
fn outgoing_queue_keeps_the_latest_hundred() {
    assert_eq!(OUTGOING_CAPACITY, 100);
    let mut client = connected("linux-1");
    for n in 0..130 {
        assert!(client.queue(text(&format!("{}", n))));
    }
    assert_eq!(client.next_outgoing(0).unwrap().content, text("30"));
    let mut left = 0;
    while client.next_outgoing(0).is_some() {
        left += 1;
    }
    assert_eq!(left, 99);
}

#[test]
fn own_envelopes_are_not_accepted() {
    let client = SyncClient::new("linux-1".to_string());
    let own = client.stamp(text("mine"), 7);
    assert_eq!(own.client_id, Some("linux-1".to_string()));
    assert!(!client.accepts(&own));
    let other = ClipboardMessage {
        content: text("theirs"),
        timestamp: 7,
        client_id: Some("linux-2".to_string()),
    };
    assert!(client.accepts(&other));
    let from_relay = ClipboardMessage { content: text("relay"), timestamp: 7, client_id: None };
    assert!(client.accepts(&from_relay));
}

#[test]
fn echo_is_neither_applied_nor_sent_again() {
    let mut node = ClientOrchestrator {
        client: connected("linux-1"),
        monitor: ClipboardMonitor::new(false, false),
    };
    assert!(node.on_local_reading(Some(text("C"))));
    let sent = node.client.next_outgoing(10).unwrap();
    // The relay sends it back.
    assert_eq!(node.on_remote(sent), None);
    // The clipboard still holds C: nothing is sent again.
    assert!(!node.on_local_reading(Some(text("C"))));
    assert_eq!(node.client.next_outgoing(11), None);
}

#[test]
fn remote_value_is_applied_and_not_sent_back() {
    let mut node = ClientOrchestrator {
        client: connected("linux-1"),
        monitor: ClipboardMonitor::new(false, false),
    };
    let incoming = ClipboardMessage {
        content: text("from afar"),
        timestamp: 1,
        client_id: Some("mac-2".to_string()),
    };
    let apply = node.on_remote(incoming).unwrap();
    assert_eq!(apply, text("from afar"));
    node.on_write_result(&apply, true);
    assert!(!node.on_local_reading(Some(text("from afar"))));
    assert_eq!(node.client.next_outgoing(2), None);
    assert!(node.on_local_reading(Some(text("typed here"))));
    assert_eq!(node.client.next_outgoing(3).unwrap().content, text("typed here"));
}

#[test]
fn failed_reading_changes_nothing() {
    let mut node = ClientOrchestrator {
        client: connected("linux-1"),
        monitor: ClipboardMonitor::new(false, false),
    };
    assert!(!node.on_local_reading(None));
    assert!(node.on_local_reading(Some(text("a"))));
    assert!(!node.on_local_reading(None));
    assert!(!node.on_local_reading(Some(text("a"))));
}

#[test]
fn change_made_while_disconnected_is_not_sent_later() {
    let mut node = ClientOrchestrator {
        client: SyncClient::new("linux-1".to_string()),
        monitor: ClipboardMonitor::new(false, false),
    };
    assert!(!node.on_local_reading(Some(text("offline"))));
    node.client.on_event(ConnectionEvent::RetryDue);
    node.client.on_event(ConnectionEvent::Established);
    assert!(!node.on_local_reading(Some(text("offline"))));
    assert_eq!(node.client.next_outgoing(0), None);
}

#[test]
fn identity_is_platform_and_start_time() {
    assert_eq!(client_identity("linux", 1_700_000_000_123_456), "linux-1700000000123456");
    assert_eq!(client_identity("macos", 0), "macos-0");
    assert_eq!(client_identity("windows", 10), "windows-10");
    assert_eq!(
        client_identity("", u128::MAX),
        "-340282366920938463463374607431768211455"
    );
}

#[test]
fn failed_write_leaves_the_baseline() {
    let mut node = ClientOrchestrator {
        client: connected("linux-1"),
        monitor: ClipboardMonitor::new(false, false),
    };
    assert!(node.on_local_reading(Some(text("mine"))));
    node.on_write_result(&text("from afar"), false);
    // The clipboard still holds what it held.
    assert!(!node.on_local_reading(Some(text("mine"))));
    assert!(node.on_local_reading(Some(text("from afar"))));
}
