//! Scenario tests driving the connection manager through wire text.

use winccua_graphql_client::json::JsonValue;
use winccua_graphql_client::manager::{Command, ConnState, Effect, Manager, PendingSub};
use winccua_graphql_client::registry::CallbackInfo;
use winccua_graphql_client::codec::ProtocolMessage;

fn sub(id: u64, query: &str, on_error: bool, on_complete: bool) -> Command {
    Command::Subscribe(PendingSub {
        id,
        query: query.to_string(),
        variables: Vec::new(),
        info: CallbackInfo { has_on_error: on_error, has_on_complete: on_complete },
    })
}

/// Brings a manager to Ready with the given subscriptions live.
fn ready_with(subs: &[(u64, bool, bool)]) -> Manager {
    let mut m = Manager::new();
    let acked = m.handle_text(r#"{"type":"connection_ack"}"#);
    assert_eq!(acked.len(), 0);
    for &(id, on_error, on_complete) in subs {
        let effects = m.handle_command(sub(id, "Q", on_error, on_complete));
        assert_eq!(effects.len(), 1);
        assert!(matches!(effects[0], Effect::Send(ProtocolMessage::Subscribe { .. })));
    }
    m
}

#[test]
fn scenario_subscribe_before_ack_then_deliver_then_complete() {
    let mut m = Manager::new();
    assert_eq!(m.lifecycle(), ConnState::AwaitingAck);

    // Subscribe while AwaitingAck: nothing reaches the wire yet.
    let effects = m.handle_command(sub(0, "Q", false, true));
    assert_eq!(effects.len(), 0);
    assert!(!m.is_live(0));

    // The acknowledgement flushes the queue: the subscribe frame goes out.
    let effects = m.handle_text(r#"{"type":"connection_ack"}"#);
    assert_eq!(m.lifecycle(), ConnState::Ready);
    assert_eq!(effects.len(), 1);
    match &effects[0] {
        Effect::Send(ProtocolMessage::Subscribe { id, query, variables }) => {
            assert_eq!(id, "sub_0");
            assert_eq!(query, "Q");
            assert!(variables.is_empty());
        },
        other => panic!("expected a subscribe frame, got {:?}", other),
    }
    assert!(m.is_live(0));

    // A data frame reaches the data callback exactly once.
    let effects = m.handle_text(r#"{"type":"next","id":"sub_0","payload":{"v":1}}"#);
    assert_eq!(effects.len(), 1);
    let expected = JsonValue::Obj(vec![("v".to_string(), JsonValue::Num("1".to_string()))]);
    assert_eq!(effects[0], Effect::Data { id: 0, payload: expected });

    // Completion invokes the completion callback once and frees the id.
    let effects = m.handle_text(r#"{"type":"complete","id":"sub_0"}"#);
    assert_eq!(effects.len(), 1);
    assert_eq!(effects[0], Effect::CompleteSignal { id: 0 });
    assert!(!m.is_live(0));
    assert_eq!(m.live_count(), 0);
}

#[test]
fn scenario_error_routed_to_one_subscription() {
    let mut m = ready_with(&[(0, true, false), (1, true, false), (2, false, false)]);

    let effects = m.handle_text(r#"{"type":"error","id":"sub_0","payload":"boom"}"#);
    assert_eq!(effects.len(), 1);
    assert_eq!(
        effects[0],
        Effect::ErrorSignal { id: 0, message: "\"boom\"".to_string() },
    );

    // A subscription without an error callback gets nothing.
    let effects = m.handle_text(r#"{"type":"error","id":"sub_2","payload":"boom"}"#);
    assert_eq!(effects.len(), 0);

    // All subscriptions are still live: a server error is not terminal.
    assert!(m.is_live(0));
    assert!(m.is_live(1));
    assert!(m.is_live(2));
}

#[test]
fn scenario_disconnect_notifies_everyone() {
    let mut m = ready_with(&[(0, true, false), (1, true, false)]);

    let effects = m.handle_command(Command::Disconnect);
    assert_eq!(effects.len(), 4);
    assert_eq!(effects[0], Effect::SendClose);
    assert_eq!(
        effects[1],
        Effect::ErrorSignal { id: 0, message: "WebSocket connection closed".to_string() },
    );
    assert_eq!(
        effects[2],
        Effect::ErrorSignal { id: 1, message: "WebSocket connection closed".to_string() },
    );
    assert_eq!(effects[3], Effect::Stop);
    assert_eq!(m.lifecycle(), ConnState::Closed);
    assert_eq!(m.live_count(), 0);
}

#[test]
fn queued_subscribes_flush_in_submission_order() {
    let mut m = Manager::new();
    for id in 0..3u64 {
        let effects = m.handle_command(sub(id, "Q", false, false));
        assert_eq!(effects.len(), 0);
    }
    let effects = m.handle_text(r#"{"type":"connection_ack"}"#);
    assert_eq!(effects.len(), 3);
    let expected = ["sub_0", "sub_1", "sub_2"];
    for (e, want) in effects.iter().zip(expected.iter()) {
        match e {
            Effect::Send(ProtocolMessage::Subscribe { id, .. }) => assert_eq!(id, want),
            other => panic!("expected a subscribe frame, got {:?}", other),
        }
    }
    assert!(m.is_live(0) && m.is_live(1) && m.is_live(2));
}

#[test]
fn next_for_unknown_id_is_dropped() {
    let mut m = ready_with(&[(0, true, true)]);
    let effects = m.handle_text(r#"{"type":"next","id":"sub_9","payload":{"v":2}}"#);
    assert_eq!(effects.len(), 0);
    // The live subscription is untouched.
    assert!(m.is_live(0));
    let effects = m.handle_text(r#"{"type":"next","id":"sub_0","payload":3}"#);
    assert_eq!(effects.len(), 1);
}

#[test]
fn after_complete_same_id_is_silent() {
    let mut m = ready_with(&[(0, true, true)]);
    let effects = m.handle_text(r#"{"type":"complete","id":"sub_0"}"#);
    assert_eq!(effects.len(), 1);
    let effects = m.handle_text(r#"{"type":"next","id":"sub_0","payload":1}"#);
    assert_eq!(effects.len(), 0);
    let effects = m.handle_text(r#"{"type":"error","id":"sub_0","payload":"x"}"#);
    assert_eq!(effects.len(), 0);
}

#[test]
fn unsubscribe_sends_exactly_one_complete_after_removal() {
    let mut m = ready_with(&[(0, false, false), (1, false, false)]);
    let effects = m.handle_command(Command::Unsubscribe { id: 0 });
    assert!(!m.is_live(0));
    assert!(m.is_live(1));
    assert_eq!(effects.len(), 1);
    match &effects[0] {
        Effect::Send(ProtocolMessage::Complete { id }) => assert_eq!(id, "sub_0"),
        other => panic!("expected a complete frame, got {:?}", other),
    }
}

#[test]
fn malformed_and_unknown_frames_are_dropped() {
    let mut m = ready_with(&[(0, true, true)]);
    assert_eq!(m.handle_text("not json at all").len(), 0);
    assert_eq!(m.handle_text(r#"{"no_type":1}"#).len(), 0);
    assert_eq!(m.handle_text(r#"{"type":"pong"}"#).len(), 0);
    assert_eq!(m.handle_text(r#"{"type":"something_new","id":"sub_0"}"#).len(), 0);
    assert_eq!(m.handle_text(r#"{"type":"next","id":"sub_0"}"#).len(), 0);
    // The loop went on: the subscription still works.
    assert_eq!(m.handle_text(r#"{"type":"next","id":"sub_0","payload":0}"#).len(), 1);
}

#[test]
fn connection_error_is_fatal_and_notifies() {
    let mut m = ready_with(&[(0, true, false), (1, false, false)]);
    let effects = m.handle_text(r#"{"type":"connection_error","payload":"denied"}"#);
    // Only the subscription with an error callback is notified; then stop.
    assert_eq!(effects.len(), 2);
    assert_eq!(
        effects[0],
        Effect::ErrorSignal { id: 0, message: "WebSocket connection closed".to_string() },
    );
    assert_eq!(effects[1], Effect::Stop);
    assert_eq!(m.lifecycle(), ConnState::Closed);
    assert_eq!(m.live_count(), 0);
}

#[test]
fn update_token_terminates_the_loop() {
    let mut m = ready_with(&[(0, true, false)]);
    let effects = m.handle_command(Command::UpdateToken { token: "tok2".to_string() });
    assert_eq!(effects.len(), 2);
    assert_eq!(
        effects[0],
        Effect::ErrorSignal { id: 0, message: "WebSocket connection closed".to_string() },
    );
    assert_eq!(effects[1], Effect::Stop);
    assert_eq!(m.lifecycle(), ConnState::Closed);
}

#[test]
fn connection_lost_cleans_up() {
    let mut m = ready_with(&[(0, true, false)]);
    let effects = m.connection_lost();
    assert_eq!(effects.len(), 2);
    assert_eq!(
        effects[0],
        Effect::ErrorSignal { id: 0, message: "WebSocket connection closed".to_string() },
    );
    assert_eq!(effects[1], Effect::Stop);
    assert_eq!(m.live_count(), 0);
}

#[test]
fn closed_is_terminal() {
    let mut m = ready_with(&[(0, true, false)]);
    let _ = m.handle_command(Command::Disconnect);
    assert_eq!(m.lifecycle(), ConnState::Closed);
    assert_eq!(m.handle_text(r#"{"type":"connection_ack"}"#).len(), 0);
    assert_eq!(m.handle_command(sub(7, "Q", false, false)).len(), 0);
    assert_eq!(m.connection_lost().len(), 0);
    assert_eq!(m.lifecycle(), ConnState::Closed);
}

#[test]
fn subscribe_while_ready_registers_and_sends() {
    let mut m = ready_with(&[]);
    let effects = m.handle_command(sub(5, "QUERY_TEXT", true, true));
    assert_eq!(effects.len(), 1);
    match &effects[0] {
        Effect::Send(ProtocolMessage::Subscribe { id, query, .. }) => {
            assert_eq!(id, "sub_5");
            assert_eq!(query, "QUERY_TEXT");
        },
        other => panic!("expected a subscribe frame, got {:?}", other),
    }
    assert!(m.is_live(5));
}
