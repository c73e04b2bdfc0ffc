use serde_json::Value;
use typervox::state::{Context, QueueState, StopReason};

fn ctx(app: &str, hint: &str) -> Context {
    Context {
        app: app.to_string(),
        hint: hint.to_string(),
    }
}

fn two_requests() -> QueueState {
    let mut state = QueueState::default();
    state.enqueue("rq_a", ctx("chrome", "omnibox"), 10);
    state.enqueue("rq_b", ctx("vscode", "editor"), 20);
    state
}

fn object(fields: Vec<(&str, Value)>) -> Value {
    let mut map = serde_json::Map::new();
    for (key, value) in fields {
        map.insert(key.to_string(), value);
    }
    Value::Object(map)
}

#[test]
fn enqueue_preserves_order_and_inactive_by_default() {
    let mut state = QueueState::default();
    state.enqueue("rq_a", ctx("chrome", "omnibox"), 10);
    state.enqueue("rq_b", ctx("vscode", "editor"), 20);

    assert_eq!(state.len(), 2);
    assert!(!state.is_empty());
    let first = state.queue.front().unwrap();
    let second = state.queue.get(1).unwrap();
    assert_eq!(&first.request_id, "rq_a");
    assert!(!first.recording);
    assert_eq!(&second.request_id, "rq_b");
    assert!(!second.recording);
}

#[test]
fn promote_marks_head_recording() {
    let mut state = QueueState::default();
    state.enqueue("rq_a", ctx("chrome", "omnibox"), 10);
    state.enqueue("rq_b", ctx("vscode", "editor"), 20);

    let promoted = state.promote().expect("should have head");
    assert_eq!(promoted.request_id, "rq_a");
    assert!(promoted.recording);
    // ensure internal state reflects promotion
    let snapshot = state.snapshot();
    assert_eq!(snapshot.active_request_id.as_deref(), Some("rq_a"));
}

#[test]
fn stop_active_removes_active_and_allows_next_promotion() {
    let mut state = QueueState::default();
    state.enqueue("rq_a", ctx("chrome", "omnibox"), 10);
    state.enqueue("rq_b", ctx("vscode", "editor"), 20);

    state.promote();
    let stopped = state
        .stop_active(StopReason::ClientStop)
        .expect("active should stop");
    assert_eq!(stopped.item.request_id, "rq_a");
    assert_eq!(stopped.reason, StopReason::ClientStop);
    assert_eq!(state.len(), 1);
    assert_eq!(state.snapshot().active_request_id, None);

    let next = state.promote().expect("next item");
    assert_eq!(next.request_id, "rq_b");
    assert!(next.recording);
}

#[test]
fn snapshot_json_shape_matches_spec() {
    let mut state = QueueState::default();
    state.enqueue("rq_a", ctx("chrome", "omnibox"), 10);
    state.enqueue("rq_b", ctx("vscode", "editor"), 20);
    state.promote();

    let snapshot = state.snapshot();
    let json = snapshot.to_json();
    let expected = object(vec![
        ("ok", Value::from(true)),
        ("active_request_id", Value::from("rq_a")),
        (
            "queue",
            Value::from(vec![
                object(vec![
                    ("request_id", Value::from("rq_a")),
                    (
                        "context",
                        object(vec![
                            ("app", Value::from("chrome")),
                            ("hint", Value::from("omnibox")),
                        ]),
                    ),
                    ("recording", Value::from(true)),
                    ("since_ms", Value::from(10)),
                ]),
                object(vec![
                    ("request_id", Value::from("rq_b")),
                    (
                        "context",
                        object(vec![
                            ("app", Value::from("vscode")),
                            ("hint", Value::from("editor")),
                        ]),
                    ),
                    ("recording", Value::from(false)),
                    ("since_ms", Value::from(20)),
                ]),
            ]),
        ),
    ]);
    assert_eq!(json, expected);
}

#[test]
fn snapshot_of_an_empty_queue_has_null_and_an_empty_list() {
    let snapshot = QueueState::default().snapshot();
    assert!(snapshot.ok);
    assert_eq!(snapshot.active_request_id, None);
    assert!(snapshot.queue.is_empty());
    let expected: Value =
        serde_json::from_str("{\"ok\":true,\"active_request_id\":null,\"queue\":[]}").unwrap();
    assert_eq!(snapshot.to_json(), expected);
}

#[test]
fn enqueue_returns_positions_and_takes_owned_ids() {
    let mut state = QueueState::default();
    assert_eq!(state.enqueue("rq_a", ctx("a", "b"), 1), 0);
    assert_eq!(state.enqueue(String::from("rq_b"), ctx("a", "b"), 2), 1);
    assert_eq!(state.queue[1].request_id, "rq_b");
    assert_eq!(state.queue[1].since_ms, 2);
}

#[test]
fn operations_on_an_empty_queue_do_nothing() {
    let mut state = QueueState::default();
    assert!(state.is_empty());
    assert_eq!(state.promote(), None);
    assert_eq!(state.stop_active(StopReason::Cancel), None);
    assert_eq!(state, QueueState::default());
}

#[test]
fn requests_leave_in_the_order_in_which_they_came() {
    let mut state = two_requests();
    state.promote();
    let first = state.stop_active(StopReason::Timeout).unwrap();
    assert_eq!(first.item.request_id, "rq_a");
    assert!(!first.item.recording);
    assert_eq!(first.item.context, ctx("chrome", "omnibox"));
    assert_eq!(first.item.since_ms, 10);
    assert_eq!(first.reason, StopReason::Timeout);
    state.enqueue("rq_c", ctx("mail", "body"), 30);
    assert_eq!(
        state.stop_active(StopReason::Cancel).unwrap().item.request_id,
        "rq_b"
    );
    assert_eq!(
        state.stop_active(StopReason::Cancel).unwrap().item.request_id,
        "rq_c"
    );
    assert!(state.is_empty());
}

#[test]
fn only_the_head_records_and_promotion_is_idempotent() {
    let mut state = two_requests();
    state.promote();
    let once = state.clone();
    state.promote();
    assert_eq!(state, once);
    assert!(state.queue[0].recording);
    assert!(!state.queue[1].recording);
}

#[test]
fn queues_stops_and_reasons_have_json_forms() {
    let mut state = two_requests();
    assert_eq!(
        QueueState::default().to_json(),
        serde_json::from_str::<Value>("{\"queue\":[]}").unwrap()
    );
    let json = state.to_json();
    assert_eq!(json.as_object().unwrap().len(), 1);
    assert_eq!(json["queue"], state.snapshot().to_json()["queue"]);
    assert_eq!(json["queue"][1]["request_id"], Value::from("rq_b"));

    assert_eq!(StopReason::ClientStop.to_json(), Value::from("client-stop"));
    assert_eq!(StopReason::Timeout.to_json(), Value::from("timeout"));
    assert_eq!(StopReason::Cancel.to_json(), Value::from("cancel"));

    let stopped = state.stop_active(StopReason::ClientStop).unwrap();
    let expected: Value = serde_json::from_str(
        "{\"item\":{\"request_id\":\"rq_a\",\"context\":{\"app\":\"chrome\",\"hint\":\"omnibox\"},\"recording\":false,\"since_ms\":10},\"reason\":\"client-stop\"}",
    )
    .unwrap();
    assert_eq!(stopped.to_json(), expected);
    assert_eq!(stopped.clone(), stopped);
}

#[test]
fn clones_are_equal() {
    let mut state = two_requests();
    state.promote();
    assert_eq!(state.clone(), state);
    assert_eq!(state.snapshot().clone(), state.snapshot());
}
