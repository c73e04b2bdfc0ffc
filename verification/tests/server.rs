use serde_json::Value;
use typervox::server::{
    final_payload, make_event, next_listener_action, queued_payload, refusal_payload,
    started_payload, stopped_payload, AppState, ListenerAction, ListenerEvent, Reply,
    StopActiveResponse, Timings,
};
use typervox::state::{Context, QueueState, StopReason, Transcript};
use typervox::streams::StreamTable;

fn ctx(app: &str, hint: &str) -> Context {
    Context {
        app: app.to_string(),
        hint: hint.to_string(),
    }
}

fn service() -> AppState<u32> {
    AppState::new(QueueState::default())
}

fn parse(text: &str) -> Value {
    serde_json::from_str(text).expect("valid json")
}

#[test]
fn status_of_an_idle_service_is_an_empty_queue() {
    let snapshot = service().get_status();
    assert_eq!(
        snapshot.to_json(),
        parse("{\"ok\":true,\"active_request_id\":null,\"queue\":[]}")
    );
}

#[test]
fn start_then_stop_sends_four_events_under_one_id() {
    let mut state = service();
    let started = state.post_start(ctx("chrome", "omnibox"), 7);
    assert_eq!(started.request_id, "rq_1");
    assert_eq!(started.events.len(), 2);
    assert_eq!(started.events[0].event, "queued");
    assert_eq!(
        started.events[0].data,
        "{\"context\":{\"app\":\"chrome\",\"hint\":\"omnibox\"},\"position\":0,\"request_id\":\"rq_1\"}"
    );
    assert_eq!(started.events[1].event, "recording_started");
    assert_eq!(started.events[1].data, "{\"request_id\":\"rq_1\"}");
    assert_eq!(
        state.get_status().active_request_id.as_deref(),
        Some("rq_1")
    );

    let stopped = state.post_stop_active(false);
    assert_eq!(
        stopped.reply,
        Reply {
            status: 200,
            content_type: "application/json".to_string(),
            body: "{\"ok\":true,\"request_id\":\"rq_1\",\"text\":\"MOCK\",\"timings\":{\"decode_ms\":0}}"
                .to_string(),
        }
    );
    let notice = stopped.notice.expect("the stream is open");
    assert_eq!(notice.stream, 7);
    assert_eq!(notice.events.len(), 2);
    assert_eq!(notice.events[0].event, "recording_stopped");
    let ended = parse(&notice.events[0].data);
    assert_eq!(ended["request_id"], Value::from("rq_1"));
    assert_eq!(ended["reason"], Value::from("client_stop"));
    assert_eq!(ended["captured_ms"], Value::from(0));
    assert_eq!(notice.events[1].event, "final");
    let last = parse(&notice.events[1].data);
    assert_eq!(last["request_id"], Value::from("rq_1"));
    assert_eq!(last["text"], Value::from("MOCK"));
    assert_eq!(last["timings"]["decode_ms"], Value::from(0));
    assert_eq!(last["lang"], Value::from("en"));
    assert_eq!(state.get_status().active_request_id, None);
}

#[test]
fn raw_stop_answers_with_plain_text() {
    let mut state = service();
    state.post_start(ctx("a", "b"), 1);
    let stopped = state.post_stop_active(true);
    assert_eq!(
        stopped.reply,
        Reply {
            status: 200,
            content_type: "text/plain".to_string(),
            body: "MOCK\n".to_string(),
        }
    );
}

#[test]
fn stop_without_a_request_is_refused() {
    let mut state = service();
    for raw in [false, true] {
        let stopped = state.post_stop_active(raw);
        assert_eq!(
            stopped.reply,
            Reply {
                status: 400,
                content_type: "application/json".to_string(),
                body: "{\"error\":\"not-recording\",\"ok\":false}".to_string(),
            }
        );
        assert!(stopped.notice.is_none());
    }
    assert!(state.get_status().queue.is_empty());
}

#[test]
fn clients_are_told_in_the_order_in_which_they_asked() {
    let mut state = service();
    assert_eq!(state.post_start(ctx("a", "1"), 10).request_id, "rq_1");
    assert_eq!(state.post_start(ctx("b", "2"), 20).request_id, "rq_2");
    assert_eq!(state.post_start(ctx("c", "3"), 30).request_id, "rq_3");
    assert_eq!(
        state.get_status().active_request_id.as_deref(),
        Some("rq_1")
    );

    assert_eq!(state.post_stop_active(false).notice.unwrap().stream, 10);
    // The next request waits until a start promotes it.
    assert_eq!(state.get_status().active_request_id, None);
    assert_eq!(state.post_start(ctx("d", "4"), 40).request_id, "rq_4");
    assert_eq!(
        state.get_status().active_request_id.as_deref(),
        Some("rq_2")
    );
    assert_eq!(state.post_stop_active(false).notice.unwrap().stream, 20);
    assert_eq!(state.post_stop_active(true).notice.unwrap().stream, 30);
    assert_eq!(state.post_stop_active(true).notice.unwrap().stream, 40);
    assert_eq!(state.post_stop_active(true).reply.status, 400);
}

#[test]
fn requests_taken_over_have_no_stream_to_tell() {
    let mut queue = QueueState::default();
    queue.enqueue("old", ctx("a", "b"), 5);
    let mut state: AppState<u32> = AppState::new(queue);
    let stopped = state.post_stop_active(false);
    assert!(stopped.notice.is_none());
    assert_eq!(parse(&stopped.reply.body)["request_id"], Value::from("old"));
}

#[test]
fn queue_is_reached_while_the_service_runs() {
    let mut state = service();
    state.post_start(ctx("a", "b"), 10);
    state.post_start(ctx("c", "d"), 20);
    let stopped = state.queue_mut().stop_active(StopReason::Timeout).unwrap();
    assert_eq!(stopped.item.request_id, "rq_1");
    assert_eq!(state.queue_mut().len(), 1);

    state.queue_mut().enqueue("extra", ctx("e", "f"), 3);
    assert_eq!(state.post_start(ctx("g", "h"), 30).request_id, "rq_3");
    assert_eq!(state.get_status().queue.len(), 3);
    assert_eq!(state.post_stop_active(false).notice.unwrap().stream, 20);
    let extra = state.post_stop_active(false);
    assert!(extra.notice.is_none());
    assert_eq!(parse(&extra.reply.body)["request_id"], Value::from("extra"));
    assert_eq!(state.post_stop_active(false).notice.unwrap().stream, 30);
}

#[test]
fn identifiers_follow_the_starts_on_a_queue_taken_over() {
    let mut queue = QueueState::default();
    queue.enqueue("rq_2", ctx("a", "b"), 5);
    let mut state: AppState<u32> = AppState::new(queue);
    assert_eq!(state.post_start(ctx("a", "b"), 1).request_id, "rq_1");
    state.post_stop_active(false);
    assert_eq!(state.post_start(ctx("a", "b"), 2).request_id, "rq_2");
}

#[test]
fn request_ids_go_past_nine() {
    let mut state = service();
    for i in 1..=12u32 {
        let started = state.post_start(ctx("a", "b"), i);
        assert_eq!(started.request_id, format!("rq_{}", i));
    }
}

#[test]
fn payloads_have_their_fields() {
    let context = ctx("chrome", "omnibox");
    assert_eq!(
        queued_payload("rq_9", &context),
        parse("{\"request_id\":\"rq_9\",\"position\":0,\"context\":{\"app\":\"chrome\",\"hint\":\"omnibox\"}}")
    );
    assert_eq!(
        started_payload("rq_9"),
        parse("{\"request_id\":\"rq_9\"}")
    );
    assert_eq!(
        stopped_payload("rq_9"),
        parse("{\"request_id\":\"rq_9\",\"reason\":\"client_stop\",\"captured_ms\":0}")
    );
    let transcript = Transcript {
        text: "hello".to_string(),
        decode_ms: 12,
        lang: "de".to_string(),
    };
    assert_eq!(
        final_payload("rq_9", &transcript),
        parse("{\"request_id\":\"rq_9\",\"text\":\"hello\",\"timings\":{\"decode_ms\":12},\"lang\":\"de\"}")
    );
    assert_eq!(
        refusal_payload(),
        parse("{\"ok\":false,\"error\":\"not-recording\"}")
    );
    let response = StopActiveResponse {
        ok: true,
        request_id: "rq_9".to_string(),
        text: "hello".to_string(),
        timings: Timings { decode_ms: u64::MAX },
    };
    assert_eq!(
        response.to_json(),
        parse("{\"ok\":true,\"request_id\":\"rq_9\",\"text\":\"hello\",\"timings\":{\"decode_ms\":18446744073709551615}}")
    );
}

#[test]
fn event_data_fits_on_one_line() {
    let event = make_event("note", &Value::from("a\r\nb\"c\\"));
    assert_eq!(event.event, "note");
    assert_eq!(event.data, "\"a\\r\\nb\\\"c\\\\\"");
    assert!(!event.data.contains('\n'));
    assert!(!event.data.contains('\r'));
}

#[test]
fn listener_ends_on_shutdown_and_exhaustion_only() {
    assert_eq!(
        next_listener_action(ListenerEvent::Shutdown),
        ListenerAction::Leave
    );
    assert_eq!(
        next_listener_action(ListenerEvent::Closed),
        ListenerAction::Leave
    );
    assert_eq!(
        next_listener_action(ListenerEvent::Failed),
        ListenerAction::Wait
    );
    assert_eq!(
        next_listener_action(ListenerEvent::Connected),
        ListenerAction::Serve
    );
}

#[test]
fn stream_table_replaces_and_removes() {
    let mut table: StreamTable<u8> = StreamTable::new();
    let a = "a".to_string();
    let b = "b".to_string();
    assert_eq!(table.remove(&a), None);
    table.insert(a.clone(), 1);
    table.insert(b.clone(), 2);
    table.insert(a.clone(), 3);
    assert_eq!(table.remove(&a), Some(3));
    assert_eq!(table.remove(&a), None);
    assert_eq!(table.remove(&b), Some(2));
}

#[test]
fn identifiers_do_not_return_after_stops() {
    let mut state = service();
    assert_eq!(state.post_start(ctx("a", "b"), 1).request_id, "rq_1");
    state.post_stop_active(false);
    assert_eq!(state.post_start(ctx("a", "b"), 2).request_id, "rq_2");
    state.post_stop_active(false);
    state.post_stop_active(false);
    assert_eq!(state.post_start(ctx("a", "b"), 3).request_id, "rq_3");
}
