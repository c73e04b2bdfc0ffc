use typervox::client::{
    data_lines, printed_lines, reply_text, start_payload, start_request, status_request,
    stop_payload, stop_request, ClientRequest,
};
use typervox::server::{AppState, ServerEvent};
use typervox::state::{Context, QueueState};

fn ctx(app: &str, hint: &str) -> Context {
    Context {
        app: app.to_string(),
        hint: hint.to_string(),
    }
}

fn frame(event: &ServerEvent) -> String {
    format!("event: {}\ndata: {}\n\n", event.event, event.data)
}

#[test]
fn requests_have_their_method_address_and_body() {
    assert_eq!(
        status_request(),
        ClientRequest {
            method: "GET".to_string(),
            uri: "http://localhost/v1/status".to_string(),
            json: None,
        }
    );
    assert_eq!(
        stop_request(true),
        ClientRequest {
            method: "POST".to_string(),
            uri: "http://localhost/v1/stop_active".to_string(),
            json: Some("{\"raw\":true}".to_string()),
        }
    );
    assert_eq!(
        stop_request(false).json.as_deref(),
        Some("{\"raw\":false}")
    );
    assert_eq!(
        start_request(&ctx("chrome", "say \"hi\"")),
        ClientRequest {
            method: "POST".to_string(),
            uri: "http://localhost/v1/start?stream=1".to_string(),
            json: Some(
                "{\"context\":{\"app\":\"chrome\",\"hint\":\"say \\\"hi\\\"\"}}".to_string()
            ),
        }
    );
    assert_eq!(stop_payload(true)["raw"], serde_json::Value::from(true));
    assert_eq!(
        start_payload(&ctx("a", "b"))["context"]["hint"],
        serde_json::Value::from("b")
    );
}

#[test]
fn client_prints_the_data_of_the_events_of_a_recording() {
    let mut state: AppState<()> = AppState::new(QueueState::default());
    let started = state.post_start(ctx("vscode", "line\none"), ());
    let notice = state.post_stop_active(false).notice.unwrap();
    let mut stream = String::new();
    let mut expected: Vec<String> = Vec::new();
    for event in started.events.iter().chain(notice.events.iter()) {
        stream.push_str(&frame(event));
        expected.push(event.data.clone());
    }
    assert_eq!(expected.len(), 4);
    assert_eq!(data_lines(&stream), expected);
    assert_eq!(printed_lines(stream.as_bytes()), expected);
}

#[test]
fn lines_end_with_line_feeds_or_both() {
    assert_eq!(data_lines(""), Vec::<String>::new());
    assert_eq!(data_lines("\n\n"), Vec::<String>::new());
    assert_eq!(data_lines("data: a\r\ndata: b\ndata: c"), vec!["a", "b", "c"]);
    assert_eq!(data_lines("data: a\r"), vec!["a\r"]);
    assert_eq!(data_lines("data: a\rb\n"), vec!["a\rb"]);
    assert_eq!(data_lines("data: \n"), vec![""]);
    assert_eq!(data_lines("data:x\nid: 4\n data: y\n"), Vec::<String>::new());
    assert_eq!(data_lines("data: data: z\n"), vec!["data: z"]);
    assert_eq!(data_lines("data: \u{e4}\u{1f600}\n"), vec!["\u{e4}\u{1f600}"]);
}

#[test]
fn lines_agree_with_the_standard_library() {
    let pieces = ["data: ", "a", "\r", "\n", ""];
    for a in pieces {
        for b in pieces {
            for c in pieces {
                for d in pieces {
                    let text = [a, b, c, d].concat();
                    let expected: Vec<String> = text
                        .lines()
                        .filter_map(|line| line.strip_prefix("data: "))
                        .map(|rest| rest.to_string())
                        .collect();
                    assert_eq!(data_lines(&text), expected);
                }
            }
        }
    }
}

#[test]
fn replies_are_read_as_text() {
    assert_eq!(reply_text("MOCK\n".as_bytes()), "MOCK\n");
    assert_eq!(reply_text("gr\u{fc}n".as_bytes()), "gr\u{fc}n");
    assert_eq!(reply_text(&[0x61, 0xff, 0x62]), "a\u{fffd}b");
    assert_eq!(
        printed_lines(&[b'd', b'a', b't', b'a', b':', b' ', 0xff]),
        vec!["\u{fffd}"]
    );
}
