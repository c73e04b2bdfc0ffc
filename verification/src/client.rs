//! The client's side of the recording service: the requests that it sends, and what it prints of
//! the answers.

use crate::json;
use crate::json::{json_text, json_view, JsonView};
use crate::server::ServerEventView;
use crate::state::{context_document, Context, ContextView};
use crate::text::{characters, contents, single_line};
use serde_json::Value;
use vstd::prelude::*;
use vstd::string::*;
use vstd::utf8::{
    decode_utf8, encode_utf8, encode_utf8_decode_utf8, encode_utf8_valid_utf8, valid_utf8,
};

verus! {

/// What a client reads of the answer to a stop.
#[derive(Debug, PartialEq, Eq)]
pub struct StopActiveResponse {
    pub ok: bool,
    pub request_id: String,
    pub text: String,
}

/// A request to the service: method, address and, where there is one, a JSON body.
#[derive(Debug, PartialEq, Eq)]
pub struct ClientRequest {
    pub method: String,
    pub uri: String,
    pub json: Option<String>,
}

/// The contents of a [`ClientRequest`].
pub struct ClientRequestView {
    pub method: Seq<char>,
    pub uri: Seq<char>,
    pub json: Option<Seq<char>>,
}

impl View for ClientRequest {
    type V = ClientRequestView;

    open spec fn view(&self) -> ClientRequestView {
        ClientRequestView {
            method: self.method@,
            uri: self.uri@,
            json: match self.json {
                Some(json) => Some(json@),
                None => None,
            },
        }
    }
}

/// The body of a request to stop.
pub open spec fn stop_document(raw: bool) -> JsonView {
    JsonView::Object(map!["raw"@ => JsonView::Bool(raw)])
}

/// The body of a request for a recording.
pub open spec fn start_document(context: ContextView) -> JsonView {
    JsonView::Object(map!["context"@ => context_document(context)])
}

/// Builds the body of a request to stop.
pub fn stop_payload(raw: bool) -> (document: Value)
    ensures
        json_view(document) == stop_document(raw),
{
    let mut document = json::object();
    json::set_field(&mut document, "raw", json::boolean(raw));
    document
}

/// Builds the body of a request for a recording.
pub fn start_payload(context: &Context) -> (document: Value)
    ensures
        json_view(document) == start_document(context@),
{
    let mut document = json::object();
    json::set_field(&mut document, "context", context.to_json());
    document
}

/// The request for the status of the service.
pub fn status_request() -> (request: ClientRequest)
    ensures
        request@ == (ClientRequestView {
            method: "GET"@,
            uri: "http://localhost/v1/status"@,
            json: None,
        }),
{
    ClientRequest {
        method: String::from("GET"),
        uri: String::from("http://localhost/v1/status"),
        json: None,
    }
}

/// The request to stop the active recording.
pub fn stop_request(raw: bool) -> (request: ClientRequest)
    ensures
        request@ == (ClientRequestView {
            method: "POST"@,
            uri: "http://localhost/v1/stop_active"@,
            json: Some(json_text(stop_document(raw))),
        }),
{
    ClientRequest {
        method: String::from("POST"),
        uri: String::from("http://localhost/v1/stop_active"),
        json: Some(json::to_text(&stop_payload(raw))),
    }
}

/// The request for a recording.
pub fn start_request(context: &Context) -> (request: ClientRequest)
    ensures
        request@ == (ClientRequestView {
            method: "POST"@,
            uri: "http://localhost/v1/start?stream=1"@,
            json: Some(json_text(start_document(context@))),
        }),
{
    ClientRequest {
        method: String::from("POST"),
        uri: String::from("http://localhost/v1/start?stream=1"),
        json: Some(json::to_text(&start_payload(context))),
    }
}

/// Bytes as text, with a replacement character for what is not UTF-8.
pub uninterp spec fn lossy_text(bytes: Seq<u8>) -> Seq<char>;

/// `String::from_utf8_lossy`: the bytes as text. Bytes that are UTF-8 are decoded as they are; what
/// comes of other bytes depends on them alone, and is not said here.
#[verifier::external_body]
fn decode_lossy(bytes: &[u8]) -> (text: String)
    ensures
        text@ == lossy_text(bytes@),
        valid_utf8(bytes@) ==> text@ == decode_utf8(bytes@),
{
    String::from_utf8_lossy(bytes).into_owned()
}

/// The text of an answer's body. A text that was sent as UTF-8 is read as it was.
pub fn reply_text(body: &[u8]) -> (text: String)
    ensures
        text@ == lossy_text(body@),
        forall|sent: Seq<char>| body@ == #[trigger] encode_utf8(sent) ==> text@ == sent,
{
    proof {
        lemma_utf8_is_read_back(body@);
    }
    decode_lossy(body)
}

proof fn lemma_utf8_is_read_back(bytes: Seq<u8>)
    ensures
        forall|sent: Seq<char>|
            bytes == #[trigger] encode_utf8(sent) ==> valid_utf8(bytes) && decode_utf8(bytes)
                == sent,
{
    assert forall|sent: Seq<char>| bytes == #[trigger] encode_utf8(sent) implies valid_utf8(bytes)
        && decode_utf8(bytes) == sent by {
        encode_utf8_valid_utf8(sent);
        encode_utf8_decode_utf8(sent);
    }
}

/// The position of the first line feed of a text, or the text's length if there is none.
pub open spec fn line_feed(text: Seq<char>) -> int
    decreases text.len(),
{
    if text.len() == 0 || text[0] == '\n' {
        0
    } else {
        1 + line_feed(text.drop_first())
    }
}

/// A line without the carriage return that ends it, if one does.
pub open spec fn without_return(line: Seq<char>) -> Seq<char> {
    if line.len() > 0 && line.last() == '\r' {
        line.drop_last()
    } else {
        line
    }
}

/// The lines of a text. A line ends with a line feed or with a carriage return and a line feed,
/// neither of which belongs to it; at the end of the text a line may do without.
pub open spec fn lines(text: Seq<char>) -> Seq<Seq<char>>
    decreases text.len(),
{
    let end = line_feed(text);
    if text.len() == 0 {
        Seq::empty()
    } else if end < 0 || end >= text.len() {
        seq![text]
    } else {
        seq![without_return(text.take(end))] + lines(text.skip(end + 1))
    }
}

/// The data that a line of an event stream carries, if it carries any.
pub open spec fn data_of(line: Seq<char>) -> Option<Seq<char>> {
    if "data: "@.is_prefix_of(line) {
        Some(line.skip("data: "@.len() as int))
    } else {
        None
    }
}

/// The data that lines of an event stream carry.
pub open spec fn data_of_lines(lines: Seq<Seq<char>>) -> Seq<Seq<char>>
    decreases lines.len(),
{
    if lines.len() == 0 {
        Seq::empty()
    } else {
        match data_of(lines.last()) {
            Some(data) => data_of_lines(lines.drop_last()).push(data),
            None => data_of_lines(lines.drop_last()),
        }
    }
}

proof fn lemma_line_feed(text: Seq<char>, end: int)
    requires
        0 <= end <= text.len(),
        forall|i: int| 0 <= i < end ==> text[i] != '\n',
        end < text.len() ==> text[end] == '\n',
    ensures
        line_feed(text) == end,
    decreases text.len(),
{
    if end > 0 {
        lemma_line_feed(text.drop_first(), end - 1);
    }
}

proof fn lemma_line_feed_bounds(text: Seq<char>)
    ensures
        0 <= line_feed(text) <= text.len(),
        forall|i: int| 0 <= i < line_feed(text) ==> text[i] != '\n',
        line_feed(text) < text.len() ==> text[line_feed(text)] == '\n',
    decreases text.len(),
{
    if text.len() > 0 && text[0] != '\n' {
        lemma_line_feed_bounds(text.drop_first());
        let rest = text.drop_first();
        assert forall|i: int| 0 <= i < line_feed(text) implies text[i] != '\n' by {
            if i > 0 {
                assert(rest[i - 1] != '\n');
            }
        }
    }
}

/// The data of a line, if the line carries any.
fn line_data(line: &str) -> (data: Option<String>)
    ensures
        match data {
            Some(data) => data_of(line@) == Some(data@),
            None => data_of(line@) is None,
        },
{
    proof {
        reveal_strlit("data: ");
    }
    let list = characters(line);
    if list.len() >= 6 && list[0] == 'd' && list[1] == 'a' && list[2] == 't' && list[3] == 'a'
        && list[4] == ':' && list[5] == ' ' {
        assert("data: "@.is_prefix_of(line@));
        let data = String::from(line.substring_char(6, list.len()));
        assert(data@ == line@.skip(6));
        Some(data)
    } else {
        proof {
            if "data: "@.is_prefix_of(line@) {
                let prefix = line@.subrange(0, 6);
                assert(prefix == "data: "@);
                assert(prefix[0] == 'd' && prefix[1] == 'a' && prefix[2] == 't' && prefix[3] == 'a'
                    && prefix[4] == ':' && prefix[5] == ' ');
            }
        }
        None
    }
}

/// The data that a piece of an event stream carries, line by line.
pub fn data_lines(chunk: &str) -> (data: Vec<String>)
    ensures
        contents(data@) == data_of_lines(lines(chunk@)),
{
    let list = characters(chunk);
    let mut data: Vec<String> = Vec::new();
    let mut start: usize = 0;
    let ghost mut done: Seq<Seq<char>> = Seq::empty();
    assert(chunk@.skip(0) == chunk@);
    assert(done + lines(chunk@) == lines(chunk@));
    assert(contents(data@) == data_of_lines(done));
    while start < list.len()
        invariant
            list@ == chunk@,
            start <= list.len(),
            lines(chunk@) == done + lines(chunk@.skip(start as int)),
            contents(data@) == data_of_lines(done),
        decreases list.len() - start,
    {
        let ghost rest = chunk@.skip(start as int);
        let mut end: usize = start;
        while end < list.len() && list[end] != '\n'
            invariant
                list@ == chunk@,
                start <= end <= list.len(),
                forall|i: int| start <= i < end ==> chunk@[i] != '\n',
            decreases list.len() - end,
        {
            end = end + 1;
        }
        proof {
            assert forall|i: int| 0 <= i < end - start implies rest[i] != '\n' by {
                assert(rest[i] == chunk@[start + i]);
            }
            lemma_line_feed(rest, end - start);
        }
        let mut line_end: usize = end;
        if end < list.len() && end > start && list[end - 1] == '\r' {
            line_end = end - 1;
        }
        let line = chunk.substring_char(start, line_end);
        let ghost following = if end < list.len() {
            chunk@.skip(end + 1)
        } else {
            Seq::empty()
        };
        proof {
            assert(line@ == chunk@.subrange(start as int, line_end as int));
            if end < list.len() {
                assert(rest.skip(end - start + 1) == following);
                assert(line@ == without_return(rest.take(end - start)));
                assert(lines(rest) == seq![line@] + lines(following));
            } else {
                assert(line@ == rest);
                assert(lines(rest) == seq![line@] + lines(following));
            }
            assert(done + (seq![line@] + lines(following)) == done.push(line@) + lines(following));
        }
        let ghost before = data@;
        if let Some(found) = line_data(line) {
            data.push(found);
            assert(contents(data@) == contents(before).push(found@));
        }
        proof {
            assert(done.push(line@).drop_last() == done);
            done = done.push(line@);
        }
        if end < list.len() {
            start = end + 1;
        } else {
            start = end;
            assert(chunk@.skip(start as int) == following);
        }
    }
    assert(lines(chunk@.skip(start as int)) == Seq::<Seq<char>>::empty());
    assert(done == lines(chunk@));
    data
}

/// What a client prints of a piece of an event stream: the data that it carries.
pub fn printed_lines(bytes: &[u8]) -> (data: Vec<String>)
    ensures
        contents(data@) == data_of_lines(lines(lossy_text(bytes@))),
        forall|sent: Seq<char>|
            bytes@ == #[trigger] encode_utf8(sent) ==> contents(data@) == data_of_lines(lines(sent)),
{
    proof {
        lemma_utf8_is_read_back(bytes@);
    }
    let chunk = decode_lossy(bytes);
    data_lines(chunk.as_str())
}

/// What is said of a request to the service is what its fields hold.
pub proof fn law_request_view_holds_the_fields(request: ClientRequest)
    ensures
        request@.method == request.method@,
        request@.uri == request.uri@,
        request@.json is Some <==> request.json is Some,
        request.json is Some ==> request@.json->Some_0 == request.json->Some_0@,
{
}

/// A request for a recording sends the context, application and hint each under its name, and a
/// request to stop sends whether the plain text is wanted. Neither sends anything else.
pub proof fn law_requests_send_what_was_asked(context: ContextView, raw: bool)
    ensures
        start_document(context) == JsonView::Object(
            map![
                "context"@ => JsonView::Object(
                    map![
                        "app"@ => JsonView::Text(context.app),
                        "hint"@ => JsonView::Text(context.hint),
                    ],
                ),
            ],
        ),
        stop_document(raw) == JsonView::Object(map!["raw"@ => JsonView::Bool(raw)]),
{
}

/// A line feed ends a line, and so does a carriage return right before it, but nothing else does:
/// an empty text has no lines, a text without line feeds is one line, and a line with its end in
/// front of a text comes before the lines of that text.
pub proof fn law_lines_end_at_line_feeds(line: Seq<char>, rest: Seq<char>)
    requires
        !line.contains('\n'),
    ensures
        lines(Seq::empty()) == Seq::<Seq<char>>::empty(),
        line.len() > 0 ==> lines(line) == seq![line],
        line.len() > 0 && line.last() == '\r' ==> lines(line + seq!['\n'] + rest) == seq![
            line.drop_last(),
        ] + lines(rest),
        line.len() == 0 || line.last() != '\r' ==> lines(line + seq!['\n'] + rest) == seq![line]
            + lines(rest),
{
    let text = line + seq!['\n'] + rest;
    assert forall|i: int| 0 <= i < line.len() implies line[i] != '\n' && text[i] != '\n' by {
        assert(line.contains(line[i]));
    }
    lemma_line_feed(line, line.len() as int);
    lemma_line_feed(text, line.len() as int);
    assert(text.take(line.len() as int) == line);
    assert(text.skip(line.len() as int + 1) == rest);
}

/// A line carries as data what follows `data: ` at its beginning, all of it, and a line that begins
/// otherwise carries none.
pub proof fn law_data_follows_its_prefix(line: Seq<char>, data: Seq<char>)
    ensures
        data_of(line) == Some(data) <==> line == "data: "@ + data,
        data_of(line) is None <==> line.len() < 6 || line.take(6) != seq![
            'd',
            'a',
            't',
            'a',
            ':',
            ' ',
        ],
{
    reveal_strlit("data: ");
    assert("data: "@ == seq!['d', 'a', 't', 'a', ':', ' ']);
    if "data: "@.is_prefix_of(line) {
        assert(line.take(6) == "data: "@);
        assert(line == "data: "@ + line.skip(6));
        assert(("data: "@ + data).skip(6) == data);
    }
    if line == "data: "@ + data {
        assert(line.skip(6) == data);
        assert(line.take(6) == "data: "@);
    }
    if line.len() >= 6 && line.take(6) == "data: "@ {
        assert(line.subrange(0, 6) == "data: "@);
        assert("data: "@.is_prefix_of(line));
    }
}

/// The data of lines is that of each line that carries any, in order, and nothing else.
pub proof fn law_data_of_lines_is_that_of_each(
    a: Seq<Seq<char>>,
    line: Seq<char>,
    b: Seq<Seq<char>>,
)
    ensures
        data_of_lines(Seq::empty()) == Seq::<Seq<char>>::empty(),
        data_of_lines(a + b) == data_of_lines(a) + data_of_lines(b),
        data_of(line) is None ==> data_of_lines(a + seq![line] + b) == data_of_lines(a)
            + data_of_lines(b),
        data_of(line) is Some ==> data_of_lines(a + seq![line] + b) == data_of_lines(a) + seq![
            data_of(line)->Some_0,
        ] + data_of_lines(b),
{
    lemma_data_of_both(a, b);
    lemma_data_of_both(a + seq![line], b);
    assert((a + seq![line]).drop_last() == a);
    if data_of(line) is Some {
        let data = data_of(line)->Some_0;
        assert(data_of_lines(a + seq![line]) == data_of_lines(a) + seq![data]);
    }
}

/// An event as it stands in an event stream: a line with its name, a line with its data and an
/// empty line.
pub open spec fn event_frame(event: ServerEventView) -> Seq<char> {
    "event: "@ + event.event + seq!['\n'] + "data: "@ + event.data + seq!['\n'] + seq!['\n']
}

/// A series of events as they stand in an event stream.
pub open spec fn stream_text(events: Seq<ServerEventView>) -> Seq<char>
    decreases events.len(),
{
    if events.len() == 0 {
        Seq::empty()
    } else {
        stream_text(events.drop_last()) + event_frame(events.last())
    }
}

proof fn lemma_lines_of_first(line: Seq<char>, rest: Seq<char>)
    requires
        single_line(line),
    ensures
        lines(line + seq!['\n'] + rest) == seq![line] + lines(rest),
{
    let text = line + seq!['\n'] + rest;
    assert forall|i: int| 0 <= i < line.len() implies text[i] != '\n' by {
        assert(line.contains(line[i]));
    }
    lemma_line_feed(text, line.len() as int);
    assert(text.take(line.len() as int) == line);
    assert(text.skip(line.len() as int + 1) == rest);
    if line.len() > 0 {
        assert(line.contains(line.last()));
    }
}

proof fn lemma_lines_of_both(a: Seq<char>, b: Seq<char>)
    requires
        a.len() > 0 ==> a.last() == '\n',
    ensures
        lines(a + b) == lines(a) + lines(b),
    decreases a.len(),
{
    if a.len() == 0 {
        assert(a + b == b);
        assert(lines(a) + lines(b) == lines(b));
    } else {
        let end = line_feed(a);
        lemma_line_feed_bounds(a);
        assert(end < a.len()) by {
            if end == a.len() {
                assert(a[a.len() - 1] != '\n');
            }
        }
        lemma_line_feed(a + b, end);
        let rest = a.skip(end + 1);
        assert((a + b).take(end) == a.take(end));
        assert((a + b).skip(end + 1) == rest + b);
        if rest.len() > 0 {
            assert(rest.last() == a.last());
        }
        lemma_lines_of_both(rest, b);
        let first = seq![without_return(a.take(end))];
        assert(first + (lines(rest) + lines(b)) == first + lines(rest) + lines(b));
    }
}

proof fn lemma_data_of_both(a: Seq<Seq<char>>, b: Seq<Seq<char>>)
    ensures
        data_of_lines(a + b) == data_of_lines(a) + data_of_lines(b),
    decreases b.len(),
{
    if b.len() == 0 {
        assert(a + b == a);
        assert(data_of_lines(a) + data_of_lines(b) == data_of_lines(a));
    } else {
        assert((a + b).drop_last() == a + b.drop_last());
        lemma_data_of_both(a, b.drop_last());
        match data_of(b.last()) {
            Some(data) => {
                assert(data_of_lines(a) + data_of_lines(b.drop_last()).push(data) == (data_of_lines(
                    a,
                ) + data_of_lines(b.drop_last())).push(data));
            },
            None => {},
        }
    }
}

proof fn lemma_frame_data(event: ServerEventView)
    requires
        single_line(event.event),
        single_line(event.data),
    ensures
        data_of_lines(lines(event_frame(event))) == seq![event.data],
        event_frame(event).len() > 0,
        event_frame(event).last() == '\n',
{
    reveal_strlit("event: ");
    reveal_strlit("data: ");
    let name_line = "event: "@ + event.event;
    let data_line = "data: "@ + event.data;
    let empty_line = Seq::<char>::empty();
    assert forall|c: char| name_line.contains(c) implies "event: "@.contains(c)
        || event.event.contains(c) by {
        let i = choose|i: int| 0 <= i < name_line.len() && name_line[i] == c;
        if i >= 7 {
            assert(event.event[i - 7] == c);
        } else {
            assert("event: "@[i] == c);
        }
    }
    assert forall|c: char| data_line.contains(c) implies "data: "@.contains(c)
        || event.data.contains(c) by {
        let i = choose|i: int| 0 <= i < data_line.len() && data_line[i] == c;
        if i >= 6 {
            assert(event.data[i - 6] == c);
        } else {
            assert("data: "@[i] == c);
        }
    }
    let tail = data_line + seq!['\n'] + (empty_line + seq!['\n'] + empty_line);
    assert(event_frame(event) == name_line + seq!['\n'] + tail);
    lemma_lines_of_first(name_line, tail);
    lemma_lines_of_first(data_line, empty_line + seq!['\n'] + empty_line);
    lemma_lines_of_first(empty_line, empty_line);
    assert(lines(empty_line) == Seq::<Seq<char>>::empty());
    assert(lines(event_frame(event)) == seq![name_line, data_line, empty_line]);
    assert(data_of(name_line) is None) by {
        if "data: "@.is_prefix_of(name_line) {
            assert(name_line.subrange(0, 6)[0] == 'd');
        }
    }
    assert(data_of(data_line) == Some(event.data)) by {
        assert(data_line.subrange(0, 6) == "data: "@);
        assert(data_line.skip(6) == event.data);
    }
    assert(data_of(empty_line) is None);
    let all = seq![name_line, data_line, empty_line];
    let two = seq![name_line, data_line];
    let one = seq![name_line];
    assert(all.drop_last() == two);
    assert(two.drop_last() == one);
    assert(one.drop_last() == Seq::<Seq<char>>::empty());
    assert(data_of_lines(one.drop_last()) == Seq::<Seq<char>>::empty());
    assert(data_of_lines(one) == Seq::<Seq<char>>::empty());
    assert(data_of_lines(two) == seq![event.data]);
}

/// A client that reads a series of events prints the data of each, in order, and nothing else. A
/// series of events ends with the end of a line.
pub proof fn law_client_prints_the_data_of_events(events: Seq<ServerEventView>)
    requires
        forall|i: int|
            0 <= i < events.len() ==> single_line((#[trigger] events[i]).event) && single_line(
                events[i].data,
            ),
    ensures
        data_of_lines(lines(stream_text(events))) == events.map_values(
            |event: ServerEventView| event.data,
        ),
        events.len() > 0 ==> stream_text(events).len() > 0 && stream_text(events).last() == '\n',
    decreases events.len(),
{
    let data = |event: ServerEventView| event.data;
    if events.len() == 0 {
        assert(events.map_values(data) == Seq::<Seq<char>>::empty());
    } else {
        let earlier = events.drop_last();
        let last = events.last();
        law_client_prints_the_data_of_events(earlier);
        lemma_frame_data(last);
        lemma_lines_of_both(stream_text(earlier), event_frame(last));
        lemma_data_of_both(lines(stream_text(earlier)), lines(event_frame(last)));
        assert(events.map_values(data) == earlier.map_values(data) + seq![last.data]);
    }
}

} // verus!
