//! The request handlers of the recording service, apart from the transport that carries them.
//!
//! A client that starts a recording is told over a stream of events what becomes of its request.
//! [`AppState`] holds the queue of requests and, for each request that waits for its end, a handle
//! of the stream over which the client listens. Each handler says what to answer, and over which
//! stream to announce what; sending is up to the caller.

use crate::json;
use crate::json::{json_text, json_view, JsonView};
use crate::state::{
    context_document, enqueued, head_removed, only_head_records, promoted, status, Context,
    ContextView, ItemView, QueueState, StatusSnapshot, StopReason, Transcript, TranscriptView,
};
use crate::streams::StreamTable;
use crate::text::{decimal, decimal_text, law_decimal_is_injective, single_line};
use serde_json::Value;
use vstd::prelude::*;
use vstd::string::*;

verus! {

/// An event for a client: its name and its data.
#[derive(Debug, PartialEq, Eq)]
pub struct ServerEvent {
    pub event: String,
    pub data: String,
}

/// The contents of a [`ServerEvent`].
pub struct ServerEventView {
    pub event: Seq<char>,
    pub data: Seq<char>,
}

impl View for ServerEvent {
    type V = ServerEventView;

    open spec fn view(&self) -> ServerEventView {
        ServerEventView { event: self.event@, data: self.data@ }
    }
}

/// An answer to a client: status code, content type and body.
#[derive(Debug, PartialEq, Eq)]
pub struct Reply {
    pub status: u16,
    pub content_type: String,
    pub body: String,
}

/// The contents of a [`Reply`].
pub struct ReplyView {
    pub status: u16,
    pub content_type: Seq<char>,
    pub body: Seq<char>,
}

impl View for Reply {
    type V = ReplyView;

    open spec fn view(&self) -> ReplyView {
        ReplyView { status: self.status, content_type: self.content_type@, body: self.body@ }
    }
}

/// How long a decode took.
#[derive(Debug, PartialEq, Eq)]
pub struct Timings {
    pub decode_ms: u64,
}

/// The answer to a stop that ended a recording.
#[derive(Debug, PartialEq, Eq)]
pub struct StopActiveResponse {
    pub ok: bool,
    pub request_id: String,
    pub text: String,
    pub timings: Timings,
}

/// The contents of a [`StopActiveResponse`].
pub struct StopActiveResponseView {
    pub ok: bool,
    pub request_id: Seq<char>,
    pub text: Seq<char>,
    pub decode_ms: u64,
}

impl View for StopActiveResponse {
    type V = StopActiveResponseView;

    open spec fn view(&self) -> StopActiveResponseView {
        StopActiveResponseView {
            ok: self.ok,
            request_id: self.request_id@,
            text: self.text@,
            decode_ms: self.timings.decode_ms,
        }
    }
}

/// The data of the event that tells a client that its request has joined the queue.
pub open spec fn queued_document(request_id: Seq<char>, context: ContextView) -> JsonView {
    JsonView::Object(
        map![
            "request_id"@ => JsonView::Text(request_id),
            "position"@ => JsonView::Number(0),
            "context"@ => context_document(context),
        ],
    )
}

/// The data of the event that tells a client that its recording has begun.
pub open spec fn started_document(request_id: Seq<char>) -> JsonView {
    JsonView::Object(map!["request_id"@ => JsonView::Text(request_id)])
}

/// The data of the event that tells a client that its recording has been stopped.
pub open spec fn stopped_document(request_id: Seq<char>) -> JsonView {
    JsonView::Object(
        map![
            "request_id"@ => JsonView::Text(request_id),
            "reason"@ => JsonView::Text("client_stop"@),
            "captured_ms"@ => JsonView::Number(0),
        ],
    )
}

/// How a transcript's timings are written.
pub open spec fn timings_document(decode_ms: u64) -> JsonView {
    JsonView::Object(map!["decode_ms"@ => JsonView::Number(decode_ms)])
}

/// The data of the event that gives a client its transcript.
pub open spec fn final_document(request_id: Seq<char>, transcript: TranscriptView) -> JsonView {
    JsonView::Object(
        map![
            "request_id"@ => JsonView::Text(request_id),
            "text"@ => JsonView::Text(transcript.text),
            "timings"@ => timings_document(transcript.decode_ms),
            "lang"@ => JsonView::Text(transcript.lang),
        ],
    )
}

/// The answer to a stop when there is nothing to stop.
pub open spec fn refusal_document() -> JsonView {
    JsonView::Object(
        map!["ok"@ => JsonView::Bool(false), "error"@ => JsonView::Text("not-recording"@)],
    )
}

/// The JSON document of the answer to a stop that ended a recording.
pub open spec fn response_document(response: StopActiveResponseView) -> JsonView {
    JsonView::Object(
        map![
            "ok"@ => JsonView::Bool(response.ok),
            "request_id"@ => JsonView::Text(response.request_id),
            "text"@ => JsonView::Text(response.text),
            "timings"@ => timings_document(response.decode_ms),
        ],
    )
}

/// Builds the data of a "queued" event.
pub fn queued_payload(request_id: &str, context: &Context) -> (document: Value)
    ensures
        json_view(document) == queued_document(request_id@, context@),
{
    let mut document = json::object();
    json::set_field(&mut document, "request_id", json::text(request_id));
    json::set_field(&mut document, "position", json::number(0));
    json::set_field(&mut document, "context", context.to_json());
    document
}

/// Builds the data of a "recording_started" event.
pub fn started_payload(request_id: &str) -> (document: Value)
    ensures
        json_view(document) == started_document(request_id@),
{
    let mut document = json::object();
    json::set_field(&mut document, "request_id", json::text(request_id));
    document
}

/// Builds the data of a "recording_stopped" event.
pub fn stopped_payload(request_id: &str) -> (document: Value)
    ensures
        json_view(document) == stopped_document(request_id@),
{
    let mut document = json::object();
    json::set_field(&mut document, "request_id", json::text(request_id));
    json::set_field(&mut document, "reason", json::text("client_stop"));
    json::set_field(&mut document, "captured_ms", json::number(0));
    document
}

fn timings_payload(decode_ms: u64) -> (document: Value)
    ensures
        json_view(document) == timings_document(decode_ms),
{
    let mut document = json::object();
    json::set_field(&mut document, "decode_ms", json::number(decode_ms));
    document
}

/// Builds the data of a "final" event.
pub fn final_payload(request_id: &str, transcript: &Transcript) -> (document: Value)
    ensures
        json_view(document) == final_document(request_id@, transcript@),
{
    let mut document = json::object();
    json::set_field(&mut document, "request_id", json::text(request_id));
    json::set_field(&mut document, "text", json::text(transcript.text.as_str()));
    json::set_field(&mut document, "timings", timings_payload(transcript.decode_ms));
    json::set_field(&mut document, "lang", json::text(transcript.lang.as_str()));
    document
}

/// Builds the answer to a stop when there is nothing to stop.
pub fn refusal_payload() -> (document: Value)
    ensures
        json_view(document) == refusal_document(),
{
    let mut document = json::object();
    json::set_field(&mut document, "ok", json::boolean(false));
    json::set_field(&mut document, "error", json::text("not-recording"));
    document
}

impl StopActiveResponse {
    /// The answer as a JSON document.
    pub fn to_json(&self) -> (document: Value)
        ensures
            json_view(document) == response_document(self@),
    {
        let mut document = json::object();
        json::set_field(&mut document, "ok", json::boolean(self.ok));
        json::set_field(&mut document, "request_id", json::text(self.request_id.as_str()));
        json::set_field(&mut document, "text", json::text(self.text.as_str()));
        json::set_field(&mut document, "timings", timings_payload(self.timings.decode_ms));
        document
    }
}

/// The transcript that every recording ends with.
pub open spec fn mock_transcript_view() -> TranscriptView {
    TranscriptView { text: "MOCK"@, decode_ms: 0, lang: "en"@ }
}

fn mock_transcript() -> (transcript: Transcript)
    ensures
        transcript@ == mock_transcript_view(),
{
    Transcript { text: String::from("MOCK"), decode_ms: 0, lang: String::from("en") }
}

/// The event with a name and a document for data.
pub open spec fn event_of(name: Seq<char>, document: JsonView) -> ServerEventView {
    ServerEventView { event: name, data: json_text(document) }
}

/// Makes an event of a name and a document. Its data fits on one line.
pub fn make_event(name: &str, document: &Value) -> (event: ServerEvent)
    ensures
        event@ == event_of(name@, json_view(*document)),
        single_line(event@.data),
{
    ServerEvent { event: String::from(name), data: json::to_text(document) }
}

/// The contents of each event of a list.
pub open spec fn event_views(events: Seq<ServerEvent>) -> Seq<ServerEventView> {
    events.map_values(|event: ServerEvent| event@)
}

/// The events that a client gets when its request is accepted.
pub open spec fn opening_events(request_id: Seq<char>, context: ContextView) -> Seq<ServerEventView> {
    seq![
        event_of("queued"@, queued_document(request_id, context)),
        event_of("recording_started"@, started_document(request_id)),
    ]
}

/// The events that a client gets when its request is stopped.
pub open spec fn closing_events(request_id: Seq<char>) -> Seq<ServerEventView> {
    seq![
        event_of("recording_stopped"@, stopped_document(request_id)),
        event_of("final"@, final_document(request_id, mock_transcript_view())),
    ]
}

/// The answer to a stop, given the queue that it finds and whether the plain text is wanted.
pub open spec fn stop_reply(queue: Seq<ItemView>, raw: bool) -> ReplyView {
    if queue.len() == 0 {
        ReplyView {
            status: 400,
            content_type: "application/json"@,
            body: json_text(refusal_document()),
        }
    } else if raw {
        ReplyView {
            status: 200,
            content_type: "text/plain"@,
            body: mock_transcript_view().text + "\n"@,
        }
    } else {
        ReplyView {
            status: 200,
            content_type: "application/json"@,
            body: json_text(
                response_document(
                    StopActiveResponseView {
                        ok: true,
                        request_id: queue[0].request_id,
                        text: mock_transcript_view().text,
                        decode_ms: mock_transcript_view().decode_ms,
                    },
                ),
            ),
        }
    }
}

/// The identifier of the request with this number.
pub open spec fn request_name(number: u64) -> Seq<char> {
    "rq_"@ + decimal(number as nat)
}

/// The number that follows, starting over after the last.
pub open spec fn next_number(number: u64) -> u64 {
    if number == u64::MAX {
        0
    } else {
        (number + 1) as u64
    }
}

/// The state of the service: the queue, the number of the next request and the open streams.
pub struct AppState<S> {
    queue: QueueState,
    next_id: u64,
    streams: StreamTable<S>,
}

/// The contents of an [`AppState`].
pub struct AppStateView<S> {
    pub queue: Seq<ItemView>,
    pub next_id: u64,
    pub streams: Map<Seq<char>, S>,
}

/// What a client gets whose request was accepted: its identifier and its first events.
#[derive(Debug, PartialEq, Eq)]
pub struct Started {
    pub request_id: String,
    pub events: Vec<ServerEvent>,
}

/// Events to send over a stream, which ends after them.
pub struct Notice<S> {
    pub stream: S,
    pub events: Vec<ServerEvent>,
}

/// What a stop brings about: the answer, and the notice to the client whose request was stopped.
pub struct Stopped<S> {
    pub reply: Reply,
    pub notice: Option<Notice<S>>,
}

/// The service after a client asked for a recording.
pub open spec fn after_start<S>(
    state: AppStateView<S>,
    context: ContextView,
    stream: S,
) -> AppStateView<S> {
    AppStateView {
        queue: promoted(enqueued(state.queue, request_name(state.next_id), context, 0)),
        next_id: next_number(state.next_id),
        streams: state.streams.insert(request_name(state.next_id), stream),
    }
}

/// The service after a client asked for a stop.
pub open spec fn after_stop<S>(state: AppStateView<S>) -> AppStateView<S> {
    if state.queue.len() == 0 {
        state
    } else {
        AppStateView {
            queue: head_removed(state.queue),
            next_id: state.next_id,
            streams: state.streams.remove(state.queue[0].request_id),
        }
    }
}

/// The stream over which a stop announces the end of a request: that of the head of the queue.
pub open spec fn stopped_stream<S>(state: AppStateView<S>) -> Option<S> {
    if state.queue.len() > 0 && state.streams.contains_key(state.queue[0].request_id) {
        Some(state.streams[state.queue[0].request_id])
    } else {
        None
    }
}

impl<S> View for AppState<S> {
    type V = AppStateView<S>;

    closed spec fn view(&self) -> AppStateView<S> {
        AppStateView { queue: self.queue@, next_id: self.next_id, streams: self.streams@ }
    }
}

impl<S> AppState<S> {
    /// The table of streams is in order.
    pub closed spec fn wf(&self) -> bool {
        self.streams.wf()
    }

    /// A service that takes over a queue. No stream is open yet, and the first request gets the
    /// number one.
    pub fn new(queue: QueueState) -> (state: Self)
        ensures
            state.wf(),
            state@ == taken_over::<S>(queue@),
    {
        AppState { queue, next_id: 1, streams: StreamTable::new() }
    }

    /// The queue, for others than clients to act on: to end a recording that takes too long, for
    /// one. The rest of the service stays as it is.
    pub fn queue_mut(&mut self) -> (queue: &mut QueueState)
        requires
            old(self).wf(),
        ensures
            queue@ == old(self)@.queue,
            final(self)@ == (AppStateView { queue: final(queue)@, ..old(self)@ }),
            final(self).wf(),
    {
        &mut self.queue
    }

    /// Answers a status request.
    pub fn get_status(&self) -> (snapshot: StatusSnapshot)
        ensures
            snapshot@ == status(self@.queue),
            snapshot.ok,
            snapshot.queue@.len() == self@.queue.len(),
            forall|i: int|
                0 <= i < self@.queue.len() ==> (#[trigger] snapshot.queue@[i])@ == self@.queue[i],
    {
        self.queue.snapshot()
    }

    /// Answers a request for a recording: gives the request the next identifier, keeps the stream
    /// for later, queues the request and lets the head of the queue record. The client is told the
    /// same wherever in the queue its request is.
    pub fn post_start(&mut self, context: Context, stream: S) -> (started: Started)
        requires
            old(self).wf(),
        ensures
            final(self).wf(),
            final(self)@ == after_start(old(self)@, context@, stream),
            started.request_id@ == request_name(old(self)@.next_id),
            event_views(started.events@) == opening_events(started.request_id@, context@),
            forall|i: int|
                0 <= i < started.events.len() ==> single_line((#[trigger] started.events[i])@.data),
            final(self)@.queue.len() == old(self)@.queue.len() + 1,
            final(self)@.queue.last().request_id == started.request_id@,
            final(self)@.queue.last().context == context@,
            final(self)@.streams == old(self)@.streams.insert(started.request_id@, stream),
            started.request_id@ == "rq_"@ + decimal(old(self)@.next_id as nat),
    {
        let request_id = String::from("rq_").concat(decimal_text(self.next_id).as_str());
        self.next_id = self.next_id.wrapping_add(1);
        let context_for_queue = context.clone();
        self.streams.insert(request_id.clone(), stream);
        let _ = self.queue.enqueue(request_id.clone(), context_for_queue, 0);
        let _ = self.queue.promote();
        let queued = make_event("queued", &queued_payload(request_id.as_str(), &context));
        let recording = make_event("recording_started", &started_payload(request_id.as_str()));
        let mut events: Vec<ServerEvent> = Vec::new();
        events.push(queued);
        events.push(recording);
        assert(event_views(events@) == opening_events(request_id@, context@));
        Started { request_id, events }
    }

    /// Answers a request to stop: ends the request at the head of the queue, if there is one.
    pub fn post_stop_active(&mut self, raw: bool) -> (stopped: Stopped<S>)
        requires
            old(self).wf(),
        ensures
            final(self).wf(),
            final(self)@ == after_stop(old(self)@),
            stopped.reply@ == stop_reply(old(self)@.queue, raw),
            match stopped.notice {
                Some(notice) => {
                    &&& stopped_stream(old(self)@) == Some(notice.stream)
                    &&& event_views(notice.events@) == closing_events(
                        old(self)@.queue[0].request_id,
                    )
                    &&& forall|i: int|
                        0 <= i < notice.events.len() ==> single_line(
                            (#[trigger] notice.events[i])@.data,
                        )
                },
                None => stopped_stream(old(self)@) is None,
            },
            stopped.reply.status == (if old(self)@.queue.len() > 0 {
                200u16
            } else {
                400u16
            }),
            old(self)@.queue.len() > 0 && !raw ==> stopped.reply.body@ == json_text(
                JsonView::Object(
                    map![
                        "ok"@ => JsonView::Bool(true),
                        "request_id"@ => JsonView::Text(old(self)@.queue[0].request_id),
                        "text"@ => JsonView::Text("MOCK"@),
                        "timings"@ => JsonView::Object(map!["decode_ms"@ => JsonView::Number(0)]),
                    ],
                ),
            ),
            old(self)@.queue.len() > 0 && raw ==> stopped.reply.body@ == "MOCK"@ + "\n"@,
            old(self)@.queue.len() > 0 ==> final(self)@.queue == old(self)@.queue.skip(1),
    {
        let removed = match self.queue.stop_active(StopReason::ClientStop) {
            Some(removed) => removed,
            None => {
                let reply = Reply {
                    status: 400,
                    content_type: String::from("application/json"),
                    body: json::to_text(&refusal_payload()),
                };
                return Stopped { reply, notice: None };
            },
        };
        let request_id = removed.item.request_id;
        let transcript = mock_transcript();
        let notice = match self.streams.remove(&request_id) {
            Some(stream) => {
                let ended = make_event(
                    "recording_stopped",
                    &stopped_payload(request_id.as_str()),
                );
                let result = make_event(
                    "final",
                    &final_payload(request_id.as_str(), &transcript),
                );
                let mut events: Vec<ServerEvent> = Vec::new();
                events.push(ended);
                events.push(result);
                assert(event_views(events@) == closing_events(request_id@));
                Some(Notice { stream, events })
            },
            None => None,
        };
        let response = StopActiveResponse {
            ok: true,
            request_id,
            text: transcript.text,
            timings: Timings { decode_ms: transcript.decode_ms },
        };
        let reply = if raw {
            Reply {
                status: 200,
                content_type: String::from("text/plain"),
                body: response.text.concat("\n"),
            }
        } else {
            Reply {
                status: 200,
                content_type: String::from("application/json"),
                body: json::to_text(&response.to_json()),
            }
        };
        Stopped { reply, notice }
    }
}

/// What the listening socket reports.
#[derive(Debug, Clone, Copy, PartialEq, Eq)]
pub enum ListenerEvent {
    /// The service was asked to shut down.
    Shutdown,
    /// There will be no more connections.
    Closed,
    /// A connection could not be accepted.
    Failed,
    /// A client connected.
    Connected,
}

/// What to do next on the listening socket.
#[derive(Debug, Clone, Copy, PartialEq, Eq)]
pub enum ListenerAction {
    /// Leave the loop.
    Leave,
    /// Wait for the next event.
    Wait,
    /// Serve the client that connected, and wait for the next event meanwhile.
    Serve,
}

/// Decides how the accept loop goes on: it ends on a shutdown and when the socket is exhausted,
/// passes over connections that failed, and serves the others.
pub fn next_listener_action(event: ListenerEvent) -> (action: ListenerAction)
    ensures
        action == ListenerAction::Leave <==> event == ListenerEvent::Shutdown || event
            == ListenerEvent::Closed,
        action == ListenerAction::Wait <==> event == ListenerEvent::Failed,
        action == ListenerAction::Serve <==> event == ListenerEvent::Connected,
{
    match event {
        ListenerEvent::Shutdown => ListenerAction::Leave,
        ListenerEvent::Closed => ListenerAction::Leave,
        ListenerEvent::Failed => ListenerAction::Wait,
        ListenerEvent::Connected => ListenerAction::Serve,
    }
}

/// One thing that changes the state of the service.
pub enum ServiceStep<S> {
    /// A client asks for a recording.
    Start { context: ContextView, stream: S },
    /// A client asks for a stop.
    Stop,
    /// Somebody else acts on the queue, which becomes this one.
    Queue { queue: Seq<ItemView> },
}

/// Whether only clients act on the service.
pub open spec fn clients_only<S>(steps: Seq<ServiceStep<S>>) -> bool {
    forall|i: int| 0 <= i < steps.len() ==> (#[trigger] steps[i]) !is Queue
}

/// The service after a series of steps.
pub open spec fn after_service_steps<S>(
    state: AppStateView<S>,
    steps: Seq<ServiceStep<S>>,
) -> AppStateView<S>
    decreases steps.len(),
{
    if steps.len() == 0 {
        state
    } else {
        let reached = after_service_steps(state, steps.drop_last());
        match steps.last() {
            ServiceStep::Start { context, stream } => after_start(reached, context, stream),
            ServiceStep::Stop => after_stop(reached),
            ServiceStep::Queue { queue } => AppStateView { queue, ..reached },
        }
    }
}

/// A service that has just taken over a queue.
pub open spec fn taken_over<S>(queue: Seq<ItemView>) -> AppStateView<S> {
    AppStateView { queue, next_id: 1, streams: Map::empty() }
}

/// A service that has just begun with an empty queue.
pub open spec fn fresh<S>() -> AppStateView<S> {
    taken_over(Seq::empty())
}

/// The queued requests have consecutive numbers, up to the last one given, and the open streams are
/// theirs.
pub open spec fn consistent<S>(state: AppStateView<S>) -> bool {
    &&& state.queue.len() < state.next_id
    &&& forall|i: int|
        0 <= i < state.queue.len() ==> (#[trigger] state.queue[i]).request_id == request_name(
            (state.next_id - state.queue.len() + i) as u64,
        )
    &&& forall|id: Seq<char>| #[trigger]
        state.streams.contains_key(id) <==> exists|i: int|
            0 <= i < state.queue.len() && (#[trigger] state.queue[i]).request_id == id
}

/// Requests with different numbers have different identifiers.
pub proof fn law_request_ids_are_distinct(a: u64, b: u64)
    requires
        a != b,
    ensures
        request_name(a) != request_name(b),
{
    if request_name(a) == request_name(b) {
        let prefix = "rq_"@.len() as int;
        assert(request_name(a).skip(prefix) == decimal(a as nat));
        assert(request_name(b).skip(prefix) == decimal(b as nat));
        law_decimal_is_injective(a as nat, b as nat);
    }
}

proof fn lemma_start_keeps_consistency<S>(
    state: AppStateView<S>,
    context: ContextView,
    stream: S,
)
    requires
        consistent(state),
        state.next_id < u64::MAX,
    ensures
        consistent(after_start(state, context, stream)),
{
    let after = after_start(state, context, stream);
    let n = state.queue.len() as int;
    let id = request_name(state.next_id);
    assert forall|i: int| 0 <= i < after.queue.len() implies (
    #[trigger] after.queue[i]).request_id == request_name(
        (after.next_id - after.queue.len() + i) as u64,
    ) by {
        if i < n {
            assert(after.queue[i].request_id == state.queue[i].request_id);
        }
    }
    assert forall|k: Seq<char>| #[trigger]
        after.streams.contains_key(k) <==> exists|i: int|
            0 <= i < after.queue.len() && (#[trigger] after.queue[i]).request_id == k by {
        if after.streams.contains_key(k) {
            if k == id {
                assert(after.queue[n].request_id == k);
            } else {
                assert(state.streams.contains_key(k));
                let i = choose|i: int|
                    0 <= i < state.queue.len() && (#[trigger] state.queue[i]).request_id == k;
                assert(after.queue[i].request_id == k);
            }
        }
        if exists|i: int| 0 <= i < after.queue.len() && (#[trigger] after.queue[i]).request_id == k {
            let i = choose|i: int|
                0 <= i < after.queue.len() && (#[trigger] after.queue[i]).request_id == k;
            if i < n {
                assert(state.queue[i].request_id == k);
                assert(state.streams.contains_key(k));
            }
        }
    }
}

proof fn lemma_stop_keeps_consistency<S>(state: AppStateView<S>)
    requires
        consistent(state),
    ensures
        consistent(after_stop(state)),
{
    if state.queue.len() > 0 {
        let after = after_stop(state);
        assert forall|i: int| 0 <= i < after.queue.len() implies (
        #[trigger] after.queue[i]).request_id == request_name(
            (after.next_id - after.queue.len() + i) as u64,
        ) by {
            assert(after.queue[i] == state.queue[i + 1]);
        }
        assert forall|k: Seq<char>| #[trigger]
            after.streams.contains_key(k) <==> exists|i: int|
                0 <= i < after.queue.len() && (#[trigger] after.queue[i]).request_id == k by {
            if after.streams.contains_key(k) {
                assert(state.streams.contains_key(k));
                let i = choose|i: int|
                    0 <= i < state.queue.len() && (#[trigger] state.queue[i]).request_id == k;
                assert(after.queue[i - 1].request_id == k);
            }
            if exists|i: int| 0 <= i < after.queue.len() && (#[trigger] after.queue[i]).request_id
                == k {
                let i = choose|i: int|
                    0 <= i < after.queue.len() && (#[trigger] after.queue[i]).request_id == k;
                assert(state.queue[i + 1].request_id == k);
                law_request_ids_are_distinct(
                    (state.next_id - state.queue.len()) as u64,
                    (state.next_id - state.queue.len() + i + 1) as u64,
                );
                assert(state.streams.contains_key(k));
            }
        }
    }
}

/// However many requests a service has had, as long as it has not run out of numbers and only
/// clients act on it, the queued requests have different identifiers, each has its stream open, no
/// other stream is open, and at most the request at the head is recording.
pub proof fn law_each_queued_request_has_its_stream<S>(steps: Seq<ServiceStep<S>>)
    requires
        steps.len() < u64::MAX,
        clients_only(steps),
    ensures
        ({
            let state = after_service_steps(fresh(), steps);
            &&& consistent(state)
            &&& only_head_records(state.queue)
            &&& forall|i: int, j: int|
                0 <= i < j < state.queue.len() ==> (#[trigger] state.queue[i]).request_id != (
                #[trigger] state.queue[j]).request_id
        }),
{
    lemma_requests_keep_consistency(steps);
    lemma_queued_ids_are_distinct(after_service_steps(fresh(), steps));
}

/// The streams that a series of steps opens, in order.
pub open spec fn opened_streams<S>(steps: Seq<ServiceStep<S>>) -> Seq<S>
    decreases steps.len(),
{
    if steps.len() == 0 {
        Seq::empty()
    } else {
        match steps.last() {
            ServiceStep::Start { context, stream } => opened_streams(steps.drop_last()).push(stream),
            _ => opened_streams(steps.drop_last()),
        }
    }
}

/// The streams of the queued requests are the last ones opened, in order.
spec fn streams_in_order<S>(state: AppStateView<S>, opened: Seq<S>) -> bool {
    &&& state.next_id == opened.len() + 1
    &&& forall|i: int|
        0 <= i < state.queue.len() ==> state.streams[(#[trigger] state.queue[i]).request_id]
            == opened[opened.len() - state.queue.len() + i]
}

proof fn lemma_queued_ids_are_distinct<S>(state: AppStateView<S>)
    requires
        consistent(state),
    ensures
        forall|i: int, j: int|
            0 <= i < j < state.queue.len() ==> (#[trigger] state.queue[i]).request_id != (
            #[trigger] state.queue[j]).request_id,
        forall|i: int|
            0 <= i < state.queue.len() ==> (#[trigger] state.queue[i]).request_id != request_name(
                state.next_id,
            ),
{
    let first = state.next_id - state.queue.len();
    assert forall|i: int, j: int| 0 <= i < j < state.queue.len() implies (
    #[trigger] state.queue[i]).request_id != (#[trigger] state.queue[j]).request_id by {
        law_request_ids_are_distinct((first + i) as u64, (first + j) as u64);
    }
    assert forall|i: int| 0 <= i < state.queue.len() implies (
    #[trigger] state.queue[i]).request_id != request_name(state.next_id) by {
        law_request_ids_are_distinct((first + i) as u64, state.next_id);
    }
}

proof fn lemma_clients_only<S>(steps: Seq<ServiceStep<S>>)
    requires
        clients_only(steps),
        steps.len() > 0,
    ensures
        clients_only(steps.drop_last()),
        steps.last() !is Queue,
{
    assert forall|i: int| 0 <= i < steps.drop_last().len() implies (
    #[trigger] steps.drop_last()[i]) !is Queue by {
        assert(steps[i] !is Queue);
    }
}

proof fn lemma_requests_keep_consistency<S>(steps: Seq<ServiceStep<S>>)
    requires
        steps.len() < u64::MAX,
        clients_only(steps),
    ensures
        consistent(after_service_steps(fresh(), steps)),
        only_head_records(after_service_steps(fresh(), steps).queue),
        streams_in_order(after_service_steps(fresh(), steps), opened_streams(steps)),
        opened_streams(steps).len() <= steps.len(),
    decreases steps.len(),
{
    if steps.len() > 0 {
        lemma_clients_only(steps);
        lemma_requests_keep_consistency(steps.drop_last());
        let reached = after_service_steps(fresh(), steps.drop_last());
        let state = after_service_steps(fresh(), steps);
        let opened = opened_streams(steps);
        lemma_queued_ids_are_distinct(reached);
        match steps.last() {
            ServiceStep::Start { context, stream } => {
                lemma_start_keeps_consistency(reached, context, stream);
                assert forall|i: int| 0 <= i < state.queue.len() implies state.streams[(
                #[trigger] state.queue[i]).request_id] == opened[opened.len() - state.queue.len()
                    + i] by {
                    if i < reached.queue.len() {
                        assert(state.queue[i].request_id == reached.queue[i].request_id);
                    }
                }
            },
            ServiceStep::Stop => {
                lemma_stop_keeps_consistency(reached);
                assert forall|i: int| 0 <= i < state.queue.len() implies state.streams[(
                #[trigger] state.queue[i]).request_id] == opened[opened.len() - state.queue.len()
                    + i] by {
                    if reached.queue.len() > 0 {
                        assert(state.queue[i] == reached.queue[i + 1]);
                    }
                }
            },
            ServiceStep::Queue { queue } => {},
        }
    }
}

/// The identifier that a start gets at a point in a series of steps, on a service that took over a
/// queue.
pub open spec fn next_request_name<S>(
    queue: Seq<ItemView>,
    steps: Seq<ServiceStep<S>>,
    at: int,
) -> Seq<char> {
    request_name(after_service_steps(taken_over(queue), steps.take(at)).next_id)
}

/// Requests are numbered from one in the order of their starts: the start that follows a series of
/// steps with `n` starts in it gets the number `n + 1`, whatever queue the service took over and
/// whoever else acted on it.
pub proof fn law_starts_are_numbered_in_order<S>(
    queue: Seq<ItemView>,
    steps: Seq<ServiceStep<S>>,
)
    requires
        steps.len() < u64::MAX,
    ensures
        after_service_steps(taken_over(queue), steps).next_id == opened_streams(steps).len() + 1,
        opened_streams(steps).len() <= steps.len(),
        next_request_name(queue, steps, steps.len() as int) == request_name(
            (opened_streams(steps).len() + 1) as u64,
        ),
    decreases steps.len(),
{
    if steps.len() > 0 {
        law_starts_are_numbered_in_order(queue, steps.drop_last());
    }
    assert(steps.take(steps.len() as int) == steps);
}

proof fn lemma_starts_only_grow<S>(steps: Seq<ServiceStep<S>>, a: int, b: int)
    requires
        0 <= a <= b <= steps.len(),
    ensures
        opened_streams(steps.take(a)).len() <= opened_streams(steps.take(b)).len(),
    decreases b,
{
    if a < b {
        assert(steps.take(b).drop_last() == steps.take(b - 1));
        lemma_starts_only_grow(steps, a, b - 1);
    }
}

/// No identifier returns: two starts in a series of steps get different identifiers, whatever lies
/// between them, whatever queue the service took over and whoever else acted on it.
pub proof fn law_no_identifier_returns<S>(
    queue: Seq<ItemView>,
    steps: Seq<ServiceStep<S>>,
    a: int,
    b: int,
)
    requires
        steps.len() < u64::MAX,
        0 <= a < b < steps.len(),
        steps[a] is Start,
        steps[b] is Start,
    ensures
        next_request_name(queue, steps, a) != next_request_name(queue, steps, b),
{
    law_starts_are_numbered_in_order(queue, steps.take(a));
    law_starts_are_numbered_in_order(queue, steps.take(b));
    assert(steps.take(a + 1).drop_last() == steps.take(a));
    assert(steps.take(a + 1).last() == steps[a]);
    lemma_starts_only_grow(steps, a + 1, b);
    law_request_ids_are_distinct(
        after_service_steps(taken_over(queue), steps.take(a)).next_id,
        after_service_steps(taken_over(queue), steps.take(b)).next_id,
    );
}

/// A stop that finds a request queued always has a client to tell, and tells the clients in the
/// order in which they asked: with `n` requests queued, the client that asked as the `n`-th last.
pub proof fn law_every_stop_is_announced<S>(steps: Seq<ServiceStep<S>>)
    requires
        steps.len() < u64::MAX,
        clients_only(steps),
    ensures
        ({
            let state = after_service_steps(fresh(), steps);
            let opened = opened_streams(steps);
            &&& state.queue.len() <= opened.len()
            &&& state.queue.len() > 0 ==> stopped_stream(state) == Some(
                opened[opened.len() - state.queue.len()],
            )
            &&& state.queue.len() == 0 ==> stopped_stream(state) is None
        }),
{
    lemma_requests_keep_consistency(steps);
    let state = after_service_steps(fresh(), steps);
    if state.queue.len() > 0 {
        assert(state.streams.contains_key(state.queue[0].request_id));
    }
}

/// Whatever queue a service takes over, as long as only clients act on it, a stream is open only
/// for a request that is queued.
pub proof fn law_open_streams_belong_to_queued_requests<S>(
    queue: Seq<ItemView>,
    steps: Seq<ServiceStep<S>>,
)
    requires
        clients_only(steps),
    ensures
        ({
            let state = after_service_steps(taken_over::<S>(queue), steps);
            forall|id: Seq<char>| #[trigger]
                state.streams.contains_key(id) ==> exists|i: int|
                    0 <= i < state.queue.len() && (#[trigger] state.queue[i]).request_id == id
        }),
    decreases steps.len(),
{
    if steps.len() > 0 {
        lemma_clients_only(steps);
        law_open_streams_belong_to_queued_requests(queue, steps.drop_last());
        let before = after_service_steps(taken_over::<S>(queue), steps.drop_last());
        let state = after_service_steps(taken_over::<S>(queue), steps);
        assert forall|id: Seq<char>| #[trigger]
            state.streams.contains_key(id) implies exists|i: int|
            0 <= i < state.queue.len() && (#[trigger] state.queue[i]).request_id == id by {
            match steps.last() {
                ServiceStep::Start { context, stream } => {
                    if id == request_name(before.next_id) {
                        assert(state.queue[before.queue.len() as int].request_id == id);
                    } else {
                        assert(before.streams.contains_key(id));
                        let i = choose|i: int|
                            0 <= i < before.queue.len() && (#[trigger] before.queue[i]).request_id
                                == id;
                        assert(state.queue[i].request_id == id);
                    }
                },
                ServiceStep::Stop => {
                    assert(before.streams.contains_key(id));
                    let i = choose|i: int|
                        0 <= i < before.queue.len() && (#[trigger] before.queue[i]).request_id
                            == id;
                    assert(state.queue[i - 1].request_id == id);
                },
                ServiceStep::Queue { queue } => {},
            }
        }
    }
}

/// What is said of an event, a reply or a response is what its fields hold.
pub proof fn law_reply_views_hold_the_fields(
    event: ServerEvent,
    reply: Reply,
    response: StopActiveResponse,
)
    ensures
        event@.event == event.event@,
        event@.data == event.data@,
        reply@.status == reply.status,
        reply@.content_type == reply.content_type@,
        reply@.body == reply.body@,
        response@.ok == response.ok,
        response@.request_id == response.request_id@,
        response@.text == response.text@,
        response@.decode_ms == response.timings.decode_ms,
{
}

/// What is said of a list of events is what each of them holds, in order.
pub proof fn law_views_hold_each_event(events: Seq<ServerEvent>)
    ensures
        event_views(events).len() == events.len(),
        forall|i: int| 0 <= i < events.len() ==> #[trigger] event_views(events)[i] == events[i]@,
{
}

/// An event carries its name and the text of its document.
pub proof fn law_event_carries_name_and_document(name: Seq<char>, document: JsonView)
    ensures
        event_of(name, document).event == name,
        event_of(name, document).data == json_text(document),
{
}

/// A request's identifier is the numeral of its number behind a fixed prefix.
pub proof fn law_request_name_holds_the_number(number: u64)
    ensures
        request_name(number).take(3) == seq!['r', 'q', '_'],
        request_name(number).skip(3) == decimal(number as nat),
{
    reveal_strlit("rq_");
    assert(request_name(number).take(3) == seq!['r', 'q', '_']);
    assert(request_name(number).skip(3) == decimal(number as nat));
}

/// Numbers follow one another, and after the last that a `u64` holds comes zero.
pub proof fn law_numbers_follow_one_another(number: u64)
    ensures
        next_number(number) == (number + 1) % 0x1_0000_0000_0000_0000,
{
}

/// A service takes a queue over as it is, with no stream open, and numbers its own requests from
/// one.
pub proof fn law_queue_is_taken_over_as_it_is<S>(queue: Seq<ItemView>)
    ensures
        taken_over::<S>(queue).queue == queue,
        taken_over::<S>(queue).next_id == 1,
        forall|id: Seq<char>| !(#[trigger] taken_over::<S>(queue).streams.contains_key(id)),
        status(taken_over::<S>(queue).queue).queue == queue,
{
}

/// A start queues the request behind all others under the next identifier, with exactly the context
/// that the client sent. The other requests keep their identifiers, contexts and times, and only
/// the head begins to record. The stream is open under the request's identifier, and all others
/// are as they were.
pub proof fn law_start_queues_what_the_client_sent<S>(
    state: AppStateView<S>,
    context: ContextView,
    stream: S,
)
    ensures
        ({
            let after = after_start(state, context, stream);
            let id = request_name(state.next_id);
            let n = state.queue.len() as int;
            &&& after.queue.len() == n + 1
            &&& after.queue[n].request_id == id
            &&& after.queue[n].context == context
            &&& after.queue[n].context.app == context.app
            &&& after.queue[n].context.hint == context.hint
            &&& after.queue[n].since_ms == 0
            &&& after.queue[n].recording <==> n == 0
            &&& forall|i: int|
                0 <= i < n ==> {
                    &&& (#[trigger] after.queue[i]).request_id == state.queue[i].request_id
                    &&& after.queue[i].context == state.queue[i].context
                    &&& after.queue[i].since_ms == state.queue[i].since_ms
                    &&& after.queue[i].recording <==> i == 0 || state.queue[i].recording
                }
            &&& after.next_id == (state.next_id + 1) % 0x1_0000_0000_0000_0000
            &&& after.streams.contains_key(id) && after.streams[id] == stream
            &&& forall|other: Seq<char>|
                other != id ==> {
                    &&& #[trigger] after.streams.contains_key(other)
                        <==> state.streams.contains_key(other)
                    &&& state.streams.contains_key(other) ==> after.streams[other]
                        == state.streams[other]
                }
        }),
{
}

/// The status after a start lists what it listed before, apart from the head's recording, and then
/// the request with the client's context.
pub proof fn law_status_shows_what_was_started<S>(
    state: AppStateView<S>,
    context: ContextView,
    stream: S,
)
    ensures
        ({
            let before = status(state.queue).queue;
            let after = status(after_start(state, context, stream).queue).queue;
            &&& after.len() == before.len() + 1
            &&& after.last().context == context
            &&& after.last().request_id == request_name(state.next_id)
            &&& forall|i: int|
                0 <= i < before.len() ==> (#[trigger] after[i]).request_id == before[i].request_id
                    && after[i].context == before[i].context
        }),
{
}

/// A stop ends the request at the head and none other: the others move up as they are, the head's
/// stream is closed and all others are as they were. Numbers go on as they would have.
pub proof fn law_stop_ends_the_head_only<S>(state: AppStateView<S>)
    ensures
        ({
            let after = after_stop(state);
            let id = state.queue[0].request_id;
            &&& after.next_id == state.next_id
            &&& state.queue.len() == 0 ==> after.queue.len() == 0 && after.streams == state.streams
            &&& state.queue.len() > 0 ==> {
                &&& after.queue.len() == state.queue.len() - 1
                &&& forall|i: int|
                    0 <= i < after.queue.len() ==> #[trigger] after.queue[i] == state.queue[i + 1]
                &&& !after.streams.contains_key(id)
                &&& forall|other: Seq<char>|
                    other != id ==> {
                        &&& #[trigger] after.streams.contains_key(other)
                            <==> state.streams.contains_key(other)
                        &&& state.streams.contains_key(other) ==> after.streams[other]
                            == state.streams[other]
                    }
            }
        }),
{
}

/// A stop is announced over the stream of the head's identifier, if that stream is open, and over
/// none otherwise.
pub proof fn law_stop_is_announced_to_the_head<S>(state: AppStateView<S>)
    ensures
        stopped_stream(state) is Some <==> state.queue.len() > 0 && state.streams.contains_key(
            state.queue[0].request_id,
        ),
        stopped_stream(state) is Some ==> stopped_stream(state)->Some_0
            == state.streams[state.queue[0].request_id],
{
}

/// A stop that finds a request, however many wait behind it, succeeds. It is answered with the
/// transcript's text, alone or in a document that reports success, the head's identifier and the
/// timings. Only a stop that finds none is answered with a failure.
pub proof fn law_stop_answers_for_the_head(queue: Seq<ItemView>, raw: bool)
    ensures
        ({
            let reply = stop_reply(queue, raw);
            &&& reply.status == 200 <==> queue.len() > 0
            &&& reply.status == 400 <==> queue.len() == 0
            &&& reply.content_type == (if queue.len() > 0 && raw {
                "text/plain"@
            } else {
                "application/json"@
            })
            &&& queue.len() > 0 && raw ==> reply.body == seq!['M', 'O', 'C', 'K', '\n']
            &&& queue.len() > 0 && !raw ==> reply.body == json_text(
                JsonView::Object(
                    map![
                        "ok"@ => JsonView::Bool(true),
                        "request_id"@ => JsonView::Text(queue[0].request_id),
                        "text"@ => JsonView::Text("MOCK"@),
                        "timings"@ => JsonView::Object(map!["decode_ms"@ => JsonView::Number(0)]),
                    ],
                ),
            )
            &&& queue.len() == 0 ==> reply.body == json_text(
                JsonView::Object(
                    map![
                        "ok"@ => JsonView::Bool(false),
                        "error"@ => JsonView::Text("not-recording"@),
                    ],
                ),
            )
        }),
{
    reveal_strlit("MOCK");
    reveal_strlit("\n");
    assert("MOCK"@.len() == 4);
    assert("\n"@.len() == 1);
    assert("MOCK"@ + "\n"@ == seq!['M', 'O', 'C', 'K', '\n']);
}

/// The answer to a stop depends on the head's identifier alone: neither on the rest of the head nor
/// on what waits behind it.
pub proof fn law_stop_answer_ignores_who_waits(
    head: ItemView,
    other_head: ItemView,
    waiting: Seq<ItemView>,
    others_waiting: Seq<ItemView>,
    raw: bool,
)
    requires
        head.request_id == other_head.request_id,
    ensures
        stop_reply(seq![head] + waiting, raw) == stop_reply(seq![other_head] + others_waiting, raw),
{
}

/// The document of a response has each field of the response under its name, and nothing else.
pub proof fn law_response_document_holds_the_fields(response: StopActiveResponseView)
    ensures
        ({
            let document = response_document(response);
            &&& document is Object
            &&& document->Object_0.dom() == set!["ok"@, "request_id"@, "text"@, "timings"@]
            &&& document->Object_0["ok"@] == JsonView::Bool(response.ok)
            &&& document->Object_0["request_id"@] == JsonView::Text(response.request_id)
            &&& document->Object_0["text"@] == JsonView::Text(response.text)
            &&& document->Object_0["timings"@] == timings_document(response.decode_ms)
            &&& timings_document(response.decode_ms) is Object
            &&& timings_document(response.decode_ms)->Object_0.dom() == set!["decode_ms"@]
            &&& timings_document(response.decode_ms)->Object_0["decode_ms"@] == JsonView::Number(
                response.decode_ms,
            )
        }),
{
    reveal_strlit("ok");
    reveal_strlit("request_id");
    reveal_strlit("text");
    reveal_strlit("timings");
    assert("ok"@.len() == 2);
    assert("request_id"@.len() == 10);
    assert("text"@.len() == 4);
    assert("timings"@.len() == 7);
    assert(response_document(response)->Object_0.dom() == set![
        "ok"@,
        "request_id"@,
        "text"@,
        "timings"@,
    ]);
    assert(timings_document(response.decode_ms)->Object_0.dom() == set!["decode_ms"@]);
}

/// The first two events of a request name the request. The first also tells the client its own
/// context.
pub proof fn law_opening_events_name_the_request(request_id: Seq<char>, context: ContextView)
    ensures
        ({
            let events = opening_events(request_id, context);
            &&& events.len() == 2
            &&& events[0].event == "queued"@
            &&& events[0].data == json_text(queued_document(request_id, context))
            &&& events[1].event == "recording_started"@
            &&& events[1].data == json_text(started_document(request_id))
        }),
        queued_document(request_id, context) == JsonView::Object(
            map![
                "request_id"@ => JsonView::Text(request_id),
                "position"@ => JsonView::Number(0),
                "context"@ => JsonView::Object(
                    map![
                        "app"@ => JsonView::Text(context.app),
                        "hint"@ => JsonView::Text(context.hint),
                    ],
                ),
            ],
        ),
        started_document(request_id) == JsonView::Object(
            map!["request_id"@ => JsonView::Text(request_id)],
        ),
{
}

/// The last two events of a request name the request, why it ended, and its transcript.
pub proof fn law_closing_events_name_the_request(request_id: Seq<char>)
    ensures
        ({
            let events = closing_events(request_id);
            &&& events.len() == 2
            &&& events[0].event == "recording_stopped"@
            &&& events[0].data == json_text(stopped_document(request_id))
            &&& events[1].event == "final"@
            &&& events[1].data == json_text(
                JsonView::Object(
                    map![
                        "request_id"@ => JsonView::Text(request_id),
                        "text"@ => JsonView::Text("MOCK"@),
                        "timings"@ => JsonView::Object(map!["decode_ms"@ => JsonView::Number(0)]),
                        "lang"@ => JsonView::Text("en"@),
                    ],
                ),
            )
        }),
        stopped_document(request_id) == JsonView::Object(
            map![
                "request_id"@ => JsonView::Text(request_id),
                "reason"@ => JsonView::Text("client_stop"@),
                "captured_ms"@ => JsonView::Number(0),
            ],
        ),
{
}

/// The document of the last event has the request's identifier and each field of the transcript
/// under its name, and nothing else.
pub proof fn law_final_document_holds_the_transcript(
    request_id: Seq<char>,
    transcript: TranscriptView,
)
    ensures
        ({
            let document = final_document(request_id, transcript);
            &&& document is Object
            &&& document->Object_0.dom() == set!["request_id"@, "text"@, "timings"@, "lang"@]
            &&& document->Object_0["request_id"@] == JsonView::Text(request_id)
            &&& document->Object_0["text"@] == JsonView::Text(transcript.text)
            &&& document->Object_0["timings"@] == JsonView::Object(
                map!["decode_ms"@ => JsonView::Number(transcript.decode_ms)],
            )
            &&& document->Object_0["lang"@] == JsonView::Text(transcript.lang)
        }),
{
    reveal_strlit("request_id");
    reveal_strlit("text");
    reveal_strlit("timings");
    reveal_strlit("lang");
    assert("request_id"@.len() == 10);
    assert("text"@.len() == 4);
    assert("timings"@.len() == 7);
    assert("lang"@.len() == 4);
    assert("text"@[0] == 't' && "lang"@[0] == 'l');
    assert(final_document(request_id, transcript)->Object_0.dom() == set![
        "request_id"@,
        "text"@,
        "timings"@,
        "lang"@,
    ]);
}

/// When nothing is queued, a stop is refused and changes nothing.
pub proof fn law_refused_stop_changes_nothing<S>(state: AppStateView<S>, raw: bool)
    requires
        state.queue.len() == 0,
    ensures
        after_stop(state) == state,
        stopped_stream(state) is None,
        stop_reply(state.queue, raw) == (ReplyView {
            status: 400,
            content_type: "application/json"@,
            body: json_text(refusal_document()),
        }),
{
}

/// After a start some request is always active: the one at the head of the queue.
pub proof fn law_start_leaves_an_active_request<S>(
    state: AppStateView<S>,
    context: ContextView,
    stream: S,
)
    ensures
        ({
            let after = after_start(state, context, stream);
            &&& after.queue.len() == state.queue.len() + 1
            &&& status(after.queue).active_request_id == Some(after.queue[0].request_id)
            &&& state.queue.len() == 0 ==> after.queue[0].request_id == request_name(state.next_id)
        }),
{
}

/// A recording on an idle service: the stop that follows a start ends that very request. It is
/// answered with the request's identifier, the request's own stream is told of the end under the
/// same identifier, and the service is idle again, without that stream.
pub proof fn law_start_then_stop<S>(state: AppStateView<S>, context: ContextView, stream: S)
    requires
        state.queue.len() == 0,
    ensures
        ({
            let recording = after_start(state, context, stream);
            let id = request_name(state.next_id);
            let idle = after_stop(recording);
            &&& stopped_stream(recording) == Some(stream)
            &&& recording.queue[0].request_id == id
            &&& stop_reply(recording.queue, false).status == 200
            &&& stop_reply(recording.queue, false).body == json_text(
                response_document(
                    StopActiveResponseView {
                        ok: true,
                        request_id: id,
                        text: mock_transcript_view().text,
                        decode_ms: 0,
                    },
                ),
            )
            &&& idle.queue == state.queue
            &&& idle.streams == state.streams.remove(id)
        }),
{
    let recording = after_start(state, context, stream);
    let id = request_name(state.next_id);
    assert(recording.queue.drop_first() == state.queue);
    assert(recording.streams.remove(id) == state.streams.remove(id));
}

} // verus!
