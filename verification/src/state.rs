//! The queue of recording requests.
//!
//! Requests are served first come, first served. Only the request at the head of the queue can be
//! recording; the others wait.

use crate::json;
use crate::json::{json_view, JsonView};
use serde_json::Value;
use std::collections::VecDeque;
use vstd::prelude::*;

verus! {

/// Where a request comes from: the focused application and a hint about its input field.
#[derive(Debug, PartialEq, Eq)]
pub struct Context {
    pub app: String,
    pub hint: String,
}

/// The contents of a [`Context`].
pub struct ContextView {
    pub app: Seq<char>,
    pub hint: Seq<char>,
}

impl View for Context {
    type V = ContextView;

    open spec fn view(&self) -> ContextView {
        ContextView { app: self.app@, hint: self.hint@ }
    }
}

impl Clone for Context {
    fn clone(&self) -> (copy: Self)
        ensures
            copy == *self,
    {
        Context { app: self.app.clone(), hint: self.hint.clone() }
    }
}

/// A request in the queue.
#[derive(Debug, PartialEq, Eq)]
pub struct Item {
    pub request_id: String,
    pub context: Context,
    pub recording: bool,
    pub since_ms: u64,
}

/// The contents of an [`Item`].
pub struct ItemView {
    pub request_id: Seq<char>,
    pub context: ContextView,
    pub recording: bool,
    pub since_ms: u64,
}

impl View for Item {
    type V = ItemView;

    open spec fn view(&self) -> ItemView {
        ItemView {
            request_id: self.request_id@,
            context: self.context@,
            recording: self.recording,
            since_ms: self.since_ms,
        }
    }
}

impl Clone for Item {
    fn clone(&self) -> (copy: Self)
        ensures
            copy == *self,
    {
        Item {
            request_id: self.request_id.clone(),
            context: self.context.clone(),
            recording: self.recording,
            since_ms: self.since_ms,
        }
    }
}

/// Why a recording ended.
#[derive(Debug, Clone, Copy, PartialEq, Eq)]
pub enum StopReason {
    ClientStop,
    Timeout,
    Cancel,
}

/// The requests that wait or record, oldest first.
#[derive(Debug, PartialEq, Eq)]
pub struct QueueState {
    pub queue: VecDeque<Item>,
}

/// The contents of each item of a list.
pub open spec fn item_views(items: Seq<Item>) -> Seq<ItemView> {
    items.map_values(|item: Item| item@)
}

impl View for QueueState {
    type V = Seq<ItemView>;

    open spec fn view(&self) -> Seq<ItemView> {
        item_views(self.queue@)
    }
}

impl Clone for QueueState {
    fn clone(&self) -> (copy: Self)
        ensures
            copy@ == self@,
    {
        let queue = self.queue.clone();
        assert(queue@ == self.queue@);
        QueueState { queue }
    }
}

/// The queue after a request joined it at the end, not yet recording.
pub open spec fn enqueued(
    queue: Seq<ItemView>,
    request_id: Seq<char>,
    context: ContextView,
    since_ms: u64,
) -> Seq<ItemView> {
    queue.push(ItemView { request_id, context, recording: false, since_ms })
}

/// The queue after its head, if any, began to record.
pub open spec fn promoted(queue: Seq<ItemView>) -> Seq<ItemView> {
    if queue.len() == 0 {
        queue
    } else {
        queue.update(0, ItemView { recording: true, ..queue[0] })
    }
}

/// The queue after its head, if any, left.
pub open spec fn head_removed(queue: Seq<ItemView>) -> Seq<ItemView> {
    if queue.len() == 0 {
        queue
    } else {
        queue.drop_first()
    }
}

/// What a stop hands out: the head, no longer recording, with the reason of the stop.
pub open spec fn stopped_head(queue: Seq<ItemView>, reason: StopReason) -> Option<StoppedItemView> {
    if queue.len() == 0 {
        None
    } else {
        Some(StoppedItemView { item: ItemView { recording: false, ..queue[0] }, reason })
    }
}

/// The request that is recording: the head's, if the head records.
pub open spec fn active_request(queue: Seq<ItemView>) -> Option<Seq<char>> {
    if queue.len() > 0 && queue[0].recording {
        Some(queue[0].request_id)
    } else {
        None
    }
}

/// Whether no request behind the head is recording.
pub open spec fn only_head_records(queue: Seq<ItemView>) -> bool {
    forall|i: int| 1 <= i < queue.len() ==> !(#[trigger] queue[i]).recording
}

impl Default for QueueState {
    fn default() -> (state: Self)
        ensures
            state@ == Seq::<ItemView>::empty(),
    {
        QueueState { queue: VecDeque::new() }
    }
}

impl QueueState {
    /// The number of requests in the queue.
    pub fn len(&self) -> (len: usize)
        ensures
            len == self@.len(),
    {
        self.queue.len()
    }

    /// Whether no request is in the queue.
    pub fn is_empty(&self) -> (empty: bool)
        ensures
            empty == (self@.len() == 0),
    {
        self.queue.len() == 0
    }

    /// Adds a request at the end of the queue and returns its position.
    ///
    /// The request's identifier is what the argument's conversion into a `String` gives.
    pub fn enqueue<R: Into<String>>(
        &mut self,
        request_id: R,
        context: Context,
        since_ms: u64,
    ) -> (position: usize)
        ensures
            position == old(self)@.len(),
            final(self).queue@.len() == old(self)@.len() + 1,
            call_ensures(R::into, (request_id,), final(self).queue@.last().request_id),
            final(self)@ == enqueued(
                old(self)@,
                final(self).queue@.last().request_id@,
                context@,
                since_ms,
            ),
            forall|i: int|
                0 <= i < old(self)@.len() ==> #[trigger] final(self)@[i] == old(self)@[i],
            final(self)@.last().context == context@,
            final(self)@.last().since_ms == since_ms,
            !final(self)@.last().recording,
    {
        let item = Item { request_id: request_id.into(), context, recording: false, since_ms };
        self.queue.push_back(item);
        assert(self@ == item_views(old(self).queue@).push(item@));
        self.queue.len() - 1
    }

    /// Marks the head item as recording, if there is one, and returns it.
    pub fn promote(&mut self) -> (head: Option<&Item>)
        ensures
            final(self)@ == promoted(old(self)@),
            final(self)@.len() == old(self)@.len(),
            old(self)@.len() > 0 ==> final(self)@[0] == (ItemView {
                recording: true,
                ..old(self)@[0]
            }),
            forall|i: int|
                1 <= i < old(self)@.len() ==> #[trigger] final(self)@[i] == old(self)@[i],
            match head {
                Some(item) => old(self)@.len() > 0 && item@ == final(self)@[0],
                None => old(self)@.len() == 0,
            },
    {
        if let Some(mut front) = self.queue.pop_front() {
            front.recording = true;
            self.queue.push_front(front);
            assert(self@ == promoted(old(self)@));
            return Some(&self.queue[0]);
        }
        None
    }

    /// Removes and returns the item at the front of the queue, whether it was promoted or not.
    pub fn stop_active(&mut self, reason: StopReason) -> (stopped: Option<StoppedItem>)
        ensures
            final(self)@ == head_removed(old(self)@),
            match stopped {
                Some(stopped) => stopped_head(old(self)@, reason) == Some(stopped@),
                None => old(self)@.len() == 0,
            },
            match stopped {
                Some(stopped) => {
                    &&& old(self)@ == seq![
                        ItemView { recording: old(self)@[0].recording, ..stopped@.item },
                    ] + final(self)@
                    &&& !stopped@.item.recording
                    &&& stopped@.reason == reason
                },
                None => final(self)@ == old(self)@,
            },
    {
        if let Some(mut front) = self.queue.pop_front() {
            front.recording = false;
            assert(self@ == head_removed(old(self)@));
            Some(StoppedItem { item: front, reason })
        } else {
            None
        }
    }

    /// The state of the queue as clients see it.
    pub fn snapshot(&self) -> (snapshot: StatusSnapshot)
        ensures
            snapshot@ == status(self@),
            snapshot.ok,
            snapshot.queue@.len() == self@.len(),
            forall|i: int| 0 <= i < self@.len() ==> (#[trigger] snapshot.queue@[i])@ == self@[i],
            match snapshot.active_request_id {
                Some(id) => self@.len() > 0 && self@[0].recording && id@ == self@[0].request_id,
                None => self@.len() == 0 || !self@[0].recording,
            },
    {
        let active_request_id = if self.queue.len() > 0 && self.queue[0].recording {
            Some(self.queue[0].request_id.clone())
        } else {
            None
        };
        let queue = item_list(&self.queue);
        StatusSnapshot { ok: true, active_request_id, queue }
    }
}

/// Copies the items of a queue into a list.
fn item_list(queue: &VecDeque<Item>) -> (items: Vec<Item>)
    ensures
        items@ == queue@,
{
    let mut items: Vec<Item> = Vec::new();
    let mut i: usize = 0;
    while i < queue.len()
        invariant
            i <= queue.len(),
            items@ == queue@.take(i as int),
        decreases queue.len() - i,
    {
        items.push(queue[i].clone());
        i = i + 1;
    }
    assert(items@ == queue@);
    items
}

/// A request that left the queue, and why.
#[derive(Debug, PartialEq, Eq)]
pub struct StoppedItem {
    pub item: Item,
    pub reason: StopReason,
}

/// The contents of a [`StoppedItem`].
pub struct StoppedItemView {
    pub item: ItemView,
    pub reason: StopReason,
}

impl View for StoppedItem {
    type V = StoppedItemView;

    open spec fn view(&self) -> StoppedItemView {
        StoppedItemView { item: self.item@, reason: self.reason }
    }
}

impl Clone for StoppedItem {
    fn clone(&self) -> (copy: Self)
        ensures
            copy == *self,
    {
        StoppedItem { item: self.item.clone(), reason: self.reason }
    }
}

/// The answer to a status request.
#[derive(Debug, PartialEq, Eq)]
pub struct StatusSnapshot {
    pub ok: bool,
    pub active_request_id: Option<String>,
    pub queue: Vec<Item>,
}

/// The contents of a [`StatusSnapshot`].
pub struct StatusSnapshotView {
    pub ok: bool,
    pub active_request_id: Option<Seq<char>>,
    pub queue: Seq<ItemView>,
}

impl View for StatusSnapshot {
    type V = StatusSnapshotView;

    open spec fn view(&self) -> StatusSnapshotView {
        StatusSnapshotView {
            ok: self.ok,
            active_request_id: match self.active_request_id {
                Some(id) => Some(id@),
                None => None,
            },
            queue: item_views(self.queue@),
        }
    }
}

impl Clone for StatusSnapshot {
    fn clone(&self) -> (copy: Self)
        ensures
            copy@ == self@,
    {
        let active_request_id = match &self.active_request_id {
            Some(id) => Some(id.clone()),
            None => None,
        };
        let queue = self.queue.clone();
        assert(queue@ == self.queue@);
        StatusSnapshot { ok: self.ok, active_request_id, queue }
    }
}

/// The snapshot of a queue.
pub open spec fn status(queue: Seq<ItemView>) -> StatusSnapshotView {
    StatusSnapshotView { ok: true, active_request_id: active_request(queue), queue }
}

/// A finished transcription.
#[derive(Debug)]
pub struct Transcript {
    pub text: String,
    pub decode_ms: u64,
    pub lang: String,
}

/// The contents of a [`Transcript`].
pub struct TranscriptView {
    pub text: Seq<char>,
    pub decode_ms: u64,
    pub lang: Seq<char>,
}

impl View for Transcript {
    type V = TranscriptView;

    open spec fn view(&self) -> TranscriptView {
        TranscriptView { text: self.text@, decode_ms: self.decode_ms, lang: self.lang@ }
    }
}

impl Clone for Transcript {
    fn clone(&self) -> (copy: Self)
        ensures
            copy == *self,
    {
        Transcript { text: self.text.clone(), decode_ms: self.decode_ms, lang: self.lang.clone() }
    }
}

/// The JSON document of a context.
pub open spec fn context_document(context: ContextView) -> JsonView {
    JsonView::Object(
        map!["app"@ => JsonView::Text(context.app), "hint"@ => JsonView::Text(context.hint)],
    )
}

/// The JSON document of an item.
pub open spec fn item_document(item: ItemView) -> JsonView {
    JsonView::Object(
        map![
            "request_id"@ => JsonView::Text(item.request_id),
            "context"@ => context_document(item.context),
            "recording"@ => JsonView::Bool(item.recording),
            "since_ms"@ => JsonView::Number(item.since_ms),
        ],
    )
}

/// The JSON document of a list of items.
pub open spec fn items_document(items: Seq<ItemView>) -> JsonView {
    JsonView::Array(items.map_values(|item: ItemView| item_document(item)))
}

/// The JSON document of a queue.
pub open spec fn queue_document(queue: Seq<ItemView>) -> JsonView {
    JsonView::Object(map!["queue"@ => items_document(queue)])
}

/// How a stop reason is written.
pub open spec fn reason_name(reason: StopReason) -> Seq<char> {
    match reason {
        StopReason::ClientStop => "client-stop"@,
        StopReason::Timeout => "timeout"@,
        StopReason::Cancel => "cancel"@,
    }
}

/// The JSON document of a request that left the queue.
pub open spec fn stopped_item_document(stopped: StoppedItemView) -> JsonView {
    JsonView::Object(
        map![
            "item"@ => item_document(stopped.item),
            "reason"@ => JsonView::Text(reason_name(stopped.reason)),
        ],
    )
}

/// The JSON document of a status snapshot.
pub open spec fn status_document(snapshot: StatusSnapshotView) -> JsonView {
    JsonView::Object(
        map![
            "ok"@ => JsonView::Bool(snapshot.ok),
            "active_request_id"@ => match snapshot.active_request_id {
                Some(id) => JsonView::Text(id),
                None => JsonView::Null,
            },
            "queue"@ => items_document(snapshot.queue),
        ],
    )
}

impl Context {
    /// The context as a JSON document.
    pub fn to_json(&self) -> (document: Value)
        ensures
            json_view(document) == context_document(self@),
    {
        let mut document = json::object();
        json::set_field(&mut document, "app", json::text(self.app.as_str()));
        json::set_field(&mut document, "hint", json::text(self.hint.as_str()));
        document
    }
}

impl Item {
    /// The item as a JSON document.
    pub fn to_json(&self) -> (document: Value)
        ensures
            json_view(document) == item_document(self@),
    {
        let mut document = json::object();
        json::set_field(&mut document, "request_id", json::text(self.request_id.as_str()));
        json::set_field(&mut document, "context", self.context.to_json());
        json::set_field(&mut document, "recording", json::boolean(self.recording));
        json::set_field(&mut document, "since_ms", json::number(self.since_ms));
        document
    }
}

/// A list of items as a JSON document.
fn items_to_json(items: &Vec<Item>) -> (document: Value)
    ensures
        json_view(document) == items_document(item_views(items@)),
{
    let mut elements: Vec<Value> = Vec::new();
    let mut i: usize = 0;
    while i < items.len()
        invariant
            i <= items.len(),
            elements.len() == i,
            forall|j: int|
                0 <= j < i ==> json_view(#[trigger] elements[j]) == item_document(items[j]@),
        decreases items.len() - i,
    {
        elements.push(items[i].to_json());
        i = i + 1;
    }
    assert(elements@.map_values(|element: Value| json_view(element)) == item_views(
        items@,
    ).map_values(|item: ItemView| item_document(item)));
    json::array(elements)
}

impl QueueState {
    /// The queue as a JSON document.
    pub fn to_json(&self) -> (document: Value)
        ensures
            json_view(document) == queue_document(self@),
    {
        let mut document = json::object();
        json::set_field(&mut document, "queue", items_to_json(&item_list(&self.queue)));
        document
    }
}

impl StopReason {
    /// The reason as a JSON document.
    pub fn to_json(&self) -> (document: Value)
        ensures
            json_view(document) == JsonView::Text(reason_name(*self)),
    {
        match self {
            StopReason::ClientStop => json::text("client-stop"),
            StopReason::Timeout => json::text("timeout"),
            StopReason::Cancel => json::text("cancel"),
        }
    }
}

impl StoppedItem {
    /// The request and the reason as a JSON document.
    pub fn to_json(&self) -> (document: Value)
        ensures
            json_view(document) == stopped_item_document(self@),
    {
        let mut document = json::object();
        json::set_field(&mut document, "item", self.item.to_json());
        json::set_field(&mut document, "reason", self.reason.to_json());
        document
    }
}

impl StatusSnapshot {
    /// The snapshot as a JSON document.
    pub fn to_json(&self) -> (document: Value)
        ensures
            json_view(document) == status_document(self@),
    {
        let active = match &self.active_request_id {
            Some(id) => json::text(id.as_str()),
            None => json::null(),
        };
        let mut document = json::object();
        json::set_field(&mut document, "ok", json::boolean(self.ok));
        json::set_field(&mut document, "active_request_id", active);
        json::set_field(&mut document, "queue", items_to_json(&self.queue));
        document
    }
}

/// What is said of a context, an item or a stopped item is what its fields hold.
pub proof fn law_views_hold_the_fields(context: Context, item: Item, stopped: StoppedItem)
    ensures
        context@.app == context.app@,
        context@.hint == context.hint@,
        item@.request_id == item.request_id@,
        item@.context == item.context@,
        item@.recording == item.recording,
        item@.since_ms == item.since_ms,
        stopped@.item == stopped.item@,
        stopped@.reason == stopped.reason,
{
}

/// What is said of a queue or a snapshot is what each of its items holds, in order.
pub proof fn law_views_hold_each_item(state: QueueState, snapshot: StatusSnapshot)
    ensures
        state@.len() == state.queue@.len(),
        forall|i: int| 0 <= i < state.queue@.len() ==> #[trigger] state@[i] == state.queue@[i]@,
        snapshot@.ok == snapshot.ok,
        snapshot@.active_request_id is Some <==> snapshot.active_request_id is Some,
        snapshot.active_request_id is Some ==> snapshot@.active_request_id->Some_0
            == snapshot.active_request_id->Some_0@,
        snapshot@.queue.len() == snapshot.queue@.len(),
        forall|i: int|
            0 <= i < snapshot.queue@.len() ==> #[trigger] snapshot@.queue[i] == snapshot.queue@[i]@,
{
}

/// What is said of a transcript is what its fields hold.
pub proof fn law_transcript_view_holds_the_fields(transcript: Transcript)
    ensures
        transcript@.text == transcript.text@,
        transcript@.decode_ms == transcript.decode_ms,
        transcript@.lang == transcript.lang@,
{
}

/// A request joins the queue at its end as it was handed in, not recording, and the requests before
/// it stay as they are.
pub proof fn law_request_joins_at_the_end(
    queue: Seq<ItemView>,
    request_id: Seq<char>,
    context: ContextView,
    since_ms: u64,
)
    ensures
        ({
            let after = enqueued(queue, request_id, context, since_ms);
            &&& after.len() == queue.len() + 1
            &&& forall|i: int| 0 <= i < queue.len() ==> #[trigger] after[i] == queue[i]
            &&& after.last().request_id == request_id
            &&& after.last().context.app == context.app
            &&& after.last().context.hint == context.hint
            &&& after.last().since_ms == since_ms
            &&& !after.last().recording
        }),
{
}

/// A promotion makes the head record, and changes nothing else of any request.
pub proof fn law_promotion_changes_only_the_head(queue: Seq<ItemView>)
    ensures
        promoted(queue).len() == queue.len(),
        forall|i: int|
            0 <= i < queue.len() ==> {
                &&& (#[trigger] promoted(queue)[i]).request_id == queue[i].request_id
                &&& promoted(queue)[i].context == queue[i].context
                &&& promoted(queue)[i].since_ms == queue[i].since_ms
                &&& promoted(queue)[i].recording <==> i == 0 || queue[i].recording
            },
{
}

/// A stop hands out the head, no longer recording but otherwise as it is, with the reason that it
/// was given, and leaves the others, each one place further up. It hands out nothing just when the
/// queue is empty.
pub proof fn law_stop_hands_out_the_head(queue: Seq<ItemView>, reason: StopReason)
    ensures
        queue.len() == 0 <==> stopped_head(queue, reason) is None,
        queue.len() == 0 ==> head_removed(queue).len() == 0,
        queue.len() > 0 ==> {
            let stopped = stopped_head(queue, reason)->Some_0;
            let after = head_removed(queue);
            &&& stopped.item.request_id == queue[0].request_id
            &&& stopped.item.context == queue[0].context
            &&& stopped.item.since_ms == queue[0].since_ms
            &&& !stopped.item.recording
            &&& stopped.reason == reason
            &&& after.len() == queue.len() - 1
            &&& forall|i: int| 0 <= i < after.len() ==> #[trigger] after[i] == queue[i + 1]
        },
{
}

/// A snapshot lists the queue as it is, request by request, and names as active the request at the
/// head, just when that one records.
pub proof fn law_snapshot_lists_the_queue_as_it_is(queue: Seq<ItemView>)
    ensures
        status(queue).ok,
        status(queue).queue.len() == queue.len(),
        forall|i: int| 0 <= i < queue.len() ==> #[trigger] status(queue).queue[i] == queue[i],
        status(queue).active_request_id is Some <==> queue.len() > 0 && queue[0].recording,
        status(queue).active_request_id is Some ==> status(queue).active_request_id->Some_0
            == queue[0].request_id,
{
}

/// After a request has joined, a snapshot lists what it listed before, and then that request.
pub proof fn law_snapshot_grows_by_what_joins(
    queue: Seq<ItemView>,
    request_id: Seq<char>,
    context: ContextView,
    since_ms: u64,
)
    ensures
        ({
            let before = status(queue).queue;
            let after = status(enqueued(queue, request_id, context, since_ms)).queue;
            &&& after.len() == before.len() + 1
            &&& after.drop_last() == before
            &&& after.last().request_id == request_id
            &&& after.last().context == context
        }),
{
    let after = status(enqueued(queue, request_id, context, since_ms)).queue;
    assert(after.drop_last() == status(queue).queue);
}

/// The document of a context has the application and the hint, each under its name, and nothing
/// else.
pub proof fn law_context_document_holds_the_fields(context: ContextView)
    ensures
        ({
            let document = context_document(context);
            &&& document is Object
            &&& document->Object_0.dom() == set!["app"@, "hint"@]
            &&& document->Object_0["app"@] == JsonView::Text(context.app)
            &&& document->Object_0["hint"@] == JsonView::Text(context.hint)
        }),
{
    reveal_strlit("app");
    reveal_strlit("hint");
    assert("app"@.len() == 3);
    assert("hint"@.len() == 4);
    assert(context_document(context)->Object_0.dom() == set!["app"@, "hint"@]);
}

/// The document of an item has each field of the item under its name, and nothing else.
pub proof fn law_item_document_holds_the_fields(item: ItemView)
    ensures
        ({
            let document = item_document(item);
            &&& document is Object
            &&& document->Object_0.dom() == set![
                "request_id"@,
                "context"@,
                "recording"@,
                "since_ms"@,
            ]
            &&& document->Object_0["request_id"@] == JsonView::Text(item.request_id)
            &&& document->Object_0["context"@]->Object_0["app"@] == JsonView::Text(item.context.app)
            &&& document->Object_0["context"@]->Object_0["hint"@] == JsonView::Text(
                item.context.hint,
            )
            &&& document->Object_0["context"@] == context_document(item.context)
            &&& document->Object_0["recording"@] == JsonView::Bool(item.recording)
            &&& document->Object_0["since_ms"@] == JsonView::Number(item.since_ms)
        }),
{
    reveal_strlit("request_id");
    reveal_strlit("context");
    reveal_strlit("recording");
    reveal_strlit("since_ms");
    assert("request_id"@.len() == 10);
    assert("context"@.len() == 7);
    assert("recording"@.len() == 9);
    assert("since_ms"@.len() == 8);
    law_context_document_holds_the_fields(item.context);
    assert(item_document(item)->Object_0.dom() == set![
        "request_id"@,
        "context"@,
        "recording"@,
        "since_ms"@,
    ]);
}

/// The document of a list has an element for each item, in order.
pub proof fn law_list_document_holds_each_item(items: Seq<ItemView>)
    ensures
        items_document(items) is Array,
        items_document(items)->Array_0.len() == items.len(),
        forall|i: int|
            0 <= i < items.len() ==> #[trigger] items_document(items)->Array_0[i] == item_document(
                items[i],
            ),
        queue_document(items) is Object,
        queue_document(items)->Object_0.dom() == set!["queue"@],
        queue_document(items)->Object_0["queue"@] == items_document(items),
{
    assert(queue_document(items)->Object_0.dom() == set!["queue"@]);
}

/// The document of a snapshot tells whether it is well, which request is active, null if none is,
/// and the queue, each under its name, and nothing else.
pub proof fn law_status_document_holds_the_fields(snapshot: StatusSnapshotView)
    ensures
        ({
            let document = status_document(snapshot);
            &&& document is Object
            &&& document->Object_0.dom() == set!["ok"@, "active_request_id"@, "queue"@]
            &&& document->Object_0["ok"@] == JsonView::Bool(snapshot.ok)
            &&& snapshot.active_request_id is None ==> document->Object_0["active_request_id"@]
                == JsonView::Null
            &&& snapshot.active_request_id is Some ==> document->Object_0["active_request_id"@]
                == JsonView::Text(snapshot.active_request_id->Some_0)
            &&& document->Object_0["queue"@] == items_document(snapshot.queue)
        }),
{
    reveal_strlit("ok");
    reveal_strlit("active_request_id");
    reveal_strlit("queue");
    assert("ok"@.len() == 2);
    assert("active_request_id"@.len() == 17);
    assert("queue"@.len() == 5);
    assert(status_document(snapshot)->Object_0.dom() == set![
        "ok"@,
        "active_request_id"@,
        "queue"@,
    ]);
}

/// The document of a stopped item has the item and the reason, each under its name, and nothing
/// else. The reason is written in lower case, with hyphens between its words.
pub proof fn law_stopped_document_holds_the_fields(stopped: StoppedItemView)
    ensures
        ({
            let document = stopped_item_document(stopped);
            &&& document is Object
            &&& document->Object_0.dom() == set!["item"@, "reason"@]
            &&& document->Object_0["item"@] == item_document(stopped.item)
            &&& document->Object_0["reason"@] == JsonView::Text("client-stop"@) <==> stopped.reason
                == StopReason::ClientStop
            &&& document->Object_0["reason"@] == JsonView::Text("timeout"@) <==> stopped.reason
                == StopReason::Timeout
            &&& document->Object_0["reason"@] == JsonView::Text("cancel"@) <==> stopped.reason
                == StopReason::Cancel
        }),
        reason_name(stopped.reason) == "client-stop"@ <==> stopped.reason == StopReason::ClientStop,
        reason_name(stopped.reason) == "timeout"@ <==> stopped.reason == StopReason::Timeout,
        reason_name(stopped.reason) == "cancel"@ <==> stopped.reason == StopReason::Cancel,
{
    reveal_strlit("item");
    reveal_strlit("reason");
    reveal_strlit("client-stop");
    reveal_strlit("timeout");
    reveal_strlit("cancel");
    assert("item"@.len() == 4);
    assert("reason"@.len() == 6);
    assert("client-stop"@.len() == 11);
    assert("timeout"@.len() == 7);
    assert("cancel"@.len() == 6);
    assert(stopped_item_document(stopped)->Object_0.dom() == set!["item"@, "reason"@]);
}

/// One operation on the queue.
pub enum QueueStep {
    Enqueue { request_id: Seq<char>, context: ContextView, since_ms: u64 },
    Promote,
    Stop,
}

/// The queue after one operation.
pub open spec fn after_step(queue: Seq<ItemView>, step: QueueStep) -> Seq<ItemView> {
    match step {
        QueueStep::Enqueue { request_id, context, since_ms } => enqueued(
            queue,
            request_id,
            context,
            since_ms,
        ),
        QueueStep::Promote => promoted(queue),
        QueueStep::Stop => head_removed(queue),
    }
}

/// The queue after a series of operations.
pub open spec fn after_steps(queue: Seq<ItemView>, steps: Seq<QueueStep>) -> Seq<ItemView>
    decreases steps.len(),
{
    if steps.len() == 0 {
        queue
    } else {
        after_step(after_steps(queue, steps.drop_last()), steps.last())
    }
}

/// The requests that a series of operations adds, in order.
pub open spec fn arrivals(steps: Seq<QueueStep>) -> Seq<ItemView>
    decreases steps.len(),
{
    if steps.len() == 0 {
        Seq::empty()
    } else {
        let earlier = arrivals(steps.drop_last());
        match steps.last() {
            QueueStep::Enqueue { request_id, context, since_ms } => enqueued(
                earlier,
                request_id,
                context,
                since_ms,
            ),
            _ => earlier,
        }
    }
}

/// The requests that a series of operations hands out, in order.
pub open spec fn departures(queue: Seq<ItemView>, steps: Seq<QueueStep>) -> Seq<ItemView>
    decreases steps.len(),
{
    if steps.len() == 0 {
        Seq::empty()
    } else {
        let earlier = departures(queue, steps.drop_last());
        let reached = after_steps(queue, steps.drop_last());
        match (steps.last(), stopped_head(reached, StopReason::ClientStop)) {
            (QueueStep::Stop, Some(stopped)) => earlier.push(stopped.item),
            _ => earlier,
        }
    }
}

/// The requests of a queue, whether they record or not.
pub open spec fn at_rest(queue: Seq<ItemView>) -> Seq<ItemView> {
    queue.map_values(|item: ItemView| ItemView { recording: false, ..item })
}

/// First come, first served: whatever is done to a queue, the requests handed out so far, followed
/// by those still queued, are the requests that were there at first, followed by those that were
/// added, each in its order. None is lost, invented, altered or overtaken.
pub proof fn law_first_come_first_served(queue: Seq<ItemView>, steps: Seq<QueueStep>)
    ensures
        departures(queue, steps) + at_rest(after_steps(queue, steps)) == at_rest(queue) + arrivals(
            steps,
        ),
    decreases steps.len(),
{
    if steps.len() > 0 {
        law_first_come_first_served(queue, steps.drop_last());
        let reached = after_steps(queue, steps.drop_last());
        let gone = departures(queue, steps.drop_last());
        match steps.last() {
            QueueStep::Enqueue { request_id, context, since_ms } => {
                let item = ItemView { request_id, context, recording: false, since_ms };
                assert(at_rest(reached.push(item)) == at_rest(reached).push(item));
                assert(gone + at_rest(reached).push(item) == (gone + at_rest(reached)).push(item));
                assert(at_rest(queue) + arrivals(steps.drop_last()).push(item) == (at_rest(queue)
                    + arrivals(steps.drop_last())).push(item));
            },
            QueueStep::Promote => {
                assert(at_rest(promoted(reached)) == at_rest(reached));
            },
            QueueStep::Stop => {
                if reached.len() > 0 {
                    let head = ItemView { recording: false, ..reached[0] };
                    assert(at_rest(reached) == seq![head] + at_rest(reached.drop_first()));
                    assert(gone + (seq![head] + at_rest(reached.drop_first())) == gone.push(head)
                        + at_rest(reached.drop_first()));
                }
            },
        }
    }
}

/// From a queue in which at most the head records, every series of operations leads to such a
/// queue. The empty queue is one.
pub proof fn law_only_the_head_records(queue: Seq<ItemView>, steps: Seq<QueueStep>)
    requires
        only_head_records(queue),
    ensures
        only_head_records(after_steps(queue, steps)),
        only_head_records(Seq::empty()),
    decreases steps.len(),
{
    if steps.len() > 0 {
        law_only_the_head_records(queue, steps.drop_last());
    }
}

/// After a promotion the head of a non-empty queue is the active request, and promoting again
/// changes nothing.
pub proof fn law_promotion_activates_the_head(queue: Seq<ItemView>)
    ensures
        queue.len() > 0 ==> status(promoted(queue)).active_request_id == Some(queue[0].request_id),
        promoted(promoted(queue)) == promoted(queue),
{
    assert(promoted(promoted(queue)) == promoted(queue));
}

/// After a stop no request is active until the next promotion, which activates the request that
/// was second.
pub proof fn law_stop_leaves_no_active_request(queue: Seq<ItemView>)
    requires
        only_head_records(queue),
    ensures
        status(head_removed(queue)).active_request_id is None,
        queue.len() > 1 ==> status(promoted(head_removed(queue))).active_request_id == Some(
            queue[1].request_id,
        ),
{
}

} // verus!
