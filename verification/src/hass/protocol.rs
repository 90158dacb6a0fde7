//! Wire messages exchanged with the hub, and their JSON form.
//!
//! Every outbound request travels in an envelope that carries a correlation
//! id; ids are handed out by an [`IdCounter`], one after the other. Inbound
//! frames decode to a [`HassResponse`], whatever id they carry.

use crate::json::parse::{tree_of, MAX_DEPTH};
use crate::json::render::{
    decimal, is_plain, lemma_escaped_plain, lemma_rendered_pair, lemma_rendered_triple, quoted,
    rendered,
};
use crate::json::{lemma_object_view, Json, JsonView, Member};
use crate::text::same_text;
use vstd::prelude::*;

verus! {

/// Why a frame could not be decoded.
#[derive(Debug, Clone, Copy, PartialEq, Eq, Structural)]
pub enum DecodeError {
    /// The frame is no JSON text, or a field that the message needs is
    /// missing or of the wrong kind.
    Malformed,
    /// The frame is well formed but names a message or event kind that this
    /// protocol does not know.
    Unsupported,
}

/// The view of a decoding result: the view of the message, or the error.
pub open spec fn decoded_view<T: View>(r: Result<T, DecodeError>) -> Result<T::V, DecodeError> {
    match r {
        Ok(v) => Ok(v@),
        Err(e) => Err(e),
    }
}

/// Source of correlation ids: each id is handed out once, in rising order.
#[derive(Debug, PartialEq, Eq)]
pub struct IdCounter {
    pub next: i32,
}

impl IdCounter {
    /// A counter whose first id is 1.
    pub fn new() -> (ids: IdCounter)
        ensures
            ids.next == 1,
    {
        IdCounter { next: 1 }
    }

    /// A counter whose first id is `first`.
    pub fn starting_at(first: i32) -> (ids: IdCounter)
        ensures
            ids.next == first,
    {
        IdCounter { next: first }
    }

    /// Hands out the next id and moves on by one, wrapping round at the end
    /// of the 32-bit range.
    pub fn take(&mut self) -> (id: i32)
        ensures
            id == old(self).next,
            final(self).next == id_after(old(self).next),
    {
        let id = self.next;
        self.next = id.wrapping_add(1);
        id
    }
}

/// The id that follows `id`.
pub open spec fn id_after(id: i32) -> i32 {
    if id == i32::MAX {
        i32::MIN
    } else {
        (id + 1) as i32
    }
}

/// The id that is handed out after `n` others, from a counter whose first
/// id is `first`.
pub open spec fn nth_id(first: i32, n: nat) -> i32
    decreases n,
{
    if n == 0 {
        first
    } else {
        id_after(nth_id(first, (n - 1) as nat))
    }
}

/// Short of the end of the 32-bit range, ids are consecutive: the id after
/// `n` others is the first id plus `n`.
pub proof fn lemma_ids_consecutive(first: i32, n: nat)
    requires
        first + n <= i32::MAX,
    ensures
        nth_id(first, n) == first + n,
    decreases n,
{
    if n > 0 {
        lemma_ids_consecutive(first, (n - 1) as nat);
    }
}

/// Short of the end of the 32-bit range, of two ids of one counter the
/// later one is the greater, so that no two are the same.
pub proof fn lemma_ids_increase(first: i32, earlier: nat, later: nat)
    requires
        earlier < later,
        first + later <= i32::MAX,
    ensures
        nth_id(first, earlier) < nth_id(first, later),
{
    lemma_ids_consecutive(first, earlier);
    lemma_ids_consecutive(first, later);
}

/// A request to the hub.
#[derive(Debug, PartialEq, Eq)]
pub enum HassRequest {
    /// Asks the hub to stream events, all of them or those of one type.
    SubscribeEvents { event_type: Option<String> },
    /// Asks the hub for the state of every entity.
    GetStates,
}

/// Mathematical model of a [`HassRequest`].
pub enum RequestView {
    SubscribeEvents { event_type: Option<Seq<char>> },
    GetStates,
}

impl View for HassRequest {
    type V = RequestView;

    open spec fn view(&self) -> RequestView {
        match self {
            HassRequest::SubscribeEvents { event_type: Some(t) } => RequestView::SubscribeEvents {
                event_type: Some(t@),
            },
            HassRequest::SubscribeEvents { event_type: None } => RequestView::SubscribeEvents {
                event_type: None,
            },
            HassRequest::GetStates => RequestView::GetStates,
        }
    }
}

impl Clone for HassRequest {
    fn clone(&self) -> (copy: HassRequest)
        ensures
            copy@ == self@,
    {
        match self {
            HassRequest::SubscribeEvents { event_type: Some(t) } => HassRequest::SubscribeEvents {
                event_type: Some(t.clone()),
            },
            HassRequest::SubscribeEvents { event_type: None } => HassRequest::SubscribeEvents {
                event_type: None,
            },
            HassRequest::GetStates => HassRequest::GetStates,
        }
    }
}

/// An envelope that carries a correlation id beside a message.
#[derive(Debug, Clone, PartialEq, Eq)]
pub struct HassWrapper<T> {
    pub id: i32,
    pub data: T,
}

/// The members that a request contributes to its envelope: its `type`, then
/// its fields. An absent event type contributes nothing.
pub open spec fn request_members(request: RequestView) -> Seq<(Seq<char>, JsonView)> {
    match request {
        RequestView::SubscribeEvents { event_type: Some(t) } => seq![
            ("type"@, JsonView::Str("subscribe_events"@)),
            ("event_type"@, JsonView::Str(t)),
        ],
        RequestView::SubscribeEvents { event_type: None } => seq![
            ("type"@, JsonView::Str("subscribe_events"@)),
        ],
        RequestView::GetStates => seq![("type"@, JsonView::Str("get_states"@))],
    }
}

/// The JSON object of an outbound request: the `id` first, then the members
/// of the request.
pub open spec fn envelope_json(id: i32, request: RequestView) -> JsonView {
    JsonView::Object(seq![("id"@, JsonView::Int(id as i64))] + request_members(request))
}

impl<T> HassWrapper<T> {
    /// Puts `data` in an envelope with the next id of `ids`.
    pub fn new(ids: &mut IdCounter, data: T) -> (wrapper: HassWrapper<T>)
        ensures
            wrapper.id == old(ids).next,
            wrapper.data == data,
            final(ids).next == id_after(old(ids).next),
    {
        let id = ids.take();
        HassWrapper { id, data }
    }
}

impl HassWrapper<HassRequest> {
    /// The JSON object of the request in its envelope.
    pub fn to_json(&self) -> (j: Json)
        ensures
            j@ == envelope_json(self.id, self.data@),
    {
        let mut members: Vec<Member> = Vec::new();
        members.push(Member { key: String::from_str("id"), value: Json::Int(self.id as i64) });
        match &self.data {
            HassRequest::SubscribeEvents { event_type } => {
                members.push(
                    Member {
                        key: String::from_str("type"),
                        value: Json::Str(String::from_str("subscribe_events")),
                    },
                );
                match event_type {
                    Some(t) => {
                        members.push(
                            Member { key: String::from_str("event_type"), value: Json::Str(t.clone()) },
                        );
                    },
                    None => {},
                }
            },
            HassRequest::GetStates => {
                members.push(
                    Member {
                        key: String::from_str("type"),
                        value: Json::Str(String::from_str("get_states")),
                    },
                );
            },
        }
        proof {
            lemma_object_view(members);
            assert(Json::Object(members)@->Object_0 =~= envelope_json(
                self.id,
                self.data@,
            )->Object_0);
        }
        Json::Object(members)
    }

    /// The text frame of the request in its envelope.
    pub fn encode(&self) -> (frame: String)
        ensures
            frame@ == rendered(envelope_json(self.id, self.data@)),
    {
        self.to_json().render()
    }
}

/// The request and id that a JSON value stands for.
///
/// The value must be an object with an integer `id` in the 32-bit range and
/// a string `type`; those are malformed otherwise. A `subscribe_events` may
/// carry an `event_type`, a string or `null`. A `type` that is no request of
/// this protocol is unsupported.
pub open spec fn request_of_json(j: JsonView) -> Result<(i32, RequestView), DecodeError> {
    match (j.member("id"@), j.member("type"@)) {
        (Some(JsonView::Int(n)), Some(JsonView::Str(kind))) => {
            if !(i32::MIN <= n <= i32::MAX) {
                Err(DecodeError::Malformed)
            } else if kind == "subscribe_events"@ {
                match j.member("event_type"@) {
                    None | Some(JsonView::Null) => Ok(
                        (n as i32, RequestView::SubscribeEvents { event_type: None }),
                    ),
                    Some(JsonView::Str(t)) => Ok(
                        (n as i32, RequestView::SubscribeEvents { event_type: Some(t) }),
                    ),
                    _ => Err(DecodeError::Malformed),
                }
            } else if kind == "get_states"@ {
                Ok((n as i32, RequestView::GetStates))
            } else {
                Err(DecodeError::Unsupported)
            }
        },
        _ => Err(DecodeError::Malformed),
    }
}

/// The request and id that a text frame stands for: malformed where the text
/// is no JSON, else what its JSON value stands for.
pub open spec fn request_of_text(text: Seq<char>) -> Result<(i32, RequestView), DecodeError> {
    match tree_of(text, MAX_DEPTH as nat) {
        None => Err(DecodeError::Malformed),
        Some(j) => request_of_json(j),
    }
}

/// The view of a decoded envelope: its id and the view of its request.
pub open spec fn envelope_view(
    r: Result<HassWrapper<HassRequest>, DecodeError>,
) -> Result<(i32, RequestView), DecodeError> {
    match r {
        Ok(w) => Ok((w.id, w.data@)),
        Err(e) => Err(e),
    }
}

impl HassWrapper<HassRequest> {
    /// Reads a request in its envelope from a JSON value.
    pub fn from_json(j: &Json) -> (r: Result<HassWrapper<HassRequest>, DecodeError>)
        ensures
            envelope_view(r) == request_of_json(j@),
    {
        let id: i32 = match j.get("id") {
            Some(Json::Int(n)) => {
                if *n < -2147483648 || *n > 2147483647 {
                    return Err(DecodeError::Malformed);
                }
                *n as i32
            },
            _ => {
                return Err(DecodeError::Malformed);
            },
        };
        let kind: &str = match j.get("type") {
            Some(Json::Str(k)) => k.as_str(),
            _ => {
                return Err(DecodeError::Malformed);
            },
        };
        if same_text(kind, "subscribe_events") {
            match j.get("event_type") {
                None | Some(Json::Null) => Ok(
                    HassWrapper { id, data: HassRequest::SubscribeEvents { event_type: None } },
                ),
                Some(Json::Str(t)) => Ok(
                    HassWrapper {
                        id,
                        data: HassRequest::SubscribeEvents { event_type: Some(t.clone()) },
                    },
                ),
                _ => Err(DecodeError::Malformed),
            }
        } else if same_text(kind, "get_states") {
            Ok(HassWrapper { id, data: HassRequest::GetStates })
        } else {
            Err(DecodeError::Unsupported)
        }
    }

    /// Reads a request in its envelope from a text frame.
    pub fn decode(frame: &str) -> (r: Result<HassWrapper<HassRequest>, DecodeError>)
        ensures
            envelope_view(r) == request_of_text(frame@),
    {
        match Json::parse(frame) {
            None => Err(DecodeError::Malformed),
            Some(j) => HassWrapper::<HassRequest>::from_json(&j),
        }
    }
}

/// The keys of an envelope differ from one another.
pub proof fn lemma_request_keys_differ()
    ensures
        "id"@ != "type"@,
        "id"@ != "event_type"@,
        "type"@ != "event_type"@,
        "subscribe_events"@ != "get_states"@,
{
    reveal_strlit("id");
    reveal_strlit("type");
    reveal_strlit("event_type");
    reveal_strlit("subscribe_events");
    reveal_strlit("get_states");
    assert("id"@.len() == 2);
    assert("type"@.len() == 4);
    assert("event_type"@.len() == 10);
    assert("subscribe_events"@.len() == 16);
    assert("get_states"@.len() == 10);
}

/// Encoding a request and decoding the result gives the request back, and
/// the id it was sent with: what `to_json` writes, `from_json` reads as the
/// same request.
pub proof fn lemma_request_round_trip(id: i32, request: RequestView)
    ensures
        request_of_json(envelope_json(id, request)) == Ok::<(i32, RequestView), DecodeError>(
            (id, request),
        ),
{
    lemma_request_keys_differ();
    let j = envelope_json(id, request);
    let members = j->Object_0;
    reveal_with_fuel(crate::json::lookup, 4);
    assert(members[0] == ("id"@, JsonView::Int(id as i64)));
    assert(j.member("id"@) == Some(JsonView::Int(id as i64)));
    assert(members.skip(1) =~= request_members(request));
    match request {
        RequestView::SubscribeEvents { event_type: Some(t) } => {
            assert(members.skip(1).skip(1) =~= seq![("event_type"@, JsonView::Str(t))]);
            assert(j.member("type"@) == Some(JsonView::Str("subscribe_events"@)));
            assert(j.member("event_type"@) == Some(JsonView::Str(t)));
        },
        RequestView::SubscribeEvents { event_type: None } => {
            assert(members.skip(1).skip(1) =~= Seq::<(Seq<char>, JsonView)>::empty());
            assert(j.member("type"@) == Some(JsonView::Str("subscribe_events"@)));
            assert(j.member("event_type"@) is None);
        },
        RequestView::GetStates => {
            assert(j.member("type"@) == Some(JsonView::Str("get_states"@)));
        },
    }
}

/// An absent optional field is left out of the encoded form, not written as
/// `null`: the object of a subscription without an event type has the
/// members `id` and `type` and no other, and no member of any encoded
/// request is `null`.
pub proof fn lemma_absent_fields_omitted(id: i32, request: RequestView)
    ensures
        envelope_json(id, RequestView::SubscribeEvents { event_type: None }).member("event_type"@)
            is None,
        envelope_json(id, RequestView::SubscribeEvents { event_type: None })->Object_0.len() == 2,
        forall|i: int|
            0 <= i < envelope_json(id, request)->Object_0.len() ==> !(#[trigger] envelope_json(
                id,
                request,
            )->Object_0[i].1 is Null),
{
    lemma_request_round_trip(id, RequestView::SubscribeEvents { event_type: None });
    lemma_request_keys_differ();
    let j = envelope_json(id, RequestView::SubscribeEvents { event_type: None });
    let members = j->Object_0;
    reveal_with_fuel(crate::json::lookup, 4);
    assert(members.skip(1) =~= request_members(RequestView::SubscribeEvents { event_type: None }));
    assert(members.skip(1).skip(1) =~= Seq::<(Seq<char>, JsonView)>::empty());
}

/// An event that the hub streams.
#[derive(Debug, Clone, PartialEq, Eq)]
pub enum HassEvent {
    /// An entity went from one state to another. Both states are JSON values
    /// as the hub sent them; the new one is an object whose `state` member
    /// holds the state proper.
    StateChanged { entity_id: String, old_state: Json, new_state: Json },
}

/// Mathematical model of a [`HassEvent`].
pub enum EventView {
    StateChanged { entity_id: Seq<char>, old_state: JsonView, new_state: JsonView },
}

impl View for HassEvent {
    type V = EventView;

    open spec fn view(&self) -> EventView {
        match self {
            HassEvent::StateChanged { entity_id, old_state, new_state } => EventView::StateChanged {
                entity_id: entity_id@,
                old_state: old_state@,
                new_state: new_state@,
            },
        }
    }
}

/// A message from the hub.
#[derive(Debug, Clone, PartialEq, Eq)]
pub enum HassResponse {
    /// The answer to a request; `success` may be `false`.
    Result { success: bool, result: Json },
    /// An event of a subscription.
    Event { event: HassEvent },
}

/// Mathematical model of a [`HassResponse`].
pub enum ResponseView {
    Result { success: bool, result: JsonView },
    Event { event: EventView },
}

impl View for HassResponse {
    type V = ResponseView;

    open spec fn view(&self) -> ResponseView {
        match self {
            HassResponse::Result { success, result } => ResponseView::Result {
                success: *success,
                result: result@,
            },
            HassResponse::Event { event } => ResponseView::Event { event: event@ },
        }
    }
}

/// The event that a JSON value stands for.
///
/// The value is malformed unless it has a string `event_type`. An event type
/// other than `state_changed` is unsupported. A `state_changed` is malformed
/// unless its `data` holds a string `entity_id`, an `old_state` and a
/// `new_state`.
pub open spec fn event_of_json(e: JsonView) -> Result<EventView, DecodeError> {
    match e.member("event_type"@) {
        Some(JsonView::Str(kind)) => {
            if kind == "state_changed"@ {
                match e.member("data"@) {
                    Some(data) => match (
                        data.member("entity_id"@),
                        data.member("old_state"@),
                        data.member("new_state"@),
                    ) {
                        (Some(JsonView::Str(entity_id)), Some(old_state), Some(new_state)) => Ok(
                            EventView::StateChanged { entity_id, old_state, new_state },
                        ),
                        _ => Err(DecodeError::Malformed),
                    },
                    None => Err(DecodeError::Malformed),
                }
            } else {
                Err(DecodeError::Unsupported)
            }
        },
        _ => Err(DecodeError::Malformed),
    }
}

/// The response that a JSON value stands for.
///
/// The value is malformed unless it has a string `type`. A `result` is
/// malformed unless it has a boolean `success` and a `result`; an `event` is
/// malformed unless it has an `event`, and is then what that event stands
/// for. Any other `type` is unsupported. Other members, the `id` among them,
/// are not looked at.
pub open spec fn response_of_json(j: JsonView) -> Result<ResponseView, DecodeError> {
    match j.member("type"@) {
        Some(JsonView::Str(kind)) => {
            if kind == "result"@ {
                match (j.member("success"@), j.member("result"@)) {
                    (Some(JsonView::Bool(success)), Some(result)) => Ok(
                        ResponseView::Result { success, result },
                    ),
                    _ => Err(DecodeError::Malformed),
                }
            } else if kind == "event"@ {
                match j.member("event"@) {
                    Some(e) => match event_of_json(e) {
                        Ok(event) => Ok(ResponseView::Event { event }),
                        Err(error) => Err(error),
                    },
                    None => Err(DecodeError::Malformed),
                }
            } else {
                Err(DecodeError::Unsupported)
            }
        },
        _ => Err(DecodeError::Malformed),
    }
}

/// The response that a text frame stands for: malformed where the text is no
/// JSON, else what its JSON value stands for.
pub open spec fn response_of_text(text: Seq<char>) -> Result<ResponseView, DecodeError> {
    match tree_of(text, MAX_DEPTH as nat) {
        None => Err(DecodeError::Malformed),
        Some(j) => response_of_json(j),
    }
}

impl HassEvent {
    /// Reads an event from a JSON value.
    pub fn from_json(e: &Json) -> (r: Result<HassEvent, DecodeError>)
        ensures
            decoded_view(r) == event_of_json(e@),
    {
        let kind: &str = match e.get("event_type") {
            Some(Json::Str(k)) => k.as_str(),
            _ => {
                return Err(DecodeError::Malformed);
            },
        };
        if !same_text(kind, "state_changed") {
            return Err(DecodeError::Unsupported);
        }
        let data: &Json = match e.get("data") {
            Some(d) => d,
            None => {
                return Err(DecodeError::Malformed);
            },
        };
        match (data.get("entity_id"), data.get("old_state"), data.get("new_state")) {
            (Some(Json::Str(entity_id)), Some(old_state), Some(new_state)) => Ok(
                HassEvent::StateChanged {
                    entity_id: entity_id.clone(),
                    old_state: old_state.clone(),
                    new_state: new_state.clone(),
                },
            ),
            _ => Err(DecodeError::Malformed),
        }
    }
}

impl HassResponse {
    /// Reads a response from a JSON value.
    pub fn from_json(j: &Json) -> (r: Result<HassResponse, DecodeError>)
        ensures
            decoded_view(r) == response_of_json(j@),
    {
        let kind: &str = match j.get("type") {
            Some(Json::Str(k)) => k.as_str(),
            _ => {
                return Err(DecodeError::Malformed);
            },
        };
        if same_text(kind, "result") {
            match (j.get("success"), j.get("result")) {
                (Some(Json::Bool(success)), Some(result)) => Ok(
                    HassResponse::Result { success: *success, result: result.clone() },
                ),
                _ => Err(DecodeError::Malformed),
            }
        } else if same_text(kind, "event") {
            match j.get("event") {
                Some(e) => match HassEvent::from_json(e) {
                    Ok(event) => Ok(HassResponse::Event { event }),
                    Err(error) => Err(error),
                },
                None => Err(DecodeError::Malformed),
            }
        } else {
            Err(DecodeError::Unsupported)
        }
    }

    /// Reads a response from a text frame.
    pub fn decode(frame: &str) -> (r: Result<HassResponse, DecodeError>)
        ensures
            decoded_view(r) == response_of_text(frame@),
    {
        match Json::parse(frame) {
            None => Err(DecodeError::Malformed),
            Some(j) => HassResponse::from_json(&j),
        }
    }
}

/// Decoding does not look at the envelope id: a response object with an `id`
/// member in front, whatever it holds, stands for the same response as the
/// object without it.
pub proof fn lemma_response_ignores_id(members: Seq<(Seq<char>, JsonView)>, id: JsonView)
    ensures
        response_of_json(JsonView::Object(seq![("id"@, id)] + members)) == response_of_json(
            JsonView::Object(members),
        ),
{
    reveal_strlit("id");
    reveal_strlit("type");
    reveal_strlit("success");
    reveal_strlit("result");
    reveal_strlit("event");
    assert("id"@.len() == 2);
    assert("type"@.len() == 4);
    assert("success"@.len() == 7);
    assert("result"@.len() == 6);
    assert("event"@.len() == 5);
    let with_id = seq![("id"@, id)] + members;
    assert(with_id.skip(1) =~= members);
    assert(with_id[0].0 == "id"@);
}

/// The names of the protocol are written on the wire as they are, between
/// quotation marks.
pub proof fn lemma_request_names_quoted()
    ensures
        quoted("id"@) == "\"id\""@,
        quoted("type"@) == "\"type\""@,
        quoted("event_type"@) == "\"event_type\""@,
        quoted("subscribe_events"@) == "\"subscribe_events\""@,
        quoted("get_states"@) == "\"get_states\""@,
{
    reveal_strlit("id");
    reveal_strlit("type");
    reveal_strlit("event_type");
    reveal_strlit("subscribe_events");
    reveal_strlit("get_states");
    reveal_strlit("\"id\"");
    reveal_strlit("\"type\"");
    reveal_strlit("\"event_type\"");
    reveal_strlit("\"subscribe_events\"");
    reveal_strlit("\"get_states\"");
    assert(forall|i: int| 0 <= i < "id"@.len() ==> is_plain(#[trigger] "id"@[i]));
    assert(forall|i: int| 0 <= i < "type"@.len() ==> is_plain(#[trigger] "type"@[i]));
    assert(forall|i: int| 0 <= i < "event_type"@.len() ==> is_plain(#[trigger] "event_type"@[i]));
    assert(forall|i: int|
        0 <= i < "subscribe_events"@.len() ==> is_plain(#[trigger] "subscribe_events"@[i]));
    assert(forall|i: int| 0 <= i < "get_states"@.len() ==> is_plain(#[trigger] "get_states"@[i]));
    lemma_escaped_plain("id"@);
    lemma_escaped_plain("type"@);
    lemma_escaped_plain("event_type"@);
    lemma_escaped_plain("subscribe_events"@);
    lemma_escaped_plain("get_states"@);
    assert(quoted("id"@) =~= "\"id\""@);
    assert(quoted("type"@) =~= "\"type\""@);
    assert(quoted("event_type"@) =~= "\"event_type\""@);
    assert(quoted("subscribe_events"@) =~= "\"subscribe_events\""@);
    assert(quoted("get_states"@) =~= "\"get_states\""@);
}

/// The frame of a request, character for character: the id in decimal
/// first, then the type, then the event type where there is one, and
/// nothing in its place where there is none.
pub open spec fn request_frame(id: i32, request: RequestView) -> Seq<char> {
    match request {
        RequestView::SubscribeEvents { event_type: Some(t) } => "{"@ + "\"id\""@ + ":"@ + decimal(
            id as int,
        ) + ","@ + "\"type\""@ + ":"@ + "\"subscribe_events\""@ + ","@ + "\"event_type\""@ + ":"@
            + quoted(t) + "}"@,
        RequestView::SubscribeEvents { event_type: None } => "{"@ + "\"id\""@ + ":"@ + decimal(
            id as int,
        ) + ","@ + "\"type\""@ + ":"@ + "\"subscribe_events\""@ + "}"@,
        RequestView::GetStates => "{"@ + "\"id\""@ + ":"@ + decimal(id as int) + ","@
            + "\"type\""@ + ":"@ + "\"get_states\""@ + "}"@,
    }
}

/// What `encode` writes is the frame of the request.
pub proof fn lemma_request_frame(id: i32, request: RequestView)
    ensures
        rendered(envelope_json(id, request)) == request_frame(id, request),
{
    lemma_request_names_quoted();
    let id_member = ("id"@, JsonView::Int(id as i64));
    match request {
        RequestView::SubscribeEvents { event_type: Some(t) } => {
            let kind = ("type"@, JsonView::Str("subscribe_events"@));
            let filter = ("event_type"@, JsonView::Str(t));
            assert(envelope_json(id, request)->Object_0 =~= seq![id_member, kind, filter]);
            lemma_rendered_triple(id_member, kind, filter);
        },
        RequestView::SubscribeEvents { event_type: None } => {
            let kind = ("type"@, JsonView::Str("subscribe_events"@));
            assert(envelope_json(id, request)->Object_0 =~= seq![id_member, kind]);
            lemma_rendered_pair(id_member, kind);
        },
        RequestView::GetStates => {
            let kind = ("type"@, JsonView::Str("get_states"@));
            assert(envelope_json(id, request)->Object_0 =~= seq![id_member, kind]);
            lemma_rendered_pair(id_member, kind);
        },
    }
}

} // verus!
