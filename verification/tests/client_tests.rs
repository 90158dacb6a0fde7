use futures::channel::mpsc::{unbounded, UnboundedReceiver, UnboundedSender};
use hass_link::hass::protocol::{HassEvent, HassRequest, HassResponse};
use hass_link::hass::startup_request;
use hass_link::json::{Json, Member};
use hass_link::ws::client::{
    reader_step, writer_step, Client, ReaderStep, Received, WriterStep,
};
use hass_link::ws::{deliver_all, handle_messages, Tick};
use tokio_tungstenite::tungstenite::Message;

const EVENT: &str = r#"{"type":"event","event":{"event_type":"state_changed","data":{"entity_id":"light.kitchen","old_state":{},"new_state":{"state":"on"}}}}"#;

fn session() -> (Client, UnboundedSender<Message>, UnboundedReceiver<Message>) {
    let (inbound_tx, inbound_rx) = unbounded();
    let (outbound_tx, outbound_rx) = unbounded();
    (Client::new(inbound_rx, outbound_tx), inbound_tx, outbound_rx)
}

fn event() -> HassResponse {
    HassResponse::Event {
        event: HassEvent::StateChanged {
            entity_id: "light.kitchen".to_string(),
            old_state: Json::Object(vec![]),
            new_state: Json::Object(vec![Member {
                key: "state".to_string(),
                value: Json::Str("on".to_string()),
            }]),
        },
    }
}

fn written(queue: &mut UnboundedReceiver<Message>) -> Vec<Message> {
    let mut frames = Vec::new();
    while let Ok(message) = queue.try_recv() {
        frames.push(message);
    }
    frames
}

#[test]
fn malformed_frame_is_dropped_and_the_next_one_delivered() {
    let (mut client, inbound, _outbound) = session();
    inbound.unbounded_send(Message::Text("garbage".to_string())).unwrap();
    inbound.unbounded_send(Message::Text(EVENT.to_string())).unwrap();
    assert_eq!(client.try_recv(), None);
    assert_eq!(client.try_recv(), Some(event()));
    assert_eq!(client.try_recv(), None);
}

#[test]
fn json_string_frame_is_dropped_too() {
    let (mut client, inbound, _outbound) = session();
    inbound.unbounded_send(Message::Text("\"garbage\"".to_string())).unwrap();
    inbound.unbounded_send(Message::Text(EVENT.to_string())).unwrap();
    assert_eq!(client.try_recv(), None);
    assert_eq!(client.try_recv(), Some(event()));
}

#[test]
fn try_recv_gives_nothing_on_an_empty_or_closed_queue() {
    let (mut client, inbound, _outbound) = session();
    assert_eq!(client.try_recv(), None);
    drop(inbound);
    assert_eq!(client.try_recv(), None);
    assert_eq!(client.try_recv(), None);
}

#[test]
fn frames_come_out_in_the_order_of_arrival() {
    let (mut client, inbound, _outbound) = session();
    for n in 1..=3 {
        let frame = format!(r#"{{"id":{},"type":"result","success":true,"result":{}}}"#, n, n * 10);
        inbound.unbounded_send(Message::Text(frame)).unwrap();
    }
    drop(inbound);
    for n in 1..=3 {
        assert_eq!(
            client.try_recv(),
            Some(HassResponse::Result { success: true, result: Json::Int(n * 10) })
        );
    }
    assert_eq!(client.try_recv(), None);
}

#[test]
fn messages_without_text_are_dropped() {
    let (mut client, inbound, _outbound) = session();
    inbound.unbounded_send(Message::Binary(vec![0xff, 0xfe])).unwrap();
    inbound.unbounded_send(Message::Ping(vec![])).unwrap();
    inbound.unbounded_send(Message::Binary(EVENT.as_bytes().to_vec())).unwrap();
    assert_eq!(client.try_recv(), None);
    assert_eq!(client.try_recv(), None);
    assert_eq!(client.try_recv(), Some(event()));
}

#[test]
fn decode_frame_drops_what_does_not_decode() {
    assert_eq!(Client::decode_frame(None), None);
    assert_eq!(Client::decode_frame(Some("garbage")), None);
    assert_eq!(Client::decode_frame(Some(r#"{"type":"pong"}"#)), None);
    assert_eq!(Client::decode_frame(Some(EVENT)), Some(event()));
    assert_eq!(
        Client::decode_frame(Some(r#"{"type":"result","success":false,"result":null}"#)),
        Some(HassResponse::Result { success: false, result: Json::Null })
    );
}

#[test]
fn send_writes_frames_with_rising_ids() {
    let (mut client, _inbound, mut outbound) = session();
    assert!(client.send(startup_request()));
    assert!(client.send(HassRequest::GetStates));
    assert!(client.send(HassRequest::SubscribeEvents { event_type: None }));
    assert_eq!(
        written(&mut outbound),
        vec![
            Message::Text(
                r#"{"id":1,"type":"subscribe_events","event_type":"state_changed"}"#.to_string()
            ),
            Message::Text(r#"{"id":2,"type":"get_states"}"#.to_string()),
            Message::Text(r#"{"id":3,"type":"subscribe_events"}"#.to_string()),
        ]
    );
}

#[test]
fn send_reports_a_closed_queue_and_uses_up_the_id() {
    let (mut client, _inbound, outbound) = session();
    drop(outbound);
    assert!(!client.send(HassRequest::GetStates));
    assert_eq!(client.next_frame(HassRequest::GetStates), r#"{"id":2,"type":"get_states"}"#);
}

#[test]
fn next_frame_takes_the_next_id() {
    let (mut client, _inbound, _outbound) = session();
    assert_eq!(client.next_frame(HassRequest::GetStates), r#"{"id":1,"type":"get_states"}"#);
    assert_eq!(client.next_frame(HassRequest::GetStates), r#"{"id":2,"type":"get_states"}"#);
}

#[test]
fn bridge_drains_inbound_and_forwards_outbound() {
    let (mut client, inbound, mut outbound) = session();
    inbound
        .unbounded_send(Message::Text(
            r#"{"id":1,"type":"result","success":true,"result":null}"#.to_string(),
        ))
        .unwrap();
    inbound.unbounded_send(Message::Text(EVENT.to_string())).unwrap();
    let first = r#"{"id":1,"type":"subscribe_events","event_type":"state_changed"}"#;
    let second = r#"{"id":2,"type":"get_states"}"#;
    let tick = handle_messages(&mut client, &vec![startup_request(), HassRequest::GetStates]);
    assert_eq!(
        tick,
        Tick {
            inbound: vec![HassResponse::Result { success: true, result: Json::Null }, event()],
            dropped: 0,
            frames: vec![first.to_string(), second.to_string()],
            unsent: 0,
        }
    );
    assert_eq!(
        written(&mut outbound),
        vec![Message::Text(first.to_string()), Message::Text(second.to_string())]
    );
    let tick = handle_messages(&mut client, &vec![HassRequest::GetStates]);
    assert_eq!(tick.inbound, vec![]);
    assert_eq!(tick.dropped, 0);
    assert_eq!(
        written(&mut outbound),
        vec![Message::Text(r#"{"id":3,"type":"get_states"}"#.to_string())]
    );
}

#[test]
fn bridge_goes_on_after_a_dropped_frame() {
    let (mut client, inbound, _outbound) = session();
    inbound.unbounded_send(Message::Text("garbage".to_string())).unwrap();
    inbound.unbounded_send(Message::Text(EVENT.to_string())).unwrap();
    let tick = handle_messages(&mut client, &vec![]);
    assert_eq!(tick.inbound, vec![event()]);
    assert_eq!(tick.dropped, 1);
    let tick = handle_messages(&mut client, &vec![]);
    assert_eq!(tick, Tick { inbound: vec![], dropped: 0, frames: vec![], unsent: 0 });
}

#[test]
fn bridge_empties_the_queue_whatever_it_holds() {
    let (mut client, inbound, _outbound) = session();
    let result = r#"{"type":"result","success":false,"result":7}"#;
    inbound.unbounded_send(Message::Binary(vec![0xff])).unwrap();
    inbound.unbounded_send(Message::Text(result.to_string())).unwrap();
    inbound.unbounded_send(Message::Text("\"garbage\"".to_string())).unwrap();
    inbound.unbounded_send(Message::Text(r#"{"type":"pong"}"#.to_string())).unwrap();
    inbound.unbounded_send(Message::Text(EVENT.to_string())).unwrap();
    inbound.unbounded_send(Message::Text("{".to_string())).unwrap();
    let tick = handle_messages(&mut client, &vec![]);
    assert_eq!(
        tick.inbound,
        vec![HassResponse::Result { success: false, result: Json::Int(7) }, event()]
    );
    assert_eq!(tick.dropped, 4);
    assert_eq!(client.try_recv(), None);
    assert_eq!(client.receive(), Received::Nothing);
}

#[test]
fn bridge_counts_what_a_closed_queue_does_not_take() {
    let (mut client, _inbound, outbound) = session();
    drop(outbound);
    let tick = handle_messages(&mut client, &vec![HassRequest::GetStates, startup_request()]);
    assert_eq!(tick.unsent, 2);
    assert_eq!(
        tick.frames,
        vec![
            r#"{"id":1,"type":"get_states"}"#.to_string(),
            r#"{"id":2,"type":"subscribe_events","event_type":"state_changed"}"#.to_string(),
        ]
    );
    assert_eq!(client.next_frame(HassRequest::GetStates), r#"{"id":3,"type":"get_states"}"#);
}

#[test]
fn deliver_all_keeps_what_decodes_in_order() {
    let result = r#"{"type":"result","success":true,"result":[1]}"#;
    let texts = vec![
        Some("garbage".to_string()),
        Some(EVENT.to_string()),
        None,
        Some(result.to_string()),
        Some(r#"{"type":"pong"}"#.to_string()),
        Some(EVENT.to_string()),
    ];
    assert_eq!(
        deliver_all(&texts),
        vec![
            event(),
            HassResponse::Result { success: true, result: Json::Array(vec![Json::Int(1)]) },
            event(),
        ]
    );
    assert_eq!(deliver_all(&vec![]), vec![]);
    assert_eq!(deliver_all(&vec![None, Some(String::new())]), vec![]);
}

#[test]
fn next_frames_gives_each_request_its_own_id_in_order() {
    let (mut client, _inbound, mut outbound) = session();
    let requests = vec![
        HassRequest::GetStates,
        startup_request(),
        HassRequest::SubscribeEvents { event_type: None },
        HassRequest::GetStates,
    ];
    assert_eq!(
        client.next_frames(&requests),
        vec![
            r#"{"id":1,"type":"get_states"}"#.to_string(),
            r#"{"id":2,"type":"subscribe_events","event_type":"state_changed"}"#.to_string(),
            r#"{"id":3,"type":"subscribe_events"}"#.to_string(),
            r#"{"id":4,"type":"get_states"}"#.to_string(),
        ]
    );
    assert_eq!(client.next_frames(&vec![]), Vec::<String>::new());
    assert_eq!(client.next_frame(HassRequest::GetStates), r#"{"id":5,"type":"get_states"}"#);
    assert_eq!(written(&mut outbound), vec![]);
}

#[test]
fn put_frame_hands_the_frame_to_the_queue() {
    let (client, _inbound, mut outbound) = session();
    assert!(client.put_frame("one".to_string()));
    assert!(client.put_frame("two".to_string()));
    assert_eq!(
        written(&mut outbound),
        vec![Message::Text("one".to_string()), Message::Text("two".to_string())]
    );
    drop(outbound);
    assert!(!client.put_frame("three".to_string()));
}

#[test]
fn receive_tells_a_drop_from_an_empty_queue() {
    let (mut client, inbound, _outbound) = session();
    assert_eq!(client.receive(), Received::Nothing);
    inbound.unbounded_send(Message::Text("garbage".to_string())).unwrap();
    inbound.unbounded_send(Message::Binary(vec![0xff])).unwrap();
    inbound.unbounded_send(Message::Text(EVENT.to_string())).unwrap();
    assert_eq!(client.receive(), Received::Dropped);
    assert_eq!(client.receive(), Received::Dropped);
    assert_eq!(client.receive(), Received::Response(event()));
    assert_eq!(client.receive(), Received::Nothing);
    drop(inbound);
    assert_eq!(client.receive(), Received::Nothing);
}

#[test]
fn take_text_hands_out_texts_as_they_came() {
    let (mut client, inbound, _outbound) = session();
    assert_eq!(client.take_text(), None);
    inbound.unbounded_send(Message::Text("garbage".to_string())).unwrap();
    inbound.unbounded_send(Message::Binary(vec![0xff])).unwrap();
    inbound.unbounded_send(Message::Binary(b"bytes".to_vec())).unwrap();
    assert_eq!(client.take_text(), Some(Some("garbage".to_string())));
    assert_eq!(client.take_text(), Some(None));
    assert_eq!(client.take_text(), Some(Some("bytes".to_string())));
    assert_eq!(client.take_text(), None);
}

#[test]
fn classify_tells_the_three_outcomes_apart() {
    assert_eq!(Client::classify(&None), Received::Nothing);
    assert_eq!(Client::classify(&Some(None)), Received::Dropped);
    assert_eq!(Client::classify(&Some(Some("garbage".to_string()))), Received::Dropped);
    assert_eq!(Client::classify(&Some(Some(r#"{"type":"pong"}"#.to_string()))), Received::Dropped);
    assert_eq!(Client::classify(&Some(Some(EVENT.to_string()))), Received::Response(event()));
}

#[test]
fn reader_forwards_messages_and_stops_at_the_end() {
    assert_eq!(reader_step::<u8, ()>(Some(Ok(7))), ReaderStep::Forward(7));
    assert_eq!(reader_step::<u8, &str>(Some(Err("reset"))), ReaderStep::Skip("reset"));
    assert_eq!(reader_step::<u8, ()>(None), ReaderStep::Stop);
}

#[test]
fn writer_writes_messages_and_stops_at_closure() {
    assert_eq!(writer_step(Some("frame")), WriterStep::Write("frame"));
    assert_eq!(writer_step::<&str>(None), WriterStep::Stop);
}
