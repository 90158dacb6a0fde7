use hass_link::hass::protocol::{
    DecodeError, HassEvent, HassRequest, HassResponse, HassWrapper, IdCounter,
};
use hass_link::hass::startup_request;
use hass_link::json::{Json, Member};

fn member(key: &str, value: Json) -> Member {
    Member { key: key.to_string(), value }
}

fn subscribe(event_type: Option<&str>) -> HassRequest {
    HassRequest::SubscribeEvents { event_type: event_type.map(|t| t.to_string()) }
}

#[test]
fn first_frame_subscribes_to_state_changes() {
    let mut ids = IdCounter::new();
    let frame = HassWrapper::new(&mut ids, startup_request()).encode();
    assert_eq!(frame, r#"{"id":1,"type":"subscribe_events","event_type":"state_changed"}"#);
}

#[test]
fn startup_request_is_a_subscription_to_state_changes() {
    assert_eq!(startup_request(), subscribe(Some("state_changed")));
}

#[test]
fn get_states_frame_has_id_and_type() {
    let mut ids = IdCounter::starting_at(2);
    let frame = HassWrapper::new(&mut ids, HassRequest::GetStates).encode();
    assert_eq!(frame, r#"{"id":2,"type":"get_states"}"#);
}

#[test]
fn absent_event_type_is_left_out() {
    let mut ids = IdCounter::new();
    let wrapper = HassWrapper::new(&mut ids, subscribe(None));
    let frame = wrapper.encode();
    assert_eq!(frame, r#"{"id":1,"type":"subscribe_events"}"#);
    assert!(!frame.contains("event_type"));
    assert!(!frame.contains("null"));
    assert_eq!(wrapper.to_json().get("event_type"), None);
}

#[test]
fn envelope_object_lists_id_then_type_then_fields() {
    let wrapper = HassWrapper { id: 5, data: subscribe(Some("x")) };
    assert_eq!(
        wrapper.to_json(),
        Json::Object(vec![
            member("id", Json::Int(5)),
            member("type", Json::Str("subscribe_events".to_string())),
            member("event_type", Json::Str("x".to_string())),
        ])
    );
}

#[test]
fn ids_rise_by_one_from_one() {
    let mut ids = IdCounter::new();
    let mut seen = Vec::new();
    for _ in 0..5 {
        seen.push(ids.take());
    }
    assert_eq!(seen, vec![1, 2, 3, 4, 5]);
    assert_eq!(ids.next, 6);
}

#[test]
fn ids_of_wrappers_follow_the_order_of_wrapping() {
    let mut ids = IdCounter::starting_at(41);
    let a = HassWrapper::new(&mut ids, HassRequest::GetStates);
    let b = HassWrapper::new(&mut ids, subscribe(None));
    let c = HassWrapper::new(&mut ids, HassRequest::GetStates);
    assert_eq!((a.id, b.id, c.id), (41, 42, 43));
    assert!(a.id < b.id && b.id < c.id);
    assert_eq!(b.data, subscribe(None));
}

#[test]
fn ids_wrap_round_at_the_end_of_the_range() {
    let mut ids = IdCounter::starting_at(i32::MAX);
    assert_eq!(ids.take(), i32::MAX);
    assert_eq!(ids.take(), i32::MIN);
    assert_eq!(ids.take(), i32::MIN + 1);
}

#[test]
fn negative_ids_are_written_with_a_minus_sign() {
    let wrapper = HassWrapper { id: i32::MIN, data: HassRequest::GetStates };
    assert_eq!(wrapper.encode(), r#"{"id":-2147483648,"type":"get_states"}"#);
}

#[test]
fn encoded_requests_decode_to_themselves() {
    let requests = vec![
        HassRequest::GetStates,
        subscribe(None),
        subscribe(Some("state_changed")),
        subscribe(Some("")),
        subscribe(Some("q\"uote \\ back\nline\t\u{1} \u{e9}")),
    ];
    let mut ids = IdCounter::starting_at(7);
    for request in requests {
        let wrapper = HassWrapper::new(&mut ids, request.clone());
        let decoded = HassWrapper::<HassRequest>::decode(&wrapper.encode()).unwrap();
        assert_eq!(decoded.data, request);
        assert_eq!(decoded.id, wrapper.id);
        assert_eq!(HassWrapper::<HassRequest>::from_json(&wrapper.to_json()), Ok(wrapper));
    }
}

#[test]
fn event_type_is_escaped_in_the_frame() {
    let wrapper = HassWrapper { id: 1, data: subscribe(Some("a\"b\\c\n")) };
    assert_eq!(
        wrapper.encode(),
        r#"{"id":1,"type":"subscribe_events","event_type":"a\"b\\c\n"}"#
    );
}

#[test]
fn request_decoding_reads_null_event_type_as_absent() {
    let decoded =
        HassWrapper::<HassRequest>::decode(r#"{"id":3,"type":"subscribe_events","event_type":null}"#);
    assert_eq!(decoded, Ok(HassWrapper { id: 3, data: subscribe(None) }));
}

#[test]
fn request_decoding_rejects_bad_envelopes() {
    let malformed = [
        "garbage",
        "[]",
        r#"{"type":"get_states"}"#,
        r#"{"id":"1","type":"get_states"}"#,
        r#"{"id":1.5,"type":"get_states"}"#,
        r#"{"id":2147483648,"type":"get_states"}"#,
        r#"{"id":-2147483649,"type":"get_states"}"#,
        r#"{"id":1}"#,
        r#"{"id":1,"type":7}"#,
        r#"{"id":1,"type":"subscribe_events","event_type":7}"#,
    ];
    for frame in malformed {
        assert_eq!(
            HassWrapper::<HassRequest>::decode(frame),
            Err(DecodeError::Malformed),
            "{}",
            frame
        );
    }
    assert_eq!(
        HassWrapper::<HassRequest>::decode(r#"{"id":1,"type":"call_service"}"#),
        Err(DecodeError::Unsupported)
    );
    assert_eq!(
        HassWrapper::<HassRequest>::decode(r#"{"id":2147483647,"type":"get_states"}"#),
        Ok(HassWrapper { id: i32::MAX, data: HassRequest::GetStates })
    );
}

#[test]
fn result_frames_decode_with_either_outcome() {
    assert_eq!(
        HassResponse::decode(r#"{"id":1,"type":"result","success":true,"result":null}"#),
        Ok(HassResponse::Result { success: true, result: Json::Null })
    );
    assert_eq!(
        HassResponse::decode(
            r#"{"id":9,"type":"result","success":false,"result":{"code":"unknown_command"}}"#
        ),
        Ok(HassResponse::Result {
            success: false,
            result: Json::Object(vec![member(
                "code",
                Json::Str("unknown_command".to_string())
            )]),
        })
    );
}

#[test]
fn result_payload_is_kept_whatever_it_is() {
    let decoded = HassResponse::decode(
        r#"{"type":"result","success":true,"result":[{"entity_id":"light.kitchen","state":"on","n":1.5},7,"x"]}"#,
    );
    match decoded {
        Ok(HassResponse::Result { success: true, result: Json::Array(items) }) => {
            assert_eq!(items.len(), 3);
            assert_eq!(items[0].get("state"), Some(&Json::Str("on".to_string())));
            assert_eq!(items[0].get("n"), Some(&Json::Number("1.5".to_string())));
            assert_eq!(items[1], Json::Int(7));
            assert_eq!(items[2], Json::Str("x".to_string()));
        }
        other => panic!("{:?}", other),
    }
}

#[test]
fn state_changed_event_decodes() {
    let frame = r#"{"type":"event","event":{"event_type":"state_changed","data":{"entity_id":"light.kitchen","old_state":{},"new_state":{"state":"on"}}}}"#;
    assert_eq!(
        HassResponse::decode(frame),
        Ok(HassResponse::Event {
            event: HassEvent::StateChanged {
                entity_id: "light.kitchen".to_string(),
                old_state: Json::Object(vec![]),
                new_state: Json::Object(vec![member("state", Json::Str("on".to_string()))]),
            },
        })
    );
}

#[test]
fn decoding_does_not_look_at_the_id() {
    let bare = r#"{"type":"result","success":true,"result":1}"#;
    let with_id = r#"{"id":12,"type":"result","success":true,"result":1}"#;
    let with_odd_id = r#"{"id":"twelve","type":"result","success":true,"result":1}"#;
    let expected = Ok(HassResponse::Result { success: true, result: Json::Int(1) });
    assert_eq!(HassResponse::decode(bare), expected);
    assert_eq!(HassResponse::decode(with_id), expected);
    assert_eq!(HassResponse::decode(with_odd_id), expected);
}

#[test]
fn unknown_members_are_passed_over() {
    let frame = r#"{"type":"event","extra":[1,2],"event":{"event_type":"state_changed","origin":"LOCAL","data":{"entity_id":"a.b","old_state":null,"new_state":null,"more":1}}}"#;
    assert_eq!(
        HassResponse::decode(frame),
        Ok(HassResponse::Event {
            event: HassEvent::StateChanged {
                entity_id: "a.b".to_string(),
                old_state: Json::Null,
                new_state: Json::Null,
            },
        })
    );
}

#[test]
fn frames_that_are_no_json_are_malformed() {
    for frame in ["garbage", "", "{", "{\"type\":\"result\"", "\u{0}"] {
        assert_eq!(HassResponse::decode(frame), Err(DecodeError::Malformed), "{:?}", frame);
    }
}

#[test]
fn json_that_is_no_message_is_malformed() {
    let malformed = [
        "\"garbage\"",
        "null",
        "7",
        "[]",
        "{}",
        r#"{"type":7}"#,
        r#"{"type":null}"#,
        r#"{"id":1}"#,
        r#"{"type":"result"}"#,
        r#"{"type":"result","success":true}"#,
        r#"{"type":"result","result":null}"#,
        r#"{"type":"result","success":"yes","result":null}"#,
        r#"{"type":"result","success":1,"result":null}"#,
        r#"{"type":"event"}"#,
        r#"{"type":"event","event":7}"#,
        r#"{"type":"event","event":{}}"#,
        r#"{"type":"event","event":{"event_type":7}}"#,
        r#"{"type":"event","event":{"event_type":"state_changed"}}"#,
        r#"{"type":"event","event":{"event_type":"state_changed","data":7}}"#,
        r#"{"type":"event","event":{"event_type":"state_changed","data":{}}}"#,
        r#"{"type":"event","event":{"event_type":"state_changed","data":{"entity_id":7,"old_state":{},"new_state":{}}}}"#,
        r#"{"type":"event","event":{"event_type":"state_changed","data":{"entity_id":"a","new_state":{}}}}"#,
        r#"{"type":"event","event":{"event_type":"state_changed","data":{"entity_id":"a","old_state":{}}}}"#,
    ];
    for frame in malformed {
        assert_eq!(HassResponse::decode(frame), Err(DecodeError::Malformed), "{}", frame);
    }
}

#[test]
fn unknown_kinds_are_unsupported() {
    assert_eq!(
        HassResponse::decode(r#"{"type":"pong","id":3}"#),
        Err(DecodeError::Unsupported)
    );
    assert_eq!(
        HassResponse::decode(r#"{"type":"auth_ok","ha_version":"2024.1.0"}"#),
        Err(DecodeError::Unsupported)
    );
    assert_eq!(HassResponse::decode(r#"{"type":""}"#), Err(DecodeError::Unsupported));
    assert_eq!(
        HassResponse::decode(r#"{"type":"event","event":{"event_type":"call_service","data":{}}}"#),
        Err(DecodeError::Unsupported)
    );
    assert_eq!(
        HassResponse::decode(r#"{"type":"event","event":{"event_type":"State_Changed"}}"#),
        Err(DecodeError::Unsupported)
    );
}

#[test]
fn from_json_reads_hand_built_values() {
    let value = Json::Object(vec![
        member("success", Json::Bool(false)),
        member("result", Json::Array(vec![])),
        member("type", Json::Str("result".to_string())),
    ]);
    assert_eq!(
        HassResponse::from_json(&value),
        Ok(HassResponse::Result { success: false, result: Json::Array(vec![]) })
    );
    let event = Json::Object(vec![member("event_type", Json::Str("other".to_string()))]);
    assert_eq!(HassEvent::from_json(&event), Err(DecodeError::Unsupported));
    assert_eq!(HassEvent::from_json(&Json::Null), Err(DecodeError::Malformed));
}
