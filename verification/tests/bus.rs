use serde_json::Value;
use wintermute_tts::bus::{
    decode_request, incoming, is_self_emitted_topic, now_unix_ms, outcome, outgoing,
    CancelAckEvent, DecodeError, EndEvent, ErrorEvent, Event, ReloadAckEvent, ReloadVoiceRequest,
    Request, SpeakRequest, StartEvent, TurnId, TurnSeq, TOPIC_PREFIX,
};
use wintermute_tts::clock::reading_of;
use wintermute_tts::json::{Json, PayloadError};

/// A JSON text as a value of the library.
fn json(text: &str) -> Json {
    from_value(&serde_json::from_str::<Value>(text).expect("json"))
}

fn from_value(v: &Value) -> Json {
    match v {
        Value::Null => Json::Null,
        Value::Bool(b) => Json::Bool(*b),
        Value::Number(n) => match (n.as_u64(), n.as_i64()) {
            (Some(u), _) => Json::Unsigned(u),
            (None, Some(i)) => Json::Negative(i),
            (None, None) => Json::Float(n.to_string()),
        },
        Value::String(s) => Json::Text(s.clone()),
        Value::Array(items) => Json::List(items.iter().map(from_value).collect()),
        Value::Object(members) => {
            Json::Object(members.iter().map(|(k, v)| (k.clone(), from_value(v))).collect())
        }
    }
}

fn member<'a>(value: &'a Json, name: &str) -> Option<&'a Json> {
    match value {
        Json::Object(members) => members.iter().find(|m| m.0 == name).map(|m| &m.1),
        _ => None,
    }
}

fn text_of<'a>(value: &'a Json, name: &str) -> Option<&'a str> {
    match member(value, name) {
        Some(Json::Text(t)) => Some(t.as_str()),
        _ => None,
    }
}

fn failure(topic: &str, text: &str) -> String {
    decode_request(topic, &json(text)).expect_err("must fail").message()
}

#[test]
fn decode_speak_minimal() {
    let req =
        decode_request(incoming::SPEAK, &json(r#"{ "text": "hello" }"#)).expect("speak parses");
    assert_eq!(
        req,
        Request::Speak(SpeakRequest {
            text: "hello".into(),
            priority: None,
            cancel_previous: false,
            turn_id: None,
        })
    );
}

#[test]
fn decode_speak_full() {
    let req = decode_request(
        incoming::SPEAK,
        &json(r#"{ "text": "x", "priority": "high", "cancel_previous": true }"#),
    )
    .expect("speak parses");
    assert_eq!(
        req,
        Request::Speak(SpeakRequest {
            text: "x".into(),
            priority: Some("high".into()),
            cancel_previous: true,
            turn_id: None,
        })
    );
}

#[test]
fn turn_id_mint_is_parseable() {
    let mut seq = TurnSeq::new();
    let id = TurnId::mint(&mut seq);
    assert_eq!(
        TurnId::parse(id.as_str()).as_ref().map(TurnId::as_str),
        Some(id.as_str()),
        "a minted id must parse-round-trip"
    );
}

#[test]
fn turn_id_two_mints_differ() {
    let mut seq = TurnSeq::new();
    let a = TurnId::mint(&mut seq);
    let b = TurnId::mint(&mut seq);
    assert_ne!(a, b, "two minted TurnIds must differ");
}

#[test]
fn turn_id_parse_rejects_garbage() {
    assert!(TurnId::parse("").is_none());
    assert!(TurnId::parse("no-dash-hex").is_none());
    assert!(TurnId::parse("-abc").is_none());
    assert!(TurnId::parse("abc-").is_none());
}

#[test]
fn speak_request_decodes_inbound_turn_id() {
    let req = decode_request(
        incoming::SPEAK,
        &json(r#"{ "text": "ok", "turn_id": "0000000abc12-000f" }"#),
    )
    .expect("speak parses");
    let Request::Speak(s) = req else {
        panic!("expected Speak")
    };
    assert_eq!(
        s.turn_id.as_ref().map(TurnId::as_str),
        Some("0000000abc12-000f"),
        "inbound turn_id must be carried on the decoded request"
    );
}

#[test]
fn start_and_end_carry_same_turn_id() {
    let mut seq = TurnSeq::new();
    let id = TurnId::mint(&mut seq);
    let start = StartEvent {
        text: "hi".into(),
        source: String::new(),
        ts: 1,
        turn_id: Some(id.clone()),
    };
    let end = EndEvent {
        text: "hi".into(),
        duration_ms: 10,
        outcome: outcome::OK.to_string(),
        played_bytes: 4,
        ts: 2,
        turn_id: Some(id.clone()),
    };
    assert_eq!(start.turn_id, end.turn_id, "start/end ids must match");
    assert_eq!(text_of(&start.to_json(), "turn_id"), Some(id.as_str()));
    assert_eq!(text_of(&end.to_json(), "turn_id"), Some(id.as_str()));
}

#[test]
fn legacy_speak_request_without_turn_id() {
    let req = decode_request(incoming::SPEAK, &json(r#"{ "text": "legacy" }"#))
        .expect("legacy speak must decode");
    let Request::Speak(s) = req else {
        panic!("expected Speak")
    };
    assert!(s.turn_id.is_none(), "absent turn_id must map to None");
}

#[test]
fn start_end_omit_turn_id_when_absent() {
    let start = StartEvent {
        text: "x".into(),
        source: String::new(),
        ts: 1,
        turn_id: None,
    };
    assert!(
        member(&start.to_json(), "turn_id").is_none(),
        "absent turn_id must not appear in serialized start event"
    );
    let back = StartEvent::from_json(&json(r#"{ "text": "x", "source": "", "ts": 1 }"#)).unwrap();
    assert!(back.turn_id.is_none());
}

#[test]
fn decode_cancel_empty_object() {
    let req = decode_request(incoming::CANCEL, &json("{}")).expect("cancel parses");
    assert!(matches!(req, Request::Cancel(_)));
}

#[test]
fn decode_cancel_null() {
    let req = decode_request(incoming::CANCEL, &Json::Null).expect("cancel parses");
    assert!(matches!(req, Request::Cancel(_)));
}

#[test]
fn decode_reload_voice() {
    let req = decode_request(incoming::RELOAD_VOICE, &json(r#"{ "voice": "en_GB-jenny" }"#))
        .expect("reload_voice parses");
    assert_eq!(
        req,
        Request::ReloadVoice(ReloadVoiceRequest { voice: "en_GB-jenny".into() })
    );
}

#[test]
fn decode_unknown_topic() {
    let result = decode_request("wm.tts.bogus", &json("{}"));
    assert!(matches!(result, Err(DecodeError::UnknownTopic(_))));
}

#[test]
fn decode_bad_speak_payload() {
    let result = decode_request(incoming::SPEAK, &json(r#"{ "no_text": true }"#));
    assert!(matches!(result, Err(DecodeError::Json(_))));
}

#[test]
fn outbound_events_round_trip() {
    let ev = StartEvent {
        text: "hi".into(),
        source: "session-1-jsy".into(),
        ts: 42,
        turn_id: None,
    };
    let back = StartEvent::from_json(&ev.to_json()).expect("round trips");
    assert_eq!(ev, back);

    let ack = CancelAckEvent { ts: 7, drained_ms: 0 };
    let back = CancelAckEvent::from_json(&ack.to_json()).expect("round trips");
    assert_eq!(ack, back);

    let reload = ReloadAckEvent {
        voice: "en_GB-jenny".into(),
        cache_hits: 3,
        prerendered: 2,
        failures: 1,
        elapsed_ms: 1280,
        ts: 99,
    };
    let back = ReloadAckEvent::from_json(&reload.to_json()).expect("round trips");
    assert_eq!(reload, back);
}

#[test]
fn now_unix_ms_increases() {
    let a = now_unix_ms();
    let b = now_unix_ms();
    assert!(b >= a);
    // 2020-01-01, long past on any clock that is set.
    assert!(a > 1_577_836_800_000);
}

#[test]
fn outgoing_all_lists_every_outbound_topic() {
    let expected = [
        outgoing::START,
        outgoing::CANCEL_ACK,
        outgoing::END,
        outgoing::ERROR,
        outgoing::RELOAD_ACK,
    ];
    for t in expected {
        assert!(outgoing::ALL.contains(&t), "outgoing::ALL is missing {t}");
    }
    assert_eq!(outgoing::ALL.len(), expected.len());
}

#[test]
fn is_self_emitted_topic_flags_every_outbound() {
    assert!(is_self_emitted_topic(outgoing::ERROR));
    assert!(is_self_emitted_topic(outgoing::START));
    assert!(is_self_emitted_topic(outgoing::END));
    assert!(is_self_emitted_topic(outgoing::CANCEL_ACK));
    assert!(is_self_emitted_topic(outgoing::RELOAD_ACK));
}

#[test]
fn is_self_emitted_topic_does_not_flag_inbound() {
    assert!(!is_self_emitted_topic(incoming::SPEAK));
    assert!(!is_self_emitted_topic(incoming::CANCEL));
    assert!(!is_self_emitted_topic(incoming::RELOAD_VOICE));
}

#[test]
fn is_self_emitted_topic_does_not_flag_unrelated() {
    assert!(!is_self_emitted_topic("wm.audio.speech.start"));
    assert!(!is_self_emitted_topic("wm.dialog.turn"));
    assert!(!is_self_emitted_topic(""));
    assert!(!is_self_emitted_topic("wm.tts.error.detail"));
    assert!(!is_self_emitted_topic("wm.tts.err"));
}

#[test]
fn minted_ids_have_the_documented_form() {
    assert_eq!(TurnId::mint_at(Some(0x18f_0000_0abc), 15).as_str(), "0018f00000abc-000f");
    assert_eq!(TurnId::mint_at(None, 0).as_str(), "0000000000000-0000");
    assert_eq!(
        TurnId::mint_at(Some(u128::MAX), 0x1_2345).as_str(),
        "ffffffffffffffff-12345"
    );
    assert!(TurnId::parse("0018f00000abc-000F").is_some());
    assert!(TurnId::parse("12-34-56").is_none());
}

#[test]
fn turn_numbers_wrap() {
    let mut seq = TurnSeq { next: u32::MAX };
    assert_eq!(seq.take(), u32::MAX);
    assert_eq!(seq.take(), 0);
    assert_eq!(seq.next, 1);
}

#[test]
fn clock_readings_saturate() {
    assert_eq!(reading_of(Some(7), 3), 7);
    assert_eq!(reading_of(None, 3), 3);
    assert_eq!(reading_of(Some(u128::from(u64::MAX) + 1), 3), u64::MAX);
}

#[test]
fn decode_failures_are_described() {
    assert_eq!(failure("wm.tts.bogus", "{}"), "unknown topic: wm.tts.bogus");
    assert_eq!(
        failure(incoming::SPEAK, "{}"),
        "payload decode failed: missing field `text`"
    );
    assert_eq!(
        failure(incoming::SPEAK, r#"{"text": 5}"#),
        "payload decode failed: invalid type: integer `5`, expected a string"
    );
    assert_eq!(
        failure(incoming::SPEAK, r#"{"text": -5}"#),
        "payload decode failed: invalid type: integer `-5`, expected a string"
    );
    assert_eq!(
        failure(incoming::SPEAK, r#"{"text": 1.5}"#),
        "payload decode failed: invalid type: floating point `1.5`, expected a string"
    );
    assert_eq!(
        failure(incoming::SPEAK, r#"{"text": "x", "cancel_previous": "y\n"}"#),
        "payload decode failed: invalid type: string \"y\\n\", expected a boolean"
    );
    assert_eq!(
        failure(incoming::SPEAK, r#"{"text": "x", "cancel_previous": null}"#),
        "payload decode failed: invalid type: null, expected a boolean"
    );
    assert_eq!(
        failure(incoming::SPEAK, r#"{"text": "x", "priority": true}"#),
        "payload decode failed: invalid type: boolean `true`, expected a string"
    );
    assert_eq!(
        failure(incoming::SPEAK, r#"{"text": "x", "turn_id": []}"#),
        "payload decode failed: invalid type: sequence, expected a string"
    );
    assert_eq!(
        failure(incoming::SPEAK, r#"{"text": {}}"#),
        "payload decode failed: invalid type: map, expected a string"
    );
    assert_eq!(
        failure(incoming::SPEAK, "null"),
        "payload decode failed: invalid type: null, expected struct SpeakRequest"
    );
    assert_eq!(
        failure(incoming::SPEAK, "[]"),
        "payload decode failed: invalid length 0, expected struct SpeakRequest with 4 elements"
    );
    assert_eq!(
        failure(incoming::SPEAK, r#"["x", null, false, null, 1]"#),
        "payload decode failed: invalid length 5, expected fewer elements in array"
    );
    assert_eq!(
        failure(incoming::RELOAD_VOICE, "[]"),
        "payload decode failed: invalid length 0, expected struct ReloadVoiceRequest with 1 element"
    );
    assert_eq!(
        failure(incoming::CANCEL, "[1]"),
        "payload decode failed: invalid length 1, expected fewer elements in array"
    );
    assert_eq!(
        failure(incoming::CANCEL, "3"),
        "payload decode failed: invalid type: integer `3`, expected struct CancelRequest"
    );
}

#[test]
fn duplicate_members_are_refused() {
    let twice = Json::Object(vec![
        ("voice".to_string(), Json::Text("a".to_string())),
        ("voice".to_string(), Json::Text("b".to_string())),
    ]);
    let err = ReloadVoiceRequest::from_json(&twice).unwrap_err();
    assert_eq!(err, PayloadError::Duplicate("voice".to_string()));
    assert_eq!(err.message(), "duplicate field `voice`");
}

#[test]
fn numbers_out_of_range_are_refused() {
    let err = CancelAckEvent::from_json(&json(r#"{"ts": -1, "drained_ms": 0}"#)).unwrap_err();
    assert_eq!(err.message(), "invalid value: integer `-1`, expected u64");
    let err = CancelAckEvent::from_json(&json(r#"{"ts": 1.5, "drained_ms": 0}"#)).unwrap_err();
    assert_eq!(
        err.message(),
        "invalid type: floating point `1.5`, expected u64"
    );
}

#[test]
fn requests_may_come_as_arrays_and_with_extra_members() {
    let req = decode_request(incoming::SPEAK, &json(r#"["x"]"#)).expect("array");
    assert_eq!(
        req,
        Request::Speak(SpeakRequest {
            text: "x".into(),
            priority: None,
            cancel_previous: false,
            turn_id: None,
        })
    );
    let req = decode_request(
        incoming::RELOAD_VOICE,
        &json(r#"{"voice": "v", "zeal": {"deep": [1]}, "a": null}"#),
    )
    .expect("extra members");
    assert_eq!(req, Request::ReloadVoice(ReloadVoiceRequest { voice: "v".into() }));
    assert!(decode_request(incoming::CANCEL, &json(r#"{"anything": 1}"#)).is_ok());
    assert!(decode_request(incoming::CANCEL, &json("[]")).is_ok());
}

#[test]
fn every_event_knows_its_topic_and_payload() {
    let error = Event::error("io", "broken", 5);
    assert_eq!(error.topic(), "wm.tts.error");
    let back = ErrorEvent::from_json(&error.to_json()).expect("error decodes");
    assert_eq!(
        back,
        ErrorEvent { kind: "io".into(), message: "broken".into(), ts: 5 }
    );
    let end = EndEvent {
        text: "t".into(),
        duration_ms: 1,
        outcome: "ok".into(),
        played_bytes: 2,
        ts: 3,
        turn_id: Some(TurnId("a-b".into())),
    };
    let event = Event::End(end.clone());
    assert_eq!(event.topic(), "wm.tts.end");
    assert_eq!(EndEvent::from_json(&event.to_json()).expect("end decodes"), end);
    assert!(event.topic().starts_with(TOPIC_PREFIX));
}

#[test]
fn faults_are_worded_as_serde_words_them() {
    let values = [
        "null", "true", "false", "0", "7", "18446744073709551615", "-1", "-9223372036854775808",
        "1.5", "-0.25", "\"x\"", "\"tab\\t quote\\\" \\u00e4\"", "[]", "[1]", "{}", "{\"a\":1}",
    ];
    for text in values {
        let value: Value = serde_json::from_str(text).expect("json");
        let wrap = |name: &str, others: &[(&str, Json)]| {
            let mut members: Vec<(String, Json)> = Vec::new();
            members.push((name.to_string(), from_value(&value)));
            for (n, v) in others {
                let copy = match v {
                    Json::Text(t) => Json::Text(t.clone()),
                    Json::Unsigned(u) => Json::Unsigned(*u),
                    other => panic!("unexpected {other:?}"),
                };
                members.push((n.to_string(), copy));
            }
            Json::Object(members)
        };
        let string = serde_json::from_value::<String>(value.clone());
        let ours = ReloadVoiceRequest::from_json(&wrap("voice", &[]));
        assert_eq!(
            string.map_err(|e| e.to_string()),
            ours.map(|q| q.voice).map_err(|e| e.message()),
        );
        let flag = serde_json::from_value::<bool>(value.clone());
        let ours = SpeakRequest::from_json(&wrap(
            "cancel_previous",
            &[("text", Json::Text("t".to_string()))],
        ));
        assert_eq!(
            flag.map_err(|e| e.to_string()),
            ours.map(|q| q.cancel_previous).map_err(|e| e.message()),
        );
        let optional = serde_json::from_value::<Option<String>>(value.clone());
        let ours =
            SpeakRequest::from_json(&wrap("priority", &[("text", Json::Text("t".to_string()))]));
        assert_eq!(
            optional.map_err(|e| e.to_string()),
            ours.map(|q| q.priority).map_err(|e| e.message()),
        );
        let count = serde_json::from_value::<u64>(value.clone());
        let ours = CancelAckEvent::from_json(&wrap("ts", &[("drained_ms", Json::Unsigned(0))]));
        assert_eq!(
            count.map_err(|e| e.to_string()),
            ours.map(|q| q.ts).map_err(|e| e.message()),
        );
        let size = serde_json::from_value::<usize>(value.clone());
        let ours = ReloadAckEvent::from_json(&wrap(
            "failures",
            &[
                ("voice", Json::Text("v".to_string())),
                ("cache_hits", Json::Unsigned(0)),
                ("prerendered", Json::Unsigned(0)),
                ("elapsed_ms", Json::Unsigned(0)),
                ("ts", Json::Unsigned(0)),
            ],
        ));
        assert_eq!(
            size.map_err(|e| e.to_string()),
            ours.map(|q| q.failures).map_err(|e| e.message()),
        );
    }
}

#[test]
fn minted_ids_carry_the_time() {
    let mut seq = TurnSeq { next: 7 };
    let before = now_unix_ms();
    let id = TurnId::mint(&mut seq);
    let after = now_unix_ms();
    let (ms, number) = id.as_str().split_once('-').expect("a dash");
    let ms = u64::from_str_radix(ms, 16).expect("hexadecimal");
    assert!(before <= ms && ms <= after);
    assert_eq!(number, "0007");
}
