//! Payloads: what is written and what is read, member by member, and how a
//! payload that cannot be read is told.

use crate::bus;
use crate::bus::event::{
    CancelAckEvent, EndEvent, ErrorEvent, Event, ReloadAckEvent, StartEvent,
};
use crate::bus::request;
use crate::bus::request::{
    CancelRequest, DecodeError, ReloadVoiceRequest, Request, SpeakRequest,
};
use crate::bus::turn::TurnId;
use crate::json;
use crate::json::{Flat, Json, PayloadError, Shape};
use crate::laws::messages;
use crate::laws::messages::{holds, lacks, names_differ};
use crate::text;
use vstd::prelude::*;

verus! {

// ---- values --------------------------------------------------------------

/// What a value looks like from outside: an object as its members by name, a
/// list as its items, and any other value as itself.
pub proof fn values_look_like_themselves(
    members: Vec<(String, Json)>,
    items: Vec<Json>,
    i: int,
    t: String,
    n: u64,
    m: i64,
    b: bool,
)
    ensures
        (Json::Object(members))@ is Object,
        (Json::Object(members))@->Object_0.len() == members@.len(),
        0 <= i < members@.len() ==> (Json::Object(members))@->Object_0[i].0 == members@[i].0@
            && (Json::Object(members))@->Object_0[i].1 == members@[i].1.flat(),
        (Json::List(items))@ is List,
        (Json::List(items))@->List_0.len() == items@.len(),
        0 <= i < items@.len() ==> (Json::List(items))@->List_0[i] == items@[i].flat(),
        (Json::Text(t)).flat() == Flat::Text(t@),
        (Json::Unsigned(n)).flat() == Flat::Unsigned(n),
        (Json::Negative(m)).flat() == Flat::Negative(m),
        (Json::Bool(b)).flat() == Flat::Bool(b),
        Json::Null.flat() == Flat::Null,
        (Json::Text(t))@ == Shape::Plain(Flat::Text(t@)),
        (Json::Unsigned(n))@ == Shape::Plain(Flat::Unsigned(n)),
        (Json::Bool(b))@ == Shape::Plain(Flat::Bool(b)),
        Json::Null@ == Shape::Plain(Flat::Null),
{
}

// ---- writing -------------------------------------------------------------

/// An event is written with each field under its own name, and goes out under
/// the topic of its kind.
pub proof fn events_are_written_by_name(e: Event, r: Json, topic: &'static str)
    requires
        call_ensures(Event::to_json, (&e,), r),
        call_ensures(Event::topic, (&e,), topic),
    ensures
        match e {
            Event::Start(e) => topic@ == "wm.tts.start"@ && r@ == Shape::Object(
                seq![
                    ("text"@, Flat::Text(e.text@)),
                    ("source"@, Flat::Text(e.source@)),
                    ("ts"@, Flat::Unsigned(e.ts)),
                ] + messages::turn_member(e.turn_id),
            ),
            Event::CancelAck(e) => topic@ == "wm.tts.cancel.ack"@ && r@ == Shape::Object(
                seq![
                    ("ts"@, Flat::Unsigned(e.ts)),
                    ("drained_ms"@, Flat::Unsigned(e.drained_ms)),
                ],
            ),
            Event::End(e) => topic@ == "wm.tts.end"@ && r@ == Shape::Object(
                seq![
                    ("text"@, Flat::Text(e.text@)),
                    ("duration_ms"@, Flat::Unsigned(e.duration_ms)),
                    ("outcome"@, Flat::Text(e.outcome@)),
                    ("played_bytes"@, Flat::Unsigned(e.played_bytes)),
                    ("ts"@, Flat::Unsigned(e.ts)),
                ] + messages::turn_member(e.turn_id),
            ),
            Event::Error(e) => topic@ == "wm.tts.error"@ && r@ == Shape::Object(
                seq![
                    ("kind"@, Flat::Text(e.kind@)),
                    ("message"@, Flat::Text(e.message@)),
                    ("ts"@, Flat::Unsigned(e.ts)),
                ],
            ),
            Event::ReloadAck(e) => topic@ == "wm.tts.reload.ack"@ && r@ == Shape::Object(
                seq![
                    ("voice"@, Flat::Text(e.voice@)),
                    ("cache_hits"@, Flat::Unsigned(e.cache_hits as u64)),
                    ("prerendered"@, Flat::Unsigned(e.prerendered as u64)),
                    ("failures"@, Flat::Unsigned(e.failures as u64)),
                    ("elapsed_ms"@, Flat::Unsigned(e.elapsed_ms)),
                    ("ts"@, Flat::Unsigned(e.ts)),
                ],
            ),
        },
{
    match e {
        Event::Start(e) => messages::start_is_written_by_name(e),
        Event::CancelAck(e) => messages::cancel_ack_is_written_by_name(e),
        Event::End(e) => messages::end_is_written_by_name(e),
        Event::Error(e) => messages::error_is_written_by_name(e),
        Event::ReloadAck(e) => messages::reload_ack_is_written_by_name(e),
    }
}

/// An event is written alike, whether as an event or as what it is.
pub proof fn events_are_written_alike(
    a: StartEvent,
    b: CancelAckEvent,
    c: EndEvent,
    d: ErrorEvent,
    e: ReloadAckEvent,
    r: (Json, Json, Json, Json, Json),
    s: (Json, Json, Json, Json, Json),
)
    requires
        call_ensures(StartEvent::to_json, (&a,), r.0),
        call_ensures(CancelAckEvent::to_json, (&b,), r.1),
        call_ensures(EndEvent::to_json, (&c,), r.2),
        call_ensures(ErrorEvent::to_json, (&d,), r.3),
        call_ensures(ReloadAckEvent::to_json, (&e,), r.4),
        call_ensures(Event::to_json, (&Event::Start(a),), s.0),
        call_ensures(Event::to_json, (&Event::CancelAck(b),), s.1),
        call_ensures(Event::to_json, (&Event::End(c),), s.2),
        call_ensures(Event::to_json, (&Event::Error(d),), s.3),
        call_ensures(Event::to_json, (&Event::ReloadAck(e),), s.4),
    ensures
        r.0@ == s.0@,
        r.1@ == s.1@,
        r.2@ == s.2@,
        r.3@ == s.3@,
        r.4@ == s.4@,
{
}

// ---- reading -------------------------------------------------------------

/// A value that is read as a start, or as an acknowledged cancel, has each field
/// from the member of its name.
pub proof fn start_and_ack_are_read_by_name(
    value: Json,
    a: Result<StartEvent, PayloadError>,
    b: Result<CancelAckEvent, PayloadError>,
)
    requires
        call_ensures(StartEvent::from_json, (&value,), a),
        call_ensures(CancelAckEvent::from_json, (&value,), b),
        value@ is Object,
        names_differ(value@->Object_0),
    ensures
        ({
            let members = value@->Object_0;
            &&& a matches Ok(e) ==> {
                &&& holds(members, "text"@, Flat::Text(e.text@))
                &&& holds(members, "source"@, Flat::Text(e.source@))
                &&& holds(members, "ts"@, Flat::Unsigned(e.ts))
                &&& turn_read(members, e.turn_id)
            }
            &&& b matches Ok(e) ==> {
                &&& holds(members, "ts"@, Flat::Unsigned(e.ts))
                &&& holds(members, "drained_ms"@, Flat::Unsigned(e.drained_ms))
            }
        }),
{
    let members = value@->Object_0;
    messages::lemma_found(members, "text"@);
    messages::lemma_found(members, "source"@);
    messages::lemma_found(members, "ts"@);
    messages::lemma_found(members, "turn_id"@);
    messages::lemma_found(members, "drained_ms"@);
    if let Ok(e) = a {
        let fields = StartEvent::schema();
        json::named_contents_are_members(fields, members, 4, 0);
        json::named_contents_are_members(fields, members, 4, 1);
        json::named_contents_are_members(fields, members, 4, 2);
        json::named_contents_are_members(fields, members, 4, 3);
        assert(e.contents()[0] == json::ContentView::Text(e.text@));
        assert(e.contents()[1] == json::ContentView::Text(e.source@));
        assert(e.contents()[2] == json::ContentView::Count(e.ts));
        assert(e.contents()[3] == json::ContentView::OptionalText(request::turn_text(e.turn_id)));
    }
    if let Ok(e) = b {
        let fields = CancelAckEvent::schema();
        json::named_contents_are_members(fields, members, 2, 0);
        json::named_contents_are_members(fields, members, 2, 1);
        assert(e.contents()[0] == json::ContentView::Count(e.ts));
        assert(e.contents()[1] == json::ContentView::Count(e.drained_ms));
    }
}

/// Whether a turn id is the one under its name, or none where there is none.
pub open spec fn turn_read(members: Seq<(Seq<char>, Flat)>, id: Option<TurnId>) -> bool {
    match id {
        Some(t) => holds(members, "turn_id"@, Flat::Text(t.0@)),
        None => lacks(members, "turn_id"@) || holds(members, "turn_id"@, Flat::Null),
    }
}

/// A value that is read as an end, or as an error, has each field from the member
/// of its name.
pub proof fn end_and_error_are_read_by_name(
    value: Json,
    a: Result<EndEvent, PayloadError>,
    b: Result<ErrorEvent, PayloadError>,
)
    requires
        call_ensures(EndEvent::from_json, (&value,), a),
        call_ensures(ErrorEvent::from_json, (&value,), b),
        value@ is Object,
        names_differ(value@->Object_0),
    ensures
        ({
            let members = value@->Object_0;
            &&& a matches Ok(e) ==> {
                &&& holds(members, "text"@, Flat::Text(e.text@))
                &&& holds(members, "duration_ms"@, Flat::Unsigned(e.duration_ms))
                &&& holds(members, "outcome"@, Flat::Text(e.outcome@))
                &&& holds(members, "played_bytes"@, Flat::Unsigned(e.played_bytes))
                &&& holds(members, "ts"@, Flat::Unsigned(e.ts))
                &&& turn_read(members, e.turn_id)
            }
            &&& b matches Ok(e) ==> {
                &&& holds(members, "kind"@, Flat::Text(e.kind@))
                &&& holds(members, "message"@, Flat::Text(e.message@))
                &&& holds(members, "ts"@, Flat::Unsigned(e.ts))
            }
        }),
{
    let members = value@->Object_0;
    messages::lemma_found(members, "text"@);
    messages::lemma_found(members, "duration_ms"@);
    messages::lemma_found(members, "outcome"@);
    messages::lemma_found(members, "played_bytes"@);
    messages::lemma_found(members, "ts"@);
    messages::lemma_found(members, "turn_id"@);
    messages::lemma_found(members, "kind"@);
    messages::lemma_found(members, "message"@);
    if let Ok(e) = a {
        let fields = EndEvent::schema();
        json::named_contents_are_members(fields, members, 6, 0);
        json::named_contents_are_members(fields, members, 6, 1);
        json::named_contents_are_members(fields, members, 6, 2);
        json::named_contents_are_members(fields, members, 6, 3);
        json::named_contents_are_members(fields, members, 6, 4);
        json::named_contents_are_members(fields, members, 6, 5);
        assert(e.contents()[0] == json::ContentView::Text(e.text@));
        assert(e.contents()[1] == json::ContentView::Count(e.duration_ms));
        assert(e.contents()[2] == json::ContentView::Text(e.outcome@));
        assert(e.contents()[3] == json::ContentView::Count(e.played_bytes));
        assert(e.contents()[4] == json::ContentView::Count(e.ts));
        assert(e.contents()[5] == json::ContentView::OptionalText(request::turn_text(e.turn_id)));
    }
    if let Ok(e) = b {
        let fields = ErrorEvent::schema();
        json::named_contents_are_members(fields, members, 3, 0);
        json::named_contents_are_members(fields, members, 3, 1);
        json::named_contents_are_members(fields, members, 3, 2);
        assert(e.contents()[0] == json::ContentView::Text(e.kind@));
        assert(e.contents()[1] == json::ContentView::Text(e.message@));
        assert(e.contents()[2] == json::ContentView::Count(e.ts));
    }
}

/// A value that is read as an acknowledged change of voice has each field from
/// the member of its name.
pub proof fn reload_ack_is_read_by_name(value: Json, r: Result<ReloadAckEvent, PayloadError>)
    requires
        call_ensures(ReloadAckEvent::from_json, (&value,), r),
        value@ is Object,
        names_differ(value@->Object_0),
    ensures
        ({
            let members = value@->Object_0;
            r matches Ok(e) ==> {
                &&& holds(members, "voice"@, Flat::Text(e.voice@))
                &&& holds(members, "cache_hits"@, Flat::Unsigned(e.cache_hits as u64))
                &&& holds(members, "prerendered"@, Flat::Unsigned(e.prerendered as u64))
                &&& holds(members, "failures"@, Flat::Unsigned(e.failures as u64))
                &&& holds(members, "elapsed_ms"@, Flat::Unsigned(e.elapsed_ms))
                &&& holds(members, "ts"@, Flat::Unsigned(e.ts))
            }
        }),
{
    let members = value@->Object_0;
    messages::lemma_found(members, "voice"@);
    messages::lemma_found(members, "cache_hits"@);
    messages::lemma_found(members, "prerendered"@);
    messages::lemma_found(members, "failures"@);
    messages::lemma_found(members, "elapsed_ms"@);
    messages::lemma_found(members, "ts"@);
    if let Ok(e) = r {
        let fields = ReloadAckEvent::schema();
        json::named_contents_are_members(fields, members, 6, 0);
        json::named_contents_are_members(fields, members, 6, 1);
        json::named_contents_are_members(fields, members, 6, 2);
        json::named_contents_are_members(fields, members, 6, 3);
        json::named_contents_are_members(fields, members, 6, 4);
        json::named_contents_are_members(fields, members, 6, 5);
        assert(e.contents()[0] == json::ContentView::Text(e.voice@));
        assert(e.contents()[1] == json::ContentView::Size(e.cache_hits));
        assert(e.contents()[2] == json::ContentView::Size(e.prerendered));
        assert(e.contents()[3] == json::ContentView::Size(e.failures));
        assert(e.contents()[4] == json::ContentView::Count(e.elapsed_ms));
        assert(e.contents()[5] == json::ContentView::Count(e.ts));
    }
}

/// What was written is read back: every event that is written is accepted, and
/// each of its fields comes back.
pub proof fn written_reload_ack_is_read_back(
    e: ReloadAckEvent,
    value: Json,
    r: Result<ReloadAckEvent, PayloadError>,
)
    requires
        call_ensures(ReloadAckEvent::to_json, (&e,), value),
        call_ensures(ReloadAckEvent::from_json, (&value,), r),
    ensures
        r matches Ok(q) && q.voice@ == e.voice@ && q.cache_hits == e.cache_hits && q.prerendered
            == e.prerendered && q.failures == e.failures && q.elapsed_ms == e.elapsed_ms && q.ts
            == e.ts,
{
    ReloadAckEvent::round_trip(e);
    let q = r->Ok_0;
    assert(q.contents()[0] == e.contents()[0]);
    assert(q.contents()[1] == e.contents()[1]);
    assert(q.contents()[2] == e.contents()[2]);
    assert(q.contents()[3] == e.contents()[3]);
    assert(q.contents()[4] == e.contents()[4]);
    assert(q.contents()[5] == e.contents()[5]);
}

// ---- requests ------------------------------------------------------------

/// A message is decoded by its topic into the request that its payload carries:
/// a request to speak has the text, the priority, whether to cancel first and the
/// turn from the members of their names, and a change of voice the voice.
pub proof fn messages_are_decoded_by_name(
    topic: &str,
    data: Json,
    r: Result<Request, DecodeError>,
)
    requires
        call_ensures(bus::decode_request, (topic, &data), r),
        data@ is Object,
        names_differ(data@->Object_0),
    ensures
        ({
            let members = data@->Object_0;
            &&& topic@ == "wm.tts.speak"@ ==> (r is Ok <==> messages::well_typed_speak(members)
                && !lacks(members, "text"@))
            &&& topic@ == "wm.tts.cancel"@ ==> (r matches Ok(Request::Cancel(_)))
            &&& r matches Ok(Request::Speak(q)) ==> {
                &&& topic@ == "wm.tts.speak"@
                &&& holds(members, "text"@, Flat::Text(q.text@))
                &&& match q.priority {
                    Some(p) => holds(members, "priority"@, Flat::Text(p@)),
                    None => lacks(members, "priority"@) || holds(
                        members,
                        "priority"@,
                        Flat::Null,
                    ),
                }
                &&& q.cancel_previous <==> holds(
                    members,
                    "cancel_previous"@,
                    Flat::Bool(true),
                )
                &&& turn_read(members, q.turn_id)
            }
            &&& r matches Ok(Request::ReloadVoice(q)) ==> topic@ == "wm.tts.reload_voice"@
                && holds(members, "voice"@, Flat::Text(q.voice@))
            &&& (r matches Err(DecodeError::UnknownTopic(_))) <==> topic@ != "wm.tts.speak"@
                && topic@ != "wm.tts.cancel"@ && topic@ != "wm.tts.reload_voice"@
        }),
{
    let members = data@->Object_0;
    messages::topic_says_what_is_decoded(topic@, data@, r);
    messages::speak_request_is_accepted_iff_well_typed(members);
    messages::reload_request_carries_its_voice(members);
    bus::lemma_topics_differ();
    if let Ok(Request::Speak(q)) = r {
        messages::speak_request_carries_its_payload(members, q);
        messages::lemma_found(members, "cancel_previous"@);
    }
}

/// How a request to speak that cannot be read is told: by the first member that
/// is wrong, as a repeated one or as one of the wrong type, or else by the text
/// that is missing.
pub proof fn first_wrong_member_is_told(
    members: Seq<(Seq<char>, Flat)>,
    i: int,
    value: Json,
    e: PayloadError,
)
    requires
        call_ensures(SpeakRequest::from_json, (&value,), Err(e)),
        value@ == Shape::Object(members),
        0 <= i <= members.len(),
        names_differ(members.take(i)),
        messages::well_typed_speak(members.take(i)),
    ensures
        i == members.len() ==> e@.words() == "missing field `"@ + "text"@ + "`"@,
        i < members.len() ==> {
            let (name, v) = members[i];
            let known = name == "text"@ || name == "priority"@ || name == "cancel_previous"@
                || name == "turn_id"@;
            let again = !lacks(members.take(i), name);
            &&& known && again ==> e@.words() == "duplicate field `"@ + name + "`"@
            &&& !again && name == "text"@ && !(v is Text) ==> e@.words() == "invalid type: "@
                + json::described(v) + ", expected "@ + "a string"@
            &&& !again && (name == "priority"@ || name == "turn_id"@) && !(v is Text || v is Null)
                ==> e@.words() == "invalid type: "@ + json::described(v) + ", expected "@
                + "a string"@
            &&& !again && name == "cancel_previous"@ && !(v is Bool) ==> e@.words()
                == "invalid type: "@ + json::described(v) + ", expected "@ + "a boolean"@
        },
{
    let fields = SpeakRequest::schema();
    messages::lemma_speak_names();
    assert forall|k: nat| k < i implies #[trigger] json::member_fault(fields, members, k)
        is None by {
        let front = members.take(i);
        assert(front[k as int] == members[k as int]);
        let name = members[k as int].0;
        messages::lemma_kinds(name);
        messages::lemma_member(members, name, k);
        if json::member(members, name, k) is Some {
            let w = json::member(members, name, k)->0;
            let j = choose|j: int| 0 <= j < k && #[trigger] members[j] == (name, w);
            assert(front[j] == members[j]);
            assert(front[j].0 != front[k as int].0);
        }
    }
    messages::lemma_no_fault(fields, members, i as nat);
    assert(json::contents("SpeakRequest"@, fields, value@) == Err::<
        Seq<json::ContentView>,
        _,
    >(e@));
    if i < members.len() {
        let (name, v) = members[i];
        let front = members.take(i);
        messages::lemma_kinds(name);
        messages::lemma_member(members, name, i as nat);
        let again = !lacks(front, name);
        if again {
            let j = choose|j: int| 0 <= j < front.len() && #[trigger] front[j].0 == name;
            assert(members[j].0 == name);
        } else if json::member(members, name, i as nat) is Some {
            let w = json::member(members, name, i as nat)->0;
            let j = choose|j: int| 0 <= j < i && #[trigger] members[j] == (name, w);
            assert(front[j].0 == name);
        }
        assert(json::first_fault(fields, members, (i + 1) as nat) == json::member_fault(
            fields,
            members,
            i as nat,
        ));
        if json::member_fault(fields, members, i as nat) is Some {
            json::lemma_first_fault(fields, members, (i + 1) as nat, members.len());
        }
    } else {
        assert(members.take(i) =~= members);
        messages::speak_request_is_accepted_iff_well_typed(members);
        messages::lemma_found(members, "text"@);
        reveal_with_fuel(json::named_contents, 5);
        lemma_only_text_is_missing(members);
    }
}

proof fn lemma_only_text_is_missing(members: Seq<(Seq<char>, Flat)>)
    requires
        lacks(members, "text"@),
        names_differ(members),
    ensures
        json::named_contents(SpeakRequest::schema(), members, 4) == Err::<
            Seq<json::ContentView>,
            _,
        >(json::Fault::Missing("text"@)),
{
    messages::lemma_found(members, "text"@);
    reveal_with_fuel(json::named_contents, 5);
}

/// A payload that is no record is told by what it is, and one that is a list of
/// the wrong length by its length.
pub proof fn payload_of_the_wrong_form_is_told(
    value: Json,
    a: Result<SpeakRequest, PayloadError>,
    b: Result<ReloadVoiceRequest, PayloadError>,
    c: Result<CancelRequest, PayloadError>,
)
    requires
        call_ensures(SpeakRequest::from_json, (&value,), a),
        call_ensures(ReloadVoiceRequest::from_json, (&value,), b),
        call_ensures(CancelRequest::from_json, (&value,), c),
    ensures
        value@ matches Shape::Plain(v) ==> {
            &&& a matches Err(e) && e@.words() == "invalid type: "@ + json::described(v)
                + ", expected "@ + ("struct "@ + "SpeakRequest"@)
            &&& b matches Err(e) && e@.words() == "invalid type: "@ + json::described(v)
                + ", expected "@ + ("struct "@ + "ReloadVoiceRequest"@)
            &&& c matches Err(e) && e@.words() == "invalid type: "@ + json::described(v)
                + ", expected "@ + ("struct "@ + "CancelRequest"@)
        },
        value@ == Shape::List(Seq::empty()) ==> {
            &&& a matches Err(e) && e@.words() == "invalid length "@ + text::decimal_text(0)
                + ", expected struct "@ + "SpeakRequest"@ + " with "@ + text::decimal_text(4)
                + " elements"@
            &&& b matches Err(e) && e@.words() == "invalid length "@ + text::decimal_text(0)
                + ", expected struct "@ + "ReloadVoiceRequest"@ + " with "@ + text::decimal_text(
                1,
            ) + " element"@
            &&& c is Ok
        },
        value@ matches Shape::List(items) ==> (items.len() > 0 ==> (c matches Err(e) && e@.words()
            == "invalid length "@ + text::decimal_text(items.len())
            + ", expected fewer elements in array"@)),
{
    reveal_with_fuel(json::listed_contents, 5);
}

/// How an event that cannot be read is told: what is no record by its kind, and a
/// number that is negative, or no number, by what was expected in its place.
pub proof fn event_of_the_wrong_form_is_told(
    value: Json,
    a: Result<StartEvent, PayloadError>,
    b: Result<CancelAckEvent, PayloadError>,
    c: Result<EndEvent, PayloadError>,
    d: Result<ErrorEvent, PayloadError>,
    e: Result<ReloadAckEvent, PayloadError>,
)
    requires
        call_ensures(StartEvent::from_json, (&value,), a),
        call_ensures(CancelAckEvent::from_json, (&value,), b),
        call_ensures(EndEvent::from_json, (&value,), c),
        call_ensures(ErrorEvent::from_json, (&value,), d),
        call_ensures(ReloadAckEvent::from_json, (&value,), e),
    ensures
        value@ matches Shape::Plain(v) ==> {
            let found = "invalid type: "@ + json::described(v) + ", expected "@;
            &&& a matches Err(f) && f@.words() == found + ("struct "@ + "StartEvent"@)
            &&& b matches Err(f) && f@.words() == found + ("struct "@ + "CancelAckEvent"@)
            &&& c matches Err(f) && f@.words() == found + ("struct "@ + "EndEvent"@)
            &&& d matches Err(f) && f@.words() == found + ("struct "@ + "ErrorEvent"@)
            &&& e matches Err(f) && f@.words() == found + ("struct "@ + "ReloadAckEvent"@)
        },
        value@ matches Shape::Object(members) ==> (members.len() > 0 && members[0].0 == "ts"@ ==> {
            let v = members[0].1;
            &&& v is Negative ==> (b matches Err(f) && f@.words() == "invalid value: "@
                + json::described(v) + ", expected "@ + "u64"@)
            &&& v is Text || v is Bool || v is Null || v is Float ==> (b matches Err(f)
                && f@.words() == "invalid type: "@ + json::described(v) + ", expected "@
                + "u64"@)
        }),
        value@ matches Shape::Object(members) ==> (members.len() > 0 && members[0].0
            == "cache_hits"@ ==> {
            let v = members[0].1;
            &&& v is Negative ==> (e matches Err(f) && f@.words() == "invalid value: "@
                + json::described(v) + ", expected "@ + "usize"@)
            &&& v is Text || v is Bool || v is Null || v is Float ==> (e matches Err(f)
                && f@.words() == "invalid type: "@ + json::described(v) + ", expected "@
                + "usize"@)
        }),
{
    if let Shape::Object(members) = value@ {
        if members.len() > 0 && members[0].0 == "ts"@ {
            lemma_first_member(CancelAckEvent::schema(), members);
            reveal_strlit("ts");
            reveal_strlit("drained_ms");
            assert("ts"@.len() == 2 && "drained_ms"@.len() == 10);
            reveal_with_fuel(json::kind_of, 3);
            assert(CancelAckEvent::schema().drop_last().last() == ("ts"@, json::Kind::Count));
        }
        if members.len() > 0 && members[0].0 == "cache_hits"@ {
            lemma_first_member(ReloadAckEvent::schema(), members);
            ReloadAckEvent::lemma_distinct();
            json::lemma_kind_of(ReloadAckEvent::schema(), 1);
        }
    }
}

proof fn lemma_first_member(
    fields: Seq<(Seq<char>, json::Kind)>,
    members: Seq<(Seq<char>, Flat)>,
)
    requires
        members.len() > 0,
    ensures
        json::member_fault(fields, members, 0) is Some ==> json::first_fault(
            fields,
            members,
            members.len(),
        ) == json::member_fault(fields, members, 0),
{
    reveal_with_fuel(json::first_fault, 2);
    if json::member_fault(fields, members, 0) is Some {
        json::lemma_first_fault(fields, members, 1, members.len());
    }
}

/// A list that is too short or too long is told by its length: an error has
/// three fields, and a request to speak no more than four.
pub proof fn list_of_the_wrong_length_is_told(
    value: Json,
    items: Seq<Flat>,
    d: Result<ErrorEvent, PayloadError>,
    q: Result<SpeakRequest, PayloadError>,
)
    requires
        call_ensures(ErrorEvent::from_json, (&value,), d),
        call_ensures(SpeakRequest::from_json, (&value,), q),
        value@ == Shape::List(items),
    ensures
        items.len() < 3 && (items.len() > 0 ==> items[0] is Text) && (items.len() > 1 ==> items[1]
            is Text) ==> (d matches Err(f) && f@.words() == "invalid length "@
            + text::decimal_text(items.len()) + ", expected struct "@ + "ErrorEvent"@ + " with "@
            + text::decimal_text(3) + " elements"@),
        items.len() == 3 && items[0] is Text && items[1] is Text && items[2] is Unsigned ==> (
        d matches Ok(e) && items[0] == Flat::Text(e.kind@) && items[1] == Flat::Text(e.message@)
            && items[2] == Flat::Unsigned(e.ts)),
        items.len() > 4 && items[0] is Text && items[1] is Null && items[2] is Bool && items[3]
            is Null ==> (q matches Err(f) && f@.words() == "invalid length "@
            + text::decimal_text(items.len()) + ", expected fewer elements in array"@),
{
    reveal_with_fuel(json::listed_contents, 5);
    if let Ok(e) = d {
        assert(e.contents()[0] == json::ContentView::Text(e.kind@));
        assert(e.contents()[1] == json::ContentView::Text(e.message@));
        assert(e.contents()[2] == json::ContentView::Count(e.ts));
    }
}

/// What is wrong with a message is what is wrong with the request that its topic
/// asks for.
pub proof fn message_is_wrong_as_its_request_is(
    topic: &str,
    data: Json,
    e: PayloadError,
    a: Result<SpeakRequest, PayloadError>,
    b: Result<ReloadVoiceRequest, PayloadError>,
    c: Result<CancelRequest, PayloadError>,
)
    requires
        call_ensures(bus::decode_request, (topic, &data), Err(DecodeError::Json(e))),
        call_ensures(SpeakRequest::from_json, (&data,), a),
        call_ensures(ReloadVoiceRequest::from_json, (&data,), b),
        call_ensures(CancelRequest::from_json, (&data,), c),
    ensures
        topic@ == "wm.tts.speak"@ ==> (a matches Err(f) && f@ == e@),
        topic@ == "wm.tts.reload_voice"@ ==> (b matches Err(f) && f@ == e@),
        topic@ == "wm.tts.cancel"@ ==> (c matches Err(f) && f@ == e@),
{
    bus::lemma_topics_differ();
}

/// The words of an error are those of its fault.
pub proof fn errors_say_their_fault(e: PayloadError, r: String, d: DecodeError, s: String)
    requires
        call_ensures(PayloadError::message, (&e,), r),
        call_ensures(DecodeError::message, (&d,), s),
    ensures
        r@ == e@.words(),
        match e {
            PayloadError::Missing(name) => r@ == "missing field `"@ + name@ + "`"@,
            PayloadError::Duplicate(name) => r@ == "duplicate field `"@ + name@ + "`"@,
            PayloadError::WrongType(found, expected) => r@ == "invalid type: "@ + found@
                + ", expected "@ + expected@,
            PayloadError::WrongValue(found, expected) => r@ == "invalid value: "@ + found@
                + ", expected "@ + expected@,
            PayloadError::TooLong(len) => r@ == "invalid length "@ + text::decimal_text(
                len as nat,
            ) + ", expected fewer elements in array"@,
            _ => true,
        },
        match d {
            DecodeError::UnknownTopic(topic) => s@ == "unknown topic: "@ + topic@,
            DecodeError::Json(fault) => s@ == "payload decode failed: "@ + fault@.words(),
        },
{
}

} // verus!
