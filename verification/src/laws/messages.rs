//! Messages on the bus: under which topics and in which form they go out and
//! come in.

use crate::bus;
use crate::bus::event;
use crate::bus::event::{
    CancelAckEvent, EndEvent, ErrorEvent, Event, ReloadAckEvent, StartEvent,
};
use crate::bus::request;
use crate::bus::request::{DecodeError, ReloadVoiceRequest, Request, SpeakRequest};
use crate::bus::turn;
use crate::json;
use crate::json::{Flat, Shape};
use crate::laws::texts;
use crate::single::Single;
use crate::text;
use vstd::prelude::*;

verus! {

// ---- events --------------------------------------------------------------

/// Each kind of event has a topic of its own.
pub proof fn each_event_has_its_topic(e: Event)
    ensures
        e is Start <==> e.on_topic() == "wm.tts.start"@,
        e is CancelAck <==> e.on_topic() == "wm.tts.cancel.ack"@,
        e is End <==> e.on_topic() == "wm.tts.end"@,
        e is Error <==> e.on_topic() == "wm.tts.error"@,
        e is ReloadAck <==> e.on_topic() == "wm.tts.reload.ack"@,
{
    reveal_strlit("wm.tts.start");
    reveal_strlit("wm.tts.cancel.ack");
    reveal_strlit("wm.tts.end");
    reveal_strlit("wm.tts.error");
    reveal_strlit("wm.tts.reload.ack");
    assert("wm.tts.start"@.len() == 12);
    assert("wm.tts.cancel.ack"@.len() == 17);
    assert("wm.tts.end"@.len() == 10);
    assert("wm.tts.error"@.len() == 12);
    assert("wm.tts.reload.ack"@.len() == 17);
    assert("wm.tts.start"@[7] == 's' && "wm.tts.error"@[7] == 'e');
    assert("wm.tts.cancel.ack"@[7] == 'c' && "wm.tts.reload.ack"@[7] == 'r');
}

/// The member of a turn id, where there is one.
pub open spec fn turn_member(id: Option<turn::TurnId>) -> Seq<(Seq<char>, Flat)> {
    if id is Some {
        seq![("turn_id"@, Flat::Text((id->0).0@))]
    } else {
        Seq::empty()
    }
}

/// The payload of a start holds each of its fields under the field's name, and
/// a turn id where there is one.
pub proof fn start_is_written_by_name(e: StartEvent)
    ensures
        json::written_record(StartEvent::schema(), e.contents()) == Shape::Object(
            seq![
                ("text"@, Flat::Text(e.text@)),
                ("source"@, Flat::Text(e.source@)),
                ("ts"@, Flat::Unsigned(e.ts)),
            ] + turn_member(e.turn_id),
        ),
{
    reveal_with_fuel(json::written_members, 5);
    assert(json::written_members(StartEvent::schema(), e.contents(), 4) =~= seq![
        ("text"@, Flat::Text(e.text@)),
        ("source"@, Flat::Text(e.source@)),
        ("ts"@, Flat::Unsigned(e.ts)),
    ] + turn_member(e.turn_id));
}

/// The payload of an acknowledged cancel holds each of its fields under the
/// field's name.
pub proof fn cancel_ack_is_written_by_name(e: CancelAckEvent)
    ensures
        json::written_record(CancelAckEvent::schema(), e.contents()) == Shape::Object(
            seq![
                ("ts"@, Flat::Unsigned(e.ts)),
                ("drained_ms"@, Flat::Unsigned(e.drained_ms)),
            ],
        ),
{
    reveal_with_fuel(json::written_members, 3);
    assert(json::written_members(CancelAckEvent::schema(), e.contents(), 2) =~= seq![
        ("ts"@, Flat::Unsigned(e.ts)),
        ("drained_ms"@, Flat::Unsigned(e.drained_ms)),
    ]);
}

/// The payload of an end holds each of its fields under the field's name, and a
/// turn id where there is one.
pub proof fn end_is_written_by_name(e: EndEvent)
    ensures
        json::written_record(EndEvent::schema(), e.contents()) == Shape::Object(
            seq![
                ("text"@, Flat::Text(e.text@)),
                ("duration_ms"@, Flat::Unsigned(e.duration_ms)),
                ("outcome"@, Flat::Text(e.outcome@)),
                ("played_bytes"@, Flat::Unsigned(e.played_bytes)),
                ("ts"@, Flat::Unsigned(e.ts)),
            ] + turn_member(e.turn_id),
        ),
{
    reveal_with_fuel(json::written_members, 7);
    assert(json::written_members(EndEvent::schema(), e.contents(), 6) =~= seq![
        ("text"@, Flat::Text(e.text@)),
        ("duration_ms"@, Flat::Unsigned(e.duration_ms)),
        ("outcome"@, Flat::Text(e.outcome@)),
        ("played_bytes"@, Flat::Unsigned(e.played_bytes)),
        ("ts"@, Flat::Unsigned(e.ts)),
    ] + turn_member(e.turn_id));
}

/// The payload of an acknowledged change of voice holds each of its fields
/// under the field's name: the phrases found on disk as `cache_hits`, those
/// rendered as `prerendered`, and so on.
pub proof fn reload_ack_is_written_by_name(e: ReloadAckEvent)
    ensures
        json::written_record(ReloadAckEvent::schema(), e.contents()) == Shape::Object(
            seq![
                ("voice"@, Flat::Text(e.voice@)),
                ("cache_hits"@, Flat::Unsigned(e.cache_hits as u64)),
                ("prerendered"@, Flat::Unsigned(e.prerendered as u64)),
                ("failures"@, Flat::Unsigned(e.failures as u64)),
                ("elapsed_ms"@, Flat::Unsigned(e.elapsed_ms)),
                ("ts"@, Flat::Unsigned(e.ts)),
            ],
        ),
{
    reveal_with_fuel(json::written_members, 7);
    assert(json::written_members(ReloadAckEvent::schema(), e.contents(), 6) =~= seq![
        ("voice"@, Flat::Text(e.voice@)),
        ("cache_hits"@, Flat::Unsigned(e.cache_hits as u64)),
        ("prerendered"@, Flat::Unsigned(e.prerendered as u64)),
        ("failures"@, Flat::Unsigned(e.failures as u64)),
        ("elapsed_ms"@, Flat::Unsigned(e.elapsed_ms)),
        ("ts"@, Flat::Unsigned(e.ts)),
    ]);
}

/// The payload of an error holds each of its fields under the field's name.
pub proof fn error_is_written_by_name(e: ErrorEvent)
    ensures
        json::written_record(ErrorEvent::schema(), e.contents()) == Shape::Object(
            seq![
                ("kind"@, Flat::Text(e.kind@)),
                ("message"@, Flat::Text(e.message@)),
                ("ts"@, Flat::Unsigned(e.ts)),
            ],
        ),
{
    reveal_with_fuel(json::written_members, 4);
    assert(json::written_members(ErrorEvent::schema(), e.contents(), 3) =~= seq![
        ("kind"@, Flat::Text(e.kind@)),
        ("message"@, Flat::Text(e.message@)),
        ("ts"@, Flat::Unsigned(e.ts)),
    ]);
}

/// Two events that look the same to a handler have the same fields: nothing of
/// an event is lost between what a handler says of it and what is published.
pub proof fn nothing_of_an_event_is_lost(e: Event)
    ensures
        match (e, e@) {
            (Event::Start(s), event::EventView::Start { text, source, ts, turn_id }) => {
                &&& text == s.text@
                &&& source == s.source@
                &&& ts == s.ts
                &&& (turn_id is Some <==> s.turn_id is Some)
                &&& turn_id is Some ==> turn_id->0 == (s.turn_id->0).0@
            },
            (Event::CancelAck(a), event::EventView::CancelAck { ts, drained_ms }) => ts == a.ts
                && drained_ms == a.drained_ms,
            (
                Event::End(d),
                event::EventView::End { text, duration_ms, outcome, played_bytes, ts, turn_id },
            ) => {
                &&& text == d.text@
                &&& duration_ms == d.duration_ms
                &&& outcome == d.outcome@
                &&& played_bytes == d.played_bytes
                &&& ts == d.ts
                &&& (turn_id is Some <==> d.turn_id is Some)
                &&& turn_id is Some ==> turn_id->0 == (d.turn_id->0).0@
            },
            (Event::Error(f), event::EventView::Error { kind, message, ts }) => kind == f.kind@
                && message == f.message@ && ts == f.ts,
            (
                Event::ReloadAck(a),
                event::EventView::ReloadAck {
                    voice,
                    cache_hits,
                    prerendered,
                    failures,
                    elapsed_ms,
                    ts,
                },
            ) => {
                &&& voice == a.voice@
                &&& cache_hits == a.cache_hits
                &&& prerendered == a.prerendered
                &&& failures == a.failures
                &&& elapsed_ms == a.elapsed_ms
                &&& ts == a.ts
            },
            _ => false,
        },
{
}

// ---- reading records -----------------------------------------------------

/// Whether no two members have the same name.
pub open spec fn names_differ(members: Seq<(Seq<char>, Flat)>) -> bool {
    forall|i: int, j: int|
        0 <= i < j < members.len() ==> (#[trigger] members[i]).0 != (#[trigger] members[j]).0
}

/// Whether a value stands under a name.
pub open spec fn holds(members: Seq<(Seq<char>, Flat)>, name: Seq<char>, value: Flat) -> bool {
    members.contains((name, value))
}

/// Whether nothing stands under a name.
pub open spec fn lacks(members: Seq<(Seq<char>, Flat)>, name: Seq<char>) -> bool {
    forall|i: int| 0 <= i < members.len() ==> (#[trigger] members[i]).0 != name
}

pub(crate) proof fn lemma_member(members: Seq<(Seq<char>, Flat)>, name: Seq<char>, n: nat)
    requires
        n <= members.len(),
    ensures
        match json::member(members, name, n) {
            Some(v) => exists|i: int| 0 <= i < n && #[trigger] members[i] == (name, v),
            None => forall|i: int| 0 <= i < n ==> (#[trigger] members[i]).0 != name,
        },
    decreases n,
{
    if n > 0 {
        lemma_member(members, name, (n - 1) as nat);
        if members[n - 1].0 == name {
            assert(members[n - 1] == (name, members[n - 1].1));
        }
    }
}

/// What a record reads under a name is the value that stands there.
pub(crate) proof fn lemma_found(members: Seq<(Seq<char>, Flat)>, name: Seq<char>)
    requires
        names_differ(members),
    ensures
        forall|v: Flat| #[trigger]
            holds(members, name, v) <==> json::member(members, name, members.len()) == Some(v),
        lacks(members, name) <==> json::member(members, name, members.len()) is None,
{
    lemma_member(members, name, members.len());
    assert forall|v: Flat| #[trigger] holds(members, name, v) implies json::member(
        members,
        name,
        members.len(),
    ) == Some(v) by {
        let i = choose|i: int| 0 <= i < members.len() && members[i] == (name, v);
        assert(members[i].0 == name);
        let w = json::member(members, name, members.len())->0;
        let j = choose|j: int| 0 <= j < members.len() && #[trigger] members[j] == (name, w);
        if i < j {
            assert(members[i].0 != members[j].0);
        } else if j < i {
            assert(members[j].0 != members[i].0);
        }
    }
}

/// A speak request carries what stands in its payload under each name: the
/// text; the priority and the turn id where they are texts; and whether to
/// cancel first, which it does not where nothing is said.
pub proof fn speak_request_carries_its_payload(
    members: Seq<(Seq<char>, Flat)>,
    q: SpeakRequest,
)
    requires
        names_differ(members),
        json::contents("SpeakRequest"@, SpeakRequest::schema(), Shape::Object(members)) == Ok::<
            _,
            json::Fault,
        >(q.contents()),
    ensures
        holds(members, "text"@, Flat::Text(q.text@)),
        match q.priority {
            Some(p) => holds(members, "priority"@, Flat::Text(p@)),
            None => lacks(members, "priority"@) || holds(members, "priority"@, Flat::Null),
        },
        q.cancel_previous ==> holds(members, "cancel_previous"@, Flat::Bool(true)),
        !q.cancel_previous ==> lacks(members, "cancel_previous"@) || holds(
            members,
            "cancel_previous"@,
            Flat::Bool(false),
        ),
        match q.turn_id {
            Some(id) => holds(members, "turn_id"@, Flat::Text(id.0@)),
            None => lacks(members, "turn_id"@) || holds(members, "turn_id"@, Flat::Null),
        },
{
    let fields = SpeakRequest::schema();
    lemma_found(members, "text"@);
    lemma_found(members, "priority"@);
    lemma_found(members, "cancel_previous"@);
    lemma_found(members, "turn_id"@);
    json::named_contents_are_members(fields, members, 4, 0);
    json::named_contents_are_members(fields, members, 4, 1);
    json::named_contents_are_members(fields, members, 4, 2);
    json::named_contents_are_members(fields, members, 4, 3);
    assert(q.contents()[0] == json::ContentView::Text(q.text@));
    lemma_speak_contents(q);
}

pub(crate) proof fn lemma_speak_contents(q: SpeakRequest)
    ensures
        q.contents().len() == 4,
        q.contents()[0] == json::ContentView::Text(q.text@),
        q.contents()[1] == json::ContentView::OptionalText(json::optional(q.priority)),
        q.contents()[2] == json::ContentView::Flag(q.cancel_previous),
        q.contents()[3] == json::ContentView::OptionalText(request::turn_text(q.turn_id)),
{
}

/// A speak request that comes as an array carries its elements in order: the
/// text, the priority, whether to cancel first, and the turn id; the last three
/// may be left out.
pub proof fn speak_request_may_be_an_array(items: Seq<Flat>, q: SpeakRequest)
    requires
        json::contents("SpeakRequest"@, SpeakRequest::schema(), Shape::List(items)) == Ok::<
            _,
            json::Fault,
        >(q.contents()),
    ensures
        1 <= items.len() <= 4,
        items[0] == Flat::Text(q.text@),
        items.len() >= 2 && q.priority is Some ==> items[1] == Flat::Text(q.priority->0@),
        items.len() < 2 || items[1] is Null ==> q.priority is None,
        items.len() >= 3 ==> items[2] == Flat::Bool(q.cancel_previous),
        items.len() < 3 ==> !q.cancel_previous,
        items.len() >= 4 && q.turn_id is Some ==> items[3] == Flat::Text((q.turn_id->0).0@),
        items.len() < 4 || items[3] is Null ==> q.turn_id is None,
{
    reveal_with_fuel(json::listed_contents, 5);
    lemma_speak_contents(q);
}

/// Whether every member that a speak request knows is of the right type.
pub open spec fn well_typed_speak(members: Seq<(Seq<char>, Flat)>) -> bool {
    forall|i: int|
        0 <= i < members.len() ==> {
            let (name, value) = #[trigger] members[i];
            &&& name == "text"@ ==> value is Text
            &&& name == "priority"@ ==> value is Text || value is Null
            &&& name == "cancel_previous"@ ==> value is Bool
            &&& name == "turn_id"@ ==> value is Text || value is Null
        }
}

/// A speak request is accepted exactly if it has a text and every member that it
/// knows is of the right type; members that it does not know do not matter.
pub proof fn speak_request_is_accepted_iff_well_typed(members: Seq<(Seq<char>, Flat)>)
    requires
        names_differ(members),
    ensures
        json::contents("SpeakRequest"@, SpeakRequest::schema(), Shape::Object(members)) is Ok
            <==> well_typed_speak(members) && !lacks(members, "text"@),
{
    let fields = SpeakRequest::schema();
    lemma_speak_names();
    lemma_found(members, "text"@);
    lemma_found(members, "priority"@);
    lemma_found(members, "cancel_previous"@);
    lemma_found(members, "turn_id"@);
    assert forall|i: nat| i < members.len() implies (json::member_fault(fields, members, i) is None
        <==> {
        let (name, value) = #[trigger] members[i as int];
        &&& name == "text"@ ==> value is Text
        &&& name == "priority"@ ==> value is Text || value is Null
        &&& name == "cancel_previous"@ ==> value is Bool
        &&& name == "turn_id"@ ==> value is Text || value is Null
    }) by {
        lemma_kinds(members[i as int].0);
        lemma_member(members, members[i as int].0, i);
        if json::member(members, members[i as int].0, i) is Some {
            let v = json::member(members, members[i as int].0, i)->0;
            let k = choose|k: int|
                0 <= k < i && #[trigger] members[k] == (members[i as int].0, v);
            assert(members[k].0 != members[i as int].0);
        }
    }
    lemma_no_fault(fields, members, members.len());
    if well_typed_speak(members) && !lacks(members, "text"@) {
        reveal_with_fuel(json::named_contents, 5);
        assert forall|i: nat| i < members.len() implies json::member_fault(
            fields,
            members,
            i,
        ) is None by {
            let m = members[i as int];
        }
        lemma_member(members, "text"@, members.len());
        lemma_member(members, "priority"@, members.len());
        lemma_member(members, "cancel_previous"@, members.len());
        lemma_member(members, "turn_id"@, members.len());
        assert(json::named_content(fields[0], members) is Ok);
        assert(json::named_content(fields[1], members) is Ok);
        assert(json::named_content(fields[2], members) is Ok);
        assert(json::named_content(fields[3], members) is Ok);
    }
    if json::contents("SpeakRequest"@, fields, Shape::Object(members)) is Ok {
        json::named_contents_are_members(fields, members, 4, 0);
        assert forall|i: int| 0 <= i < members.len() implies {
            let (name, value) = #[trigger] members[i];
            &&& name == "text"@ ==> value is Text
            &&& name == "priority"@ ==> value is Text || value is Null
            &&& name == "cancel_previous"@ ==> value is Bool
            &&& name == "turn_id"@ ==> value is Text || value is Null
        } by {
            assert(json::member_fault(fields, members, i as nat) is None);
        }
    }
}

pub(crate) proof fn lemma_no_fault(
    fields: Seq<(Seq<char>, json::Kind)>,
    members: Seq<(Seq<char>, Flat)>,
    n: nat,
)
    ensures
        json::first_fault(fields, members, n) is None <==> forall|i: nat|
            i < n ==> #[trigger] json::member_fault(fields, members, i) is None,
    decreases n,
{
    if n > 0 {
        lemma_no_fault(fields, members, (n - 1) as nat);
        assert(json::first_fault(fields, members, n) is None ==> json::member_fault(
            fields,
            members,
            (n - 1) as nat,
        ) is None);
    }
}

pub(crate) proof fn lemma_speak_names()
    ensures
        "text"@ != "priority"@,
        "text"@ != "cancel_previous"@,
        "text"@ != "turn_id"@,
        "priority"@ != "cancel_previous"@,
        "priority"@ != "turn_id"@,
        "cancel_previous"@ != "turn_id"@,
{
    reveal_strlit("text");
    reveal_strlit("priority");
    reveal_strlit("cancel_previous");
    reveal_strlit("turn_id");
    assert("text"@.len() == 4 && "priority"@.len() == 8 && "cancel_previous"@.len() == 15
        && "turn_id"@.len() == 7);
}

pub(crate) proof fn lemma_kinds(name: Seq<char>)
    ensures
        json::kind_of(SpeakRequest::schema(), name) == (if name == "turn_id"@ {
            Some(json::Kind::OptionalText)
        } else if name == "cancel_previous"@ {
            Some(json::Kind::Flag)
        } else if name == "priority"@ {
            Some(json::Kind::OptionalText)
        } else if name == "text"@ {
            Some(json::Kind::Text)
        } else {
            None
        }),
{
    let f = SpeakRequest::schema();
    reveal_with_fuel(json::kind_of, 6);
    assert(f.last() == ("turn_id"@, json::Kind::OptionalText));
    assert(f.drop_last().last() == ("cancel_previous"@, json::Kind::Flag));
    assert(f.drop_last().drop_last().last() == ("priority"@, json::Kind::OptionalText));
    assert(f.drop_last().drop_last().drop_last().last() == ("text"@, json::Kind::Text));
    assert(f.drop_last().drop_last().drop_last().drop_last().len() == 0);
}

/// A request to change the voice is accepted exactly if it names one, and
/// carries the voice that it names.
pub proof fn reload_request_carries_its_voice(members: Seq<(Seq<char>, Flat)>)
    requires
        names_differ(members),
    ensures
        ({
            let read = json::contents(
                "ReloadVoiceRequest"@,
                ReloadVoiceRequest::schema(),
                Shape::Object(members),
            );
            &&& forall|q: ReloadVoiceRequest|
                read == Ok::<_, json::Fault>(#[trigger] q.contents()) ==> holds(
                    members,
                    "voice"@,
                    Flat::Text(q.voice@),
                )
            &&& forall|v: Seq<char>| #[trigger]
                holds(members, "voice"@, Flat::Text(v)) ==> read is Ok
            &&& read is Ok ==> exists|v: Seq<char>| #[trigger]
                holds(members, "voice"@, Flat::Text(v))
        }),
{
    let fields = ReloadVoiceRequest::schema();
    let read = json::contents("ReloadVoiceRequest"@, fields, Shape::Object(members));
    lemma_found(members, "voice"@);
    reveal_with_fuel(json::named_contents, 2);
    reveal_with_fuel(json::kind_of, 3);
    if read is Ok {
        json::named_contents_are_members(fields, members, 1, 0);
        let t = read->Ok_0[0]->Text_0;
        assert(holds(members, "voice"@, Flat::Text(t)));
        assert forall|q: ReloadVoiceRequest|
            read == Ok::<_, json::Fault>(#[trigger] q.contents()) implies holds(
            members,
            "voice"@,
            Flat::Text(q.voice@),
        ) by {
            assert(q.contents()[0] == json::ContentView::Text(q.voice@));
        }
    }
    assert forall|v: Seq<char>| #[trigger] holds(members, "voice"@, Flat::Text(v)) implies read
        is Ok by {
        assert forall|i: nat| i < members.len() implies #[trigger] json::member_fault(
            fields,
            members,
            i,
        ) is None by {
            let name = members[i as int].0;
            assert(fields.last() == ("voice"@, json::Kind::Text));
            assert(fields.drop_last().len() == 0);
            if name == "voice"@ {
                lemma_member(members, name, i);
                if json::member(members, name, i) is Some {
                    let w = json::member(members, name, i)->0;
                    let k = choose|k: int| 0 <= k < i && #[trigger] members[k] == (name, w);
                    assert(members[k].0 != members[i as int].0);
                }
                let at = choose|at: int|
                    0 <= at < members.len() && members[at] == ("voice"@, Flat::Text(v));
                if at < i {
                    assert(members[at].0 != members[i as int].0);
                } else if i < at {
                    assert(members[i as int].0 != members[at].0);
                }
            }
        }
        lemma_no_fault(fields, members, members.len());
    }
}

/// What the topic says is what is decoded: a request to speak, to cancel or to
/// change the voice; every other topic is unknown, and is told as it is. A
/// cancel request needs no payload: nothing, any object and an empty array will
/// do, and no other value.
pub proof fn topic_says_what_is_decoded(
    topic: Seq<char>,
    data: Shape,
    r: Result<Request, DecodeError>,
)
    requires
        request::decodes(topic, data, r),
    ensures
        r matches Ok(Request::Speak(_)) ==> topic == "wm.tts.speak"@,
        r matches Ok(Request::ReloadVoice(_)) ==> topic == "wm.tts.reload_voice"@,
        r matches Ok(Request::Cancel(_)) ==> topic == "wm.tts.cancel"@,
        r matches Err(DecodeError::UnknownTopic(t)) ==> t@ == topic,
        (r matches Err(DecodeError::UnknownTopic(_))) <==> topic != "wm.tts.speak"@ && topic
            != "wm.tts.reload_voice"@ && topic != "wm.tts.cancel"@,
        topic == "wm.tts.cancel"@ ==> (r is Ok <==> match data {
            Shape::Object(_) => true,
            Shape::List(items) => items.len() == 0,
            Shape::Plain(v) => v is Null,
        }),
        topic == "wm.tts.speak"@ ==> (r is Ok <==> json::contents(
            "SpeakRequest"@,
            SpeakRequest::schema(),
            data,
        ) is Ok),
        topic == "wm.tts.reload_voice"@ ==> (r is Ok <==> json::contents(
            "ReloadVoiceRequest"@,
            ReloadVoiceRequest::schema(),
            data,
        ) is Ok),
{
    bus::lemma_topics_differ();
    if let Shape::Object(members) = data {
        assert forall|i: nat| i < members.len() implies #[trigger] json::member_fault(
            Seq::empty(),
            members,
            i,
        ) is None by {}
        lemma_no_fault(Seq::empty(), members, members.len());
    }
}

// ---- the words for what is wrong -----------------------------------------

/// How a fault is put in words.
pub proof fn faults_in_words(
    name: Seq<char>,
    found: Seq<char>,
    expected: Seq<char>,
    len: nat,
    fields: nat,
)
    ensures
        json::Fault::Missing(name).words() == "missing field `"@ + name + "`"@,
        json::Fault::Duplicate(name).words() == "duplicate field `"@ + name + "`"@,
        json::Fault::WrongType(found, expected).words() == "invalid type: "@ + found
            + ", expected "@ + expected,
        json::Fault::WrongValue(found, expected).words() == "invalid value: "@ + found
            + ", expected "@ + expected,
        json::Fault::TooLong(len).words() == "invalid length "@ + text::decimal_text(len)
            + ", expected fewer elements in array"@,
        fields != 1 ==> json::Fault::TooShort(len, name, fields).words() == "invalid length "@
            + text::decimal_text(len) + ", expected struct "@ + name + " with "@
            + text::decimal_text(fields) + " elements"@,
        json::Fault::TooShort(len, name, 1).words() == "invalid length "@ + text::decimal_text(
            len,
        ) + ", expected struct "@ + name + " with "@ + text::decimal_text(1) + " element"@,
{
}

/// How a value is described: numbers by their value, texts quoted.
pub proof fn values_in_words(n: u64, i: i64, t: Seq<char>, x: Single)
    ensures
        json::described(Flat::Single(x)) == "floating point"@,
        json::described(Flat::Null) == "null"@,
        json::described(Flat::Bool(true)) == "boolean `"@ + "true"@ + "`"@,
        json::described(Flat::Bool(false)) == "boolean `"@ + "false"@ + "`"@,
        json::described(Flat::Unsigned(n)) == "integer `"@ + text::decimal_text(n as nat) + "`"@,
        i >= 0 ==> json::described(Flat::Negative(i)) == "integer `"@ + text::decimal_text(
            i as nat,
        ) + "`"@,
        i < 0 ==> json::described(Flat::Negative(i)) == "integer `"@ + (seq!['-']
            + text::decimal_text((-i) as nat)) + "`"@,
        json::described(Flat::Float(t)) == "floating point `"@ + t + "`"@,
        json::described(Flat::Text(t)) == "string "@ + text::debug_quoted(t),
        json::described(Flat::List) == "sequence"@,
        json::described(Flat::Object) == "map"@,
{
}

/// How a message that is no request is put in words.
pub proof fn decode_errors_in_words(topic: String, e: json::PayloadError)
    ensures
        DecodeError::UnknownTopic(topic).words() == "unknown topic: "@ + topic@,
        DecodeError::Json(e).words() == "payload decode failed: "@ + e@.words(),
{
}

// ---- turn ids ------------------------------------------------------------

/// An id tells when and under which number it was made: in front of its dash
/// stand the milliseconds, in at least thirteen hexadecimal digits, and behind
/// it the number, in at least four.
pub proof fn minted_id_tells_time_and_number(ms: u64, seq: u32)
    ensures
        exists|a: Seq<char>, b: Seq<char>|
            {
                &&& turn::minted(ms, seq) == #[trigger] (a + seq!['-'] + b)
                &&& text::all_hex(a)
                &&& text::all_hex(b)
                &&& text::hex_value(a) == ms
                &&& text::hex_value(b) == seq
                &&& a.len() >= 13
                &&& b.len() >= 4
                &&& a.len() > 13 ==> a[0] != '0'
                &&& b.len() > 4 ==> b[0] != '0'
            },
{
    let a = text::hex_text(ms as nat, 13);
    let b = text::hex_text(seq as nat, 4);
    text::hex_text_reads_back(ms as nat, 13);
    text::hex_text_reads_back(seq as nat, 4);
    texts::hex_text_is_no_longer_than_needed(ms as nat, 13);
    texts::hex_text_is_no_longer_than_needed(seq as nat, 4);
    assert(turn::minted(ms, seq) == a + seq!['-'] + b);
}

/// A text is an id exactly if it is hexadecimal digits, a dash and hexadecimal
/// digits, with at least one on either side; without a dash it is none.
pub proof fn ids_are_digits_dash_digits(a: Seq<char>, b: Seq<char>, s: Seq<char>)
    requires
        !a.contains('-'),
        !s.contains('-'),
    ensures
        turn::turn_form(a + seq!['-'] + b) <==> a.len() > 0 && b.len() > 0 && text::all_hex(a)
            && text::all_hex(b),
        !turn::turn_form(s),
{
    let t = a + seq!['-'] + b;
    assert(t.take(a.len() as int) =~= a);
    assert(t.skip(a.len() as int + 1) =~= b);
    if a.len() > 0 && b.len() > 0 && text::all_hex(a) && text::all_hex(b) {
        assert(turn::dash_at(t, a.len() as int));
    }
    if turn::turn_form(t) {
        let d = choose|d: int| #[trigger] turn::dash_at(t, d);
        if d < a.len() {
            assert(t[d] == a[d]);
            assert(a.contains('-'));
        } else if d > a.len() {
            assert(t.take(d)[a.len() as int] == '-');
        }
    }
    if turn::turn_form(s) {
        let d = choose|d: int| #[trigger] turn::dash_at(s, d);
        assert(s[d] == '-');
        assert(s.contains('-'));
    }
}

} // verus!
