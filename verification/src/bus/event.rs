//! Events that the daemon publishes.

use crate::bus::outgoing;
use crate::bus::request;
use crate::bus::request::{text_to_turn, turn_to_text};
use crate::bus::turn::TurnId;
use crate::json;
use crate::json::{Content, Field, Json, Kind, PayloadError};
use vstd::prelude::*;

verus! {

/// The payload of `wm.tts.start`.
#[derive(Debug, Clone, PartialEq, Eq)]
pub struct StartEvent {
    /// The text of the utterance.
    pub text: String,
    /// Where the request came from.
    pub source: String,
    /// Unix milliseconds when the request was accepted.
    pub ts: u64,
    /// The turn of the request, shared with the `wm.tts.end` of the utterance.
    pub turn_id: Option<TurnId>,
}

/// The payload of `wm.tts.cancel.ack`.
#[derive(Debug, Clone, PartialEq, Eq)]
pub struct CancelAckEvent {
    /// Unix milliseconds when the request was handled.
    pub ts: u64,
    /// Milliseconds of speech played before the request came: the time since
    /// the player began, and for a file no more than the file holds.
    pub drained_ms: u64,
}

/// The payload of `wm.tts.end`.
#[derive(Debug, Clone, PartialEq, Eq)]
pub struct EndEvent {
    /// The text of the utterance.
    pub text: String,
    /// Milliseconds from the start of the player to its end.
    pub duration_ms: u64,
    /// How it ended; one of [`crate::bus::outcome`].
    pub outcome: String,
    /// Bytes of audio that went to the sink; 0 unless the outcome is `"ok"`.
    pub played_bytes: u64,
    /// Unix milliseconds when the utterance ended.
    pub ts: u64,
    /// The turn of the request, shared with the `wm.tts.start` of the utterance.
    pub turn_id: Option<TurnId>,
}

/// The payload of `wm.tts.reload.ack`.
#[derive(Debug, Clone, PartialEq, Eq)]
pub struct ReloadAckEvent {
    /// The voice that is active now.
    pub voice: String,
    /// Phrases that had a file already.
    pub cache_hits: usize,
    /// Phrases rendered for the change.
    pub prerendered: usize,
    /// Phrases that could not be rendered.
    pub failures: usize,
    /// Milliseconds that the change took.
    pub elapsed_ms: u64,
    /// Unix milliseconds when the change was complete.
    pub ts: u64,
}

/// The payload of `wm.tts.error`.
#[derive(Debug, Clone, PartialEq, Eq)]
pub struct ErrorEvent {
    /// A short tag for the kind of failure.
    pub kind: String,
    /// What failed, in words.
    pub message: String,
    /// Unix milliseconds when it failed.
    pub ts: u64,
}

impl StartEvent {
    /// The names and kinds of the fields.
    pub open spec fn schema() -> Seq<(Seq<char>, Kind)> {
        seq![
            ("text"@, Kind::Text),
            ("source"@, Kind::Text),
            ("ts"@, Kind::Count),
            ("turn_id"@, Kind::OptionalText),
        ]
    }

    /// The contents of the fields.
    pub open spec fn contents(self) -> Seq<json::ContentView> {
        seq![
            json::ContentView::Text(self.text@),
            json::ContentView::Text(self.source@),
            json::ContentView::Count(self.ts),
            json::ContentView::OptionalText(request::turn_text(self.turn_id)),
        ]
    }

    fn fields() -> (r: Vec<Field>)
        ensures
            json::schema(r@) == Self::schema(),
            json::distinct_names(Self::schema()),
    {
        let r = vec![
            Field { name: "text", kind: Kind::Text },
            Field { name: "source", kind: Kind::Text },
            Field { name: "ts", kind: Kind::Count },
            Field { name: "turn_id", kind: Kind::OptionalText },
        ];
        proof {
            assert(json::schema(r@) =~= Self::schema());
            Self::lemma_distinct();
        }
        r
    }

    pub(crate) proof fn lemma_distinct()
        ensures
            json::distinct_names(Self::schema()),
    {
        reveal_strlit("text");
        reveal_strlit("source");
        reveal_strlit("ts");
        reveal_strlit("turn_id");
        assert("text"@.len() == 4);
        assert("source"@.len() == 6);
        assert("ts"@.len() == 2);
        assert("turn_id"@.len() == 7);
    }

    /// Reads the payload.
    pub fn from_json(value: &Json) -> (r: Result<Self, PayloadError>)
        ensures
            match r {
                Ok(q) => json::contents("StartEvent"@, Self::schema(), value@) == Ok::<
                    _,
                    json::Fault,
                >(q.contents()),
                Err(e) => json::contents("StartEvent"@, Self::schema(), value@) == Err::<
                    Seq<json::ContentView>,
                    _,
                >(e@),
            },
    {
        let fields = StartEvent::fields();
        match json::read_record("StartEvent", fields.as_slice(), value) {
            Err(e) => Err(e),
            Ok(list) => {
                proof {
                    json::contents_fit("StartEvent"@, Self::schema(), value@);
                    let cs = json::contents_of(list@);
                    assert(json::fits(Kind::Text, cs[0]));
                    assert(json::fits(Kind::Text, cs[1]));
                    assert(json::fits(Kind::Count, cs[2]));
                    assert(json::fits(Kind::OptionalText, cs[3]));
                }
                let q = StartEvent {
                    text: list[0].text(),
                    source: list[1].text(),
                    ts: list[2].count(),
                    turn_id: text_to_turn(list[3].optional_text()),
                };
                assert(q.contents() =~= json::contents_of(list@));
                Ok(q)
            },
        }
    }

    /// The payload as an object, without a turn id where there is none.
    pub fn to_json(&self) -> (r: Json)
        ensures
            r@ == json::written_record(Self::schema(), self.contents()),
    {
        let fields = StartEvent::fields();
        let list = vec![
            Content::Text(self.text.clone()),
            Content::Text(self.source.clone()),
            Content::Count(self.ts),
            Content::OptionalText(turn_to_text(&self.turn_id)),
        ];
        assert(json::contents_of(list@) =~= self.contents());
        json::write_record(fields.as_slice(), list.as_slice())
    }

    /// Reading gives back what was written.
    pub proof fn round_trip(self)
        ensures
            json::contents(
                "StartEvent"@,
                Self::schema(),
                json::written_record(Self::schema(), self.contents()),
            ) == Ok::<_, json::Fault>(self.contents()),
    {
        Self::lemma_distinct();
        json::record_round_trip("StartEvent"@, Self::schema(), self.contents());
    }
}

impl CancelAckEvent {
    /// The names and kinds of the fields.
    pub open spec fn schema() -> Seq<(Seq<char>, Kind)> {
        seq![
            ("ts"@, Kind::Count),
            ("drained_ms"@, Kind::Count),
        ]
    }

    /// The contents of the fields.
    pub open spec fn contents(self) -> Seq<json::ContentView> {
        seq![
            json::ContentView::Count(self.ts),
            json::ContentView::Count(self.drained_ms),
        ]
    }

    fn fields() -> (r: Vec<Field>)
        ensures
            json::schema(r@) == Self::schema(),
            json::distinct_names(Self::schema()),
    {
        let r = vec![
            Field { name: "ts", kind: Kind::Count },
            Field { name: "drained_ms", kind: Kind::Count },
        ];
        proof {
            assert(json::schema(r@) =~= Self::schema());
            Self::lemma_distinct();
        }
        r
    }

    pub(crate) proof fn lemma_distinct()
        ensures
            json::distinct_names(Self::schema()),
    {
        reveal_strlit("ts");
        reveal_strlit("drained_ms");
        assert("ts"@.len() == 2);
        assert("drained_ms"@.len() == 10);
    }

    /// Reads the payload.
    pub fn from_json(value: &Json) -> (r: Result<Self, PayloadError>)
        ensures
            match r {
                Ok(q) => json::contents("CancelAckEvent"@, Self::schema(), value@) == Ok::<
                    _,
                    json::Fault,
                >(q.contents()),
                Err(e) => json::contents("CancelAckEvent"@, Self::schema(), value@) == Err::<
                    Seq<json::ContentView>,
                    _,
                >(e@),
            },
    {
        let fields = CancelAckEvent::fields();
        match json::read_record("CancelAckEvent", fields.as_slice(), value) {
            Err(e) => Err(e),
            Ok(list) => {
                proof {
                    json::contents_fit("CancelAckEvent"@, Self::schema(), value@);
                    let cs = json::contents_of(list@);
                    assert(json::fits(Kind::Count, cs[0]));
                    assert(json::fits(Kind::Count, cs[1]));
                }
                let q = CancelAckEvent {
                    ts: list[0].count(),
                    drained_ms: list[1].count(),
                };
                assert(q.contents() =~= json::contents_of(list@));
                Ok(q)
            },
        }
    }

    /// The payload as an object.
    pub fn to_json(&self) -> (r: Json)
        ensures
            r@ == json::written_record(Self::schema(), self.contents()),
    {
        let fields = CancelAckEvent::fields();
        let list = vec![
            Content::Count(self.ts),
            Content::Count(self.drained_ms),
        ];
        assert(json::contents_of(list@) =~= self.contents());
        json::write_record(fields.as_slice(), list.as_slice())
    }

    /// Reading gives back what was written.
    pub proof fn round_trip(self)
        ensures
            json::contents(
                "CancelAckEvent"@,
                Self::schema(),
                json::written_record(Self::schema(), self.contents()),
            ) == Ok::<_, json::Fault>(self.contents()),
    {
        Self::lemma_distinct();
        json::record_round_trip("CancelAckEvent"@, Self::schema(), self.contents());
    }
}

impl EndEvent {
    /// The names and kinds of the fields.
    pub open spec fn schema() -> Seq<(Seq<char>, Kind)> {
        seq![
            ("text"@, Kind::Text),
            ("duration_ms"@, Kind::Count),
            ("outcome"@, Kind::Text),
            ("played_bytes"@, Kind::Count),
            ("ts"@, Kind::Count),
            ("turn_id"@, Kind::OptionalText),
        ]
    }

    /// The contents of the fields.
    pub open spec fn contents(self) -> Seq<json::ContentView> {
        seq![
            json::ContentView::Text(self.text@),
            json::ContentView::Count(self.duration_ms),
            json::ContentView::Text(self.outcome@),
            json::ContentView::Count(self.played_bytes),
            json::ContentView::Count(self.ts),
            json::ContentView::OptionalText(request::turn_text(self.turn_id)),
        ]
    }

    fn fields() -> (r: Vec<Field>)
        ensures
            json::schema(r@) == Self::schema(),
            json::distinct_names(Self::schema()),
    {
        let r = vec![
            Field { name: "text", kind: Kind::Text },
            Field { name: "duration_ms", kind: Kind::Count },
            Field { name: "outcome", kind: Kind::Text },
            Field { name: "played_bytes", kind: Kind::Count },
            Field { name: "ts", kind: Kind::Count },
            Field { name: "turn_id", kind: Kind::OptionalText },
        ];
        proof {
            assert(json::schema(r@) =~= Self::schema());
            Self::lemma_distinct();
        }
        r
    }

    pub(crate) proof fn lemma_distinct()
        ensures
            json::distinct_names(Self::schema()),
    {
        reveal_strlit("text");
        reveal_strlit("duration_ms");
        reveal_strlit("outcome");
        reveal_strlit("played_bytes");
        reveal_strlit("ts");
        reveal_strlit("turn_id");
        assert("text"@.len() == 4);
        assert("duration_ms"@.len() == 11);
        assert("outcome"@.len() == 7);
        assert("played_bytes"@.len() == 12);
        assert("ts"@.len() == 2);
        assert("turn_id"@.len() == 7);
        assert("turn_id"@[0] == 't' && "outcome"@[0] == 'o');
    }

    /// Reads the payload.
    pub fn from_json(value: &Json) -> (r: Result<Self, PayloadError>)
        ensures
            match r {
                Ok(q) => json::contents("EndEvent"@, Self::schema(), value@) == Ok::<
                    _,
                    json::Fault,
                >(q.contents()),
                Err(e) => json::contents("EndEvent"@, Self::schema(), value@) == Err::<
                    Seq<json::ContentView>,
                    _,
                >(e@),
            },
    {
        let fields = EndEvent::fields();
        match json::read_record("EndEvent", fields.as_slice(), value) {
            Err(e) => Err(e),
            Ok(list) => {
                proof {
                    json::contents_fit("EndEvent"@, Self::schema(), value@);
                    let cs = json::contents_of(list@);
                    assert(json::fits(Kind::Text, cs[0]));
                    assert(json::fits(Kind::Count, cs[1]));
                    assert(json::fits(Kind::Text, cs[2]));
                    assert(json::fits(Kind::Count, cs[3]));
                    assert(json::fits(Kind::Count, cs[4]));
                    assert(json::fits(Kind::OptionalText, cs[5]));
                }
                let q = EndEvent {
                    text: list[0].text(),
                    duration_ms: list[1].count(),
                    outcome: list[2].text(),
                    played_bytes: list[3].count(),
                    ts: list[4].count(),
                    turn_id: text_to_turn(list[5].optional_text()),
                };
                assert(q.contents() =~= json::contents_of(list@));
                Ok(q)
            },
        }
    }

    /// The payload as an object, without a turn id where there is none.
    pub fn to_json(&self) -> (r: Json)
        ensures
            r@ == json::written_record(Self::schema(), self.contents()),
    {
        let fields = EndEvent::fields();
        let list = vec![
            Content::Text(self.text.clone()),
            Content::Count(self.duration_ms),
            Content::Text(self.outcome.clone()),
            Content::Count(self.played_bytes),
            Content::Count(self.ts),
            Content::OptionalText(turn_to_text(&self.turn_id)),
        ];
        assert(json::contents_of(list@) =~= self.contents());
        json::write_record(fields.as_slice(), list.as_slice())
    }

    /// Reading gives back what was written.
    pub proof fn round_trip(self)
        ensures
            json::contents(
                "EndEvent"@,
                Self::schema(),
                json::written_record(Self::schema(), self.contents()),
            ) == Ok::<_, json::Fault>(self.contents()),
    {
        Self::lemma_distinct();
        json::record_round_trip("EndEvent"@, Self::schema(), self.contents());
    }
}

impl ReloadAckEvent {
    /// The names and kinds of the fields.
    pub open spec fn schema() -> Seq<(Seq<char>, Kind)> {
        seq![
            ("voice"@, Kind::Text),
            ("cache_hits"@, Kind::Size),
            ("prerendered"@, Kind::Size),
            ("failures"@, Kind::Size),
            ("elapsed_ms"@, Kind::Count),
            ("ts"@, Kind::Count),
        ]
    }

    /// The contents of the fields.
    pub open spec fn contents(self) -> Seq<json::ContentView> {
        seq![
            json::ContentView::Text(self.voice@),
            json::ContentView::Size(self.cache_hits),
            json::ContentView::Size(self.prerendered),
            json::ContentView::Size(self.failures),
            json::ContentView::Count(self.elapsed_ms),
            json::ContentView::Count(self.ts),
        ]
    }

    fn fields() -> (r: Vec<Field>)
        ensures
            json::schema(r@) == Self::schema(),
            json::distinct_names(Self::schema()),
    {
        let r = vec![
            Field { name: "voice", kind: Kind::Text },
            Field { name: "cache_hits", kind: Kind::Size },
            Field { name: "prerendered", kind: Kind::Size },
            Field { name: "failures", kind: Kind::Size },
            Field { name: "elapsed_ms", kind: Kind::Count },
            Field { name: "ts", kind: Kind::Count },
        ];
        proof {
            assert(json::schema(r@) =~= Self::schema());
            Self::lemma_distinct();
        }
        r
    }

    pub(crate) proof fn lemma_distinct()
        ensures
            json::distinct_names(Self::schema()),
    {
        reveal_strlit("voice");
        reveal_strlit("cache_hits");
        reveal_strlit("prerendered");
        reveal_strlit("failures");
        reveal_strlit("elapsed_ms");
        reveal_strlit("ts");
        assert("voice"@.len() == 5);
        assert("cache_hits"@.len() == 10);
        assert("prerendered"@.len() == 11);
        assert("failures"@.len() == 8);
        assert("elapsed_ms"@.len() == 10);
        assert("ts"@.len() == 2);
        assert("elapsed_ms"@[0] == 'e' && "cache_hits"@[0] == 'c');
    }

    /// Reads the payload.
    pub fn from_json(value: &Json) -> (r: Result<Self, PayloadError>)
        ensures
            match r {
                Ok(q) => json::contents("ReloadAckEvent"@, Self::schema(), value@) == Ok::<
                    _,
                    json::Fault,
                >(q.contents()),
                Err(e) => json::contents("ReloadAckEvent"@, Self::schema(), value@) == Err::<
                    Seq<json::ContentView>,
                    _,
                >(e@),
            },
    {
        let fields = ReloadAckEvent::fields();
        match json::read_record("ReloadAckEvent", fields.as_slice(), value) {
            Err(e) => Err(e),
            Ok(list) => {
                proof {
                    json::contents_fit("ReloadAckEvent"@, Self::schema(), value@);
                    let cs = json::contents_of(list@);
                    assert(json::fits(Kind::Text, cs[0]));
                    assert(json::fits(Kind::Size, cs[1]));
                    assert(json::fits(Kind::Size, cs[2]));
                    assert(json::fits(Kind::Size, cs[3]));
                    assert(json::fits(Kind::Count, cs[4]));
                    assert(json::fits(Kind::Count, cs[5]));
                }
                let q = ReloadAckEvent {
                    voice: list[0].text(),
                    cache_hits: list[1].size(),
                    prerendered: list[2].size(),
                    failures: list[3].size(),
                    elapsed_ms: list[4].count(),
                    ts: list[5].count(),
                };
                assert(q.contents() =~= json::contents_of(list@));
                Ok(q)
            },
        }
    }

    /// The payload as an object.
    pub fn to_json(&self) -> (r: Json)
        ensures
            r@ == json::written_record(Self::schema(), self.contents()),
    {
        let fields = ReloadAckEvent::fields();
        let list = vec![
            Content::Text(self.voice.clone()),
            Content::Size(self.cache_hits),
            Content::Size(self.prerendered),
            Content::Size(self.failures),
            Content::Count(self.elapsed_ms),
            Content::Count(self.ts),
        ];
        assert(json::contents_of(list@) =~= self.contents());
        json::write_record(fields.as_slice(), list.as_slice())
    }

    /// Reading gives back what was written.
    pub proof fn round_trip(self)
        ensures
            json::contents(
                "ReloadAckEvent"@,
                Self::schema(),
                json::written_record(Self::schema(), self.contents()),
            ) == Ok::<_, json::Fault>(self.contents()),
    {
        Self::lemma_distinct();
        json::record_round_trip("ReloadAckEvent"@, Self::schema(), self.contents());
    }
}

impl ErrorEvent {
    /// The names and kinds of the fields.
    pub open spec fn schema() -> Seq<(Seq<char>, Kind)> {
        seq![
            ("kind"@, Kind::Text),
            ("message"@, Kind::Text),
            ("ts"@, Kind::Count),
        ]
    }

    /// The contents of the fields.
    pub open spec fn contents(self) -> Seq<json::ContentView> {
        seq![
            json::ContentView::Text(self.kind@),
            json::ContentView::Text(self.message@),
            json::ContentView::Count(self.ts),
        ]
    }

    fn fields() -> (r: Vec<Field>)
        ensures
            json::schema(r@) == Self::schema(),
            json::distinct_names(Self::schema()),
    {
        let r = vec![
            Field { name: "kind", kind: Kind::Text },
            Field { name: "message", kind: Kind::Text },
            Field { name: "ts", kind: Kind::Count },
        ];
        proof {
            assert(json::schema(r@) =~= Self::schema());
            Self::lemma_distinct();
        }
        r
    }

    pub(crate) proof fn lemma_distinct()
        ensures
            json::distinct_names(Self::schema()),
    {
        reveal_strlit("kind");
        reveal_strlit("message");
        reveal_strlit("ts");
        assert("kind"@.len() == 4);
        assert("message"@.len() == 7);
        assert("ts"@.len() == 2);
    }

    /// Reads the payload.
    pub fn from_json(value: &Json) -> (r: Result<Self, PayloadError>)
        ensures
            match r {
                Ok(q) => json::contents("ErrorEvent"@, Self::schema(), value@) == Ok::<
                    _,
                    json::Fault,
                >(q.contents()),
                Err(e) => json::contents("ErrorEvent"@, Self::schema(), value@) == Err::<
                    Seq<json::ContentView>,
                    _,
                >(e@),
            },
    {
        let fields = ErrorEvent::fields();
        match json::read_record("ErrorEvent", fields.as_slice(), value) {
            Err(e) => Err(e),
            Ok(list) => {
                proof {
                    json::contents_fit("ErrorEvent"@, Self::schema(), value@);
                    let cs = json::contents_of(list@);
                    assert(json::fits(Kind::Text, cs[0]));
                    assert(json::fits(Kind::Text, cs[1]));
                    assert(json::fits(Kind::Count, cs[2]));
                }
                let q = ErrorEvent {
                    kind: list[0].text(),
                    message: list[1].text(),
                    ts: list[2].count(),
                };
                assert(q.contents() =~= json::contents_of(list@));
                Ok(q)
            },
        }
    }

    /// The payload as an object.
    pub fn to_json(&self) -> (r: Json)
        ensures
            r@ == json::written_record(Self::schema(), self.contents()),
    {
        let fields = ErrorEvent::fields();
        let list = vec![
            Content::Text(self.kind.clone()),
            Content::Text(self.message.clone()),
            Content::Count(self.ts),
        ];
        assert(json::contents_of(list@) =~= self.contents());
        json::write_record(fields.as_slice(), list.as_slice())
    }

    /// Reading gives back what was written.
    pub proof fn round_trip(self)
        ensures
            json::contents(
                "ErrorEvent"@,
                Self::schema(),
                json::written_record(Self::schema(), self.contents()),
            ) == Ok::<_, json::Fault>(self.contents()),
    {
        Self::lemma_distinct();
        json::record_round_trip("ErrorEvent"@, Self::schema(), self.contents());
    }
}

/// An event, with the topic that it is published on.
#[derive(Debug, Clone, PartialEq, Eq)]
pub enum Event {
    /// On `wm.tts.start`.
    Start(StartEvent),
    /// On `wm.tts.cancel.ack`.
    CancelAck(CancelAckEvent),
    /// On `wm.tts.end`.
    End(EndEvent),
    /// On `wm.tts.error`.
    Error(ErrorEvent),
    /// On `wm.tts.reload.ack`.
    ReloadAck(ReloadAckEvent),
}

/// An event with its texts as sequences of characters.
pub enum EventView {
    Start { text: Seq<char>, source: Seq<char>, ts: u64, turn_id: Option<Seq<char>> },
    CancelAck { ts: u64, drained_ms: u64 },
    End {
        text: Seq<char>,
        duration_ms: u64,
        outcome: Seq<char>,
        played_bytes: u64,
        ts: u64,
        turn_id: Option<Seq<char>>,
    },
    Error { kind: Seq<char>, message: Seq<char>, ts: u64 },
    ReloadAck {
        voice: Seq<char>,
        cache_hits: usize,
        prerendered: usize,
        failures: usize,
        elapsed_ms: u64,
        ts: u64,
    },
}

impl Event {
    /// The event with its texts as sequences of characters.
    pub open spec fn view(self) -> EventView {
        match self {
            Event::Start(e) => EventView::Start {
                text: e.text@,
                source: e.source@,
                ts: e.ts,
                turn_id: request::turn_text(e.turn_id),
            },
            Event::CancelAck(e) => EventView::CancelAck { ts: e.ts, drained_ms: e.drained_ms },
            Event::End(e) => EventView::End {
                text: e.text@,
                duration_ms: e.duration_ms,
                outcome: e.outcome@,
                played_bytes: e.played_bytes,
                ts: e.ts,
                turn_id: request::turn_text(e.turn_id),
            },
            Event::Error(e) => EventView::Error { kind: e.kind@, message: e.message@, ts: e.ts },
            Event::ReloadAck(e) => EventView::ReloadAck {
                voice: e.voice@,
                cache_hits: e.cache_hits,
                prerendered: e.prerendered,
                failures: e.failures,
                elapsed_ms: e.elapsed_ms,
                ts: e.ts,
            },
        }
    }

    /// The topic that the event is published on.
    pub open spec fn on_topic(self) -> Seq<char> {
        match self {
            Event::Start(_) => outgoing::START@,
            Event::CancelAck(_) => outgoing::CANCEL_ACK@,
            Event::End(_) => outgoing::END@,
            Event::Error(_) => outgoing::ERROR@,
            Event::ReloadAck(_) => outgoing::RELOAD_ACK@,
        }
    }

    /// The topic that the event is published on.
    pub fn topic(&self) -> (r: &'static str)
        ensures
            r@ == self.on_topic(),
    {
        match self {
            Event::Start(_) => outgoing::START,
            Event::CancelAck(_) => outgoing::CANCEL_ACK,
            Event::End(_) => outgoing::END,
            Event::Error(_) => outgoing::ERROR,
            Event::ReloadAck(_) => outgoing::RELOAD_ACK,
        }
    }

    /// The payload of the event.
    pub fn to_json(&self) -> (r: Json)
        ensures
            r@ == (match *self {
                Event::Start(e) => json::written_record(StartEvent::schema(), e.contents()),
                Event::CancelAck(e) => json::written_record(
                    CancelAckEvent::schema(),
                    e.contents(),
                ),
                Event::End(e) => json::written_record(EndEvent::schema(), e.contents()),
                Event::Error(e) => json::written_record(ErrorEvent::schema(), e.contents()),
                Event::ReloadAck(e) => json::written_record(
                    ReloadAckEvent::schema(),
                    e.contents(),
                ),
            }),
    {
        match self {
            Event::Start(e) => e.to_json(),
            Event::CancelAck(e) => e.to_json(),
            Event::End(e) => e.to_json(),
            Event::Error(e) => e.to_json(),
            Event::ReloadAck(e) => e.to_json(),
        }
    }

    /// A failure of some kind.
    pub fn error(kind: &str, message: &str, ts: u64) -> (r: Self)
        ensures
            r@ == (EventView::Error { kind: kind@, message: message@, ts }),
    {
        Event::Error(ErrorEvent { kind: kind.to_owned(), message: message.to_owned(), ts })
    }
}

/// A start or end event without a turn id says nothing of one: its payload has
/// no such member.
pub proof fn absent_turn_id_is_not_written(start: StartEvent, end: EndEvent)
    requires
        start.turn_id is None,
        end.turn_id is None,
    ensures
        json::written_record(StartEvent::schema(), start.contents()) == json::Shape::Object(
            seq![
                ("text"@, json::Flat::Text(start.text@)),
                ("source"@, json::Flat::Text(start.source@)),
                ("ts"@, json::Flat::Unsigned(start.ts)),
            ],
        ),
        json::written_record(EndEvent::schema(), end.contents()) == json::Shape::Object(
            seq![
                ("text"@, json::Flat::Text(end.text@)),
                ("duration_ms"@, json::Flat::Unsigned(end.duration_ms)),
                ("outcome"@, json::Flat::Text(end.outcome@)),
                ("played_bytes"@, json::Flat::Unsigned(end.played_bytes)),
                ("ts"@, json::Flat::Unsigned(end.ts)),
            ],
        ),
{
    reveal_with_fuel(json::written_members, 7);
    assert(json::written_members(StartEvent::schema(), start.contents(), 4) =~= seq![
        ("text"@, json::Flat::Text(start.text@)),
        ("source"@, json::Flat::Text(start.source@)),
        ("ts"@, json::Flat::Unsigned(start.ts)),
    ]);
    assert(json::written_members(EndEvent::schema(), end.contents(), 6) =~= seq![
        ("text"@, json::Flat::Text(end.text@)),
        ("duration_ms"@, json::Flat::Unsigned(end.duration_ms)),
        ("outcome"@, json::Flat::Text(end.outcome@)),
        ("played_bytes"@, json::Flat::Unsigned(end.played_bytes)),
        ("ts"@, json::Flat::Unsigned(end.ts)),
    ]);
}

} // verus!
