//! Requests, and how they are decoded.

use crate::bus;
use crate::bus::incoming;
use crate::bus::turn::TurnId;
use crate::json;
use crate::json::{Field, Json, Kind, PayloadError};
use crate::text;
use vstd::prelude::*;

verus! {

/// A decoded request.
#[derive(Debug, Clone, PartialEq, Eq)]
pub enum Request {
    /// Of `wm.tts.speak`.
    Speak(SpeakRequest),
    /// Of `wm.tts.reload_voice`.
    ReloadVoice(ReloadVoiceRequest),
    /// Of `wm.tts.cancel`.
    Cancel(CancelRequest),
}

/// The payload of `wm.tts.speak`.
#[derive(Debug, Clone, PartialEq, Eq)]
pub struct SpeakRequest {
    /// The text to speak.
    pub text: String,
    /// A hint such as `"low"`, `"normal"` or `"high"`.
    pub priority: Option<String>,
    /// Whether to cancel what is being spoken first.
    pub cancel_previous: bool,
    /// The turn that the utterance belongs to.
    pub turn_id: Option<TurnId>,
}

/// The payload of `wm.tts.reload_voice`.
#[derive(Debug, Clone, PartialEq, Eq)]
pub struct ReloadVoiceRequest {
    /// The new voice.
    pub voice: String,
}

/// The payload of `wm.tts.cancel`, which has no fields.
#[derive(Debug, Clone, PartialEq, Eq)]
pub struct CancelRequest {}

/// An optional turn id as a sequence of characters.
pub open spec fn turn_text(id: Option<TurnId>) -> Option<Seq<char>> {
    match id {
        Some(id) => Some(id.0@),
        None => None,
    }
}

/// An optional turn id as an optional text.
pub(crate) fn turn_to_text(id: &Option<TurnId>) -> (r: Option<String>)
    ensures
        json::optional(r) == turn_text(*id),
{
    match id {
        Some(id) => Some(id.0.clone()),
        None => None,
    }
}

/// An optional text as an optional turn id.
pub(crate) fn text_to_turn(t: Option<String>) -> (r: Option<TurnId>)
    ensures
        turn_text(r) == json::optional(t),
{
    match t {
        Some(t) => Some(TurnId(t)),
        None => None,
    }
}

impl SpeakRequest {
    /// The names and kinds of the fields.
    pub open spec fn schema() -> Seq<(Seq<char>, Kind)> {
        seq![
            ("text"@, Kind::Text),
            ("priority"@, Kind::OptionalText),
            ("cancel_previous"@, Kind::Flag),
            ("turn_id"@, Kind::OptionalText),
        ]
    }

    /// The contents of the fields.
    pub open spec fn contents(self) -> Seq<json::ContentView> {
        seq![
            json::ContentView::Text(self.text@),
            json::ContentView::OptionalText(json::optional(self.priority)),
            json::ContentView::Flag(self.cancel_previous),
            json::ContentView::OptionalText(turn_text(self.turn_id)),
        ]
    }

    fn fields() -> (r: Vec<Field>)
        ensures
            json::schema(r@) == Self::schema(),
            json::distinct_names(Self::schema()),
    {
        let r = vec![
            Field { name: "text", kind: Kind::Text },
            Field { name: "priority", kind: Kind::OptionalText },
            Field { name: "cancel_previous", kind: Kind::Flag },
            Field { name: "turn_id", kind: Kind::OptionalText },
        ];
        proof {
            assert(json::schema(r@) =~= Self::schema());
            Self::lemma_distinct();
        }
        r
    }

    proof fn lemma_distinct()
        ensures
            json::distinct_names(Self::schema()),
    {
        reveal_strlit("text");
        reveal_strlit("priority");
        reveal_strlit("cancel_previous");
        reveal_strlit("turn_id");
        assert("text"@.len() == 4);
        assert("priority"@.len() == 8);
        assert("cancel_previous"@.len() == 15);
        assert("turn_id"@.len() == 7);
    }

    /// Reads the payload.
    pub fn from_json(value: &Json) -> (r: Result<Self, PayloadError>)
        ensures
            match r {
                Ok(q) => json::contents("SpeakRequest"@, Self::schema(), value@) == Ok::<
                    _,
                    json::Fault,
                >(q.contents()),
                Err(e) => json::contents("SpeakRequest"@, Self::schema(), value@) == Err::<
                    Seq<json::ContentView>,
                    _,
                >(e@),
            },
    {
        let fields = SpeakRequest::fields();
        match json::read_record("SpeakRequest", fields.as_slice(), value) {
            Err(e) => Err(e),
            Ok(list) => {
                proof {
                    json::contents_fit("SpeakRequest"@, Self::schema(), value@);
                    let cs = json::contents_of(list@);
                    assert(json::fits(Kind::Text, cs[0]));
                    assert(json::fits(Kind::OptionalText, cs[1]));
                    assert(json::fits(Kind::Flag, cs[2]));
                    assert(json::fits(Kind::OptionalText, cs[3]));
                }
                let q = SpeakRequest {
                    text: list[0].text(),
                    priority: list[1].optional_text(),
                    cancel_previous: list[2].flag(),
                    turn_id: text_to_turn(list[3].optional_text()),
                };
                assert(q.contents() =~= json::contents_of(list@));
                Ok(q)
            },
        }
    }
}

impl ReloadVoiceRequest {
    /// The names and kinds of the fields.
    pub open spec fn schema() -> Seq<(Seq<char>, Kind)> {
        seq![
            ("voice"@, Kind::Text),
        ]
    }

    /// The contents of the fields.
    pub open spec fn contents(self) -> Seq<json::ContentView> {
        seq![
            json::ContentView::Text(self.voice@),
        ]
    }

    fn fields() -> (r: Vec<Field>)
        ensures
            json::schema(r@) == Self::schema(),
            json::distinct_names(Self::schema()),
    {
        let r = vec![
            Field { name: "voice", kind: Kind::Text },
        ];
        proof {
            assert(json::schema(r@) =~= Self::schema());
            Self::lemma_distinct();
        }
        r
    }

    proof fn lemma_distinct()
        ensures
            json::distinct_names(Self::schema()),
    {
        reveal_strlit("voice");
        assert("voice"@.len() == 5);
    }

    /// Reads the payload.
    pub fn from_json(value: &Json) -> (r: Result<Self, PayloadError>)
        ensures
            match r {
                Ok(q) => json::contents("ReloadVoiceRequest"@, Self::schema(), value@) == Ok::<
                    _,
                    json::Fault,
                >(q.contents()),
                Err(e) => json::contents("ReloadVoiceRequest"@, Self::schema(), value@) == Err::<
                    Seq<json::ContentView>,
                    _,
                >(e@),
            },
    {
        let fields = ReloadVoiceRequest::fields();
        match json::read_record("ReloadVoiceRequest", fields.as_slice(), value) {
            Err(e) => Err(e),
            Ok(list) => {
                proof {
                    json::contents_fit("ReloadVoiceRequest"@, Self::schema(), value@);
                    let cs = json::contents_of(list@);
                    assert(json::fits(Kind::Text, cs[0]));
                }
                let q = ReloadVoiceRequest {
                    voice: list[0].text(),
                };
                assert(q.contents() =~= json::contents_of(list@));
                Ok(q)
            },
        }
    }
}

impl Default for CancelRequest {
    fn default() -> (r: Self)
        ensures
            r == (CancelRequest {  }),
    {
        CancelRequest {  }
    }
}

impl CancelRequest {
    /// Reads the payload: an object, whatever its members, or an empty array.
    pub fn from_json(value: &Json) -> (r: Result<Self, PayloadError>)
        ensures
            match r {
                Ok(_) => json::contents("CancelRequest"@, Seq::empty(), value@) is Ok,
                Err(e) => json::contents("CancelRequest"@, Seq::empty(), value@) == Err::<
                    Seq<json::ContentView>,
                    _,
                >(e@),
            },
    {
        let fields: Vec<Field> = Vec::new();
        assert(json::schema(fields@) =~= Seq::empty());
        match json::read_record("CancelRequest", fields.as_slice(), value) {
            Ok(_) => Ok(CancelRequest {  }),
            Err(e) => Err(e),
        }
    }
}

/// Why a message on the bus is no request.
#[derive(Debug, Clone, PartialEq, Eq)]
pub enum DecodeError {
    /// The topic is none of [`incoming`].
    UnknownTopic(String),
    /// The payload does not fit the topic.
    Json(PayloadError),
}

impl DecodeError {
    /// The error in words.
    pub open spec fn words(self) -> Seq<char> {
        match self {
            DecodeError::UnknownTopic(topic) => "unknown topic: "@ + topic@,
            DecodeError::Json(e) => "payload decode failed: "@ + e@.words(),
        }
    }

    /// The error in words.
    pub fn message(&self) -> (r: String)
        ensures
            r@ == self.words(),
    {
        match self {
            DecodeError::UnknownTopic(topic) => text::joined2("unknown topic: ", topic.as_str()),
            DecodeError::Json(e) => text::joined2("payload decode failed: ", e.message().as_str()),
        }
    }
}

/// What is wrong with the payload of a topic, if anything is. A cancel request
/// may have no payload at all.
pub open spec fn payload_fault(topic: Seq<char>, data: json::Shape) -> Option<json::Fault> {
    let read = if topic == incoming::SPEAK@ {
        json::contents("SpeakRequest"@, SpeakRequest::schema(), data)
    } else if topic == incoming::RELOAD_VOICE@ {
        json::contents("ReloadVoiceRequest"@, ReloadVoiceRequest::schema(), data)
    } else if data == json::Shape::Plain(json::Flat::Null) {
        Ok(Seq::empty())
    } else {
        json::contents("CancelRequest"@, Seq::empty(), data)
    };
    match read {
        Ok(_) => None,
        Err(f) => Some(f),
    }
}

/// Whether the payload of a topic is decoded with this result.
pub open spec fn decodes(
    topic: Seq<char>,
    data: json::Shape,
    r: Result<Request, DecodeError>,
) -> bool {
    match r {
        Ok(Request::Speak(q)) => {
            &&& topic == incoming::SPEAK@
            &&& json::contents("SpeakRequest"@, SpeakRequest::schema(), data) == Ok::<
                _,
                json::Fault,
            >(q.contents())
        },
        Ok(Request::ReloadVoice(q)) => {
            &&& topic == incoming::RELOAD_VOICE@
            &&& json::contents("ReloadVoiceRequest"@, ReloadVoiceRequest::schema(), data) == Ok::<
                _,
                json::Fault,
            >(q.contents())
        },
        Ok(Request::Cancel(_)) => {
            &&& topic == incoming::CANCEL@
            &&& payload_fault(topic, data) is None
        },
        Err(DecodeError::UnknownTopic(t)) => t@ == topic && !bus::inbound(topic),
        Err(DecodeError::Json(e)) => {
            &&& bus::inbound(topic)
            &&& payload_fault(topic, data) == Some(e@)
        },
    }
}

/// Decodes the payload of a topic into a request.
pub fn decode_request(topic: &str, data: &Json) -> (r: Result<Request, DecodeError>)
    ensures
        decodes(topic@, data@, r),
{
    proof {
        bus::lemma_topics_differ();
    }
    if text::same_text(topic, incoming::SPEAK) {
        match SpeakRequest::from_json(data) {
            Ok(q) => Ok(Request::Speak(q)),
            Err(e) => Err(DecodeError::Json(e)),
        }
    } else if text::same_text(topic, incoming::RELOAD_VOICE) {
        match ReloadVoiceRequest::from_json(data) {
            Ok(q) => Ok(Request::ReloadVoice(q)),
            Err(e) => Err(DecodeError::Json(e)),
        }
    } else if text::same_text(topic, incoming::CANCEL) {
        if let Json::Null = data {
            return Ok(Request::Cancel(CancelRequest {  }));
        }
        match CancelRequest::from_json(data) {
            Ok(q) => Ok(Request::Cancel(q)),
            Err(e) => Err(DecodeError::Json(e)),
        }
    } else {
        Err(DecodeError::UnknownTopic(topic.to_owned()))
    }
}

/// A payload with nothing but a text is a speak request: no priority, no turn
/// id, and nothing to cancel first.
pub proof fn text_alone_is_a_request(t: Seq<char>)
    ensures
        json::contents(
            "SpeakRequest"@,
            SpeakRequest::schema(),
            json::Shape::Object(seq![("text"@, json::Flat::Text(t))]),
        ) == Ok::<_, json::Fault>(
            seq![
                json::ContentView::Text(t),
                json::ContentView::OptionalText(None),
                json::ContentView::Flag(false),
                json::ContentView::OptionalText(None),
            ],
        ),
{
    let fields = SpeakRequest::schema();
    let members = seq![("text"@, json::Flat::Text(t))];
    SpeakRequest::lemma_distinct();
    reveal_with_fuel(json::member, 2);
    reveal_with_fuel(json::first_fault, 2);
    reveal_with_fuel(json::named_contents, 5);
    assert(fields[0].0 != fields[1].0 && fields[0].0 != fields[2].0 && fields[0].0 != fields[3].0);
    json::lemma_kind_of(fields, 0);
    assert(json::named_contents(fields, members, 4)->Ok_0 =~= seq![
        json::ContentView::Text(t),
        json::ContentView::OptionalText(None),
        json::ContentView::Flag(false),
        json::ContentView::OptionalText(None),
    ]);
}

/// The turn id of a speak request is the one in its payload, as it stands; a
/// payload without one gives none.
pub proof fn turn_id_is_carried(members: Seq<(Seq<char>, json::Flat)>)
    requires
        json::contents(
            "SpeakRequest"@,
            SpeakRequest::schema(),
            json::Shape::Object(members),
        ) is Ok,
    ensures
        ({
            let read = json::contents(
                "SpeakRequest"@,
                SpeakRequest::schema(),
                json::Shape::Object(members),
            )->Ok_0;
            match json::member(members, "turn_id"@, members.len()) {
                Some(json::Flat::Text(id)) => read[3] == json::ContentView::OptionalText(Some(id)),
                _ => read[3] == json::ContentView::OptionalText(None),
            }
        }),
{
    json::named_contents_are_members(SpeakRequest::schema(), members, 4, 3);
}

} // verus!
