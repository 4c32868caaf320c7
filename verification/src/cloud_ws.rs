//! Streaming from the ElevenLabs service over a WebSocket.
//!
//! 1. Connect to `wss://.../v1/text-to-speech/{voice}/stream-input`.
//! 2. Send a frame that opens the stream, a frame with the text, and a frame
//!    that ends it.
//! 3. Receive frames of audio until one is final or the peer closes.
//!
//! [`WsStream`] decides what is done at each step. The chunks of audio go to a
//! consumer in the order in which they come; an error goes there once, and
//! nothing follows it.

use crate::base64_text;
use crate::cloud;
use crate::cloud::{CloudConfig, CloudError};
use crate::json;
use crate::json::Json;
use crate::single::Single;
use crate::text;
use vstd::prelude::*;

verus! {

/// Chunks that may wait for the consumer.
pub const CHANNEL_DEPTH: usize = 32;

/// Seconds after which connecting is given up.
pub const HANDSHAKE_TIMEOUT_SECS: u64 = 5;

/// Seconds after which waiting for a frame is given up.
pub const READ_TIMEOUT_SECS: u64 = 15;

/// Opens a stream.
#[derive(Debug, Clone, PartialEq)]
pub struct WsBosFrame {
    /// A single space.
    pub text: String,
    /// The API key.
    pub xi_api_key: String,
    /// How the voice is to sound.
    pub voice_settings: VoiceSettings,
}

/// How a voice is to sound.
#[derive(Debug, Clone, Copy, PartialEq)]
pub struct VoiceSettings {
    /// From 0 to 1; a higher value is more even.
    pub stability: Single,
    /// From 0 to 1; a higher value is closer to the reference voice.
    pub similarity_boost: Single,
}

impl Default for VoiceSettings {
    /// Stability 0.5 and similarity boost 0.75.
    fn default() -> (r: Self)
        ensures
            r.stability.bits == 0x3f00_0000u32,
            r.similarity_boost.bits == 0x3f40_0000u32,
    {
        VoiceSettings {
            stability: Single::from_bits(0x3f00_0000),
            similarity_boost: Single::from_bits(0x3f40_0000),
        }
    }
}

/// Carries the text.
#[derive(Debug, Clone, PartialEq, Eq)]
pub struct WsTextFrame {
    /// The text to speak.
    pub text: String,
    /// Whether audio may come before the stream is ended.
    pub try_trigger_generation: bool,
}

/// Ends a stream.
#[derive(Debug, Clone, PartialEq, Eq)]
pub struct WsEosFrame {
    /// Empty.
    pub text: String,
}

/// A frame that is received.
#[derive(Debug, Clone, PartialEq, Eq)]
pub struct WsAudioFrame {
    /// Audio in base64, if the frame has any.
    pub audio: Option<String>,
    /// Whether it is the last frame; taken as `false` where it is not said.
    pub is_final: Option<bool>,
}

impl VoiceSettings {
    /// The settings as an object.
    pub open spec fn shape(self) -> json::Shape {
        json::Shape::Object(
            seq![
                ("stability"@, json::Flat::Single(self.stability)),
                ("similarity_boost"@, json::Flat::Single(self.similarity_boost)),
            ],
        )
    }

    /// The settings as an object.
    pub fn to_json(&self) -> (r: Json)
        ensures
            r@ == self.shape(),
    {
        let members = vec![
            ("stability".to_owned(), Json::Single(self.stability)),
            ("similarity_boost".to_owned(), Json::Single(self.similarity_boost)),
        ];
        let r = Json::Object(members);
        assert(r@->Object_0 =~= self.shape()->Object_0);
        r
    }
}

impl WsBosFrame {
    /// The frame as an object, with the settings as an object in it.
    pub open spec fn is_json(self, r: Json) -> bool {
        &&& r@ == json::Shape::Object(
            seq![
                ("text"@, json::Flat::Text(self.text@)),
                ("xi_api_key"@, json::Flat::Text(self.xi_api_key@)),
                ("voice_settings"@, json::Flat::Object),
            ],
        )
        &&& r matches Json::Object(members) && members@[2].1@ == self.voice_settings.shape()
    }

    /// The frame as an object.
    pub fn to_json(&self) -> (r: Json)
        ensures
            self.is_json(r),
    {
        let members = vec![
            ("text".to_owned(), Json::Text(self.text.clone())),
            ("xi_api_key".to_owned(), Json::Text(self.xi_api_key.clone())),
            ("voice_settings".to_owned(), self.voice_settings.to_json()),
        ];
        let r = Json::Object(members);
        assert(r@->Object_0 =~= seq![
            ("text"@, json::Flat::Text(self.text@)),
            ("xi_api_key"@, json::Flat::Text(self.xi_api_key@)),
            ("voice_settings"@, json::Flat::Object),
        ]);
        r
    }
}

impl WsTextFrame {
    /// The frame as an object.
    pub open spec fn shape(self) -> json::Shape {
        json::Shape::Object(
            seq![
                ("text"@, json::Flat::Text(self.text@)),
                ("try_trigger_generation"@, json::Flat::Bool(self.try_trigger_generation)),
            ],
        )
    }

    /// The frame as an object.
    pub fn to_json(&self) -> (r: Json)
        ensures
            r@ == self.shape(),
    {
        let members = vec![
            ("text".to_owned(), Json::Text(self.text.clone())),
            ("try_trigger_generation".to_owned(), Json::Bool(self.try_trigger_generation)),
        ];
        let r = Json::Object(members);
        assert(r@->Object_0 =~= self.shape()->Object_0);
        r
    }
}

impl WsEosFrame {
    /// The frame as an object.
    pub open spec fn shape(self) -> json::Shape {
        json::Shape::Object(seq![("text"@, json::Flat::Text(self.text@))])
    }

    /// The frame as an object.
    pub fn to_json(&self) -> (r: Json)
        ensures
            r@ == self.shape(),
    {
        let members = vec![("text".to_owned(), Json::Text(self.text.clone()))];
        let r = Json::Object(members);
        assert(r@->Object_0 =~= self.shape()->Object_0);
        r
    }
}

/// Decodes the audio of a frame.
pub fn decode_audio(payload: &str) -> (r: Result<Vec<u8>, CloudError>)
    ensures
        match base64_text::base64_bytes(payload@) {
            Some(b) => r matches Ok(bytes) && bytes@ == b,
            None => r matches Err(CloudError::Http(why)) && why@ == "base64 decode: "@
                + base64_text::base64_fault(payload@),
        },
{
    match base64_text::decode(payload) {
        Ok(b) => Ok(b),
        Err(why) => Err(CloudError::Http(text::joined2("base64 decode: ", why.as_str()))),
    }
}

/// A base URL with `wss://` for `https://` and `ws://` for `http://`.
pub open spec fn ws_base(base: Seq<char>) -> Seq<char> {
    if "https://"@.is_prefix_of(base) {
        "wss://"@ + base.skip("https://"@.len() as int)
    } else if "http://"@.is_prefix_of(base) {
        "ws://"@ + base.skip("http://"@.len() as int)
    } else {
        base
    }
}

/// The URL of the stream for a voice.
pub open spec fn stream_url(config: CloudConfig, voice_id: Seq<char>) -> Seq<char> {
    ws_base(config.base_url@) + "/v1/text-to-speech/"@ + voice_id + "/stream-input?model_id="@
        + config.model_id@ + "&output_format="@ + cloud::DEFAULT_OUTPUT_FORMAT@
}

/// The URL of the stream for a voice.
pub fn streaming_url(config: &CloudConfig, voice_id: &str) -> (r: String)
    ensures
        r@ == stream_url(*config, voice_id@),
{
    let base = config.base_url.as_str();
    let ws = if let Some(rest) = text::strip_prefix(base, "https://") {
        text::joined2("wss://", rest)
    } else if let Some(rest) = text::strip_prefix(base, "http://") {
        text::joined2("ws://", rest)
    } else {
        base.to_owned()
    };
    let mut url = text::joined4(
        ws.as_str(),
        "/v1/text-to-speech/",
        voice_id,
        "/stream-input?model_id=",
    );
    url.append(config.model_id.as_str());
    url.append("&output_format=");
    url.append(cloud::DEFAULT_OUTPUT_FORMAT);
    url
}

/// Where an exchange stands.
#[derive(Debug, Clone, Copy, PartialEq, Eq)]
pub enum WsPhase {
    /// The connection is being made.
    Connecting,
    /// The opening frame is being sent.
    Opening,
    /// The frame with the text is being sent.
    Speaking,
    /// The ending frame is being sent.
    Ending,
    /// A frame is awaited.
    Reading,
    /// A chunk is being handed on; it may be the last.
    Forwarding {
        /// Whether it came in the last frame.
        last: bool,
    },
    /// The exchange is over.
    Done,
}

/// What came of the last action.
#[derive(Debug)]
pub enum WsEvent {
    /// The URL is not one that can be connected to.
    BadRequest(String),
    /// The connection could not be made.
    ConnectFailed(String),
    /// The connection was not made in time.
    HandshakeTimeout,
    /// The connection stands.
    Connected,
    /// A frame could not be encoded.
    EncodeFailed(String),
    /// A frame could not be sent.
    SendFailed(String),
    /// A frame was sent.
    Sent,
    /// Receiving failed.
    RecvFailed(String),
    /// No frame came in time.
    ReadTimeout,
    /// There are no more messages.
    Ended,
    /// A text message that is no frame.
    BadFrame(String),
    /// A frame.
    Frame(WsAudioFrame),
    /// A message that says nothing: binary, or one that keeps the connection
    /// alive.
    Idle,
    /// The peer closes the connection.
    CloseMessage,
    /// The consumer took the chunk.
    Delivered,
    /// The consumer is gone.
    ConsumerGone,
}

/// A frame to send.
#[derive(Debug, Clone)]
pub enum WsFrame {
    /// Opens the stream.
    Bos(WsBosFrame),
    /// Carries the text.
    Text(WsTextFrame),
    /// Ends the stream.
    Eos(WsEosFrame),
}

impl WsFrame {
    /// The frame as an object.
    pub fn to_json(&self) -> (r: Json)
        ensures
            match *self {
                WsFrame::Bos(f) => f.is_json(r),
                WsFrame::Text(f) => r@ == f.shape(),
                WsFrame::Eos(f) => r@ == f.shape(),
            },
    {
        match self {
            WsFrame::Bos(f) => f.to_json(),
            WsFrame::Text(f) => f.to_json(),
            WsFrame::Eos(f) => f.to_json(),
        }
    }
}

/// What is to be done next.
#[derive(Debug, Clone)]
pub enum WsAction {
    /// Send a frame.
    Send(WsFrame),
    /// Wait for a message.
    Read,
    /// Hand a chunk to the consumer.
    Forward(Vec<u8>),
    /// Hand an error to the consumer, and close the connection if so told.
    Report {
        /// The error.
        error: CloudError,
        /// Whether to close the connection.
        close: bool,
    },
    /// Close the connection.
    Close,
    /// Nothing more.
    Stop,
}

/// One exchange with the service.
#[derive(Debug, Clone)]
pub struct WsStream {
    /// Where to connect to.
    pub url: String,
    /// The API key.
    pub api_key: String,
    /// The text to speak.
    pub text: String,
    /// Where the exchange stands.
    pub phase: WsPhase,
}

/// An event with its texts as sequences of characters.
pub enum EventView {
    BadRequest(Seq<char>),
    ConnectFailed(Seq<char>),
    HandshakeTimeout,
    Connected,
    EncodeFailed(Seq<char>),
    SendFailed(Seq<char>),
    Sent,
    RecvFailed(Seq<char>),
    ReadTimeout,
    Ended,
    BadFrame(Seq<char>),
    Frame { audio: Option<Seq<char>>, last: bool },
    Idle,
    CloseMessage,
    Delivered,
    ConsumerGone,
}

/// An action with its texts and bytes as sequences. Every error that is
/// reported is one of the transport, given here by its message.
pub enum ActionView {
    SendBos { text: Seq<char>, key: Seq<char>, stability: u32, similarity_boost: u32 },
    SendText { text: Seq<char>, trigger: bool },
    SendEos { text: Seq<char> },
    Read,
    Forward(Seq<u8>),
    Report { message: Seq<char>, close: bool },
    Close,
    Stop,
}

impl WsEvent {
    /// The event with its texts as sequences of characters.
    pub open spec fn view(self) -> EventView {
        match self {
            WsEvent::BadRequest(why) => EventView::BadRequest(why@),
            WsEvent::ConnectFailed(why) => EventView::ConnectFailed(why@),
            WsEvent::HandshakeTimeout => EventView::HandshakeTimeout,
            WsEvent::Connected => EventView::Connected,
            WsEvent::EncodeFailed(why) => EventView::EncodeFailed(why@),
            WsEvent::SendFailed(why) => EventView::SendFailed(why@),
            WsEvent::Sent => EventView::Sent,
            WsEvent::RecvFailed(why) => EventView::RecvFailed(why@),
            WsEvent::ReadTimeout => EventView::ReadTimeout,
            WsEvent::Ended => EventView::Ended,
            WsEvent::BadFrame(why) => EventView::BadFrame(why@),
            WsEvent::Frame(f) => EventView::Frame {
                audio: match f.audio {
                    Some(t) => Some(t@),
                    None => None,
                },
                last: f.is_final == Some(true),
            },
            WsEvent::Idle => EventView::Idle,
            WsEvent::CloseMessage => EventView::CloseMessage,
            WsEvent::Delivered => EventView::Delivered,
            WsEvent::ConsumerGone => EventView::ConsumerGone,
        }
    }
}

impl WsAction {
    /// Whether this is the action.
    pub open spec fn is(self, a: ActionView) -> bool {
        match (self, a) {
            (
                WsAction::Send(WsFrame::Bos(f)),
                ActionView::SendBos { text, key, stability, similarity_boost },
            ) => {
                &&& f.text@ == text
                &&& f.xi_api_key@ == key
                &&& f.voice_settings.stability.bits == stability
                &&& f.voice_settings.similarity_boost.bits == similarity_boost
            },
            (WsAction::Send(WsFrame::Text(f)), ActionView::SendText { text, trigger }) => {
                &&& f.text@ == text
                &&& f.try_trigger_generation == trigger
            },
            (WsAction::Send(WsFrame::Eos(f)), ActionView::SendEos { text }) => f.text@ == text,
            (WsAction::Read, ActionView::Read) => true,
            (WsAction::Forward(b), ActionView::Forward(bytes)) => b@ == bytes,
            (
                WsAction::Report { error: CloudError::Http(why), close },
                ActionView::Report { message, close: c },
            ) => why@ == message && close == c,
            (WsAction::Close, ActionView::Close) => true,
            (WsAction::Stop, ActionView::Stop) => true,
            _ => false,
        }
    }
}

/// Reports a failure that ends the exchange.
pub open spec fn failed(message: Seq<char>, close: bool) -> (WsPhase, ActionView) {
    (WsPhase::Done, ActionView::Report { message, close })
}

/// Goes on after a frame: closes after the last, else waits for the next.
pub open spec fn after_frame(last: bool) -> (WsPhase, ActionView) {
    if last {
        (WsPhase::Done, ActionView::Close)
    } else {
        (WsPhase::Reading, ActionView::Read)
    }
}

/// How an exchange goes on from a phase after an event. An event that does not
/// belong to the phase ends the exchange.
pub open spec fn next(
    phase: WsPhase,
    event: EventView,
    key: Seq<char>,
    text: Seq<char>,
) -> (WsPhase, ActionView) {
    match (phase, event) {
        (WsPhase::Connecting, EventView::BadRequest(why)) => failed("ws request: "@ + why, false),
        (WsPhase::Connecting, EventView::ConnectFailed(why)) => failed(
            "ws connect: "@ + why,
            false,
        ),
        (WsPhase::Connecting, EventView::HandshakeTimeout) => failed(
            "ws handshake timeout"@,
            false,
        ),
        (WsPhase::Connecting, EventView::Connected) => (
            WsPhase::Opening,
            ActionView::SendBos {
                text: " "@,
                key,
                stability: 0x3f00_0000u32,
                similarity_boost: 0x3f40_0000u32,
            },
        ),
        (WsPhase::Opening, EventView::EncodeFailed(why))
        | (WsPhase::Speaking, EventView::EncodeFailed(why))
        | (WsPhase::Ending, EventView::EncodeFailed(why)) => failed(
            "ws frame encode: "@ + why,
            true,
        ),
        (WsPhase::Opening, EventView::SendFailed(why))
        | (WsPhase::Speaking, EventView::SendFailed(why))
        | (WsPhase::Ending, EventView::SendFailed(why)) => failed("ws send: "@ + why, true),
        (WsPhase::Opening, EventView::Sent) => (
            WsPhase::Speaking,
            ActionView::SendText { text, trigger: true },
        ),
        (WsPhase::Speaking, EventView::Sent) => (
            WsPhase::Ending,
            ActionView::SendEos { text: Seq::empty() },
        ),
        (WsPhase::Ending, EventView::Sent) => (WsPhase::Reading, ActionView::Read),
        (WsPhase::Reading, EventView::RecvFailed(why)) => failed("ws recv: "@ + why, false),
        (WsPhase::Reading, EventView::ReadTimeout) => failed("ws read timeout"@, false),
        (WsPhase::Reading, EventView::BadFrame(why)) => failed("ws frame decode: "@ + why, false),
        (WsPhase::Reading, EventView::Ended) | (WsPhase::Reading, EventView::CloseMessage) => (
            WsPhase::Done,
            ActionView::Close,
        ),
        (WsPhase::Reading, EventView::Idle) => (WsPhase::Reading, ActionView::Read),
        (WsPhase::Reading, EventView::Frame { audio: None, last }) => after_frame(last),
        (WsPhase::Reading, EventView::Frame { audio: Some(payload), last }) => {
            match base64_text::base64_bytes(payload) {
                None => failed("base64 decode: "@ + base64_text::base64_fault(payload), false),
                Some(bytes) => if bytes.len() == 0 {
                    after_frame(last)
                } else {
                    (WsPhase::Forwarding { last }, ActionView::Forward(bytes))
                },
            }
        },
        (WsPhase::Forwarding { last }, EventView::Delivered) => after_frame(last),
        _ => (WsPhase::Done, ActionView::Stop),
    }
}

fn report(prefix: &str, why: &str, close: bool) -> (r: (WsPhase, WsAction))
    ensures
        r.0 == WsPhase::Done,
        r.1.is(ActionView::Report { message: prefix@ + why@, close }),
{
    (
        WsPhase::Done,
        WsAction::Report { error: CloudError::Http(text::joined2(prefix, why)), close },
    )
}

fn go_on(last: bool) -> (r: (WsPhase, WsAction))
    ensures
        r.0 == after_frame(last).0,
        r.1.is(after_frame(last).1),
{
    if last {
        (WsPhase::Done, WsAction::Close)
    } else {
        (WsPhase::Reading, WsAction::Read)
    }
}

impl WsStream {
    /// Decides what is done after an event.
    fn decide(&self, event: &WsEvent) -> (r: (WsPhase, WsAction))
        ensures
            r.0 == next(self.phase, event@, self.api_key@, self.text@).0,
            r.1.is(next(self.phase, event@, self.api_key@, self.text@).1),
    {
        match (self.phase, event) {
            (WsPhase::Connecting, WsEvent::BadRequest(why)) => report(
                "ws request: ",
                why.as_str(),
                false,
            ),
            (WsPhase::Connecting, WsEvent::ConnectFailed(why)) => report(
                "ws connect: ",
                why.as_str(),
                false,
            ),
            (WsPhase::Connecting, WsEvent::HandshakeTimeout) => (
                WsPhase::Done,
                WsAction::Report {
                    error: CloudError::Http("ws handshake timeout".to_owned()),
                    close: false,
                },
            ),
            (WsPhase::Connecting, WsEvent::Connected) => (
                WsPhase::Opening,
                WsAction::Send(
                    WsFrame::Bos(
                        WsBosFrame {
                            text: " ".to_owned(),
                            xi_api_key: self.api_key.clone(),
                            voice_settings: VoiceSettings::default(),
                        },
                    ),
                ),
            ),
            (WsPhase::Opening, WsEvent::EncodeFailed(why))
            | (WsPhase::Speaking, WsEvent::EncodeFailed(why))
            | (WsPhase::Ending, WsEvent::EncodeFailed(why)) => report(
                "ws frame encode: ",
                why.as_str(),
                true,
            ),
            (WsPhase::Opening, WsEvent::SendFailed(why))
            | (WsPhase::Speaking, WsEvent::SendFailed(why))
            | (WsPhase::Ending, WsEvent::SendFailed(why)) => report(
                "ws send: ",
                why.as_str(),
                true,
            ),
            (WsPhase::Opening, WsEvent::Sent) => (
                WsPhase::Speaking,
                WsAction::Send(
                    WsFrame::Text(
                        WsTextFrame { text: self.text.clone(), try_trigger_generation: true },
                    ),
                ),
            ),
            (WsPhase::Speaking, WsEvent::Sent) => (
                WsPhase::Ending,
                WsAction::Send(WsFrame::Eos(WsEosFrame { text: String::new() })),
            ),
            (WsPhase::Ending, WsEvent::Sent) => (WsPhase::Reading, WsAction::Read),
            (WsPhase::Reading, WsEvent::RecvFailed(why)) => report("ws recv: ", why.as_str(), false),
            (WsPhase::Reading, WsEvent::ReadTimeout) => (
                WsPhase::Done,
                WsAction::Report {
                    error: CloudError::Http("ws read timeout".to_owned()),
                    close: false,
                },
            ),
            (WsPhase::Reading, WsEvent::BadFrame(why)) => report(
                "ws frame decode: ",
                why.as_str(),
                false,
            ),
            (WsPhase::Reading, WsEvent::Ended) | (WsPhase::Reading, WsEvent::CloseMessage) => (
                WsPhase::Done,
                WsAction::Close,
            ),
            (WsPhase::Reading, WsEvent::Idle) => (WsPhase::Reading, WsAction::Read),
            (WsPhase::Reading, WsEvent::Frame(f)) => {
                let last = match f.is_final {
                    Some(b) => b,
                    None => false,
                };
                match &f.audio {
                    None => go_on(last),
                    Some(payload) => match decode_audio(payload.as_str()) {
                        Err(error) => (WsPhase::Done, WsAction::Report { error, close: false }),
                        Ok(bytes) => if bytes.len() == 0 {
                            go_on(last)
                        } else {
                            (WsPhase::Forwarding { last }, WsAction::Forward(bytes))
                        },
                    },
                }
            },
            (WsPhase::Forwarding { last }, WsEvent::Delivered) => go_on(last),
            _ => (WsPhase::Done, WsAction::Stop),
        }
    }

    /// Takes what came of the last action and says what is done next.
    pub fn step(&mut self, event: &WsEvent) -> (r: WsAction)
        ensures
            final(self).phase == next(
                old(self).phase,
                event@,
                old(self).api_key@,
                old(self).text@,
            ).0,
            r.is(next(old(self).phase, event@, old(self).api_key@, old(self).text@).1),
            final(self).url == old(self).url,
            final(self).api_key == old(self).api_key,
            final(self).text == old(self).text,
    {
        let (phase, action) = self.decide(event);
        self.phase = phase;
        action
    }
}

/// Begins an exchange that speaks `text`. Without a key or a voice there is
/// none to begin; a missing key is found first.
pub fn eleven_labs_stream(config: &CloudConfig, text: &str) -> (r: Result<WsStream, CloudError>)
    ensures
        match (config.api_key, config.voice_id) {
            (None, _) => r == Err::<WsStream, CloudError>(CloudError::MissingApiKey),
            (Some(_), None) => r == Err::<WsStream, CloudError>(CloudError::MissingVoiceId),
            (Some(key), Some(voice)) => r matches Ok(s) && s.url@ == stream_url(*config, voice@)
                && s.api_key@ == key@ && s.text@ == text@ && s.phase == WsPhase::Connecting,
        },
{
    let key = match &config.api_key {
        Some(key) => key,
        None => return Err(CloudError::MissingApiKey),
    };
    let voice = match &config.voice_id {
        Some(voice) => voice,
        None => return Err(CloudError::MissingVoiceId),
    };
    Ok(
        WsStream {
            url: streaming_url(config, voice.as_str()),
            api_key: key.clone(),
            text: text.to_owned(),
            phase: WsPhase::Connecting,
        },
    )
}

/// The phases that an exchange goes through, one after each event.
pub open spec fn phase_after(
    events: Seq<EventView>,
    n: nat,
    key: Seq<char>,
    text: Seq<char>,
) -> WsPhase
    decreases n,
{
    if n == 0 {
        WsPhase::Connecting
    } else {
        next(phase_after(events, (n - 1) as nat, key, text), events[n - 1], key, text).0
    }
}

/// The action that follows the event at `i`.
pub open spec fn action_at(
    events: Seq<EventView>,
    i: nat,
    key: Seq<char>,
    text: Seq<char>,
) -> ActionView {
    next(phase_after(events, i, key, text), events[i as int], key, text).1
}

proof fn lemma_done_stays(
    events: Seq<EventView>,
    i: nat,
    j: nat,
    key: Seq<char>,
    text: Seq<char>,
)
    requires
        i <= j,
        phase_after(events, i, key, text) == WsPhase::Done,
    ensures
        phase_after(events, j, key, text) == WsPhase::Done,
    decreases j,
{
    if i < j {
        lemma_done_stays(events, i, (j - 1) as nat, key, text);
    }
}

/// An error is reported at most once, and nothing follows it.
pub proof fn nothing_follows_an_error(
    events: Seq<EventView>,
    i: nat,
    j: nat,
    key: Seq<char>,
    text: Seq<char>,
)
    requires
        i < j < events.len(),
        action_at(events, i, key, text) is Report,
    ensures
        action_at(events, j, key, text) == ActionView::Stop,
{
    lemma_done_stays(events, (i + 1) as nat, j, key, text);
}

/// Every chunk that is handed on is the audio of the frame that has just come,
/// and is not empty: chunks keep the order in which they come.
pub proof fn chunks_are_the_audio_received(
    events: Seq<EventView>,
    i: nat,
    key: Seq<char>,
    text: Seq<char>,
)
    requires
        i < events.len(),
        action_at(events, i, key, text) is Forward,
    ensures
        action_at(events, i, key, text)->Forward_0.len() > 0,
        events[i as int] matches EventView::Frame { audio: Some(payload), .. }
            && base64_text::base64_bytes(payload) == Some(
            action_at(events, i, key, text)->Forward_0,
        ),
{
}

/// No audio is lost: while frames are awaited, the audio of each is handed on.
pub proof fn audio_received_is_handed_on(
    events: Seq<EventView>,
    i: nat,
    key: Seq<char>,
    text: Seq<char>,
    bytes: Seq<u8>,
)
    requires
        i < events.len(),
        phase_after(events, i, key, text) == WsPhase::Reading,
        bytes.len() > 0,
        events[i as int] matches EventView::Frame { audio: Some(payload), .. } && payload
            == base64_text::base64_text(bytes),
    ensures
        action_at(events, i, key, text) == ActionView::Forward(bytes),
{
    base64_text::base64_round_trip(bytes);
}

/// An exchange reads and hands on audio only after the three frames have been
/// sent, in order: the one that opens the stream with the key, the one with the
/// text, the one that ends it.
pub proof fn frames_go_out_in_order(
    events: Seq<EventView>,
    i: nat,
    key: Seq<char>,
    text: Seq<char>,
)
    requires
        i < events.len(),
        action_at(events, i, key, text) is Read || action_at(events, i, key, text) is Forward,
    ensures
        i >= 3,
        events[0] == EventView::Connected,
        action_at(events, 0, key, text) == (ActionView::SendBos {
            text: " "@,
            key,
            stability: 0x3f00_0000u32,
            similarity_boost: 0x3f40_0000u32,
        }),
        events[1] == EventView::Sent,
        action_at(events, 1, key, text) == (ActionView::SendText { text, trigger: true }),
        events[2] == EventView::Sent,
        action_at(events, 2, key, text) == (ActionView::SendEos { text: Seq::empty() }),
        events[3] == EventView::Sent,
{
    lemma_phases(events, i, key, text);
    reveal_with_fuel(phase_after, 4);
}

/// What must have happened for an exchange to be where it is.
proof fn lemma_phases(events: Seq<EventView>, n: nat, key: Seq<char>, text: Seq<char>)
    ensures
        ({
            let phase = phase_after(events, n, key, text);
            let reading = phase == WsPhase::Reading || phase is Forwarding;
            &&& phase == WsPhase::Connecting ==> n == 0
            &&& phase == WsPhase::Opening ==> n == 1
            &&& phase == WsPhase::Speaking ==> n == 2
            &&& phase == WsPhase::Ending ==> n == 3
            &&& phase == WsPhase::Opening || phase == WsPhase::Speaking || phase
                == WsPhase::Ending || reading ==> n >= 1 && events[0] == EventView::Connected
            &&& phase == WsPhase::Speaking || phase == WsPhase::Ending || reading ==> n >= 2
                && events[1] == EventView::Sent
            &&& phase == WsPhase::Ending || reading ==> n >= 3 && events[2] == EventView::Sent
            &&& reading ==> n >= 4 && events[3] == EventView::Sent
        }),
    decreases n,
{
    if n > 0 {
        lemma_phases(events, (n - 1) as nat, key, text);
    }
}

} // verus!
