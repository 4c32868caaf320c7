//! The optional ElevenLabs service.
//!
//! Speech is rendered on this machine unless the service is switched on with
//! `WM_CLOUD_TTS_QUALITY` and an API key and a voice are set. Then it is asked
//! first, with `POST /v1/text-to-speech/{voice}`, and answers with MP3 bytes.

use crate::json;
use crate::json::Json;
use crate::text;
use crate::vars;
use vstd::prelude::*;

verus! {

/// Switches the service on: `1`, `true`, `yes` or `on`, in any letter case.
pub const ENV_ENABLED: &'static str = "WM_CLOUD_TTS_QUALITY";

/// The API key.
pub const ENV_API_KEY: &'static str = "ELEVENLABS_API_KEY";

/// Another name for the API key, read where the first is not set.
pub const ENV_API_KEY_ALIAS: &'static str = "WM_TTS_CLOUD_API_KEY";

/// The voice at the service.
pub const ENV_VOICE_ID: &'static str = "WM_TTS_VOICE_ID_CLOUD";

/// The model at the service.
pub const ENV_MODEL_ID: &'static str = "WM_TTS_CLOUD_MODEL";

/// The base URL of the service.
pub const ENV_BASE_URL: &'static str = "WM_TTS_CLOUD_BASE_URL";

/// The model where none is set.
pub const DEFAULT_MODEL_ID: &'static str = "eleven_monolingual_v1";

/// The base URL where none is set.
pub const DEFAULT_BASE_URL: &'static str = "https://api.elevenlabs.io";

/// The audio format that is asked for: MP3 at 44.1 kHz and 128 kbps.
pub const DEFAULT_OUTPUT_FORMAT: &'static str = "mp3_44100_128";

/// Seconds after which a request is given up.
pub const REQUEST_TIMEOUT_SECS: u64 = 10;

/// Characters kept of the body of a refusal.
pub const BODY_KEPT: usize = 256;

/// Settings of the service.
#[derive(Debug, Clone, PartialEq, Eq)]
pub struct CloudConfig {
    /// Whether the service is switched on.
    pub enabled: bool,
    /// The API key, without which the service cannot be used.
    pub api_key: Option<String>,
    /// The voice, without which the service cannot be used.
    pub voice_id: Option<String>,
    /// The model.
    pub model_id: String,
    /// The base URL, without a slash at its end.
    pub base_url: String,
}

/// The variables that the settings come from.
pub struct CloudVars {
    pub enabled: Option<Seq<char>>,
    pub api_key: Option<Seq<char>>,
    pub api_key_alias: Option<Seq<char>>,
    pub voice_id: Option<Seq<char>>,
    pub model_id: Option<Seq<char>>,
    pub base_url: Option<Seq<char>>,
}

/// Whether a value switches a setting on.
pub open spec fn truthy(v: Seq<char>) -> bool {
    let low = text::ascii_lower(text::trimmed(v));
    low == "1"@ || low == "true"@ || low == "yes"@ || low == "on"@
}

/// Whether a value switches a setting on.
pub fn is_truthy(v: &str) -> (r: bool)
    ensures
        r == truthy(v@),
{
    let low = text::to_ascii_lower(text::trim(v));
    let l = low.as_str();
    text::same_text(l, "1") || text::same_text(l, "true") || text::same_text(l, "yes")
        || text::same_text(l, "on")
}

/// Removes the slashes at the end.
pub fn trim_trailing_slash(s: &str) -> (r: &str)
    ensures
        r@ == text::without_trailing(s@, '/'),
{
    text::trim_end_char(s, '/')
}

/// The first `max` characters.
pub fn truncate(s: &str, max: usize) -> (r: String)
    ensures
        r@ == text::first_chars(s@, max as nat),
{
    text::take_chars(s, max)
}

impl Default for CloudConfig {
    fn default() -> (r: Self)
        ensures
            !r.enabled,
            r.api_key is None,
            r.voice_id is None,
            r.model_id@ == DEFAULT_MODEL_ID@,
            r.base_url@ == DEFAULT_BASE_URL@,
    {
        CloudConfig {
            enabled: false,
            api_key: None,
            voice_id: None,
            model_id: DEFAULT_MODEL_ID.to_owned(),
            base_url: DEFAULT_BASE_URL.to_owned(),
        }
    }
}

impl CloudConfig {
    /// Whether these are the settings that the variables give. A variable that
    /// is unset or white space counts as not there.
    pub open spec fn comes_from(self, v: CloudVars) -> bool {
        &&& self.enabled == (v.enabled is Some && truthy(v.enabled->0))
        &&& json::optional(self.api_key) == (match vars::nonempty(v.api_key) {
            Some(key) => Some(key),
            None => vars::nonempty(v.api_key_alias),
        })
        &&& json::optional(self.voice_id) == vars::nonempty(v.voice_id)
        &&& self.model_id@ == (match vars::nonempty(v.model_id) {
            Some(model) => model,
            None => DEFAULT_MODEL_ID@,
        })
        &&& self.base_url@ == (match vars::nonempty(v.base_url) {
            Some(url) => text::without_trailing(url, '/'),
            None => DEFAULT_BASE_URL@,
        })
    }

    /// Whether the service is switched on and has its key and its voice.
    pub open spec fn active(self) -> bool {
        self.enabled && self.api_key is Some && self.voice_id is Some
    }

    /// Reads the settings from the environment.
    pub fn from_env<F: Fn(&str) -> Option<String>>(var: &F) -> (r: Self)
        requires
            forall|k: &str| #[trigger] call_requires(*var, (k,)),
        ensures
            exists|v: CloudVars| #[trigger] may_have(*var, v) && r.comes_from(v),
    {
        let enabled = vars::read(var, ENV_ENABLED);
        let api_key = vars::read(var, ENV_API_KEY);
        let api_key_alias = vars::read(var, ENV_API_KEY_ALIAS);
        let voice_id = vars::read(var, ENV_VOICE_ID);
        let model_id = vars::read(var, ENV_MODEL_ID);
        let base_url = vars::read(var, ENV_BASE_URL);
        let ghost v = CloudVars {
            enabled: json::optional(enabled),
            api_key: json::optional(api_key),
            api_key_alias: json::optional(api_key_alias),
            voice_id: json::optional(voice_id),
            model_id: json::optional(model_id),
            base_url: json::optional(base_url),
        };
        assert(may_have(*var, v));
        let r = CloudConfig {
            enabled: match enabled {
                Some(value) => is_truthy(value.as_str()),
                None => false,
            },
            api_key: match vars::nonempty_of(api_key) {
                Some(key) => Some(key),
                None => vars::nonempty_of(api_key_alias),
            },
            voice_id: vars::nonempty_of(voice_id),
            model_id: match vars::nonempty_of(model_id) {
                Some(model) => model,
                None => DEFAULT_MODEL_ID.to_owned(),
            },
            base_url: match vars::nonempty_of(base_url) {
                Some(url) => trim_trailing_slash(url.as_str()).to_owned(),
                None => DEFAULT_BASE_URL.to_owned(),
            },
        };
        assert(r.comes_from(v));
        r
    }

    /// Whether the service is switched on and has its key and its voice.
    pub fn is_active(&self) -> (r: bool)
        ensures
            r == self.active(),
    {
        self.enabled && self.api_key.is_some() && self.voice_id.is_some()
    }
}

/// Whether the environment may hold these values.
pub open spec fn may_have<F: Fn(&str) -> Option<String>>(var: F, v: CloudVars) -> bool {
    &&& vars::may_read(var, ENV_ENABLED@, v.enabled)
    &&& vars::may_read(var, ENV_API_KEY@, v.api_key)
    &&& vars::may_read(var, ENV_API_KEY_ALIAS@, v.api_key_alias)
    &&& vars::may_read(var, ENV_VOICE_ID@, v.voice_id)
    &&& vars::may_read(var, ENV_MODEL_ID@, v.model_id)
    &&& vars::may_read(var, ENV_BASE_URL@, v.base_url)
}

/// Why the service gave no audio.
#[derive(Debug, Clone, PartialEq, Eq)]
pub enum CloudError {
    /// It is not switched on.
    NotEnabled,
    /// No API key is set.
    MissingApiKey,
    /// No voice is set.
    MissingVoiceId,
    /// The transport failed.
    Http(String),
    /// It answered with a status that is no success.
    Status {
        /// The status.
        status: u16,
        /// The first characters of the body.
        body: String,
    },
    /// It answered with an empty body.
    Empty,
}

/// A [`CloudError`] with its texts as sequences of characters.
pub enum CloudFault {
    NotEnabled,
    MissingApiKey,
    MissingVoiceId,
    Http(Seq<char>),
    Status { status: u16, body: Seq<char> },
    Empty,
}

impl CloudFault {
    /// The fault in words.
    pub open spec fn words(self) -> Seq<char> {
        match self {
            CloudFault::NotEnabled => "cloud TTS not enabled or unconfigured"@,
            CloudFault::MissingApiKey => "missing ElevenLabs api key"@,
            CloudFault::MissingVoiceId => "missing cloud voice id"@,
            CloudFault::Http(why) => "cloud http transport: "@ + why,
            CloudFault::Status { status, body } => "cloud http status "@ + text::decimal_text(
                status as nat,
            ) + ": "@ + body,
            CloudFault::Empty => "cloud returned empty body"@,
        }
    }
}

impl CloudError {
    /// The error with its texts as sequences of characters.
    pub open spec fn view(self) -> CloudFault {
        match self {
            CloudError::NotEnabled => CloudFault::NotEnabled,
            CloudError::MissingApiKey => CloudFault::MissingApiKey,
            CloudError::MissingVoiceId => CloudFault::MissingVoiceId,
            CloudError::Http(why) => CloudFault::Http(why@),
            CloudError::Status { status, body } => CloudFault::Status { status, body: body@ },
            CloudError::Empty => CloudFault::Empty,
        }
    }

    /// The error in words.
    pub fn message(&self) -> (r: String)
        ensures
            r@ == self@.words(),
    {
        match self {
            CloudError::NotEnabled => "cloud TTS not enabled or unconfigured".to_owned(),
            CloudError::MissingApiKey => "missing ElevenLabs api key".to_owned(),
            CloudError::MissingVoiceId => "missing cloud voice id".to_owned(),
            CloudError::Http(why) => text::joined2("cloud http transport: ", why.as_str()),
            CloudError::Status { status, body } => text::joined4(
                "cloud http status ",
                text::decimal(*status as u64).as_str(),
                ": ",
                body.as_str(),
            ),
            CloudError::Empty => "cloud returned empty body".to_owned(),
        }
    }
}

/// Stands for the service where it is not switched on: it gives no audio.
#[derive(Debug, Clone, Copy)]
pub struct DisabledCloudSynth;

impl Default for DisabledCloudSynth {
    fn default() -> (r: Self)
        ensures
            r == DisabledCloudSynth,
    {
        DisabledCloudSynth
    }
}

impl DisabledCloudSynth {
    /// Gives no audio.
    pub fn render(&self, text: &str) -> (r: Result<Vec<u8>, CloudError>)
        ensures
            r == Err::<Vec<u8>, CloudError>(CloudError::NotEnabled),
    {
        Err(CloudError::NotEnabled)
    }

    /// It is never active.
    pub fn is_active(&self) -> (r: bool)
        ensures
            !r,
    {
        false
    }
}

/// A request to the service.
#[derive(Debug)]
pub struct CloudRequest {
    /// Where it is posted to.
    pub url: String,
    /// The header `xi-api-key`.
    pub api_key: String,
    /// The header `accept`.
    pub accept: String,
    /// The body.
    pub body: Json,
}

/// What is to be read of an answer.
#[derive(Debug, Clone, Copy, PartialEq, Eq)]
pub enum CloudRead {
    /// The audio.
    Audio,
    /// The text that says why the request was refused.
    Refusal,
}

/// What was read of an answer.
#[derive(Debug, PartialEq, Eq)]
pub enum CloudBody {
    /// The audio, or why it could not be read.
    Audio(Result<Vec<u8>, String>),
    /// The text of a refusal, if it could be read.
    Refusal(Option<String>),
}

/// The service as a backend.
#[derive(Debug, Clone, PartialEq, Eq)]
pub struct ElevenLabsCloudSynth {
    /// Its settings.
    pub config: CloudConfig,
}

impl ElevenLabsCloudSynth {
    /// The service with these settings.
    pub fn new(config: CloudConfig) -> (r: Self)
        ensures
            r.config == config,
    {
        ElevenLabsCloudSynth { config }
    }

    /// The URL for a voice.
    pub open spec fn url(self, voice_id: Seq<char>) -> Seq<char> {
        self.config.base_url@ + "/v1/text-to-speech/"@ + voice_id + "?output_format="@
            + DEFAULT_OUTPUT_FORMAT@
    }

    /// The URL for a voice.
    pub fn endpoint(&self, voice_id: &str) -> (r: String)
        ensures
            r@ == self.url(voice_id@),
    {
        let mut url = text::joined4(
            self.config.base_url.as_str(),
            "/v1/text-to-speech/",
            voice_id,
            "?output_format=",
        );
        url.append(DEFAULT_OUTPUT_FORMAT);
        url
    }

    /// The body of the request for a text.
    pub open spec fn body(self, text: Seq<char>) -> json::Shape {
        json::Shape::Object(
            seq![
                ("text"@, json::Flat::Text(text)),
                ("model_id"@, json::Flat::Text(self.config.model_id@)),
            ],
        )
    }

    /// The request for a text. A missing key is found before a missing voice.
    pub fn request(&self, text: &str) -> (r: Result<CloudRequest, CloudError>)
        ensures
            match (self.config.api_key, self.config.voice_id) {
                (None, _) => r == Err::<CloudRequest, CloudError>(CloudError::MissingApiKey),
                (Some(_), None) => r == Err::<CloudRequest, CloudError>(
                    CloudError::MissingVoiceId,
                ),
                (Some(key), Some(voice)) => r matches Ok(q) && q.url@ == self.url(voice@)
                    && q.api_key@ == key@ && q.accept@ == "audio/mpeg"@ && q.body@ == self.body(
                    text@,
                ),
            },
    {
        let key = match &self.config.api_key {
            Some(key) => key,
            None => return Err(CloudError::MissingApiKey),
        };
        let voice = match &self.config.voice_id {
            Some(voice) => voice,
            None => return Err(CloudError::MissingVoiceId),
        };
        let members = vec![
            ("text".to_owned(), Json::Text(text.to_owned())),
            ("model_id".to_owned(), Json::Text(self.config.model_id.clone())),
        ];
        let body = Json::Object(members);
        assert(body@->Object_0 =~= self.body(text@)->Object_0);
        Ok(
            CloudRequest {
                url: self.endpoint(voice.as_str()),
                api_key: key.clone(),
                accept: "audio/mpeg".to_owned(),
                body,
            },
        )
    }

    /// A request that could not be sent.
    pub fn not_sent(why: String) -> (r: CloudError)
        ensures
            r == CloudError::Http(why),
    {
        CloudError::Http(why)
    }

    /// What to read of an answer: the audio where its status is a success.
    pub fn on_status(status: u16) -> (r: CloudRead)
        ensures
            r == (if 200 <= status < 300 {
                CloudRead::Audio
            } else {
                CloudRead::Refusal
            }),
    {
        if 200 <= status && status < 300 {
            CloudRead::Audio
        } else {
            CloudRead::Refusal
        }
    }

    /// A refusal, with the text of its body if that could be read.
    pub fn refused(status: u16, body: Option<String>) -> (r: CloudError)
        ensures
            r matches CloudError::Status { status: s, body: kept } && s == status && kept@ == (
            match body {
                Some(text) => text::first_chars(text@, BODY_KEPT as nat),
                None => Seq::empty(),
            }),
    {
        let kept = match body {
            Some(text) => truncate(text.as_str(), BODY_KEPT),
            None => String::new(),
        };
        CloudError::Status { status, body: kept }
    }

    /// The audio of an answer, which must not be empty.
    pub fn audio(bytes: Result<Vec<u8>, String>) -> (r: Result<Vec<u8>, CloudError>)
        ensures
            match bytes {
                Err(why) => r == Err::<Vec<u8>, CloudError>(CloudError::Http(why)),
                Ok(b) => if b@.len() == 0 {
                    r == Err::<Vec<u8>, CloudError>(CloudError::Empty)
                } else {
                    r == Ok::<Vec<u8>, CloudError>(b)
                },
            },
    {
        match bytes {
            Err(why) => Err(CloudError::Http(why)),
            Ok(b) => if b.len() == 0 {
                Err(CloudError::Empty)
            } else {
                Ok(b)
            },
        }
    }

    /// The audio of an answer, or why there is none. An answer whose status is no
    /// success is a refusal, whatever was read of it.
    pub fn judge(status: u16, body: CloudBody) -> (r: Result<Vec<u8>, CloudError>)
        ensures
            match body {
                CloudBody::Audio(bytes) => if 200 <= status < 300 {
                    match bytes {
                        Err(why) => r == Err::<Vec<u8>, CloudError>(CloudError::Http(why)),
                        Ok(b) => if b@.len() == 0 {
                            r == Err::<Vec<u8>, CloudError>(CloudError::Empty)
                        } else {
                            r == Ok::<Vec<u8>, CloudError>(b)
                        },
                    }
                } else {
                    r matches Err(e) && e@ == (CloudFault::Status { status, body: Seq::empty() })
                },
                CloudBody::Refusal(text) => r matches Err(e) && e@ == (CloudFault::Status {
                    status,
                    body: match text {
                        Some(t) => text::first_chars(t@, BODY_KEPT as nat),
                        None => Seq::empty(),
                    },
                }),
            },
    {
        match body {
            CloudBody::Audio(bytes) => match Self::on_status(status) {
                CloudRead::Audio => Self::audio(bytes),
                CloudRead::Refusal => Err(Self::refused(status, None)),
            },
            CloudBody::Refusal(text) => Err(Self::refused(status, text)),
        }
    }

    /// Whether the service is switched on and has its key and its voice.
    pub fn is_active(&self) -> (r: bool)
        ensures
            r == self.config.active(),
    {
        self.config.is_active()
    }
}

/// The backend in use, with the client that speaks to the service.
#[derive(Debug)]
pub enum CloudBackend<T> {
    /// None.
    Disabled(DisabledCloudSynth),
    /// The service.
    ElevenLabs(ElevenLabsCloudSynth, T),
}

impl<T> CloudBackend<T> {
    /// Whether the service is asked at all.
    pub fn is_active(&self) -> (r: bool)
        ensures
            r == (match *self {
                CloudBackend::Disabled(_) => false,
                CloudBackend::ElevenLabs(synth, _) => synth.config.active(),
            }),
    {
        match self {
            CloudBackend::Disabled(d) => d.is_active(),
            CloudBackend::ElevenLabs(synth, _) => synth.is_active(),
        }
    }
}

/// The backend for these settings: the service if it is active and a client
/// for it can be made, else none. No client is made in vain.
pub fn cloud_synth<T, C: FnOnce() -> Option<T>>(config: CloudConfig, make_client: C) -> (r:
    CloudBackend<T>)
    requires
        call_requires(make_client, ()),
    ensures
        match r {
            CloudBackend::Disabled(_) => !config.active() || call_ensures(
                make_client,
                (),
                None::<T>,
            ),
            CloudBackend::ElevenLabs(synth, client) => config.active() && synth.config == config
                && call_ensures(make_client, (), Some(client)),
        },
{
    if !config.is_active() {
        return CloudBackend::Disabled(DisabledCloudSynth);
    }
    match make_client() {
        Some(client) => CloudBackend::ElevenLabs(ElevenLabsCloudSynth::new(config), client),
        None => CloudBackend::Disabled(DisabledCloudSynth),
    }
}

/// The backend that the environment asks for.
pub fn cloud_synth_from_env<T, F: Fn(&str) -> Option<String>, C: FnOnce() -> Option<T>>(
    var: &F,
    make_client: C,
) -> (r: CloudBackend<T>)
    requires
        forall|k: &str| #[trigger] call_requires(*var, (k,)),
        call_requires(make_client, ()),
    ensures
        exists|config: CloudConfig, v: CloudVars| #[trigger]
            may_have(*var, v) && #[trigger] config.comes_from(v) && match r {
                CloudBackend::Disabled(_) => !config.active() || call_ensures(
                    make_client,
                    (),
                    None::<T>,
                ),
                CloudBackend::ElevenLabs(synth, client) => config.active() && synth.config
                    == config && call_ensures(make_client, (), Some(client)),
            },
{
    let config = CloudConfig::from_env(var);
    cloud_synth(config, make_client)
}

/// The service is never asked unless it is switched on, whatever else is set.
pub proof fn off_unless_switched_on(config: CloudConfig, v: CloudVars)
    requires
        config.comes_from(v),
        v.enabled is None || !truthy(v.enabled->0),
    ensures
        !config.active(),
{
}

proof fn lemma_no_trailing(s: Seq<char>, c: char)
    ensures
        text::without_trailing(s, c).len() > 0 ==> text::without_trailing(s, c).last() != c,
    decreases s.len(),
{
    if s.len() > 0 && s.last() == c {
        lemma_no_trailing(s.drop_last(), c);
    }
}

/// The base URL never ends in a slash.
pub proof fn base_url_ends_in_no_slash(config: CloudConfig, v: CloudVars)
    requires
        config.comes_from(v),
    ensures
        config.base_url@.len() > 0 ==> config.base_url@.last() != '/',
{
    reveal_strlit("https://api.elevenlabs.io");
    if let Some(url) = vars::nonempty(v.base_url) {
        lemma_no_trailing(url, '/');
    }
}

} // verus!
