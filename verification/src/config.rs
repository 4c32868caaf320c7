//! Configuration, and the list of phrases to render ahead of time.

use crate::cloud;
use crate::json;
use crate::paths;
use crate::single::Single;
use crate::synth::VoiceConfig;
use crate::text;
use crate::vars;
use vstd::prelude::*;

verus! {

/// The Piper voice where `WM_TTS_VOICE` does not name one.
pub const DEFAULT_VOICE: &'static str = "en_US-lessac-medium";

/// Where the list of phrases is kept.
pub const DEFAULT_CACHE_CONFIG: &'static str = "/etc/wintermute/tts-cache.yaml";

/// Where the cache is kept, under the home directory.
pub const CACHE_DIR: &'static str = ".cache/wintermute/tts";

/// Names the Piper voice.
pub const ENV_VOICE: &'static str = "WM_TTS_VOICE";

/// Names the root of the cache.
pub const ENV_CACHE_DIR: &'static str = "WM_TTS_CACHE_DIR";

/// Names the list of phrases.
pub const ENV_CACHE_CONFIG: &'static str = "WM_TTS_CACHE_CONFIG";

/// Configuration of the daemon.
#[derive(Debug, Clone, PartialEq)]
pub struct TtsConfig {
    /// The Piper voice.
    pub voice: String,
    /// The root of the cache.
    pub cache_root: String,
    /// Whether the cloud service is asked.
    pub cloud_quality: bool,
    /// Speaking rate and gain.
    pub voice_settings: VoiceConfig,
}

/// The voice where none is configured.
pub fn default_voice() -> (r: String)
    ensures
        r@ == DEFAULT_VOICE@,
{
    DEFAULT_VOICE.to_owned()
}

/// The root of the cache where none is configured.
pub fn default_cache_root() -> (r: String)
    ensures
        r@ == CACHE_DIR@,
{
    CACHE_DIR.to_owned()
}

impl Default for TtsConfig {
    fn default() -> (r: Self)
        ensures
            r.voice@ == DEFAULT_VOICE@,
            r.cache_root@ == CACHE_DIR@,
            !r.cloud_quality,
            r.voice_settings.speaking_rate.bits == 0x3f59_999au32,
            r.voice_settings.gain.bits == 0x3f99_999au32,
    {
        TtsConfig {
            voice: default_voice(),
            cache_root: default_cache_root(),
            cloud_quality: false,
            voice_settings: VoiceConfig::default(),
        }
    }
}

/// What a configuration file says; what it leaves out has a default.
#[derive(Debug, Clone)]
pub struct TtsFields {
    /// The Piper voice.
    pub voice: Option<String>,
    /// The root of the cache.
    pub cache_root: Option<String>,
    /// Whether the cloud service is asked.
    pub cloud_quality: Option<bool>,
    /// The speaking rate.
    pub speaking_rate: Option<Single>,
    /// The gain.
    pub gain: Option<Single>,
}

impl TtsConfig {
    /// The configuration that a file gives.
    pub fn with_defaults(fields: TtsFields) -> (r: Self)
        ensures
            r.voice@ == (match fields.voice {
                Some(voice) => voice@,
                None => DEFAULT_VOICE@,
            }),
            r.cache_root@ == (match fields.cache_root {
                Some(root) => root@,
                None => CACHE_DIR@,
            }),
            r.cloud_quality == (fields.cloud_quality == Some(true)),
            r.voice_settings.speaking_rate == (match fields.speaking_rate {
                Some(rate) => rate,
                None => (Single { bits: 0x3f59_999a }),
            }),
            r.voice_settings.gain == (match fields.gain {
                Some(gain) => gain,
                None => (Single { bits: 0x3f99_999a }),
            }),
    {
        let settings = VoiceConfig::default();
        TtsConfig {
            voice: match fields.voice {
                Some(voice) => voice,
                None => default_voice(),
            },
            cache_root: match fields.cache_root {
                Some(root) => root,
                None => default_cache_root(),
            },
            cloud_quality: match fields.cloud_quality {
                Some(b) => b,
                None => false,
            },
            voice_settings: VoiceConfig {
                speaking_rate: match fields.speaking_rate {
                    Some(rate) => rate,
                    None => settings.speaking_rate,
                },
                gain: match fields.gain {
                    Some(gain) => gain,
                    None => settings.gain,
                },
            },
        }
    }
}

/// The variables that the configuration comes from.
pub struct ConfigVars {
    pub voice: Option<Seq<char>>,
    pub cache_dir: Option<Seq<char>>,
    pub home: Option<Seq<char>>,
    pub cloud: Option<Seq<char>>,
}

/// Whether the environment may hold these values.
pub open spec fn may_have<F: Fn(&str) -> Option<String>>(var: F, v: ConfigVars) -> bool {
    &&& vars::may_read(var, ENV_VOICE@, v.voice)
    &&& vars::may_read(var, ENV_CACHE_DIR@, v.cache_dir)
    &&& vars::may_read(var, "HOME"@, v.home)
    &&& vars::may_read(var, cloud::ENV_ENABLED@, v.cloud)
}

impl TtsConfig {
    /// Whether this is the configuration that the variables give. A variable
    /// that is unset or white space counts as not there.
    pub open spec fn comes_from(self, v: ConfigVars) -> bool {
        &&& self.voice@ == (match vars::nonempty(v.voice) {
            Some(voice) => voice,
            None => DEFAULT_VOICE@,
        })
        &&& self.cache_root@ == (match (vars::nonempty(v.cache_dir), vars::nonempty(v.home)) {
            (Some(dir), _) => dir,
            (None, Some(home)) => paths::joined_path(home, CACHE_DIR@),
            (None, None) => CACHE_DIR@,
        })
        &&& self.cloud_quality == (v.cloud is Some && cloud::truthy(v.cloud->0))
        &&& self.voice_settings.speaking_rate.bits == 0x3f59_999au32
        &&& self.voice_settings.gain.bits == 0x3f99_999au32
    }

    /// Reads the configuration from the environment.
    pub fn from_env<F: Fn(&str) -> Option<String>>(var: &F) -> (r: Self)
        requires
            forall|k: &str| #[trigger] call_requires(*var, (k,)),
        ensures
            exists|v: ConfigVars| #[trigger] may_have(*var, v) && r.comes_from(v),
    {
        let voice = vars::read(var, ENV_VOICE);
        let cache_dir = vars::read(var, ENV_CACHE_DIR);
        let home = vars::read(var, "HOME");
        let switch = vars::read(var, cloud::ENV_ENABLED);
        let ghost v = ConfigVars {
            voice: json::optional(voice),
            cache_dir: json::optional(cache_dir),
            home: json::optional(home),
            cloud: json::optional(switch),
        };
        assert(may_have(*var, v));
        let r = TtsConfig {
            voice: match vars::nonempty_of(voice) {
                Some(voice) => voice,
                None => default_voice(),
            },
            cache_root: match vars::nonempty_of(cache_dir) {
                Some(dir) => dir,
                None => match vars::nonempty_of(home) {
                    Some(home) => paths::join_path(home.as_str(), CACHE_DIR),
                    None => default_cache_root(),
                },
            },
            cloud_quality: match switch {
                Some(value) => cloud::is_truthy(value.as_str()),
                None => false,
            },
            voice_settings: VoiceConfig::default(),
        };
        assert(r.comes_from(v));
        r
    }
}

/// Where the list of phrases is: as the command line says, else as the
/// environment says, else in its usual place.
pub fn cache_config_path<F: Fn(&str) -> Option<String>>(given: Option<String>, var: &F) -> (r:
    String)
    requires
        forall|k: &str| #[trigger] call_requires(*var, (k,)),
    ensures
        match given {
            Some(path) => r@ == path@,
            None => exists|value: Option<Seq<char>>| #[trigger]
                vars::may_read(*var, ENV_CACHE_CONFIG@, value) && r@ == match vars::nonempty(
                    value,
                ) {
                    Some(path) => path,
                    None => DEFAULT_CACHE_CONFIG@,
                },
        },
{
    match given {
        Some(path) => path,
        None => {
            let value = vars::read(var, ENV_CACHE_CONFIG);
            let ghost seen = json::optional(value);
            assert(vars::may_read(*var, ENV_CACHE_CONFIG@, seen));
            match vars::nonempty_of(value) {
                Some(path) => path,
                None => DEFAULT_CACHE_CONFIG.to_owned(),
            }
        },
    }
}

/// The phrases to render ahead of time.
#[derive(Debug, Clone, PartialEq, Eq)]
pub struct CachePhrases {
    /// The phrases, none of them twice.
    pub phrases: Vec<String>,
}

impl Default for CachePhrases {
    /// No phrases.
    fn default() -> (r: Self)
        ensures
            r.phrases@.len() == 0,
    {
        CachePhrases { phrases: Vec::new() }
    }
}

/// Why there is no list of phrases.
#[derive(Debug, Clone, PartialEq, Eq)]
pub enum TtsError {
    /// The file is no list of phrases.
    Yaml(String),
    /// The file could not be read.
    Io {
        /// The file.
        path: String,
        /// Why it failed.
        source: String,
    },
    /// The list is empty.
    EmptyPhrases,
    /// A phrase is listed twice.
    DuplicatePhrase(String),
}

impl TtsError {
    /// The error in words.
    pub open spec fn words(self) -> Seq<char> {
        match self {
            TtsError::Yaml(why) => "yaml parse failure: "@ + why@,
            TtsError::Io { path, source } => "io failure on "@ + path@ + ": "@ + source@,
            TtsError::EmptyPhrases => "cache phrase list is empty"@,
            TtsError::DuplicatePhrase(phrase) => "duplicate phrase: "@ + text::debug_quoted(
                phrase@,
            ),
        }
    }

    /// The error in words.
    pub fn message(&self) -> (r: String)
        ensures
            r@ == self.words(),
    {
        match self {
            TtsError::Yaml(why) => text::joined2("yaml parse failure: ", why.as_str()),
            TtsError::Io { path, source } => text::joined4(
                "io failure on ",
                path.as_str(),
                ": ",
                source.as_str(),
            ),
            TtsError::EmptyPhrases => "cache phrase list is empty".to_owned(),
            TtsError::DuplicatePhrase(phrase) => text::joined2(
                "duplicate phrase: ",
                text::quoted(phrase.as_str()).as_str(),
            ),
        }
    }
}

/// Whether the phrase at `i` is listed before `i` too.
pub open spec fn repeats(phrases: Seq<Seq<char>>, i: int) -> bool {
    exists|k: int| 0 <= k < i && #[trigger] phrases[k] == phrases[i]
}

/// Whether `i` is the first place at which a phrase repeats.
pub open spec fn first_repeat(phrases: Seq<Seq<char>>, i: int) -> bool {
    &&& 0 <= i < phrases.len()
    &&& repeats(phrases, i)
    &&& forall|k: int| 0 <= k < i ==> !#[trigger] repeats(phrases, k)
}

/// Whether a list of phrases is checked with this result: an empty list is
/// refused, and so is the first phrase that repeats.
pub open spec fn checked(parsed: CachePhrases, r: Result<CachePhrases, TtsError>) -> bool {
    let list = text::texts(parsed.phrases@);
    match r {
        Ok(kept) => kept == parsed && list.len() > 0 && list.no_duplicates(),
        Err(TtsError::EmptyPhrases) => list.len() == 0,
        Err(TtsError::DuplicatePhrase(phrase)) => exists|i: int| #[trigger]
            first_repeat(list, i) && phrase@ == list[i],
        Err(_) => false,
    }
}

/// Checks a list of phrases.
pub fn check_phrases(parsed: CachePhrases) -> (r: Result<CachePhrases, TtsError>)
    ensures
        checked(parsed, r),
{
    let ghost list = text::texts(parsed.phrases@);
    let n: usize = parsed.phrases.len();
    if n == 0 {
        return Err(TtsError::EmptyPhrases);
    }
    let mut i: usize = 0;
    while i < n
        invariant
            n == parsed.phrases@.len(),
            list == text::texts(parsed.phrases@),
            i <= n,
            forall|k: int| 0 <= k < i ==> !#[trigger] repeats(list, k),
        decreases n - i,
    {
        let mut j: usize = 0;
        while j < i
            invariant
                n == parsed.phrases@.len(),
                list == text::texts(parsed.phrases@),
                j <= i < n,
                forall|k: int| 0 <= k < i ==> !#[trigger] repeats(list, k),
                forall|k: int| 0 <= k < j ==> (#[trigger] list[k]) != list[i as int],
            decreases i - j,
        {
            if text::same_text(parsed.phrases[j].as_str(), parsed.phrases[i].as_str()) {
                assert(list[j as int] == list[i as int]);
                assert(first_repeat(list, i as int));
                return Err(TtsError::DuplicatePhrase(parsed.phrases[i].clone()));
            }
            j += 1;
        }
        i += 1;
    }
    proof {
        assert forall|a: int, b: int|
            0 <= a < list.len() && 0 <= b < list.len() && a != b implies list[a] != list[b] by {
            if a < b {
                assert(!repeats(list, b));
            } else {
                assert(!repeats(list, a));
            }
        }
    }
    Ok(parsed)
}

/// Parses and checks a list of phrases. `parse` reads the YAML.
pub fn parse_cache_yaml<P: Fn(&str) -> Result<CachePhrases, String>>(blob: &str, parse: P) -> (r:
    Result<CachePhrases, TtsError>)
    requires
        call_requires(parse, (blob,)),
    ensures
        exists|parsed: Result<CachePhrases, String>| #[trigger]
            call_ensures(parse, (blob,), parsed) && match parsed {
                Ok(list) => checked(list, r),
                Err(why) => r == Err::<CachePhrases, TtsError>(TtsError::Yaml(why)),
            },
{
    let parsed = parse(blob);
    assert(call_ensures(parse, (blob,), parsed));
    match parsed {
        Ok(list) => check_phrases(list),
        Err(why) => Err(TtsError::Yaml(why)),
    }
}

/// Reads, parses and checks a list of phrases. `read` reads the file and
/// `parse` the YAML in it.
pub fn load_cache_yaml<
    R: Fn(&str) -> Result<String, String>,
    P: Fn(&str) -> Result<CachePhrases, String>,
>(path: &str, read: R, parse: P) -> (r: Result<CachePhrases, TtsError>)
    requires
        call_requires(read, (path,)),
        forall|blob: &str| #[trigger] call_requires(parse, (blob,)),
    ensures
        exists|blob: Result<String, String>| #[trigger]
            call_ensures(read, (path,), blob) && match blob {
                Err(why) => r matches Err(TtsError::Io { path: p, source }) && p@ == path@
                    && source@ == why@,
                Ok(text) => exists|b: &str, parsed: Result<CachePhrases, String>|
                    b@ == text@ && #[trigger] call_ensures(parse, (b,), parsed) && match parsed {
                        Ok(list) => checked(list, r),
                        Err(why) => r == Err::<CachePhrases, TtsError>(TtsError::Yaml(why)),
                    },
            },
{
    let blob = read(path);
    assert(call_ensures(read, (path,), blob));
    match blob {
        Ok(text) => {
            let b = text.as_str();
            parse_cache_yaml(b, parse)
        },
        Err(why) => Err(TtsError::Io { path: path.to_owned(), source: why }),
    }
}

/// A list is accepted exactly if it has a phrase in it, and none twice.
pub proof fn accepted_iff_distinct(parsed: CachePhrases, r: Result<CachePhrases, TtsError>)
    requires
        checked(parsed, r),
    ensures
        r is Ok <==> text::texts(parsed.phrases@).len() > 0 && text::texts(
            parsed.phrases@,
        ).no_duplicates(),
{
    let list = text::texts(parsed.phrases@);
    if let Err(TtsError::DuplicatePhrase(_)) = r {
        let i = choose|i: int| #[trigger] first_repeat(list, i);
        let k = choose|k: int| 0 <= k < i && #[trigger] list[k] == list[i];
        assert(list[k] == list[i]);
    }
}

} // verus!
