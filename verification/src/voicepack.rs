//! Which engine a voice stands for.
//!
//! - `piper:<voice>`, or a bare name: a Piper model.
//! - `cloud:<id>`: an ElevenLabs voice.
//! - `espeak:<args>`: espeak-ng with these arguments.
//!
//! Resolving a name loads no model and opens no connection.

use crate::text;
use vstd::prelude::*;

verus! {

/// The engine that a voice stands for.
#[derive(Debug, Clone, PartialEq, Eq)]
pub enum Backend {
    /// Piper, which runs on this machine.
    Piper {
        /// The model file, relative to the root of the voices.
        model_path: String,
    },
    /// The ElevenLabs service.
    ElevenLabs {
        /// The voice.
        voice_id: String,
    },
    /// espeak-ng, the offline fallback.
    EspeakNg {
        /// Its command line arguments.
        args: Vec<String>,
    },
}

/// Why a name stands for no engine.
#[derive(Debug, Clone, Copy, PartialEq, Eq)]
pub enum VoicePackError {
    /// The name is empty or white space.
    Empty,
    /// Nothing follows `cloud:`.
    EmptyCloudId,
    /// Nothing follows `espeak:`.
    EmptyEspeakArgs,
}

impl VoicePackError {
    /// The error in words.
    pub open spec fn words(self) -> Seq<char> {
        match self {
            VoicePackError::Empty => "voice-pack name is empty"@,
            VoicePackError::EmptyCloudId => "cloud voice id is empty after `cloud:` prefix"@,
            VoicePackError::EmptyEspeakArgs => "espeak args list is empty after `espeak:` prefix"@,
        }
    }

    /// The error in words.
    pub fn message(&self) -> (r: String)
        ensures
            r@ == self.words(),
    {
        match self {
            VoicePackError::Empty => "voice-pack name is empty".to_owned(),
            VoicePackError::EmptyCloudId =>
                "cloud voice id is empty after `cloud:` prefix".to_owned(),
            VoicePackError::EmptyEspeakArgs =>
                "espeak args list is empty after `espeak:` prefix".to_owned(),
        }
    }
}

/// A [`Backend`] with its texts as sequences of characters.
pub enum BackendView {
    Piper(Seq<char>),
    ElevenLabs(Seq<char>),
    EspeakNg(Seq<Seq<char>>),
}

impl Backend {
    /// The engine with its texts as sequences of characters.
    pub open spec fn view(self) -> BackendView {
        match self {
            Backend::Piper { model_path } => BackendView::Piper(model_path@),
            Backend::ElevenLabs { voice_id } => BackendView::ElevenLabs(voice_id@),
            Backend::EspeakNg { args } => BackendView::EspeakNg(text::texts(args@)),
        }
    }
}

/// What follows a prefix.
pub open spec fn after(name: Seq<char>, prefix: Seq<char>) -> Seq<char> {
    name.skip(prefix.len() as int)
}

/// The engine that a name stands for.
pub open spec fn resolved(name: Seq<char>) -> Result<BackendView, VoicePackError> {
    let bare = text::trimmed(name);
    if bare.len() == 0 {
        Err(VoicePackError::Empty)
    } else if "cloud:"@.is_prefix_of(bare) {
        let id = text::trimmed(after(bare, "cloud:"@));
        if id.len() == 0 {
            Err(VoicePackError::EmptyCloudId)
        } else {
            Ok(BackendView::ElevenLabs(id))
        }
    } else if "espeak:"@.is_prefix_of(bare) {
        let args = text::words(after(bare, "espeak:"@));
        if args.len() == 0 {
            Err(VoicePackError::EmptyEspeakArgs)
        } else {
            Ok(BackendView::EspeakNg(args))
        }
    } else if "piper:"@.is_prefix_of(bare) {
        Ok(BackendView::Piper(after(bare, "piper:"@) + ".onnx"@))
    } else {
        Ok(BackendView::Piper(bare + ".onnx"@))
    }
}

/// Resolves a name.
pub fn resolve(name: &str) -> (r: Result<Backend, VoicePackError>)
    ensures
        match r {
            Ok(backend) => resolved(name@) == Ok::<_, VoicePackError>(backend@),
            Err(e) => resolved(name@) == Err::<BackendView, _>(e),
        },
{
    let bare = text::trim(name);
    if bare.unicode_len() == 0 {
        return Err(VoicePackError::Empty);
    }
    if let Some(rest) = text::strip_prefix(bare, "cloud:") {
        let id = text::trim(rest);
        if id.unicode_len() == 0 {
            return Err(VoicePackError::EmptyCloudId);
        }
        return Ok(Backend::ElevenLabs { voice_id: id.to_owned() });
    }
    if let Some(rest) = text::strip_prefix(bare, "espeak:") {
        let args = text::split_words(rest);
        assert(text::texts(args@).len() == args@.len());
        if args.len() == 0 {
            return Err(VoicePackError::EmptyEspeakArgs);
        }
        return Ok(Backend::EspeakNg { args });
    }
    let model = match text::strip_prefix(bare, "piper:") {
        Some(rest) => rest,
        None => bare,
    };
    Ok(Backend::Piper { model_path: text::joined2(model, ".onnx") })
}

/// White space around a name does not matter.
pub proof fn surrounding_space_does_not_matter(
    before: Seq<char>,
    name: Seq<char>,
    after: Seq<char>,
)
    requires
        text::all_white(before),
        text::all_white(after),
    ensures
        resolved(before + name + after) == resolved(name),
{
    text::surrounding_white_is_trimmed(before, name, after);
}

/// A prefix names the engine and what follows it is kept as it stands.
pub proof fn prefix_names_the_engine(id: Seq<char>)
    requires
        id.len() > 0,
        text::trimmed(id) == id,
    ensures
        resolved("cloud:"@ + id) == Ok::<_, VoicePackError>(BackendView::ElevenLabs(id)),
        resolved("piper:"@ + id) == Ok::<_, VoicePackError>(BackendView::Piper(id + ".onnx"@)),
{
    reveal_strlit("cloud:");
    reveal_strlit("espeak:");
    reveal_strlit("piper:");
    text::lemma_trimmed_last(id);
    let cloud = "cloud:"@ + id;
    assert(cloud.last() == id.last());
    assert(cloud[0] == 'c');
    text::lemma_trimmed_already(cloud);
    assert(after(cloud, "cloud:"@) == id);
    let piper = "piper:"@ + id;
    assert(piper.last() == id.last());
    assert(piper[0] == 'p');
    assert("cloud:"@[0] == 'c');
    assert("espeak:"@[0] == 'e');
    text::lemma_trimmed_already(piper);
    assert(after(piper, "piper:"@) == id);
}

/// A name without a prefix is a Piper voice.
pub proof fn bare_name_is_a_piper_voice(name: Seq<char>)
    requires
        name.len() > 0,
        text::trimmed(name) == name,
        !"cloud:"@.is_prefix_of(name),
        !"espeak:"@.is_prefix_of(name),
        !"piper:"@.is_prefix_of(name),
    ensures
        resolved(name) == Ok::<_, VoicePackError>(BackendView::Piper(name + ".onnx"@)),
{
}

} // verus!
