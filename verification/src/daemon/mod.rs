//! The daemon: what it does with each request on the bus.
//!
//! A request to speak plays a file from the cache, or the audio of the cloud
//! service, or a file that Piper renders (see [`speak`]). A request to cancel
//! stops what is being played. A request to change the voice renders the
//! phrases for the new voice and then changes over.

pub mod player;
pub mod run;
pub mod slot;
pub mod speak;
pub mod stream;

pub use crate::daemon::player::{
    player_args, player_from_env, sink_node_from_env, streaming_player_args, PlayResult,
    DEFAULT_PLAYER,
};
pub use crate::daemon::stream::StreamOutcome;

use crate::bus;
use crate::bus::event;
use crate::bus::event::{CancelAckEvent, Event, ReloadAckEvent};
use crate::bus::request;
use crate::bus::request::{Request, SpeakRequest};
use crate::cache;
use crate::cache::{CacheError, CacheManager, RenderReport};
use crate::cloud;
use crate::cloud::{CloudBackend, CloudConfig};
use crate::config::TtsConfig;
use crate::daemon::player::{AudioFacts, PlayerRun};
use crate::daemon::slot::CancelSlot;
use crate::daemon::speak::{Speak, SpeakAction};
use crate::daemon::stream::StreamPlay;
use crate::json;
use crate::json::Json;
use crate::synth::{PiperSubprocess, Synth};
use crate::text;
use crate::vars;
use vstd::prelude::*;

verus! {

/// The voice in use, with its cache.
#[derive(Debug, Clone)]
pub struct ActiveVoice {
    /// The voice.
    pub voice: String,
    /// Its files.
    pub cache: CacheManager,
}

/// The state of the daemon.
#[derive(Debug, Clone)]
pub struct DaemonState {
    /// The voice in use.
    pub active: ActiveVoice,
    /// What a cancel request acts on.
    pub slot: CancelSlot,
    /// The player.
    pub player_bin: String,
    /// The sink that the audio goes to; the default sink where it is none.
    pub sink_node: Option<String>,
    /// Piper.
    pub synth: PiperSubprocess,
    /// Whether the cloud service is asked.
    pub cloud_active: bool,
    /// The root of the cache, for every voice.
    pub cache_root: String,
    /// The phrases to render for a voice.
    pub cache_phrases: Vec<String>,
}

/// The key of a phrase: trimmed and in lower case.
pub fn phrase_key(text: &str) -> (r: String)
    ensures
        r@ == cache::normalized(text@),
{
    cache::normalize(text)
}

/// The file of a phrase, if `is_there` finds it.
pub fn cache_hit_path<F: Fn(&str) -> bool>(cache: &CacheManager, phrase: &str, is_there: F) -> (r:
    Option<String>)
    requires
        forall|p: &str| #[trigger] call_requires(is_there, (p,)),
    ensures
        match r {
            Some(path) => path@ == cache.entry(phrase@) && cache.seen(is_there, phrase@, true),
            None => cache.seen(is_there, phrase@, false),
        },
{
    let path = cache.entry_path(phrase);
    let p = path.as_str();
    let there = is_there(p);
    assert(call_ensures(is_there, (p,), there));
    assert(cache.seen(is_there, phrase@, there));
    if there {
        Some(path)
    } else {
        None
    }
}

impl DaemonState {
    /// The cache in use is that of the voice in use, under the root.
    pub open spec fn wf(self) -> bool {
        &&& self.active.cache.voice@ == self.active.voice@
        &&& self.active.cache.root@ == self.cache_root@
    }

    /// Whether nothing but the voice in use differs.
    pub open spec fn same_but_voice(self, other: Self) -> bool {
        &&& self.slot == other.slot
        &&& self.player_bin == other.player_bin
        &&& self.sink_node == other.sink_node
        &&& self.synth == other.synth
        &&& self.cloud_active == other.cloud_active
        &&& self.cache_root == other.cache_root
        &&& self.cache_phrases == other.cache_phrases
    }

    /// Whether nothing but what a cancel request acts on differs.
    pub open spec fn same_but_slot(self, other: Self) -> bool {
        &&& self.active == other.active
        &&& self.player_bin == other.player_bin
        &&& self.sink_node == other.sink_node
        &&& self.synth == other.synth
        &&& self.cloud_active == other.cloud_active
        &&& self.cache_root == other.cache_root
        &&& self.cache_phrases == other.cache_phrases
    }

    /// Whether the player and Piper are as the environment says.
    pub open spec fn equipped<F: Fn(&str) -> Option<String>>(self, var: F) -> bool {
        &&& exists|first: Option<Seq<char>>, second: Option<Seq<char>>|
            vars::may_read(var, player::ENV_PLAYER@, first) && (first is None ==> vars::may_read(
                var,
                player::ENV_PLAYER_ALIAS@,
                second,
            )) && self.player_bin@ == #[trigger] player::player_for(first, second)
        &&& exists|value: Option<Seq<char>>| #[trigger]
            vars::may_read(var, player::ENV_SINK_NODE@, value) && json::optional(self.sink_node)
                == player::filled(value)
        &&& self.synth.bin@ == "piper"@
        &&& exists|voice_dir: Option<Seq<char>>, home: Option<Seq<char>>|
            {
                &&& vars::may_read(var, crate::synth::ENV_VOICE_DIR@, voice_dir)
                &&& vars::may_read(var, "HOME"@, home)
                &&& #[trigger] self.synth.models_at(voice_dir, home)
            }
    }

    /// A daemon with this configuration, phrases and use of the cloud service.
    pub fn with_cloud<F: Fn(&str) -> Option<String>>(
        cfg: &TtsConfig,
        cache_phrases: Vec<String>,
        cloud_active: bool,
        var: &F,
    ) -> (r: Self)
        requires
            forall|k: &str| #[trigger] call_requires(*var, (k,)),
        ensures
            r.wf(),
            r.active.voice@ == cfg.voice@,
            r.slot.idle(),
            r.equipped(*var),
            r.synth.voice_config == cfg.voice_settings,
            r.cloud_active == cloud_active,
            r.cache_root@ == cfg.cache_root@,
            r.cache_phrases == cache_phrases,
    {
        let active = ActiveVoice {
            cache: CacheManager::new(cfg.cache_root.clone(), cfg.voice.clone()),
            voice: cfg.voice.clone(),
        };
        let player_bin = player_from_env(var);
        let sink_node = sink_node_from_env(var);
        let piper = PiperSubprocess::from_env(var);
        let ghost found = choose|voice_dir: Option<Seq<char>>, home: Option<Seq<char>>|
            {
                &&& vars::may_read(*var, crate::synth::ENV_VOICE_DIR@, voice_dir)
                &&& vars::may_read(*var, "HOME"@, home)
                &&& #[trigger] piper.models_at(voice_dir, home)
            };
        let synth = PiperSubprocess::new(piper.bin, piper.models_root, cfg.voice_settings);
        assert(synth.models_at(found.0, found.1));
        DaemonState {
            active,
            slot: CancelSlot::new(),
            player_bin,
            sink_node,
            synth,
            cloud_active,
            cache_root: cfg.cache_root.clone(),
            cache_phrases,
        }
    }

    /// A daemon with this configuration and phrases; whether the cloud service
    /// is asked, and with which client, the environment says.
    pub fn new<T, F: Fn(&str) -> Option<String>, C: FnOnce() -> Option<T>>(
        cfg: &TtsConfig,
        cache_phrases: Vec<String>,
        var: &F,
        make_client: C,
    ) -> (r: (Self, CloudBackend<T>))
        requires
            forall|k: &str| #[trigger] call_requires(*var, (k,)),
            call_requires(make_client, ()),
        ensures
            r.0.wf(),
            r.0.active.voice@ == cfg.voice@,
            r.0.slot.idle(),
            r.0.equipped(*var),
            r.0.synth.voice_config == cfg.voice_settings,
            r.0.cloud_active == (r.1 is ElevenLabs),
            r.0.cache_root@ == cfg.cache_root@,
            r.0.cache_phrases == cache_phrases,
            exists|config: CloudConfig, v: cloud::CloudVars| #[trigger]
                cloud::may_have(*var, v) && #[trigger] config.comes_from(v) && match r.1 {
                    CloudBackend::Disabled(_) => !config.active() || call_ensures(
                        make_client,
                        (),
                        None::<T>,
                    ),
                    CloudBackend::ElevenLabs(synth, client) => config.active() && synth.config
                        == config && call_ensures(make_client, (), Some(client)),
                },
    {
        let backend = cloud::cloud_synth_from_env(var, make_client);
        let state = DaemonState::with_cloud(cfg, cache_phrases, backend.is_active(), var);
        (state, backend)
    }
}

impl DaemonState {
    /// The utterance that a request asks for, at the time `now`.
    pub open spec fn utterance(self, req: SpeakRequest, now: u64) -> speak::Utterance {
        speak::Utterance {
            text: req.text@,
            source: match req.priority {
                Some(p) => p@,
                None => Seq::empty(),
            },
            turn_id: request::turn_text(req.turn_id),
            accepted: now,
            voice: self.active.voice@,
            dir: self.active.cache.dir(),
            path: self.active.cache.entry(req.text@),
            cloud_active: self.cloud_active,
        }
    }

    /// Begins to speak.
    pub fn handle_speak(&self, req: &SpeakRequest, now: u64) -> (r: (Speak, SpeakAction))
        ensures
            r.0@ == self.utterance(*req, now),
            r.0.phase == speak::first(r.0@, req.cancel_previous && self.slot.armed).0,
            r.1@ == speak::first(r.0@, req.cancel_previous && self.slot.armed).1,
    {
        Speak::begin(
            req,
            self.active.voice.as_str(),
            self.active.cache.voice_dir(),
            self.active.cache.entry_path(req.text.as_str()),
            self.cloud_active,
            self.slot.armed,
            now,
        )
    }

    /// Cancels what is being played, if anything is: says whether there is
    /// something to stop, and acknowledges the request either way. The
    /// utterance began `elapsed_ms` ago.
    pub fn handle_cancel(&mut self, elapsed_ms: u64, now: u64) -> (r: (bool, Event))
        ensures
            r.0 == old(self).slot.armed,
            r.1@ == (event::EventView::CancelAck {
                ts: now,
                drained_ms: slot::drained(old(self).slot, elapsed_ms),
            }),
            !final(self).slot.armed,
            final(self).slot.playing == old(self).slot.playing,
            final(self).slot.duration_ms == old(self).slot.duration_ms,
            final(self).same_but_slot(*old(self)),
    {
        let fired = self.slot.fire();
        let drained_ms: u64 = self.slot.drained_ms(elapsed_ms);
        (fired, Event::CancelAck(CancelAckEvent { ts: now, drained_ms }))
    }

    /// Begins to play a file, of which these are the bytes if it could be read:
    /// gives the arguments of the player, and what is known of the file.
    pub fn begin_play(&mut self, path: &str, file: Option<&[u8]>) -> (r: (Vec<String>, AudioFacts))
        ensures
            text::texts(r.0@) == player::file_args(
                old(self).player_bin@,
                path@,
                json::optional(old(self).sink_node),
            ),
            r.1 == player::facts_of(
                match file {
                    Some(bytes) => Some(bytes@),
                    None => None,
                },
            ),
            final(self).slot.armed,
            final(self).slot.playing,
            final(self).slot.duration_ms == r.1.duration_ms,
            final(self).same_but_slot(*old(self)),
    {
        let facts = player::audio_facts(file);
        self.slot.install(facts.duration_ms);
        let args = match &self.sink_node {
            Some(node) => player_args(self.player_bin.as_str(), path, Some(node.as_str())),
            None => player_args(self.player_bin.as_str(), path, None),
        };
        (args, facts)
    }

    /// Ends playing a file.
    pub fn end_play(&mut self, path: &str, facts: &AudioFacts, run: &PlayerRun) -> (r: PlayResult)
        ensures
            r@ == player::file_play(old(self).player_bin@, path@, facts.data_bytes, *run),
            r@.coherent(),
            final(self).slot.idle(),
            final(self).same_but_slot(*old(self)),
    {
        self.slot.clear();
        player::file_result(self.player_bin.as_str(), path, facts.data_bytes, run)
    }

    /// Begins to play a stream: gives the arguments of the player. How long it
    /// will be is not known.
    pub fn begin_stream(&mut self) -> (r: (Vec<String>, StreamPlay))
        ensures
            text::texts(r.0@) == player::stream_args(
                old(self).player_bin@,
                json::optional(old(self).sink_node),
            ),
            r.1@ == stream::StateView::fresh(),
            r.1.player_bin@ == old(self).player_bin@,
            final(self).slot.armed,
            final(self).slot.playing,
            final(self).slot.duration_ms is None,
            final(self).same_but_slot(*old(self)),
    {
        self.slot.install(None);
        let args = match &self.sink_node {
            Some(node) => streaming_player_args(self.player_bin.as_str(), Some(node.as_str())),
            None => streaming_player_args(self.player_bin.as_str(), None),
        };
        (args, StreamPlay::new(self.player_bin.as_str()))
    }

    /// Ends playing a stream.
    pub fn end_stream(&mut self)
        ensures
            final(self).slot.idle(),
            final(self).same_but_slot(*old(self)),
    {
        self.slot.clear();
    }

    /// Whether rendering the phrases for a voice may give this result.
    pub open spec fn may_prerender<
        S: Synth,
        D: Fn(&str) -> Result<(), String>,
        F: Fn(&str) -> bool,
    >(
        self,
        voice: Seq<char>,
        synth: S,
        create_dir: D,
        is_file: F,
        r: Result<RenderReport, CacheError>,
    ) -> bool {
        exists|new_cache: CacheManager|
            {
                &&& new_cache.root@ == self.cache_root@
                &&& new_cache.voice@ == voice
                &&& #[trigger] new_cache.may_prerender(
                    text::texts(self.cache_phrases@),
                    synth,
                    create_dir,
                    is_file,
                    r,
                )
            }
    }

    /// Renders the phrases for a voice and changes over to it; a voice whose
    /// directory cannot be made is not changed to.
    pub fn reload_voice<S: Synth, D: Fn(&str) -> Result<(), String>, F: Fn(&str) -> bool>(
        &mut self,
        new_voice: &str,
        synth: &S,
        create_dir: D,
        is_file: F,
    ) -> (r: Result<RenderReport, CacheError>)
        requires
            forall|d: &str| #[trigger] call_requires(create_dir, (d,)),
            forall|p: &str| #[trigger] call_requires(is_file, (p,)),
        ensures
            old(self).may_prerender(new_voice@, *synth, create_dir, is_file, r),
            match r {
                Ok(_) => {
                    &&& final(self).wf()
                    &&& final(self).active.voice@ == new_voice@
                    &&& final(self).same_but_voice(*old(self))
                },
                Err(_) => *final(self) == *old(self),
            },
    {
        let new_cache = CacheManager::new(self.cache_root.clone(), new_voice.to_owned());
        let report = new_cache.prerender(self.cache_phrases.as_slice(), synth, create_dir, is_file);
        assert(new_cache.may_prerender(
            text::texts(self.cache_phrases@),
            *synth,
            create_dir,
            is_file,
            report,
        ));
        match report {
            Ok(report) => {
                self.active = ActiveVoice { voice: new_voice.to_owned(), cache: new_cache };
                Ok(report)
            },
            Err(e) => Err(e),
        }
    }

    /// Changes the voice and says what is published of it.
    pub fn handle_reload_voice<S: Synth, D: Fn(&str) -> Result<(), String>, F: Fn(&str) -> bool>(
        &mut self,
        new_voice: &str,
        synth: &S,
        create_dir: D,
        is_file: F,
        start_ms: u64,
    ) -> (r: Event)
        requires
            forall|d: &str| #[trigger] call_requires(create_dir, (d,)),
            forall|p: &str| #[trigger] call_requires(is_file, (p,)),
        ensures
            exists|result: Result<RenderReport, CacheError>, done_ms: u64, now: u64|
                {
                    &&& #[trigger] old(self).may_prerender(
                        new_voice@,
                        *synth,
                        create_dir,
                        is_file,
                        result,
                    )
                    &&& bus::may_be_now(done_ms)
                    &&& bus::may_be_now(now)
                    &&& r@ == #[trigger] reload_told(new_voice@, result, start_ms, done_ms, now)
                },
            match r {
                Event::ReloadAck(_) => {
                    &&& final(self).wf()
                    &&& final(self).active.voice@ == new_voice@
                    &&& final(self).same_but_voice(*old(self))
                },
                _ => *final(self) == *old(self),
            },
    {
        let result = self.reload_voice(new_voice, synth, create_dir, is_file);
        let done_ms: u64 = bus::now_unix_ms();
        let now: u64 = bus::now_unix_ms();
        let ghost given = result;
        let r = reload_event(new_voice, &result, start_ms, done_ms, now);
        assert(r@ == reload_told(new_voice@, given, start_ms, done_ms, now));
        r
    }
}

/// What is published of a change of voice that began at `start_ms`, was
/// complete at `done_ms` and is told at `now`.
pub open spec fn reload_told(
    new_voice: Seq<char>,
    result: Result<RenderReport, CacheError>,
    start_ms: u64,
    done_ms: u64,
    now: u64,
) -> event::EventView {
    match result {
        Ok(report) => event::EventView::ReloadAck {
            voice: new_voice,
            cache_hits: report.hits,
            prerendered: report.rendered,
            failures: report.failures@.len() as usize,
            elapsed_ms: if done_ms >= start_ms {
                (done_ms - start_ms) as u64
            } else {
                0
            },
            ts: now,
        },
        Err(e) => event::EventView::Error {
            kind: "voice"@,
            message: "prerender failed for "@ + new_voice + ": "@ + e.words(),
            ts: now,
        },
    }
}

/// What is published of a change of voice.
pub fn reload_event(
    new_voice: &str,
    result: &Result<RenderReport, CacheError>,
    start_ms: u64,
    done_ms: u64,
    now: u64,
) -> (r: Event)
    ensures
        r@ == reload_told(new_voice@, *result, start_ms, done_ms, now),
        result is Ok <==> r is ReloadAck,
{
    match result {
        Ok(report) => Event::ReloadAck(
            ReloadAckEvent {
                voice: new_voice.to_owned(),
                cache_hits: report.hits,
                prerendered: report.rendered,
                failures: report.failures.len(),
                elapsed_ms: if done_ms >= start_ms {
                    done_ms - start_ms
                } else {
                    0
                },
                ts: now,
            },
        ),
        Err(e) => Event::error(
            "voice",
            text::joined4(
                "prerender failed for ",
                new_voice,
                ": ",
                e.message().as_str(),
            ).as_str(),
            now,
        ),
    }
}

/// What a request leads to.
#[derive(Debug)]
pub enum Dispatched {
    /// An utterance, and what is done first.
    Speak(Speak, SpeakAction),
    /// Whether there is something to stop, and what is published.
    Cancel(bool, Event),
    /// What is published of a change of voice.
    Reload(Event),
}

impl DaemonState {
    /// Hands a request to its handler, at the time `now`. What is being played
    /// began `elapsed_ms` ago.
    pub fn dispatch<S: Synth, D: Fn(&str) -> Result<(), String>, F: Fn(&str) -> bool>(
        &mut self,
        req: &Request,
        synth: &S,
        create_dir: D,
        is_file: F,
        elapsed_ms: u64,
        now: u64,
    ) -> (r: Dispatched)
        requires
            forall|d: &str| #[trigger] call_requires(create_dir, (d,)),
            forall|p: &str| #[trigger] call_requires(is_file, (p,)),
        ensures
            match *req {
                Request::Speak(q) => {
                    &&& r matches Dispatched::Speak(s, action)
                    &&& s@ == old(self).utterance(q, now)
                    &&& s.phase == speak::first(s@, q.cancel_previous && old(self).slot.armed).0
                    &&& action@ == speak::first(s@, q.cancel_previous && old(self).slot.armed).1
                    &&& *final(self) == *old(self)
                },
                Request::Cancel(_) => {
                    &&& r matches Dispatched::Cancel(fire, ack)
                    &&& fire == old(self).slot.armed
                    &&& ack@ == (event::EventView::CancelAck {
                        ts: now,
                        drained_ms: slot::drained(old(self).slot, elapsed_ms),
                    })
                    &&& !final(self).slot.armed
                    &&& final(self).slot.playing == old(self).slot.playing
                    &&& final(self).slot.duration_ms == old(self).slot.duration_ms
                    &&& final(self).same_but_slot(*old(self))
                },
                Request::ReloadVoice(q) => {
                    &&& r matches Dispatched::Reload(told)
                    &&& exists|result: Result<RenderReport, CacheError>, done_ms: u64, later: u64|
                        {
                            &&& #[trigger] old(self).may_prerender(
                                q.voice@,
                                *synth,
                                create_dir,
                                is_file,
                                result,
                            )
                            &&& bus::may_be_now(done_ms)
                            &&& bus::may_be_now(later)
                            &&& told@ == #[trigger] reload_told(
                                q.voice@,
                                result,
                                now,
                                done_ms,
                                later,
                            )
                        }
                    &&& match told {
                        Event::ReloadAck(_) => {
                            &&& final(self).wf()
                            &&& final(self).active.voice@ == q.voice@
                            &&& final(self).same_but_voice(*old(self))
                        },
                        _ => *final(self) == *old(self),
                    }
                },
            },
            old(self).wf() ==> final(self).wf(),
    {
        match req {
            Request::Speak(q) => {
                let (s, action) = self.handle_speak(q, now);
                Dispatched::Speak(s, action)
            },
            Request::Cancel(_) => {
                let (fire, ack) = self.handle_cancel(elapsed_ms, now);
                Dispatched::Cancel(fire, ack)
            },
            Request::ReloadVoice(q) => Dispatched::Reload(
                self.handle_reload_voice(q.voice.as_str(), synth, create_dir, is_file, now),
            ),
        }
    }
}

/// A line that the bus sends.
#[derive(Debug)]
pub enum BusLine {
    /// One that is no message.
    Undecodable,
    /// The reply to something that was sent.
    Reply,
    /// A message on a topic.
    Message {
        /// The topic.
        topic: String,
        /// The payload.
        data: Json,
    },
}

/// What is done about a line.
#[derive(Debug)]
pub enum LineVerdict {
    /// Nothing.
    Skip,
    /// The request is handled.
    Handle(Request),
    /// It is answered with an error.
    Reject(Event),
}

/// Judges a line that the bus sends, at the time `now`. What the daemon
/// published itself is passed over; of the rest, what is no request is answered
/// with an error.
pub fn on_line(line: &BusLine, now: u64) -> (r: LineVerdict)
    ensures
        match *line {
            BusLine::Undecodable | BusLine::Reply => r is Skip,
            BusLine::Message { topic, data } => match r {
                LineVerdict::Skip => bus::self_emitted(topic@),
                LineVerdict::Handle(req) => {
                    &&& !bus::self_emitted(topic@)
                    &&& request::decodes(topic@, data@, Ok(req))
                },
                LineVerdict::Reject(told) => {
                    &&& !bus::self_emitted(topic@)
                    &&& exists|e: request::DecodeError| #[trigger]
                        request::decodes(topic@, data@, Err(e)) && told@ == (
                        event::EventView::Error {
                            kind: "bus"@,
                            message: "decode: "@ + e.words(),
                            ts: now,
                        })
                },
            },
        },
{
    match line {
        BusLine::Undecodable | BusLine::Reply => LineVerdict::Skip,
        BusLine::Message { topic, data } => {
            if bus::is_self_emitted_topic(topic.as_str()) {
                return LineVerdict::Skip;
            }
            match request::decode_request(topic.as_str(), data) {
                Ok(req) => LineVerdict::Handle(req),
                Err(e) => {
                    assert(request::decodes(topic@, data@, Err(e)));
                    let message = text::joined2("decode: ", e.message().as_str());
                    LineVerdict::Reject(Event::error("bus", message.as_str(), now))
                },
            }
        },
    }
}

/// What is published of a request whose handling failed.
pub fn dispatch_failed(why: &str, now: u64) -> (r: Event)
    ensures
        r@ == (event::EventView::Error { kind: "bus"@, message: "dispatch: "@ + why@, ts: now }),
{
    Event::error("bus", text::joined2("dispatch: ", why).as_str(), now)
}

/// Nothing that the daemon publishes is ever answered when the bus echoes it,
/// so no event can lead to another without end.
pub proof fn no_echo_is_answered(told: Event)
    ensures
        bus::self_emitted(told.on_topic()),
{
    bus::own_topics_and_requests_are_apart(told.on_topic());
}

} // verus!
