use std::cell::RefCell;
use wintermute_tts::bus::{
    incoming, is_self_emitted_topic, outcome, outgoing, CancelAckEvent, CancelRequest, Event,
    ReloadVoiceRequest, Request, SpeakRequest, TurnId,
};
use wintermute_tts::cache::CacheManager;
use wintermute_tts::cloud::CloudError;
use wintermute_tts::daemon::player::{file_result, PlayOutcome, PlayerRun};
use wintermute_tts::daemon::run::{Run, RunAction, RunEvent, RunPhase};
use wintermute_tts::daemon::slot::CancelSlot;
use wintermute_tts::daemon::speak::{render_failure, RenderRun, SpeakAction, SpeakEvent};
use wintermute_tts::daemon::stream::{StreamAction, StreamEvent, StreamPlay};
use wintermute_tts::daemon::{
    cache_hit_path, on_line, phrase_key, player_args, player_from_env, reload_event,
    sink_node_from_env, streaming_player_args, BusLine, DaemonState, Dispatched, LineVerdict,
    StreamOutcome, DEFAULT_PLAYER,
};
use wintermute_tts::json::Json;
use wintermute_tts::synth::{Synth, SynthError, VoiceConfig};
use wintermute_tts::TtsConfig;

fn env<'a>(pairs: &'a [(&'a str, &'a str)]) -> impl Fn(&str) -> Option<String> + 'a {
    move |key: &str| pairs.iter().find(|p| p.0 == key).map(|p| p.1.to_string())
}

fn state_with(phrases: Vec<String>, cloud_active: bool) -> DaemonState {
    let cfg = TtsConfig {
        voice: "test-voice".into(),
        cache_root: "/tmp/tts".into(),
        cloud_quality: cloud_active,
        voice_settings: VoiceConfig::default(),
    };
    DaemonState::with_cloud(&cfg, phrases, cloud_active, &env(&[]))
}

fn tmp_state() -> DaemonState {
    state_with(Vec::new(), false)
}

fn speak_request(text: &str) -> SpeakRequest {
    SpeakRequest {
        text: text.into(),
        priority: None,
        cancel_previous: false,
        turn_id: None,
    }
}

/// A WAV file with this many bytes of audio.
fn wav_with_data_bytes(n: u32) -> Vec<u8> {
    let mut buf = b"RIFF\0\0\0\0WAVEfmt ".to_vec();
    buf.extend_from_slice(&16u32.to_le_bytes());
    buf.extend_from_slice(&1u16.to_le_bytes());
    buf.extend_from_slice(&1u16.to_le_bytes());
    buf.extend_from_slice(&22050u32.to_le_bytes());
    buf.extend_from_slice(&44100u32.to_le_bytes());
    buf.extend_from_slice(&2u16.to_le_bytes());
    buf.extend_from_slice(&16u16.to_le_bytes());
    buf.extend_from_slice(b"data");
    buf.extend_from_slice(&n.to_le_bytes());
    buf.resize(buf.len() + n as usize, 0);
    buf
}

/// A backend that is not there.
struct NoPiper;

impl Synth for NoPiper {
    fn render(&self, _voice: &str, _text: &str, _out: &str) -> Result<(), SynthError> {
        Err(SynthError::BackendMissing("piper".to_string()))
    }
}

/// What the world around the daemon does.
struct World {
    /// The one file on disk, and its bytes.
    file: Option<(String, Vec<u8>)>,
    /// Whether the directory of the cache cannot be made.
    no_dir: bool,
    /// Whether Piper works.
    piper: bool,
    /// What the player does with a file.
    player: PlayerRun,
    /// What comes of the cloud service.
    cloud: Vec<StreamEvent>,
}

impl World {
    fn new() -> Self {
        World {
            file: None,
            no_dir: false,
            piper: false,
            player: PlayerRun::Exited {
                success: true,
                status: "exit status: 0".into(),
                duration_ms: 12,
            },
            cloud: Vec::new(),
        }
    }
}

/// Plays a stream with these events.
fn stream(state: &mut DaemonState, events: Vec<StreamEvent>) -> StreamOutcome {
    let (_args, mut play) = state.begin_stream();
    let mut result = None;
    for e in events {
        if let StreamAction::Finish(outcome) = play.step(e) {
            result = Some(outcome);
        }
    }
    state.end_stream();
    result.expect("the stream ends")
}

/// Speaks, and gives what is published and what else was done.
fn speak(
    state: &mut DaemonState,
    req: &SpeakRequest,
    world: &World,
) -> (Vec<Event>, Vec<&'static str>) {
    let mut published = Vec::new();
    let mut done = Vec::new();
    let (mut speak, mut action) = state.handle_speak(req, 100);
    let mut now: u64 = 100;
    loop {
        now += 1;
        let event = match action {
            SpeakAction::Fire => {
                done.push("fire");
                state.slot.fire();
                SpeakEvent::Fired
            }
            SpeakAction::Publish(e) => {
                published.push(e);
                SpeakEvent::Published
            }
            SpeakAction::LookUp(path) => {
                SpeakEvent::Found(world.file.as_ref().is_some_and(|f| f.0 == path))
            }
            SpeakAction::Stream(_) => {
                done.push("stream");
                SpeakEvent::Streamed(stream(state, world.cloud.clone()))
            }
            SpeakAction::MakeDir(dir) => {
                assert_eq!(dir, "/tmp/tts/test-voice");
                if world.no_dir {
                    SpeakEvent::DirFailed("read-only".to_string())
                } else {
                    SpeakEvent::DirMade
                }
            }
            SpeakAction::Render { .. } => {
                done.push("render");
                if world.piper {
                    SpeakEvent::Rendered(RenderRun::Rendered)
                } else {
                    SpeakEvent::Rendered(RenderRun::SynthFailed(SynthError::BackendMissing(
                        "piper".to_string(),
                    )))
                }
            }
            SpeakAction::Play(path) => {
                done.push("play");
                let bytes = world.file.as_ref().map(|f| f.1.as_slice());
                let (_args, facts) = state.begin_play(&path, bytes);
                assert!(state.slot.armed);
                SpeakEvent::Played(state.end_play(&path, &facts, &world.player))
            }
            SpeakAction::Finish => return (published, done),
            SpeakAction::Fail(why) => panic!("failed: {why}"),
        };
        action = speak.step(&event, now);
    }
}

fn topics(events: &[Event]) -> Vec<&'static str> {
    events.iter().map(|e| e.topic()).collect()
}

fn kind(event: &Event) -> &str {
    match event {
        Event::Error(e) => &e.kind,
        other => panic!("expected an error, got {other:?}"),
    }
}

#[test]
fn cancel_publishes_ack_when_no_active_player() {
    let mut state = tmp_state();
    let (fire, ack) = state.handle_cancel(77, 5);
    assert!(!fire);
    assert_eq!(ack.topic(), outgoing::CANCEL_ACK);
    let parsed = CancelAckEvent::from_json(&ack.to_json()).expect("ack decodes");
    assert_eq!(parsed.drained_ms, 0);
    assert_eq!(parsed.ts, 5);
}

#[test]
fn cancel_drained_ms_reflects_playback_elapsed() {
    let mut state = tmp_state();
    state.slot.install(None);
    let (fire, ack) = state.handle_cancel(20, 1);
    assert!(fire);
    let parsed = CancelAckEvent::from_json(&ack.to_json()).expect("ack decodes");
    assert!(
        parsed.drained_ms >= 15,
        "drained_ms should reflect ~20ms wait, got {}",
        parsed.drained_ms
    );
    assert!(
        parsed.drained_ms < 5_000,
        "drained_ms should be a sane elapsed, got {}",
        parsed.drained_ms
    );
}

#[test]
fn cancel_drained_ms_capped_by_audio_duration() {
    let mut state = tmp_state();
    state.slot.install(Some(10));
    let (_, ack) = state.handle_cancel(60, 1);
    let parsed = CancelAckEvent::from_json(&ack.to_json()).expect("ack decodes");
    assert_eq!(
        parsed.drained_ms, 10,
        "drained_ms should be capped at audio length, got {}",
        parsed.drained_ms
    );
}

#[test]
fn cancel_drained_ms_uses_elapsed_when_under_duration() {
    let mut state = tmp_state();
    state.slot.install(Some(5_000));
    let (_, ack) = state.handle_cancel(20, 1);
    let parsed = CancelAckEvent::from_json(&ack.to_json()).expect("ack decodes");
    assert!(
        (15..200).contains(&parsed.drained_ms),
        "drained_ms should reflect ~20ms elapsed (not the 5000ms cap), got {}",
        parsed.drained_ms
    );
}

#[test]
fn reload_voice_publishes_ack_and_swaps_active() {
    let mut state = tmp_state();
    assert_eq!(state.active.voice, "test-voice");
    let event =
        state.handle_reload_voice("en_GB-jenny", &NoPiper, |_: &str| Ok(()), |_: &str| false, 0);
    assert_eq!(event.topic(), outgoing::RELOAD_ACK);
    let Event::ReloadAck(ack) = event else {
        panic!("expected an acknowledgement")
    };
    assert_eq!(ack.voice, "en_GB-jenny");
    assert_eq!(ack.cache_hits, 0);
    assert_eq!(ack.prerendered, 0);
    assert_eq!(ack.failures, 0);
    assert_eq!(state.active.voice, "en_GB-jenny");
    assert!(state.active.cache.voice_dir().ends_with("en_GB-jenny"));
}

#[test]
fn reload_voice_with_phrases_reports_failures_but_still_swaps() {
    let mut state = state_with(vec!["yes".to_string(), "no".to_string()], false);
    let event = state.handle_reload_voice(
        "en_US-amy-medium",
        &NoPiper,
        |_: &str| Ok(()),
        |_: &str| false,
        0,
    );
    let Event::ReloadAck(ack) = event else {
        panic!("expected an acknowledgement")
    };
    assert_eq!(ack.voice, "en_US-amy-medium");
    assert_eq!(ack.cache_hits, 0);
    assert_eq!(ack.prerendered + ack.failures, 2);
    assert_eq!(ack.failures, 2);
    assert_eq!(state.active.voice, "en_US-amy-medium");
}

#[test]
fn reload_that_fails_keeps_the_voice() {
    let mut state = state_with(vec!["yes".to_string()], false);
    let event = state.handle_reload_voice(
        "new",
        &NoPiper,
        |_: &str| Err("read-only".to_string()),
        |_: &str| false,
        0,
    );
    match event {
        Event::Error(e) => {
            assert_eq!(e.kind, "voice");
            assert_eq!(
                e.message,
                "prerender failed for new: io failure on /tmp/tts/new: read-only"
            );
        }
        other => panic!("expected an error, got {other:?}"),
    }
    assert_eq!(state.active.voice, "test-voice");
    assert_eq!(state.active.cache.voice, "test-voice");
}

#[test]
fn reload_tells_how_long_it_took() {
    let mut report = wintermute_tts::cache::RenderReport::new();
    report.hits = 3;
    report.rendered = 2;
    report.record_failure("x", "why".to_string());
    let Event::ReloadAck(ack) = reload_event("v", &Ok(report), 100, 175, 180) else {
        panic!("expected an acknowledgement")
    };
    assert_eq!((ack.cache_hits, ack.prerendered, ack.failures), (3, 2, 1));
    assert_eq!((ack.elapsed_ms, ack.ts), (75, 180));
    let empty = wintermute_tts::cache::RenderReport::new();
    let Event::ReloadAck(ack) = reload_event("v", &Ok(empty), 100, 99, 98) else {
        panic!("expected an acknowledgement")
    };
    assert_eq!(ack.elapsed_ms, 0);
}

#[test]
fn speak_with_cache_miss_publishes_start_then_error() {
    let mut state = tmp_state();
    let mut req = speak_request("totally uncached phrase");
    req.priority = Some("normal".into());
    let (events, done) = speak(&mut state, &req, &World::new());
    assert_eq!(events.len(), 2);
    assert_eq!(events[0].topic(), outgoing::START);
    assert_eq!(events[1].topic(), outgoing::ERROR);
    assert_eq!(kind(&events[1]), "render");
    assert_eq!(done, vec!["render"]);
    let Event::Start(start) = &events[0] else {
        panic!("expected the start")
    };
    assert_eq!(start.source, "normal");
    assert_eq!(start.ts, 100);
}

#[test]
fn dispatch_routes_each_variant() {
    let mut state = tmp_state();
    let made = |_: &str| Ok(());
    let none = |_: &str| false;
    let cancel = Request::Cancel(CancelRequest {});
    match state.dispatch(&cancel, &NoPiper, made, none, 0, 1) {
        Dispatched::Cancel(fire, ack) => {
            assert!(!fire);
            assert_eq!(ack.topic(), outgoing::CANCEL_ACK);
        }
        other => panic!("expected cancel, got {other:?}"),
    }
    let reload = Request::ReloadVoice(ReloadVoiceRequest { voice: "v".into() });
    match state.dispatch(&reload, &NoPiper, made, none, 0, 1) {
        Dispatched::Reload(ack) => assert_eq!(ack.topic(), outgoing::RELOAD_ACK),
        other => panic!("expected reload, got {other:?}"),
    }
    let req = Request::Speak(speak_request("x"));
    match state.dispatch(&req, &NoPiper, made, none, 0, 1) {
        Dispatched::Speak(speak, SpeakAction::Publish(start)) => {
            assert_eq!(speak.voice, "v");
            assert_eq!(start.topic(), outgoing::START);
        }
        other => panic!("expected speak, got {other:?}"),
    }
}

#[test]
fn phrase_key_trims_and_lowercases() {
    assert_eq!(phrase_key("  YES "), "yes");
    assert_eq!(phrase_key("I'M HERE"), "i'm here");
}

#[test]
fn default_player_is_pw_cat() {
    assert_eq!(DEFAULT_PLAYER, "pw-cat");
}

#[test]
fn player_args_wav_pw_cat() {
    let args = player_args("pw-cat", "/tmp/x.wav", None);
    assert_eq!(args, vec!["--playback", "/tmp/x.wav"]);
}

#[test]
fn player_args_mp3_pw_cat_sets_media_type() {
    let args = player_args("pw-cat", "/tmp/x.mp3", None);
    assert_eq!(
        args,
        vec!["--playback", "--media-type", "audio/mpeg", "/tmp/x.mp3"]
    );
}

#[test]
fn player_args_paplay_unchanged_for_mp3() {
    let args = player_args("paplay", "/tmp/x.mp3", None);
    assert_eq!(args, vec!["/tmp/x.mp3"]);
}

#[test]
fn player_args_wav_pw_cat_injects_target_when_sink_set() {
    let args = player_args("pw-cat", "/tmp/x.wav", Some("alsa_sink_node"));
    assert_eq!(
        args,
        vec!["--playback", "--target", "alsa_sink_node", "/tmp/x.wav"]
    );
}

#[test]
fn player_args_mp3_pw_cat_target_appears_before_media_type() {
    let args = player_args(
        "pw-cat",
        "/tmp/x.mp3",
        Some("alsa_output.pci-1f.3.HiFi__Speaker__sink"),
    );
    assert_eq!(
        args,
        vec![
            "--playback",
            "--target",
            "alsa_output.pci-1f.3.HiFi__Speaker__sink",
            "--media-type",
            "audio/mpeg",
            "/tmp/x.mp3",
        ]
    );
}

#[test]
fn player_args_paplay_ignores_target_arg() {
    let args = player_args("paplay", "/tmp/x.wav", Some("node"));
    assert_eq!(args, vec!["/tmp/x.wav"]);
}

#[test]
fn mp3_is_told_by_the_extension() {
    let mp3 = |path: &str| player_args("/usr/bin/pw-cat", path, None).len() == 4;
    assert!(mp3("/a/b.MP3"));
    assert!(mp3("x.y.mp3"));
    assert!(!mp3("/a.mp3/b"));
    assert!(!mp3("/a/.mp3"));
    assert!(!mp3("mp3"));
}

#[test]
fn sink_node_from_env_empty_yields_none() {
    assert_eq!(sink_node_from_env(&env(&[("WM_SINK_NODE", "")])), None);
    assert_eq!(sink_node_from_env(&env(&[])), None);
    assert_eq!(
        sink_node_from_env(&env(&[("WM_SINK_NODE", "node")])),
        Some("node".to_string())
    );
}

#[test]
fn player_comes_from_either_name() {
    assert_eq!(player_from_env(&env(&[])), "pw-cat");
    assert_eq!(player_from_env(&env(&[("WM_TTS_PLAYER", "paplay")])), "paplay");
    assert_eq!(
        player_from_env(&env(&[("WM_TTS_PLAYER", "paplay"), ("WM_PW_CAT_BIN", "/o/pw-cat")])),
        "/o/pw-cat"
    );
}

#[test]
fn cloud_failure_falls_back_to_piper_then_publishes_error() {
    let mut state = state_with(Vec::new(), true);
    let mut world = World::new();
    world.cloud = vec![StreamEvent::Refused(CloudError::Http("forced".into()))];
    let req = speak_request("uncached cloud-fallback phrase");
    let (events, done) = speak(&mut state, &req, &world);
    assert_eq!(
        done,
        vec!["stream", "render"],
        "cloud backend must be invoked exactly once before fallback"
    );
    assert_eq!(topics(&events), vec![outgoing::START, outgoing::ERROR]);
    assert_eq!(kind(&events[1]), "render");
}

#[test]
fn try_cloud_stream_play_reports_failed_before_frame_on_sync_err() {
    let mut state = state_with(Vec::new(), true);
    state.player_bin = "/usr/bin/false".into();
    let outcome = stream(
        &mut state,
        vec![StreamEvent::Refused(CloudError::Http("forced".into()))],
    );
    match outcome {
        StreamOutcome::FailedBeforeFrame(_) => {}
        other => panic!("expected FailedBeforeFrame, got {other:?}"),
    }
}

/// One chunk, then a failure.
fn mid_stream_failure() -> Vec<StreamEvent> {
    vec![
        StreamEvent::Granted,
        StreamEvent::Spawned,
        StreamEvent::Chunk { len: 7 },
        StreamEvent::Written,
        StreamEvent::ItemFailed(CloudError::Http("forced mid-stream".into())),
        StreamEvent::Exited { duration_ms: 3 },
    ]
}

#[test]
fn try_cloud_stream_play_reports_failed_mid_stream_after_first_frame() {
    let mut state = state_with(Vec::new(), true);
    state.player_bin = "/bin/cat".into();
    match stream(&mut state, mid_stream_failure()) {
        StreamOutcome::FailedMidStream(_) => {}
        other => panic!("expected FailedMidStream, got {other:?}"),
    }
}

#[test]
fn handle_speak_publishes_stream_error_on_mid_stream_failure_then_piper_restart() {
    let mut state = state_with(Vec::new(), true);
    state.player_bin = "/bin/cat".into();
    let mut world = World::new();
    world.cloud = mid_stream_failure();
    let req = speak_request("uncached mid-stream phrase");
    let (events, _) = speak(&mut state, &req, &world);
    assert_eq!(events.len(), 3, "expected START, stream ERR, render ERR");
    assert_eq!(
        topics(&events),
        vec![outgoing::START, outgoing::ERROR, outgoing::ERROR]
    );
    assert_eq!(kind(&events[1]), "stream");
    assert_eq!(kind(&events[2]), "render");
    let Event::Error(e) = &events[1] else {
        panic!("expected an error")
    };
    assert_eq!(e.message, "cloud http transport: forced mid-stream");
}

#[test]
fn streaming_player_args_pw_cat_pipes_stdin_with_mp3_media_type() {
    let args = streaming_player_args("pw-cat", None);
    assert_eq!(args, vec!["--playback", "--media-type", "audio/mpeg", "-"]);
}

#[test]
fn streaming_player_args_pw_cat_injects_target() {
    let args = streaming_player_args("pw-cat", Some("alsa_sink_node"));
    assert_eq!(
        args,
        vec![
            "--playback",
            "--target",
            "alsa_sink_node",
            "--media-type",
            "audio/mpeg",
            "-",
        ]
    );
}

#[test]
fn streaming_player_args_non_pw_cat_is_empty() {
    let args = streaming_player_args("/bin/cat", None);
    assert!(args.is_empty());
    let args = streaming_player_args("paplay", None);
    assert!(args.is_empty());
}

#[test]
fn cache_hit_lookup_finds_existing_wav() {
    let state = tmp_state();
    let wav = state.active.cache.entry_path("hello world");
    let there = |p: &str| p == wav;
    assert_eq!(
        cache_hit_path(&state.active.cache, "  Hello World ", there),
        Some(wav.clone())
    );
    assert_eq!(cache_hit_path(&state.active.cache, "nope", there), None);
}

#[test]
fn self_emitted_filter_covers_every_outbound_topic() {
    for topic in [
        outgoing::START,
        outgoing::END,
        outgoing::ERROR,
        outgoing::CANCEL_ACK,
        outgoing::RELOAD_ACK,
    ] {
        assert!(
            is_self_emitted_topic(topic),
            "outbound topic {topic} would slip past the dispatch filter and re-enter decode — recursive storm"
        );
        let echo = BusLine::Message { topic: topic.to_string(), data: Json::Null };
        assert!(matches!(on_line(&echo, 0), LineVerdict::Skip));
    }
    for topic in [incoming::SPEAK, incoming::CANCEL, incoming::RELOAD_VOICE] {
        assert!(
            !is_self_emitted_topic(topic),
            "inbound topic {topic} would be silently dropped — daemon would go deaf"
        );
    }
}

#[test]
fn speak_with_missing_pw_cat_publishes_pw_cat_missing_error_and_end() {
    let mut state = tmp_state();
    let mut world = World::new();
    world.file = Some((state.active.cache.entry_path("hello"), wav_with_data_bytes(1234)));
    world.player = PlayerRun::Missing;
    state.player_bin = "/definitely/not/pw-cat-xyz".into();
    let (events, _) = speak(&mut state, &speak_request("hello"), &world);
    assert_eq!(events.len(), 3, "expected START + ERROR + END");
    assert_eq!(
        topics(&events),
        vec![outgoing::START, outgoing::ERROR, outgoing::END]
    );
    let Event::Error(err) = &events[1] else {
        panic!("error decodes")
    };
    assert_eq!(err.kind, "pw_cat_missing");
    assert_eq!(
        err.message,
        "player binary not found on $PATH: /definitely/not/pw-cat-xyz"
    );
    let Event::End(end) = &events[2] else {
        panic!("end decodes")
    };
    assert_eq!(end.outcome, outcome::ERROR);
    assert_eq!(end.played_bytes, 0);
}

#[test]
fn speak_with_cat_player_publishes_end_with_nonzero_played_bytes() {
    let mut state = tmp_state();
    let data_bytes: u32 = 4096;
    let mut world = World::new();
    world.file = Some((state.active.cache.entry_path("yes"), wav_with_data_bytes(data_bytes)));
    state.player_bin = "/bin/cat".into();
    let mut req = speak_request("yes");
    req.turn_id = Some(TurnId("0000000abc12-000f".into()));
    let (events, done) = speak(&mut state, &req, &world);
    assert_eq!(events.len(), 2, "expected START + END only");
    assert_eq!(topics(&events), vec![outgoing::START, outgoing::END]);
    let Event::End(end) = &events[1] else {
        panic!("end decodes")
    };
    assert_eq!(end.outcome, outcome::OK);
    assert_eq!(
        end.played_bytes,
        u64::from(data_bytes),
        "played_bytes must equal WAV data chunk size"
    );
    assert_eq!(end.duration_ms, 12);
    assert_eq!(done, vec!["play"]);
    let Event::Start(start) = &events[0] else {
        panic!("expected the start")
    };
    assert_eq!(start.turn_id, req.turn_id);
    assert_eq!(end.turn_id, req.turn_id);
}

#[test]
fn cancel_mid_play_publishes_end_outcome_cancelled() {
    let mut state = tmp_state();
    let mut world = World::new();
    world.file = Some((state.active.cache.entry_path("long"), wav_with_data_bytes(2048)));
    world.player = PlayerRun::Cancelled { duration_ms: 30 };
    state.player_bin = "/bin/sleep".into();
    let (events, _) = speak(&mut state, &speak_request("long"), &world);
    assert!(events.len() >= 2, "expected at least START + END");
    assert_eq!(events[0].topic(), outgoing::START);
    let Some(Event::End(end)) = events.last() else {
        panic!("end event present")
    };
    assert_ne!(end.outcome, outcome::OK, "must not report ok on cancel");
    assert_eq!(end.outcome, outcome::CANCELLED);
    assert_eq!(end.played_bytes, 0);
}

#[test]
fn piper_renders_and_the_file_is_played() {
    let mut state = tmp_state();
    let mut world = World::new();
    world.piper = true;
    let (events, done) = speak(&mut state, &speak_request("new"), &world);
    assert_eq!(topics(&events), vec![outgoing::START, outgoing::END]);
    assert_eq!(done, vec!["render", "play"]);
    assert_eq!(state.slot, CancelSlot::new());
}

#[test]
fn clean_stream_is_told_with_its_bytes() {
    let mut state = state_with(Vec::new(), true);
    let mut world = World::new();
    world.cloud = vec![
        StreamEvent::Granted,
        StreamEvent::Spawned,
        StreamEvent::Chunk { len: 7 },
        StreamEvent::Written,
        StreamEvent::Chunk { len: 5 },
        StreamEvent::Written,
        StreamEvent::Ended,
        StreamEvent::Exited { duration_ms: 40 },
    ];
    let (events, done) = speak(&mut state, &speak_request("x"), &world);
    assert_eq!(topics(&events), vec![outgoing::START, outgoing::END]);
    assert_eq!(done, vec!["stream"]);
    let Event::End(end) = &events[1] else {
        panic!("expected the end")
    };
    assert_eq!((end.played_bytes, end.duration_ms), (12, 40));
    assert_eq!(end.outcome, "ok");
}

#[test]
fn cancelled_stream_is_told_as_cancelled() {
    let mut state = state_with(Vec::new(), true);
    let mut world = World::new();
    world.cloud = vec![
        StreamEvent::Granted,
        StreamEvent::Spawned,
        StreamEvent::Chunk { len: 7 },
        StreamEvent::Written,
        StreamEvent::Cancel,
        StreamEvent::Exited { duration_ms: 9 },
    ];
    let (events, _) = speak(&mut state, &speak_request("x"), &world);
    let Some(Event::End(end)) = events.last() else {
        panic!("expected the end")
    };
    assert_eq!((end.outcome.as_str(), end.played_bytes), ("cancelled", 0));
}

#[test]
fn streams_that_cannot_begin_fail_unheard() {
    let fail = |events: Vec<StreamEvent>| {
        let mut play = StreamPlay::new("pw-cat");
        let mut last = StreamAction::Pass;
        for e in events {
            last = play.step(e);
        }
        match last {
            StreamAction::Finish(StreamOutcome::FailedBeforeFrame(CloudError::Http(why))) => why,
            other => panic!("expected FailedBeforeFrame, got {other:?}"),
        }
    };
    assert_eq!(
        fail(vec![StreamEvent::Granted, StreamEvent::SpawnFailed]),
        "spawn streaming player: spawn streaming player pw-cat"
    );
    assert_eq!(
        fail(vec![
            StreamEvent::Granted,
            StreamEvent::NoStdin,
            StreamEvent::Exited { duration_ms: 0 },
        ]),
        "streaming player has no piped stdin"
    );
    assert_eq!(
        fail(vec![
            StreamEvent::Granted,
            StreamEvent::Spawned,
            StreamEvent::Chunk { len: 1 },
            StreamEvent::WriteFailed("broken pipe".into()),
            StreamEvent::Exited { duration_ms: 0 },
        ]),
        "player stdin write: broken pipe"
    );
}

#[test]
fn stream_passes_over_what_does_not_belong() {
    let mut play = StreamPlay::new("pw-cat");
    assert!(matches!(play.step(StreamEvent::Written), StreamAction::Pass));
    assert!(matches!(play.step(StreamEvent::Granted), StreamAction::Spawn));
}

#[test]
fn previous_utterance_is_cancelled_first_when_asked() {
    let mut state = tmp_state();
    let mut req = speak_request("x");
    req.cancel_previous = true;
    let (_, done) = speak(&mut state, &req, &World::new());
    assert_eq!(done, vec!["render"]);
    state.slot.install(Some(1000));
    let (events, done) = speak(&mut state, &req, &World::new());
    assert_eq!(done, vec!["fire", "render"]);
    assert_eq!(events[0].topic(), outgoing::START);
    req.cancel_previous = false;
    state.slot.install(None);
    let (_, done) = speak(&mut state, &req, &World::new());
    assert_eq!(done, vec!["render"]);
}

#[test]
fn cancel_fires_once() {
    let mut state = tmp_state();
    state.slot.install(None);
    assert!(state.handle_cancel(5, 1).0);
    assert!(!state.handle_cancel(6, 2).0);
    state.end_stream();
    assert_eq!(state.slot, CancelSlot::new());
}

#[test]
fn runs_of_the_player_are_judged() {
    let judge = |run: PlayerRun| file_result("pw-cat", "/c/x.wav", 9, &run);
    let failure = |run: PlayerRun| {
        let r = judge(run);
        assert_eq!(r.outcome, PlayOutcome::Failed);
        assert_eq!(r.played_bytes, 0);
        let f = r.error.expect("a failure");
        (f.kind, f.message)
    };
    assert_eq!(
        failure(PlayerRun::SpawnFailed),
        ("io".to_string(), "spawn player: spawn pw-cat /c/x.wav".to_string())
    );
    assert_eq!(
        failure(PlayerRun::Exited {
            success: false,
            status: "exit status: 1".into(),
            duration_ms: 4,
        }),
        ("io".to_string(), "player exited non-zero: exit status: 1".to_string())
    );
    assert_eq!(
        failure(PlayerRun::WaitFailed { why: "gone".into(), duration_ms: 4 }),
        ("io".to_string(), "wait player: gone".to_string())
    );
    let ok = judge(PlayerRun::Exited { success: true, status: String::new(), duration_ms: 4 });
    assert_eq!((ok.outcome, ok.played_bytes, ok.duration_ms), (PlayOutcome::Finished, 9, 4));
}

#[test]
fn renderings_that_fail_are_told() {
    let told = |run: RenderRun| {
        let f = render_failure(&run).expect("a failure");
        (f.kind, f.message)
    };
    assert_eq!(
        told(RenderRun::SynthFailed(SynthError::Io {
            path: "/c/v/x.wav".into(),
            source: "full".into(),
        })),
        ("io".to_string(), "synth io on /c/v/x.wav: full".to_string())
    );
    assert_eq!(
        told(RenderRun::SynthFailed(SynthError::BackendFailed {
            status: 2,
            stderr: "bad".into(),
        })),
        ("render".to_string(), "backend exited with status 2: bad".to_string())
    );
    assert_eq!(
        told(RenderRun::JoinFailed("panic".into())),
        ("render".to_string(), "synth task join failed: panic".to_string())
    );
    assert!(render_failure(&RenderRun::Rendered).is_none());
}

#[test]
fn publish_failures_end_the_utterance() {
    let state = tmp_state();
    let (mut speak, _) = state.handle_speak(&speak_request("x"), 1);
    match speak.step(&SpeakEvent::PublishFailed("bus gone".into()), 2) {
        SpeakAction::Fail(why) => assert_eq!(why, "bus gone"),
        other => panic!("expected a failure, got {other:?}"),
    }
}

#[test]
fn lines_are_judged() {
    assert!(matches!(on_line(&BusLine::Undecodable, 1), LineVerdict::Skip));
    assert!(matches!(on_line(&BusLine::Reply, 1), LineVerdict::Skip));
    let line = BusLine::Message { topic: incoming::CANCEL.to_string(), data: Json::Null };
    assert!(matches!(on_line(&line, 1), LineVerdict::Handle(Request::Cancel(_))));
    let line = BusLine::Message { topic: "wm.tts.bogus".to_string(), data: Json::Null };
    match on_line(&line, 9) {
        LineVerdict::Reject(Event::Error(e)) => {
            assert_eq!(e.kind, "bus");
            assert_eq!(e.message, "decode: unknown topic: wm.tts.bogus");
            assert_eq!(e.ts, 9);
        }
        other => panic!("expected a rejection, got {other:?}"),
    }
}

#[test]
fn daemon_announces_itself_before_it_subscribes() {
    let (mut run, first) = Run::begin(42, "/etc/p.yaml".to_string());
    assert!(matches!(first, RunAction::LoadPhrases(p) if p == "/etc/p.yaml"));
    assert!(matches!(run.step(RunEvent::Done, 1), RunAction::Prerender));
    assert!(matches!(run.step(RunEvent::Failed("no piper".into()), 2), RunAction::Connect));
    match run.step(RunEvent::Done, 3) {
        RunAction::Announce { session, intent } => {
            assert_eq!(session, "wm-tts-42-sub");
            assert_eq!(intent, "wm-tts control subscribe");
        }
        other => panic!("expected an announcement, got {other:?}"),
    }
    assert!(matches!(run.step(RunEvent::Done, 4), RunAction::Subscribe(p) if p == "wm.tts."));
    assert!(matches!(run.step(RunEvent::Done, 5), RunAction::ConnectAgain));
    match run.step(RunEvent::Done, 6) {
        RunAction::Announce { session, intent } => {
            assert_eq!(session, "wm-tts-42");
            assert_eq!(intent, "wm-tts publish path");
        }
        other => panic!("expected an announcement, got {other:?}"),
    }
    assert!(matches!(run.step(RunEvent::Done, 7), RunAction::StartHeartbeats));
    assert!(matches!(run.step(RunEvent::Done, 8), RunAction::ReadLine));
    assert!(matches!(run.step(RunEvent::Line(LineVerdict::Skip), 9), RunAction::ReadLine));
    let req = Request::Cancel(CancelRequest {});
    let action = run.step(RunEvent::Line(LineVerdict::Handle(req)), 10);
    assert!(matches!(action, RunAction::Dispatch(Request::Cancel(_))));
    match run.step(RunEvent::Failed("sink".into()), 11) {
        RunAction::Publish(Event::Error(e)) => {
            assert_eq!((e.kind.as_str(), e.message.as_str(), e.ts), ("bus", "dispatch: sink", 11));
        }
        other => panic!("expected an error, got {other:?}"),
    }
    assert!(matches!(run.step(RunEvent::Failed("again".into()), 12), RunAction::ReadLine));
    let told = Event::error("bus", "decode: x", 13);
    let action = run.step(RunEvent::Line(LineVerdict::Reject(told)), 13);
    assert!(matches!(action, RunAction::Publish(_)));
    assert!(matches!(run.step(RunEvent::Done, 14), RunAction::ReadLine));
    assert!(matches!(run.step(RunEvent::Closed, 15), RunAction::Exit));
    assert_eq!(run.phase, RunPhase::Done);
}

#[test]
fn daemon_gives_up_where_it_must() {
    let (mut run, _) = Run::begin(1, "/etc/p.yaml".to_string());
    match run.step(RunEvent::Failed("no file".into()), 1) {
        RunAction::Fail(why) => assert_eq!(why, "loading cache config from /etc/p.yaml"),
        other => panic!("expected a failure, got {other:?}"),
    }
    let (mut run, _) = Run::begin(1, "p".to_string());
    run.step(RunEvent::Done, 1);
    run.step(RunEvent::Done, 2);
    assert!(matches!(run.step(RunEvent::NotReachable, 3), RunAction::Exit));
    let (mut run, _) = Run::begin(1, "p".to_string());
    run.step(RunEvent::Done, 1);
    run.step(RunEvent::Done, 2);
    run.step(RunEvent::Done, 3);
    assert!(matches!(
        run.step(RunEvent::Failed("announce_required".into()), 4),
        RunAction::Fail(why) if why == "announce_required"
    ));
}

#[test]
fn state_takes_its_settings_from_config_and_environment() {
    let cfg = TtsConfig::default();
    let made: RefCell<u32> = RefCell::new(0);
    let set = [
        ("WM_CLOUD_TTS_QUALITY", "1"),
        ("ELEVENLABS_API_KEY", "k"),
        ("WM_TTS_VOICE_ID_CLOUD", "v"),
        ("WM_SINK_NODE", "node"),
        ("HOME", "/h"),
    ];
    let (state, backend) = DaemonState::new(&cfg, vec!["a".to_string()], &env(&set), || {
        *made.borrow_mut() += 1;
        Some(())
    });
    assert!(state.cloud_active);
    assert!(backend.is_active());
    assert_eq!(*made.borrow(), 1);
    assert_eq!(state.sink_node.as_deref(), Some("node"));
    assert_eq!(state.player_bin, "pw-cat");
    assert_eq!(state.synth.models_root, "/h/.local/share/wintermute/tts/models");
    assert_eq!(state.cache_phrases, vec!["a".to_string()]);
    let cache: &CacheManager = &state.active.cache;
    assert_eq!(cache.voice_dir(), ".cache/wintermute/tts/en_US-lessac-medium");
}

#[test]
fn playing_a_file_arms_the_slot_with_its_length() {
    let mut state = tmp_state();
    state.player_bin = "pw-cat".into();
    let bytes = wav_with_data_bytes(44100);
    let (args, facts) = state.begin_play("/c/x.wav", Some(bytes.as_slice()));
    assert_eq!(args, vec!["--playback", "/c/x.wav"]);
    assert_eq!((facts.duration_ms, facts.data_bytes), (Some(1000), 44100));
    assert_eq!(state.slot.duration_ms, Some(1000));
    let (_, ack) = state.handle_cancel(2_000, 1);
    assert!(matches!(ack, Event::CancelAck(a) if a.drained_ms == 1000));
    let (_, facts) = state.begin_play("/c/y.wav", Some(b"junk".as_slice()));
    assert_eq!((facts.duration_ms, facts.data_bytes), (None, 0));
    let (_, facts) = state.begin_play("/c/z.wav", None);
    assert_eq!((facts.duration_ms, facts.data_bytes), (None, 0));
}

#[test]
fn piper_is_not_asked_without_a_directory() {
    let mut state = tmp_state();
    let mut world = World::new();
    world.no_dir = true;
    let (events, done) = speak(&mut state, &speak_request("x"), &world);
    assert!(done.is_empty());
    assert_eq!(topics(&events), vec![outgoing::START, outgoing::ERROR]);
    let Event::Error(e) = &events[1] else {
        panic!("expected an error")
    };
    assert_eq!(e.kind, "io");
    assert_eq!(e.message, "cache dir /tmp/tts/test-voice: read-only");
}
