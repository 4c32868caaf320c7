# wintermute-tts

Text in, audio out. `wm-tts` is a daemon that listens on the bus under
`wm.tts.`, renders speech with Piper on this machine or, where it is switched
on, with the ElevenLabs service, and plays it through PipeWire.

## Layout

- `src/` is the library: everything that the daemon decides and computes, with
  contracts that Verus proves.
  - `bus/`: topics, requests and events, and the JSON that carries them
  - `cache.rs`, `pass.rs`: files of phrases rendered ahead of time, and the pass
    that renders them
  - `cloud.rs`, `cloud_ws.rs`: the ElevenLabs service, one request at a time and
    as a stream
  - `config.rs`: configuration and the list of phrases
  - `daemon/`: what is done with each message on the bus
  - `synth.rs`, `single.rs`: Piper, speaking rate and gain
  - `voicepack.rs`: which engine a voice stands for
  - `wav.rs`: what the header of a WAV file says
  - `json.rs`, `text.rs`, `paths.rs`, `vars.rs`, `clock.rs`, `base64_text.rs`:
    what the others build on
- `app/` is the program around it: the bus, the disk, the network, the
  processes.
- `tests/` runs the library.

## What it listens for and what it publishes

| Listens for | Payload |
|---|---|
| `wm.tts.speak` | `{text, priority, cancel_previous, turn_id}` |
| `wm.tts.cancel` | `{}` |
| `wm.tts.reload_voice` | `{voice}` |

| Publishes | Payload |
|---|---|
| `wm.tts.start` | `{text, source, ts, turn_id}` |
| `wm.tts.cancel.ack` | `{ts, drained_ms}` |
| `wm.tts.end` | `{text, duration_ms, outcome, played_bytes, ts, turn_id}` |
| `wm.tts.reload.ack` | `{voice, cache_hits, prerendered, failures, elapsed_ms, ts}` |
| `wm.tts.error` | `{kind, message, ts}` |

## Configuration

| Variable | Default | Purpose |
|---|---|---|
| `WM_TTS_VOICE` | `en_US-lessac-medium` | Piper voice |
| `WM_TTS_VOICE_DIR` | `~/.local/share/wintermute/tts/models` | Piper models |
| `WM_TTS_CACHE_DIR` | `~/.cache/wintermute/tts` | cache of rendered phrases |
| `WM_TTS_CACHE_CONFIG` | `/etc/wintermute/tts-cache.yaml` | phrases to render |
| `WM_CLOUD_TTS_QUALITY` | off | ask the ElevenLabs service |
| `WM_TTS_VOICE_ID_CLOUD` | none | voice at the service |
| `ELEVENLABS_API_KEY` | none | key for the service |
| `WM_SINK_NODE` | default sink | where the audio goes |
| `WM_PW_CAT_BIN` | `pw-cat` | the player |
