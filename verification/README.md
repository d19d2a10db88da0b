# dictate

Speech-to-text for Wayland desktops: record, transcribe with Mistral, Groq or
Deepgram (batch or realtime), clean the text up locally, optionally polish it
with a chat model, and type or paste it into the focused window. Spoken
commands ("scratch that", "no I mean …", "fix grammar") edit what was typed.

## Layout

- `src/` — the library, verified with Verus. Every public function states in
  its contract what it returns or changes, over spec functions and views:
  - text: `text` (strings as `Seq<char>`), `matching` (the phrase patterns),
    `text_processing` (dictionary, snippets, preferred words, inline
    corrections, cleanup), `developer_modes`, `polish_styles`;
  - dictation: `intent` (voice commands), `transcript` (the typed text and
    its segments), `editing` (planning and carrying out edits),
    `context_session`, `segment_output`, `clip_pipeline`, `command_mode`,
    `clipboard_intent`, `llm_polish` (prompts and replies);
  - speech-to-text: `transcription` (providers, requests and responses),
    `realtime` (the Mistral and Deepgram session state machines);
  - configuration and commands: `config`, `config_cli`, `config_file`,
    `profile`, `startup`, `doctor`, `update`, `history`, `word_store`,
    `platform`, `control`, `overlay_ipc`, `wav`, `audio`, `json`, `typing`.
- `app/` — the program around it: arguments, files, processes, HTTP and
  WebSocket traffic, the microphone and the beeps.
- `tests/` — tests of the library.

Outside crates are reached from `src/` only through a few trusted wrappers
(regex matching, JSON and TOML reading, case mapping, the clock), each with a
doc comment saying what its contract claims.
