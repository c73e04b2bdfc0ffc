# typervox

CLI that captures audio from the ALSA `default` device and streams Whisper transcription to stdout,
and a small recording service on a unix socket.

- `src/` is the library, verified with Verus: the queue of recording requests (`state`), the
  service's handlers (`server`, `streams`), the client's requests and what it prints (`client`),
  JSON documents through `serde_json` (`json`), the transcriber's set-up (`settings`), the live
  transcription (`session`), engine and capture types (`engine`, `capture`) and text (`text`).
- `tests/` runs the library on concrete values.
- `app/` is the program around it: sockets, audio, the Whisper model and standard output.

Settings of the program:

- `TVX_MODEL_ID` chooses a model ID for the ct2rs hub (default `Systran/faster-whisper-base.en`).
- `TVX_LANG` fixes the language (default `en`).
