# hypr_plugins

The logic of the desktop app's Tauri plugins, verified with Verus.

`src/` is the verified library:

- `transcript`: merging of streamed speech-to-text results into final and
  partial words (trimming, confidence gate, overlap rules), with proofs of
  the merging properties.
- `session`, `source`, `processor`, `recorder`: the listening session's
  decisions (start, stop, supervision), audio source control, pairing of
  microphone and speaker chunks.
- `stt`: the local speech-to-text models, server start/stop/connect rules,
  download bookkeeping, and the watch over the external server process.
- `notification`, `windows`, `webhook`, `connector`, `llm_model`: what
  notifications say and when they are shown, window reactions, and the
  plugins' data types and catalogues.
- `text`: trimming, substring search, joining and decimal text, proved
  against their specifications.

`app/` is the plugin glue (Tauri commands, actors, I/O, serialisable copies of
the library's types) that calls the library. `tests/` exercises the library.
