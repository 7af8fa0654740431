# persona_bot

The rules of a multi-persona Discord bot and its terminal dashboard, written
in Verus: every function in `src/` carries a contract that Verus proves.

## Layout

- `src/` — the verified library.
  - `text`, `keyed`, `format`: character sequences, byte lengths,
    number formatting and keyed records.
  - `shared_map`: the `dashmap::DashMap` that the rate limiter and the job
    store keep their entries in; what its calls do is stated where they
    are made.
  - `personas`, `council`, `debate`, `discussion`: persona prompts, council
    and debate state, shared thread context and button ids.
  - `plugins`: plugin configuration and its validation, command
    preparation, output splitting, job bookkeeping, playlist and chunked
    transcription runs, and the messages they post.
  - `rate_limiter`: the sliding-window limit per bot and user.
  - `ipc`: message framing, the dashboard's commands, the replies to them,
    and the state the socket server keeps.
  - `tui`: the dashboard's screens, key bindings, channel buffers, error,
    user and statistics state, and text wrapping.
  - `startup`, `analytics`, `audio`: the startup notice, prices and disk
    reports, and the transcription helpers' arguments and outcomes.
- `tests/` — tests of the library on concrete values.
- `app/` — what touches the outside world: the JSON wire forms, the socket
  server, plugin files, running commands, waiting out rate limits, and the
  floating-point statistics and costs.

Times are integers: milliseconds or seconds since the Unix epoch, read by the
caller and passed in.
