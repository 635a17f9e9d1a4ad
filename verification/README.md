# my_media_kit

The decision logic of a desktop media toolkit (transcription and AI content
tools), written in Verus and proved against its contracts.

- `src/` is the verified library:
  - `text`, `sorting`, `search`: character-level string helpers, a stable
    sort by integer keys and "first match", each with an exact specification.
  - `model`, `config`: provider families, capabilities, errors, transcript
    segments, provider configuration and settings.
  - `provider_id`: the sanitizer for provider ids.
  - `paths`: the canonical form under which clip paths are compared
    (component by component).
  - `settings`: normalization of submitted and saved settings, the built-in
    providers, the workspace configuration overlay, the settings view, and the
    save plan (settings to write and keychain changes to make).
  - `providers`: how a configured provider becomes a client, provider tests,
    pings and status lines, the gateway handed to content tools, and which
    providers may transcribe.
  - `gateway`: candidate selection and ordering, model choice, retry
    classification, and `FallbackRun`, the state machine of a request going
    through its candidate providers.
  - `whisper`: the OpenAI-compatible audio endpoint (base URL normalization,
    verdicts on probe and transcription replies).
  - `state`, `transcription`: the sample and transcript caches, cache keys,
    and `CloudTranscription`, the state machine of a cloud transcription.
  - `laws`: properties of the library as a whole, proved from the contracts.
- `app/` is the unverified shell: file and network I/O, the keychain, timers,
  serde wire types, and the async loops that drive the library's state
  machines.
- `tests/` runs the library on concrete values.
