# mqttaudio

The decision logic of mqttaudio, an audio cue daemon driven over MQTT and
HTTP, written in Verus with its behaviour stated in contracts and proved.

## Layout

- `src/` — the verified library:
  - `config` and `validation`: the configuration, channel references and
    aliases, command-line overrides, and every check a configuration must
    pass, with each problem reported in order.
  - `cache/`: the memory cache of decoded audio (least-recently-used
    eviction within a byte budget, playing buffers never evicted), the disk
    cache index and its revalidation, the load-strategy decision (full load
    or streaming window), header probes, and the cache manager.
  - `loading`: the steps a play or a precache takes once the caches, a
    file's header or a URL's response have been looked at.
  - `http`: token checks, query decoding, cross-site refusal, redaction of
    secrets, and play-latency figures.
  - `document`, `fields`, `registry`, `editor`, `editor_state`, `dialog`,
    `editor_keys`, `display`, `text`, `keyed`: the interactive
    configuration editor as a state machine from key to next state and
    action, over a sparse JSON document.
  - `clock`, `audio`: reading time stamps, and decoded buffers.
- `tests/` — tests run against the compiled library.
- `app/` — what runs around the library: file and network I/O, the clock
  and temp-file numbering for cache freshness, the configuration file's JSON
  form, the download reader, the editor's session (loading, saving,
  performing actions), and the text of its dialogs.
