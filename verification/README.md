# musing

A music player that clients drive over TCP: every message is a 4-byte big-endian
length followed by a JSON object; requests name a `kind` (`ls`, `select`, `addqueue`,
`play`, `state`, ...) and are answered with an object holding `status` and, on
failure, `reason`.

The library under `src/` is written in Verus; its functions carry `requires` /
`ensures` contracts and the laws of the library are proof functions:

- `model/queue.rs`: the play queue (sequential, single and random modes, ids,
  history) and its laws (removing what was added, stepping back after stepping
  forward, the random pool being a permutation).
- `database.rs`: the music collection, kept sorted by path; lookup by binary
  search, `ls`, `metadata`, `select` (filters, sort, groups), the update of the
  collection (merge of sorted rows), playlist lines.
- `player.rs`: requests about the queue and the status reports, with the command
  that the audio side has to carry out.
- `model/request.rs`, `model/json.rs`, `parsers/`: reading requests and filter
  expressions.
- `model/response.rs`: answers and their differences.
- `model/decoder.rs`, `playback.rs`: volume, speed, seeking and the decisions of the
  decoder and of the playback.
- `path.rs`, `text.rs`, `server.rs`, `config.rs`: paths and their order, lines of
  text, message framing, configuration.

`app/` holds the program around the library: the command line, the TCP server
(tokio), the audio output (cpal), decoding (symphonia, rubato), walking the music
directory (jwalk) and the state file (bincode).

Two requests named in the protocol, `unique` and `fromfile`, are answered with an
error: the program they come from calls database operations for them that its
sources never define, so there is no behaviour to follow.
