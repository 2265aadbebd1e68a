# unicast

The decisions of a daemon that casts media files from a desktop to receivers on
the local network: Google Cast, DLNA and AirPlay. The library decides, and is
verified with Verus; the program around it talks to the network, the file
system and ffmpeg.

- `src/` is the library. It takes plain values (texts, bytes, numbers, what a
  receiver reported) and returns plain values: a request to send, a plan, the
  next state of a session. Times are held as the bits of a binary64 number
  (`seconds.rs`), so that their order can be decided here; sums of times are
  made by the program.
  - `text.rs`, `number.rs`, `seconds.rs`, `json.rs`, `web.rs`: the ground that
    the rest stands on.
  - `protocol.rs`, `state.rs`, `settings.rs`, `util.rs`, `firewall.rs`,
    `mpris.rs`, `client.rs`: requests, the one session, settings and ledgers.
  - `discovery.rs`, `dlna.rs`, `airplay.rs`, `cast.rs`: receivers, and what is
    said to them; `property_list.rs` tells which answers can be read without
    harm.
  - `cast_session.rs`, `poll.rs`, `connect.rs`, `daemon.rs`: what happens next.
  - `media_server.rs`, `subtitles.rs`: what is served to a receiver;
    `languages.rs` and `retiming.rs` hold laws of the latter.
- `tests/` runs the library on given values.
- `app/` is the program.

Outside functions that the library calls are trusted items: each stands behind
a wrapper whose doc comment names the function and says what is relied on.
