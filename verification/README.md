# Miku Tunes engine

The engine of a desktop music player, verified with Verus: the registry of
music sources and the order in which a search asks them, the reading of the
music services' answers (searches, charts, playlists, links, details and
lyrics), shared Kugou playlists read from pasted text or share pages, the
play queue, favourites, download names and paths, and theme icons.

- `src/` is the library (`miku_tunes`).  Its functions carry contracts and
  are proved, except a few small trusted wrappers (marked
  `#[verifier::external_body]`) that call `serde_json`, `urlencoding`,
  `base64` and parts of `std`; their contracts are taken on trust and their
  doc comments say what they claim.  `src/laws.rs` holds the properties that
  relate several operations.
- `tests/` runs the library on concrete inputs.
- `app/` is the program around it: the window shell's commands, the HTTP
  requests, the files on disk, and the floating-point readings of song
  lengths, bit rates and lyric times.
