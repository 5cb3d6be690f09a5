# ui24_session

Offline preparation of Soundcraft Ui24R multitrack playback sessions, with the
session rules, the `.uirecsession` configuration and the WAV encoder proved
correct with Verus. FLAC encoding has its parameter checks and padding
proved, and its stream tied to what `flacenc` produces for those samples and
parameters, including the `STREAMINFO` fields.

- `src/` — the verified library: audio formats and metadata, the session
  domain and its validation rules, configuration generation, WAV encoding,
  FLAC encoding through `flacenc`, the decisions of the decoding and MP3
  draining loops, and those of the command-line tool (output names, session
  assembly, shared extensions).
- `app/` — the `ui24-session-builder` command line: argument parsing, file
  and folder I/O, Symphonia decoding and probing (whose panics are caught
  there), MP3 encoding, JSON serialization and ZIP archives.
- `tests/` — tests of the library on concrete values.
