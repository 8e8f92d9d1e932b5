# fetching_core

A Spotify downloader's core, written in Verus: the rules that decide what
gets downloaded, where it is stored, how it is named, tagged and listed,
and how the download queue and its task registry behave, each stated as a
contract and proved.

- `src/` is the verified library. Audio format ranking and source choice,
  header stripping and retry schedules (`audio`, `stream`); credential and
  token decisions (`auth`); URI normalisation and classification (`uri`);
  file and directory names (`validation`, `output_path`, `builders`,
  `cache`, `paths`); playlists (`playlist`, `m3u`); tag plans (`tagger`);
  cover layouts and the painting of tiles onto the canvas (`cover`,
  `raster`); the queue, the task registry and its laws
  (`queue`, `coordinator`, `registry`, `status`, `db`); the download job as
  a state machine (`job`); the finalisation decisions and command-line
  reports (`runner`, `progress`). Calls into outside crates
  (path handling, filename sanitising, image decoding and encoding, URI
  parsing, number parsing) sit behind small trusted wrappers whose
  contracts say what the crates document.
- `tests/` runs the library on concrete values.
- `app/` is the `fetching` program (batch, queue and cache commands):
  command line, Spotify session and metadata through librespot, audio
  streaming, tag writing with lofty, the worker loop driving the job
  machine, and the sled-backed registry store. It hands plain values to
  the library and acts on what comes back.
