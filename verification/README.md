# audiostar

The verified core of a desktop music-rating application, written in Verus.

- `src/audio_start.rs`: where the audio data of a file starts (ID3v2 tag size,
  FLAC metadata block walk, default skip), as a scanner driven by the reads the
  caller performs, with a model over the file's bytes.
- `src/audio_hash.rs`: the audio fingerprint (hash of the window after the
  audio start, written as 16 hex digits) and its stability laws.
- `src/order.rs`: alphabetical order of names and a verified sort.
- `src/listing.rs`: visible directories, file extensions, music file selection.
- `src/ratings.rs`: JSON answers to rating lookups and the decisions around the
  ratings database.
- `app/`: the Tauri application (file system, SQLite, audio playback).
