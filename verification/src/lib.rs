//! Verified core of a small music-rating desktop application: where the audio
//! data of a file begins, how a file's audio fingerprint is formed, which
//! directory entries are listed, and how rating lookups are answered.

pub mod audio_start;
pub mod audio_hash;
pub mod order;
pub mod listing;
pub mod ratings;
