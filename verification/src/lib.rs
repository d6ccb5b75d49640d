//! Identification and enrichment of music tracks from partial metadata, and
//! the beat timeline that is derived from a track's audio.
//!
//! A track comes in as a partial record: a name, perhaps an artist. The
//! lookup pipeline fills it in from the local library and the remote catalog,
//! several lookups racing each other. The enriched track is stored, and the
//! audio of its file is analysed for changes of tempo.
//!
//! The library decides and computes; it reads no file and makes no request.
//! Whoever drives it hands it what was read or answered and does what it
//! says.
//!
//! - `types`: partial and resolved records, and how partial records merge
//! - `pipeline`: the graph of lookup steps and the run of a track through it
//! - `fs_library`, `metadata`: the lookup in the local library
//! - `musicbrainz`, `throttle`: the lookup in the remote catalog
//! - `upsert`: how tracks are looked for in storage and stored
//! - `bpm`: tempo clusters and the beat timeline
//! - `lastfm`, `discord`: records of the scrobble and chat services
//! - `text`, `pattern`: operations on text and regular expressions

pub mod bpm;
pub mod discord;
pub mod fs_library;
pub mod lastfm;
pub mod metadata;
pub mod musicbrainz;
pub mod pattern;
pub mod pipeline;
pub mod text;
pub mod throttle;
pub mod types;
pub mod upsert;
