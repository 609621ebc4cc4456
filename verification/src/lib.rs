//! Music-synchronised lighting: playback clocks, beat timelines, latency-aware
//! scheduling, analysis documents and the text protocols around them.

pub mod acousticbrainz;
pub mod analysis;
pub mod cache;
pub mod clock;
pub mod dirs;
pub mod effect;
pub mod hashing;
pub mod matter;
pub mod musicbrainz;
pub mod oauth;
pub mod scheduler;
pub mod session;
pub mod spotify;
pub mod text;
pub mod time;
pub mod timeline;
pub mod track;
pub mod tracker;
