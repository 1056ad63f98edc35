//! A synced-lyrics conversion engine.
//!
//! Given two parallel timed-text documents describing the same song lyric —
//! one carrying per-word timing with nested foreground/background vocal
//! groups, one carrying plain per-line text — the library produces either a
//! structured line/word timeline for karaoke-style rendering, or a compact
//! timestamped text format for lyric players.

pub mod apple_music;
pub mod apple_music_url;
pub mod convert_spec;
pub mod errors;
pub mod feishu;
pub mod lyric_xml;
pub mod lyric_json;
pub mod response_handler;
pub mod synced_lyric_xml;
pub mod text;
pub mod timecode;
pub mod ttml_parser;
pub mod user_storefront;

pub use errors::ConvertError;
