//! Extraction of synced and plain song lyrics from timed-text (TTML) markup.
pub mod catalog;
pub mod extract;
pub mod laws;
pub mod lyrics;
pub mod session;
pub mod timestamp;
pub mod ttml;

pub use extract::{extract, Event, Extractor, LyricsError};
pub use lyrics::{join_part_texts, Lyrics, LyricsLine, LyricsLinePart};
pub use timestamp::parse_timestamp;
pub use ttml::parse_ttml;
pub use catalog::{artwork_url, release_fields, AlbumAttributes, AppleMusicArtwork, ArtistAttributes, CalendarDate, SongAttributes};
pub use session::{access_token, catalog_url, index_script_name, index_script_url, lyrics_path};
