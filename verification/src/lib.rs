//! A music-player core: the play queue with shuffle and repeat, the
//! library scanner's bookkeeping, the search statements over the track
//! database, the player's command lines, and the persisted settings that
//! are plain values.
pub mod text;
pub mod models;
pub mod player;
mod random;
pub mod db;
pub mod library;
pub mod state;
pub mod vlc;
pub mod ui;
