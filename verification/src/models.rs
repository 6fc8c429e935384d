//! The records that the player, the queue and the database share.
use vstd::prelude::*;

verus! {

/// One track of the library, as the database stores it.
#[derive(Debug, Clone)]
pub struct Track {
    pub id: i64,
    pub path: String,
    pub title: String,
    pub artist: String,
    pub album: String,
    pub album_artist: String,
    pub duration_ms: Option<i64>,
}

/// A queue entry as the user interface lists it.
#[derive(Debug, Clone)]
pub struct QueueItem {
    pub queue_id: String,
    pub track_id: i64,
    pub track: Track,
}

/// What happens when the queue runs past its current track.
#[derive(Debug, Clone, Copy, PartialEq, Eq, Structural)]
pub enum RepeatMode {
    Off,
    All,
    One,
}

/// A field-by-field copy of `track`.
pub fn copy_track(track: &Track) -> (r: Track)
    ensures
        r == *track,
{
    Track {
        id: track.id,
        path: track.path.clone(),
        title: track.title.clone(),
        artist: track.artist.clone(),
        album: track.album.clone(),
        album_artist: track.album_artist.clone(),
        duration_ms: track.duration_ms,
    }
}

} // verus!
