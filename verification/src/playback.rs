use crate::library::Track;
use vstd::prelude::*;

verus! {

/// What the player reports of the track that is playing.
#[derive(Debug)]
pub struct PlaybackStatus {
    pub title: String,
    pub album_title: String,
    pub album_artist: String,
    /// Seconds played of the track.
    pub elapsed: u64,
    /// Seconds that the track lasts.
    pub total_length: u64,
}

impl PlaybackStatus {
    pub fn title(&self) -> (title: &String)
        ensures
            title == self.title,
    {
        &self.title
    }

    pub fn album_title(&self) -> (album_title: &String)
        ensures
            album_title == self.album_title,
    {
        &self.album_title
    }

    pub fn album_artist(&self) -> (album_artist: &String)
        ensures
            album_artist == self.album_artist,
    {
        &self.album_artist
    }

    pub fn elapsed(&self) -> (elapsed: u64)
        ensures
            elapsed == self.elapsed,
    {
        self.elapsed
    }

    pub fn total_length(&self) -> (total_length: u64)
        ensures
            total_length == self.total_length,
    {
        self.total_length
    }
}

/// The part of the playback status that a text follows.
#[derive(Clone, Copy, PartialEq, Eq, Structural, Debug)]
pub enum StatusField {
    Title,
    AlbumTitle,
    AlbumArtist,
}

impl StatusField {
    /// What `status` says in this field.
    pub open spec fn spec_of(&self, status: &PlaybackStatus) -> String {
        match self {
            StatusField::Title => status.title,
            StatusField::AlbumTitle => status.album_title,
            StatusField::AlbumArtist => status.album_artist,
        }
    }

    /// What `status` says in this field.
    #[verifier::when_used_as_spec(spec_of)]
    pub fn of(&self, status: &PlaybackStatus) -> (text: String)
        ensures
            text == self.spec_of(status),
    {
        match self {
            StatusField::Title => status.title.clone(),
            StatusField::AlbumTitle => status.album_title.clone(),
            StatusField::AlbumArtist => status.album_artist.clone(),
        }
    }
}

/// What the player is asked to do.
#[derive(Debug, PartialEq, Eq)]
pub enum PlayerCommand {
    AddToQueue(Track),
    Play,
    Pause,
    Stop,
}

} // verus!
