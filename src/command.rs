//! The values that flow through the bus.
use vstd::prelude::*;

verus! {

/// The largest volume, in millionths: a volume is a fraction in `[0, 1]`.
pub const VOLUME_FULL: u32 = 1000000;

/// A volume, held as millionths of the full volume.
#[derive(Clone, Copy, Debug, PartialEq, Eq, Structural)]
pub struct Volume {
    pub millionths: u32,
}

impl Volume {
    /// A volume lies within `[0, 1]`.
    pub open spec fn wf(self) -> bool {
        self.millionths <= VOLUME_FULL
    }

    /// The volume for `millionths` of the full volume, or `None` when that is
    /// more than the full volume.
    pub fn from_millionths(millionths: u32) -> (r: Option<Volume>)
        ensures
            millionths <= VOLUME_FULL ==> r == Some(Volume { millionths }),
            millionths > VOLUME_FULL ==> r is None,
    {
        if millionths <= VOLUME_FULL {
            Some(Volume { millionths })
        } else {
            None
        }
    }

    /// The volume in whole percent, rounded towards zero.
    pub fn percent(self) -> (r: u32)
        ensures
            r == self.millionths / 10000,
    {
        self.millionths / 10000
    }
}

/// The playback state of the media source; positions are in milliseconds.
#[derive(Clone, Copy, Debug, PartialEq, Eq, Structural)]
pub enum PlaybackState {
    Stopped,
    Paused { progress: Option<u64> },
    Playing { progress: Option<u64> },
}

impl PlaybackState {
    /// The word that names the state.
    pub fn display(&self) -> (r: &'static str)
        ensures
            r@ == playback_word(*self),
    {
        match self {
            PlaybackState::Stopped => "stopped",
            PlaybackState::Paused { .. } => "paused",
            PlaybackState::Playing { .. } => "playing",
        }
    }
}

pub open spec fn playback_word(p: PlaybackState) -> Seq<char> {
    match p {
        PlaybackState::Stopped => "stopped"@,
        PlaybackState::Paused { .. } => "paused"@,
        PlaybackState::Playing { .. } => "playing"@,
    }
}

/// What is known of the track that is playing; the duration is in
/// milliseconds and the cover is a locator, never a raw platform path.
#[derive(Clone, Debug)]
pub struct OwnedMetadata {
    pub title: Option<String>,
    pub album: Option<String>,
    pub artist: Option<String>,
    pub cover_url: Option<String>,
    pub duration: Option<u64>,
}

/// The direction of a seek.
#[derive(Clone, Copy, Debug, PartialEq, Eq, Structural)]
pub enum SeekDirection {
    Forward,
    Backward,
}

/// An event of an operating-system control surface (a media key, a
/// now-playing widget).  The bus carries it without reading it.
#[derive(Clone, Debug)]
pub enum ControlEvent {
    Play,
    Pause,
    Toggle,
    Next,
    Previous,
    Stop,
    /// Seek by the configured amount.
    Seek(SeekDirection),
    /// Seek by a number of milliseconds.
    SeekBy(SeekDirection, u64),
    /// Jump to a position, in milliseconds.
    SetPosition(u64),
    SetVolume(Volume),
    OpenUri(String),
    Raise,
    Quit,
}

/// What flows through the bus.
#[derive(Clone, Debug)]
pub enum Command {
    /// Detach every listener, then stop the bus.
    Exit,
    MetadataChanged(OwnedMetadata),
    PlaybackChanged(PlaybackState),
    VolumeChanged(Volume),
    /// Attach (`true`) or detach (`false`) every listener.
    AttachmentRequested(bool),
    /// Deliver the last known metadata, playback and volume again.
    RefreshRequested,
    ExternalControlEvent(ControlEvent),
}

} // verus!
