//! The values that pass between an assistant's parts.

use vstd::prelude::*;

verus! {

/// Something the user said, with enough identity to tell it apart from the same
/// words said again a minute later.
#[derive(Debug, Clone, PartialEq, Eq)]
pub struct Utterance {
    /// Identifier unique within one source.
    pub id: String,
    pub text: String,
    /// Milliseconds since the Unix epoch.
    pub timestamp_ms: u64,
}

/// What an [`Utterance`] says.
pub struct UtteranceView {
    pub id: Seq<char>,
    pub text: Seq<char>,
    pub timestamp_ms: int,
}

impl View for Utterance {
    type V = UtteranceView;

    open spec fn view(&self) -> UtteranceView {
        UtteranceView { id: self.id@, text: self.text@, timestamp_ms: self.timestamp_ms as int }
    }
}

impl Utterance {
    pub fn new(id: &str, text: &str, timestamp_ms: u64) -> (r: Self)
        ensures
            r@ == (UtteranceView { id: id@, text: text@, timestamp_ms: timestamp_ms as int }),
    {
        Self { id: id.to_owned(), text: text.to_owned(), timestamp_ms }
    }
}

/// One piece of music, as far as anything outside its source needs to know.
#[derive(Debug, Clone, PartialEq, Eq)]
pub struct Track {
    /// Identifier meaningful only to the source that produced it.
    pub id: String,
    pub title: String,
    /// Best-known artist, empty when the source does not know.
    pub artist: String,
    /// Name of the source this came from.
    pub source: String,
    pub duration_ms: Option<u64>,
}

/// What a [`Track`] says.
pub struct TrackView {
    pub id: Seq<char>,
    pub title: Seq<char>,
    pub artist: Seq<char>,
    pub source: Seq<char>,
    pub duration_ms: Option<u64>,
}

impl View for Track {
    type V = TrackView;

    open spec fn view(&self) -> TrackView {
        TrackView {
            id: self.id@,
            title: self.title@,
            artist: self.artist@,
            source: self.source@,
            duration_ms: self.duration_ms,
        }
    }
}

impl Track {
    /// The same track again.
    pub fn copy(&self) -> (r: Track)
        ensures
            r@ == self@,
    {
        Track {
            id: self.id.clone(),
            title: self.title.clone(),
            artist: self.artist.clone(),
            source: self.source.clone(),
            duration_ms: self.duration_ms,
        }
    }
}

/// What a list of tracks says.
pub open spec fn track_views(tracks: Seq<Track>) -> Seq<TrackView> {
    tracks.map_values(|t: Track| t@)
}

/// How to actually play a [`Track`].
#[derive(Debug, Clone, PartialEq, Eq)]
pub enum Playable {
    /// A URL the device fetches itself, so it must be reachable from the device's
    /// network.
    Url(String),
    /// A file on this machine. A URL-only device needs it served over HTTP first.
    LocalFile(String),
}

/// What a [`Playable`] says.
pub enum PlayableView {
    Url(Seq<char>),
    LocalFile(Seq<char>),
}

impl View for Playable {
    type V = PlayableView;

    open spec fn view(&self) -> PlayableView {
        match *self {
            Playable::Url(url) => PlayableView::Url(url@),
            Playable::LocalFile(path) => PlayableView::LocalFile(path@),
        }
    }
}

/// What is said of an utterance, a track and something playable is what each holds, field
/// by field, and a list of tracks says what each of them does, in order.
pub proof fn values_show_their_fields(
    utterance: Utterance,
    track: Track,
    playable: Playable,
    tracks: Seq<Track>,
)
    ensures
        utterance@.id == utterance.id@,
        utterance@.text == utterance.text@,
        utterance@.timestamp_ms == utterance.timestamp_ms,
        track@.id == track.id@,
        track@.title == track.title@,
        track@.artist == track.artist@,
        track@.source == track.source@,
        track@.duration_ms == track.duration_ms,
        match playable {
            Playable::Url(url) => playable@ == PlayableView::Url(url@),
            Playable::LocalFile(path) => playable@ == PlayableView::LocalFile(path@),
        },
        track_views(tracks).len() == tracks.len(),
        forall|i: int| 0 <= i < tracks.len() ==> #[trigger] track_views(tracks)[i] == tracks[i]@,
{
}

} // verus!
