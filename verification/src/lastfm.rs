//! What the scrobble service reports, and the partial records it gives.

use crate::text::{opt_chars, str_eq};
use crate::types::{
    PartialAlbum, PartialArtist, PartialTrack, UnprocessedAlbum, UnprocessedArtist,
    UnprocessedTrack,
};
use vstd::prelude::*;
use vstd::std_specs::convert::FromSpecImpl;
use vstd::string::StringExecFns;

verus! {

/// The span of time that a chart covers.
#[derive(Debug, Clone, Copy, PartialEq, Eq, Structural)]
pub enum LastFMPeriod {
    Overall,
    SevenDay,
    OneMonth,
    ThreeMonth,
    SixMonth,
    OneYear,
}

impl LastFMPeriod {
    /// The service's word for the period.
    pub open spec fn word(self) -> Seq<char> {
        match self {
            LastFMPeriod::Overall => "overall"@,
            LastFMPeriod::SevenDay => "7day"@,
            LastFMPeriod::OneMonth => "1month"@,
            LastFMPeriod::ThreeMonth => "3month"@,
            LastFMPeriod::SixMonth => "6month"@,
            LastFMPeriod::OneYear => "12month"@,
        }
    }

    /// The service's word for the period.
    pub fn to_string(&self) -> (r: String)
        ensures
            r@ == self.word(),
    {
        match self {
            LastFMPeriod::Overall => String::from_str("overall"),
            LastFMPeriod::SevenDay => String::from_str("7day"),
            LastFMPeriod::OneMonth => String::from_str("1month"),
            LastFMPeriod::ThreeMonth => String::from_str("3month"),
            LastFMPeriod::SixMonth => String::from_str("6month"),
            LastFMPeriod::OneYear => String::from_str("12month"),
        }
    }
}

/// An artist as the service reports it.
#[derive(Debug, PartialEq, Eq)]
pub struct LastFMArtist {
    pub name: String,
    pub playcount: Option<u32>,
    pub mbid: Option<String>,
    pub url: String,
}

/// A track as the service reports it.
#[derive(Debug, PartialEq, Eq)]
pub struct LastFMTrack {
    pub name: String,
    pub playcount: Option<u32>,
    pub mbid: Option<String>,
    pub url: String,
    pub artist: LastFMArtist,
}

/// An album as the service reports it.
#[derive(Debug, PartialEq, Eq)]
pub struct LastFMAlbum {
    pub name: String,
    pub playcount: Option<u32>,
    pub mbid: Option<String>,
    pub url: String,
    pub artist: LastFMArtist,
}

/// The album of a track that was played of late.
#[derive(Debug, PartialEq, Eq)]
pub struct LastFMRecentAlbum {
    pub name: String,
    pub mbid: Option<String>,
}

impl From<LastFMArtist> for UnprocessedArtist {
    fn from(artist: LastFMArtist) -> (r: UnprocessedArtist) {
        UnprocessedArtist { mbid: artist.mbid, name: artist.name }
    }
}

impl FromSpecImpl<LastFMArtist> for UnprocessedArtist {
    open spec fn obeys_from_spec() -> bool {
        true
    }

    open spec fn from_spec(artist: LastFMArtist) -> UnprocessedArtist {
        UnprocessedArtist { mbid: artist.mbid, name: artist.name }
    }
}

impl From<LastFMTrack> for UnprocessedTrack {
    fn from(track: LastFMTrack) -> (r: UnprocessedTrack) {
        UnprocessedTrack {
            mbid: track.mbid,
            name: track.name,
            artist: Some(UnprocessedArtist { mbid: track.artist.mbid, name: track.artist.name }),
            album: None,
            file: None,
            beatevents: None,
        }
    }
}

impl FromSpecImpl<LastFMTrack> for UnprocessedTrack {
    open spec fn obeys_from_spec() -> bool {
        true
    }

    open spec fn from_spec(track: LastFMTrack) -> UnprocessedTrack {
        UnprocessedTrack {
            mbid: track.mbid,
            name: track.name,
            artist: Some(UnprocessedArtist { mbid: track.artist.mbid, name: track.artist.name }),
            album: None,
            file: None,
            beatevents: None,
        }
    }
}

impl From<LastFMAlbum> for UnprocessedAlbum {
    fn from(album: LastFMAlbum) -> (r: UnprocessedAlbum) {
        UnprocessedAlbum {
            mbid: album.mbid,
            name: album.name,
            artist: Some(UnprocessedArtist { mbid: album.artist.mbid, name: album.artist.name }),
        }
    }
}

impl FromSpecImpl<LastFMAlbum> for UnprocessedAlbum {
    open spec fn obeys_from_spec() -> bool {
        true
    }

    open spec fn from_spec(album: LastFMAlbum) -> UnprocessedAlbum {
        UnprocessedAlbum {
            mbid: album.mbid,
            name: album.name,
            artist: Some(UnprocessedArtist { mbid: album.artist.mbid, name: album.artist.name }),
        }
    }
}

/// A track among those played of late.
#[derive(Debug, PartialEq, Eq)]
pub struct RecentTrack {
    pub track: LastFMTrack,
    pub album: LastFMRecentAlbum,
    /// What the service says under "now playing", if anything.
    pub nowplaying: Option<String>,
}

/// The track is marked as the one that plays now.
pub open spec fn plays_now(t: RecentTrack) -> bool {
    t.nowplaying matches Some(mark) && mark@ == "true"@
}

/// The first track from `from` on that plays now.
pub open spec fn first_playing_from(recent: Seq<RecentTrack>, from: int) -> Option<int>
    decreases recent.len() - from,
{
    if from < 0 || from >= recent.len() {
        None
    } else if plays_now(recent[from]) {
        Some(from)
    } else {
        first_playing_from(recent, from + 1)
    }
}

/// The partial record of a track that was played of late: the track with its
/// artist as the service reports them, and the album by its name and id.
pub open spec fn played_track(t: RecentTrack) -> PartialTrack {
    PartialTrack {
        name: t.track.name@,
        catalog_id: opt_chars(t.track.mbid),
        artist: Some(
            PartialArtist { name: t.track.artist.name@, catalog_id: opt_chars(t.track.artist.mbid) },
        ),
        album: Some(
            PartialAlbum { name: t.album.name@, catalog_id: opt_chars(t.album.mbid), artist: None },
        ),
        file_path: None,
        beat_timeline: None,
    }
}

/// The track that plays now, as a partial record: the first of `recent` that
/// is marked so, `None` if none is.
pub fn now_playing(recent: Vec<RecentTrack>) -> (r: Option<UnprocessedTrack>)
    ensures
        match first_playing_from(recent@, 0) {
            Some(i) => r matches Some(t) && t@ == played_track(recent@[i]),
            None => r is None,
        },
{
    let mut tracks = recent;
    let mut i: usize = 0;
    while i < tracks.len()
        invariant
            i <= tracks@.len(),
            tracks@ == recent@,
            first_playing_from(recent@, 0) == first_playing_from(recent@, i as int),
        decreases tracks@.len() - i,
    {
        let playing = match &tracks[i].nowplaying {
            Some(mark) => str_eq(mark.as_str(), "true"),
            None => false,
        };
        if playing {
            let t = tracks.swap_remove(i);
            return Some(
                UnprocessedTrack {
                    mbid: t.track.mbid,
                    name: t.track.name,
                    artist: Some(
                        UnprocessedArtist { mbid: t.track.artist.mbid, name: t.track.artist.name },
                    ),
                    album: Some(
                        UnprocessedAlbum { name: t.album.name, mbid: t.album.mbid, artist: None },
                    ),
                    file: None,
                    beatevents: None,
                },
            );
        }
        i += 1;
    }
    None
}

} // verus!
