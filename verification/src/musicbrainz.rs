//! The remote catalog: what it answers, and what its answers do to a track.
//!
//! The request itself is made by the caller. This module says what to ask
//! for, how the status of an answer is read, and how a track changes by what
//! came back.

use crate::pipeline::{LookupError, MusicDataSource};
use crate::text::{lowercase, starts_with, to_lowercase};
use crate::types::{
    PartialAlbum, PartialArtist, PartialTrack, UnprocessedAlbum, UnprocessedArtist,
    UnprocessedTrack,
};
use vstd::prelude::*;
use vstd::string::StringExecFns;

verus! {

/// Why the catalog gave no answer.
#[derive(Debug, PartialEq, Eq)]
pub enum MBError {
    LookupFailed(String),
    RateLimited,
    NotFound,
}

impl MBError {
    /// The error in words.
    pub open spec fn message(self) -> Seq<char> {
        match self {
            MBError::LookupFailed(e) => "Lookup failed: "@ + e@,
            MBError::RateLimited => "Rate limited"@,
            MBError::NotFound => "Not found"@,
        }
    }

    /// The error in words.
    pub fn to_string(&self) -> (r: String)
        ensures
            r@ == self.message(),
    {
        match self {
            MBError::LookupFailed(e) => String::from_str("Lookup failed: ").concat(e.as_str()),
            MBError::RateLimited => String::from_str("Rate limited"),
            MBError::NotFound => String::from_str("Not found"),
        }
    }
}

/// A recording as the catalog describes it.
#[derive(Debug, PartialEq, Eq)]
pub struct MBTrack {
    pub id: String,
    pub title: String,
    pub length: u32,
    pub artist_credit: Vec<MBArtistCredit>,
    pub releases: Vec<MBRelease>,
}

/// One of the artists a recording is credited to.
#[derive(Debug, PartialEq, Eq)]
pub struct MBArtistCredit {
    pub name: String,
    pub joinphrase: Option<String>,
    pub artist: MBArtist,
}

/// An artist as the catalog describes it.
#[derive(Debug, PartialEq, Eq)]
pub struct MBArtist {
    pub id: String,
    pub name: String,
    pub sort_name: String,
}

/// A release that a recording appears on.
#[derive(Debug, PartialEq, Eq)]
pub struct MBRelease {
    pub id: String,
    pub title: String,
    pub quality: String,
    pub status: String,
    pub packaging_id: String,
    pub country: String,
}

/// A text field that the catalog left empty counts as missing.
pub fn non_empty_str(o: Option<String>) -> (r: Option<String>)
    ensures
        r == match o {
            Some(s) => if s@.len() == 0 {
                None
            } else {
                Some(s)
            },
            None => None,
        },
{
    match o {
        Some(s) => {
            if s.as_str().unicode_len() == 0 {
                None
            } else {
                Some(s)
            }
        },
        None => None,
    }
}

/// What to ask for to get the recording `mbid` with its artists and
/// releases.
pub open spec fn recording_query_text(mbid: Seq<char>) -> Seq<char> {
    mbid + "?inc=artists+releases"@
}

/// The address of a request of the kind `req_type`.
pub open spec fn request_url_text(req_type: Seq<char>, query: Seq<char>) -> Seq<char> {
    "https://musicbrainz.org/ws/2/"@ + req_type + "/"@ + query + "&fmt=json"@
}

/// What to ask for to get the recording `mbid` with its artists and
/// releases.
pub fn recording_query(mbid: &str) -> (r: String)
    ensures
        r@ == recording_query_text(mbid@),
{
    String::from_str(mbid).concat("?inc=artists+releases")
}

/// The address of a request of the kind `req_type`.
pub fn request_url(req_type: &str, query: &str) -> (r: String)
    ensures
        r@ == request_url_text(req_type@, query@),
{
    String::from_str("https://musicbrainz.org/ws/2/").concat(req_type).concat("/").concat(
        query,
    ).concat("&fmt=json")
}

/// Reads the status of an answer: 200 is an answer to go on with, 404 says
/// that the catalog does not know the id, 429 and 503 that it has too many
/// requests or is busy; any other status is a failure, reported with
/// `status_text`.
pub fn check_status(status: u16, status_text: &str) -> (r: Result<(), MBError>)
    ensures
        status == 200 ==> r is Ok,
        status == 404 ==> r == Err::<(), MBError>(MBError::NotFound),
        status == 429 || status == 503 ==> r == Err::<(), MBError>(MBError::RateLimited),
        status != 200 && status != 404 && status != 429 && status != 503 ==> (r matches Err(
            MBError::LookupFailed(detail),
        ) && detail@ == "HTTP status code: "@ + status_text@),
{
    if status == 200 {
        Ok(())
    } else if status == 404 {
        Err(MBError::NotFound)
    } else if status == 429 || status == 503 {
        Err(MBError::RateLimited)
    } else {
        Err(MBError::LookupFailed(String::from_str("HTTP status code: ").concat(status_text)))
    }
}

/// The first name from `from` on that, case aside, `known` starts with.
pub open spec fn first_prefix_from(known: Seq<char>, names: Seq<Seq<char>>, from: int) -> Option<
    int,
>
    decreases names.len() - from,
{
    if from < 0 || from >= names.len() {
        None
    } else if lowercase(names[from]).is_prefix_of(lowercase(known)) {
        Some(from)
    } else {
        first_prefix_from(known, names, from + 1)
    }
}

/// The candidate that goes with the name `known`: the first whose name,
/// case aside, `known` starts with, or else the first of all.
pub open spec fn fitting(known: Seq<char>, names: Seq<Seq<char>>) -> Option<int> {
    match first_prefix_from(known, names, 0) {
        Some(i) => Some(i),
        None => if names.len() > 0 {
            Some(0)
        } else {
            None
        },
    }
}

/// The names of the credited artists.
pub open spec fn credit_names(credits: Seq<MBArtistCredit>) -> Seq<Seq<char>> {
    Seq::new(credits.len(), |i: int| credits[i].artist.name@)
}

/// The titles of the releases.
pub open spec fn release_titles(releases: Seq<MBRelease>) -> Seq<Seq<char>> {
    Seq::new(releases.len(), |i: int| releases[i].title@)
}

/// Picks the candidate that goes with the name `known`.
fn pick_fitting(known: &str, names: &Vec<String>) -> (r: Option<usize>)
    ensures
        match r {
            Some(i) => fitting(known@, Seq::new(names@.len(), |k: int| names@[k]@)) == Some(
                i as int,
            ) && i < names@.len(),
            None => fitting(known@, Seq::new(names@.len(), |k: int| names@[k]@)) is None,
        },
{
    let ghost views = Seq::new(names@.len(), |k: int| names@[k]@);
    let known_lower = to_lowercase(known);
    let mut i: usize = 0;
    while i < names.len()
        invariant
            i <= names@.len(),
            known_lower@ == lowercase(known@),
            views == Seq::new(names@.len(), |k: int| names@[k]@),
            first_prefix_from(known@, views, 0) == first_prefix_from(known@, views, i as int),
        decreases names@.len() - i,
    {
        let name_lower = to_lowercase(names[i].as_str());
        if starts_with(known_lower.as_str(), name_lower.as_str()) {
            return Some(i);
        }
        i += 1;
    }
    if names.len() > 0 {
        Some(0)
    } else {
        None
    }
}

/// What the catalog's recording says of a track of which `known` is known:
/// its title and id, and, where an artist or album is known already, the
/// credited artist or release that goes with its name. Of an artist or album
/// that is not known yet the catalog's answer is not taken.
pub open spec fn catalog_track(found: MBTrack, known: PartialTrack) -> PartialTrack {
    PartialTrack {
        name: found.title@,
        catalog_id: Some(found.id@),
        artist: match known.artist {
            Some(a) => match fitting(a.name, credit_names(found.artist_credit@)) {
                Some(i) => Some(
                    PartialArtist {
                        name: found.artist_credit@[i].artist.name@,
                        catalog_id: Some(found.artist_credit@[i].artist.id@),
                    },
                ),
                None => None,
            },
            None => None,
        },
        album: match known.album {
            Some(a) => match fitting(a.name, release_titles(found.releases@)) {
                Some(i) => Some(
                    PartialAlbum {
                        name: found.releases@[i].title@,
                        catalog_id: Some(found.releases@[i].id@),
                        artist: None,
                    },
                ),
                None => None,
            },
            None => None,
        },
        file_path: None,
        beat_timeline: None,
    }
}

/// The track after the catalog's answer. A recording is merged with what was
/// known, as the preferred side if `replace` is set. An id that the catalog
/// does not know was wrong: the track goes on without it.
pub open spec fn after_answer(known: PartialTrack, found: MBTrack, replace: bool) -> PartialTrack {
    if replace {
        catalog_track(found, known).merge(known)
    } else {
        known.merge(catalog_track(found, known))
    }
}

/// Looks tracks up in the catalog by their catalog id.
#[derive(Debug, Clone, Copy, PartialEq, Eq, Structural)]
pub struct MusicBrainzLookupSource {}

impl MusicBrainzLookupSource {
    pub fn new() -> (r: MusicBrainzLookupSource) {
        MusicBrainzLookupSource {  }
    }

    /// The id to ask the catalog for: that of the track, which it must have.
    pub fn catalog_id(&self, track: &UnprocessedTrack) -> (r: Result<String, LookupError>)
        ensures
            match track@.catalog_id {
                Some(id) => r matches Ok(s) && s@ == id,
                None => r == Err::<String, LookupError>(LookupError::MissingId),
            },
    {
        match &track.mbid {
            Some(id) => Ok(id.clone()),
            None => Err(LookupError::MissingId),
        }
    }

    /// The artist of the recording that goes with the artist known already.
    fn fitting_artist(known: &UnprocessedArtist, found: &MBTrack) -> (r: Option<UnprocessedArtist>)
        ensures
            match fitting(known@.name, credit_names(found.artist_credit@)) {
                Some(i) => r matches Some(a) && a@ == (PartialArtist {
                    name: found.artist_credit@[i].artist.name@,
                    catalog_id: Some(found.artist_credit@[i].artist.id@),
                }),
                None => r is None,
            },
    {
        let mut names: Vec<String> = Vec::new();
        let mut i: usize = 0;
        while i < found.artist_credit.len()
            invariant
                i <= found.artist_credit@.len(),
                names@.len() == i,
                forall|k: int| 0 <= k < i ==> (#[trigger] names@[k])@
                    == found.artist_credit@[k].artist.name@,
            decreases found.artist_credit@.len() - i,
        {
            names.push(found.artist_credit[i].artist.name.clone());
            i += 1;
        }
        assert(Seq::new(names@.len(), |k: int| names@[k]@) =~= credit_names(found.artist_credit@));
        match pick_fitting(known.name.as_str(), &names) {
            Some(i) => Some(
                UnprocessedArtist {
                    name: found.artist_credit[i].artist.name.clone(),
                    mbid: Some(found.artist_credit[i].artist.id.clone()),
                },
            ),
            None => None,
        }
    }

    /// The release of the recording that goes with the album known already.
    fn fitting_release(known: &UnprocessedAlbum, found: &MBTrack) -> (r: Option<UnprocessedAlbum>)
        ensures
            match fitting(known@.name, release_titles(found.releases@)) {
                Some(i) => r matches Some(a) && a@ == (PartialAlbum {
                    name: found.releases@[i].title@,
                    catalog_id: Some(found.releases@[i].id@),
                    artist: None,
                }),
                None => r is None,
            },
    {
        let mut titles: Vec<String> = Vec::new();
        let mut i: usize = 0;
        while i < found.releases.len()
            invariant
                i <= found.releases@.len(),
                titles@.len() == i,
                forall|k: int| 0 <= k < i ==> (#[trigger] titles@[k])@ == found.releases@[k].title@,
            decreases found.releases@.len() - i,
        {
            titles.push(found.releases[i].title.clone());
            i += 1;
        }
        assert(Seq::new(titles@.len(), |k: int| titles@[k]@) =~= release_titles(found.releases@));
        match pick_fitting(known.name.as_str(), &titles) {
            Some(i) => Some(
                UnprocessedAlbum {
                    name: found.releases[i].title.clone(),
                    mbid: Some(found.releases[i].id.clone()),
                    artist: None,
                },
            ),
            None => None,
        }
    }

    /// The track after the catalog has answered the request for its id. A
    /// track without a catalog id is refused, whatever the answer is said to
    /// be: there was nothing to ask by. A recording is merged with what was
    /// known. Where the catalog does not know the id, the track goes on
    /// without it. Any other failure is the failure of the lookup, and the
    /// track is not handed back.
    pub fn lookup_track(
        &self,
        track: UnprocessedTrack,
        response: Result<MBTrack, MBError>,
        replace: bool,
    ) -> (r: Result<UnprocessedTrack, LookupError>)
        ensures
            track@.catalog_id is None ==> r == Err::<UnprocessedTrack, LookupError>(
                LookupError::MissingId,
            ),
            track@.catalog_id is Some ==> match response {
                Ok(found) => r matches Ok(t) && t@ == after_answer(track@, found, replace),
                Err(MBError::NotFound) => r matches Ok(t) && t@ == (PartialTrack {
                    catalog_id: None,
                    ..track@
                }),
                Err(MBError::RateLimited) => r == Err::<UnprocessedTrack, LookupError>(
                    LookupError::RateLimited,
                ),
                Err(MBError::LookupFailed(detail)) => r matches Err(LookupError::LookupFailed(e))
                    && e@ == detail@,
            },
    {
        if track.mbid.is_none() {
            return Err(LookupError::MissingId);
        }
        match response {
            Ok(found) => {
                let artist = match &track.artist {
                    Some(known) => Self::fitting_artist(known, &found),
                    None => None,
                };
                let album = match &track.album {
                    Some(known) => Self::fitting_release(known, &found),
                    None => None,
                };
                let mb_track = UnprocessedTrack {
                    mbid: Some(found.id.clone()),
                    name: found.title.clone(),
                    artist,
                    album,
                    beatevents: None,
                    file: None,
                };
                if replace {
                    Ok(mb_track.merge(track))
                } else {
                    Ok(track.merge(mb_track))
                }
            },
            Err(MBError::NotFound) => {
                let mut track = track;
                track.mbid = None;
                Ok(track)
            },
            Err(MBError::RateLimited) => Err(LookupError::RateLimited),
            Err(MBError::LookupFailed(detail)) => Err(LookupError::LookupFailed(detail)),
        }
    }
}

/// Is to look tracks up in the catalog by their name; it cannot do so yet.
#[derive(Debug, Clone, Copy, PartialEq, Eq, Structural)]
pub struct MusicBrainzSearchSource {}

impl MusicBrainzSearchSource {
    pub fn new() -> (r: MusicBrainzSearchSource) {
        MusicBrainzSearchSource {  }
    }
}

impl MusicDataSource for MusicBrainzSearchSource {
    /// The source answers every lookup with a failure.
    open spec fn may_give(
        &self,
        track: PartialTrack,
        replace: bool,
        outcome: Option<PartialTrack>,
    ) -> bool {
        outcome is None
    }

    /// Fails for every track.
    fn lookup_track(&self, track: UnprocessedTrack, replace: bool) -> (r: Result<
        UnprocessedTrack,
        LookupError,
    >)
        ensures
            r == Err::<UnprocessedTrack, LookupError>(LookupError::Unimplemented),
    {
        Err(LookupError::Unimplemented)
    }
}

} // verus!
