//! Storing tracks: how a track is looked for in storage, what is written when
//! it is new, and what it looks like once it is stored.
//!
//! Storage itself is with the caller. It is asked for a track by its name and
//! by the start of its artist's name, and it answers each row it stores with
//! the row's id.

use crate::metadata::CoverArt;
use crate::types::{
    opt_artist, opt_cover, Album, Artist, PartialArtist, PartialTrack, ResolvedAlbum,
    ResolvedArtist, ResolvedTrack, Track, UnprocessedAlbum, UnprocessedArtist, UnprocessedTrack,
};
use crate::text::opt_chars;
use vstd::prelude::*;
use vstd::string::StringExecFns;

verus! {

/// Why a track was not stored.
#[derive(Debug, Clone, Copy, PartialEq, Eq, Structural)]
pub enum UpsertError {
    /// No artist is known for the track, and no track is stored without one.
    NoArtist,
}

/// The letter `c`, small or capital, is `lower`, a small letter.
pub open spec fn is_letter(c: char, lower: char) -> bool {
    c == lower || c as int + 32 == lower as int
}

/// The short mark of a guest artist, " feat.", in small or capital letters,
/// stands in `s` at position `at`.
pub open spec fn feat_at(s: Seq<char>, at: int) -> bool {
    &&& 0 <= at
    &&& at + 6 <= s.len()
    &&& s[at] == ' '
    &&& is_letter(s[at + 1], 'f')
    &&& is_letter(s[at + 2], 'e')
    &&& is_letter(s[at + 3], 'a')
    &&& is_letter(s[at + 4], 't')
    &&& s[at + 5] == '.'
}

/// The long mark of a guest artist, " featuring ", in small or capital
/// letters, stands in `s` at position `at`.
pub open spec fn featuring_at(s: Seq<char>, at: int) -> bool {
    &&& 0 <= at
    &&& at + 11 <= s.len()
    &&& s[at] == ' '
    &&& is_letter(s[at + 1], 'f')
    &&& is_letter(s[at + 2], 'e')
    &&& is_letter(s[at + 3], 'a')
    &&& is_letter(s[at + 4], 't')
    &&& is_letter(s[at + 5], 'u')
    &&& is_letter(s[at + 6], 'r')
    &&& is_letter(s[at + 7], 'i')
    &&& is_letter(s[at + 8], 'n')
    &&& is_letter(s[at + 9], 'g')
    &&& s[at + 10] == ' '
}

/// A mark of a guest artist stands in `s` at position `at`.
pub open spec fn guest_mark_at(s: Seq<char>, at: int) -> bool {
    feat_at(s, at) || featuring_at(s, at)
}

/// The first position from `from` on at which a mark of a guest artist
/// stands, or the length of `s` where none stands anywhere.
pub open spec fn guest_mark_from(s: Seq<char>, from: int) -> int
    decreases s.len() - from,
{
    if from < 0 || from >= s.len() {
        s.len() as int
    } else if guest_mark_at(s, from) {
        from
    } else {
        guest_mark_from(s, from + 1)
    }
}

/// The name of the artist in the lead: `name` up to the first mark of a
/// guest artist.
pub open spec fn lead_artist(name: Seq<char>) -> Seq<char> {
    name.subrange(0, guest_mark_from(name, 0))
}

/// The pattern that storage is asked for an artist with: the lead artist and
/// anything behind it.
pub open spec fn artist_like(name: Seq<char>) -> Seq<char> {
    lead_artist(name) + "%"@
}

/// Whether the character of `name` at `at` is the letter `lower`, small or
/// capital; `upper` is the capital letter.
fn letter_at(name: &str, at: usize, lower: char, upper: char) -> (r: bool)
    requires
        at < name@.len(),
        upper as int + 32 == lower as int,
    ensures
        r == is_letter(name@[at as int], lower),
{
    let c = name.get_char(at);
    c == lower || c == upper
}

/// Whether the characters of `name` from `at` on are " feat", in small or
/// capital letters.
fn is_feat_word_at(name: &str, len: usize, at: usize) -> (r: bool)
    requires
        len == name@.len(),
        at < len,
        len - at >= 5,
    ensures
        r == (name@[at as int] == ' ' && is_letter(name@[at + 1], 'f') && is_letter(
            name@[at + 2],
            'e',
        ) && is_letter(name@[at + 3], 'a') && is_letter(name@[at + 4], 't')),
{
    name.get_char(at) == ' ' && letter_at(name, at + 1, 'f', 'F') && letter_at(
        name,
        at + 2,
        'e',
        'E',
    ) && letter_at(name, at + 3, 'a', 'A') && letter_at(name, at + 4, 't', 'T')
}

/// Whether a mark of a guest artist stands in `name` at `at`.
fn is_guest_mark_at(name: &str, len: usize, at: usize) -> (r: bool)
    requires
        len == name@.len(),
        at < len,
    ensures
        r == guest_mark_at(name@, at as int),
{
    if len - at < 6 {
        return false;
    }
    if !is_feat_word_at(name, len, at) {
        return false;
    }
    if name.get_char(at + 5) == '.' {
        return true;
    }
    if len - at < 11 {
        return false;
    }
    letter_at(name, at + 5, 'u', 'U') && letter_at(name, at + 6, 'r', 'R') && letter_at(
        name,
        at + 7,
        'i',
        'I',
    ) && letter_at(name, at + 8, 'n', 'N') && letter_at(name, at + 9, 'g', 'G') && name.get_char(
        at + 10,
    ) == ' '
}

/// The pattern that storage is asked for the artist `name` with.
pub fn artist_name_like(name: &str) -> (r: String)
    ensures
        r@ == artist_like(name@),
{
    let len = name.unicode_len();
    let mut at: usize = 0;
    while at < len && !is_guest_mark_at(name, len, at)
        invariant
            at <= len,
            len == name@.len(),
            guest_mark_from(name@, 0) == guest_mark_from(name@, at as int),
        decreases len - at,
    {
        at += 1;
    }
    String::from_str(name.substring_char(0, at)).concat("%")
}

/// What storage is asked for to find a track that may be stored already.
#[derive(Debug, PartialEq, Eq)]
pub struct TrackQuery {
    /// The name of the track; case is not to count.
    pub name: String,
    /// The pattern for the name of the artist, if the track has one; case is
    /// not to count.
    pub artist_like: Option<String>,
}

/// What storage is asked for to find `track`.
pub fn track_query(track: &UnprocessedTrack) -> (r: TrackQuery)
    ensures
        r.name@ == track@.name,
        opt_chars(r.artist_like) == match track@.artist {
            Some(a) => Some(artist_like(a.name)),
            None => None,
        },
{
    let artist_like = match &track.artist {
        Some(a) => Some(artist_name_like(a.name.as_str())),
        None => None,
    };
    TrackQuery { name: track.name.clone(), artist_like }
}

/// What to do with a track after storage was asked for it.
#[derive(Debug, PartialEq, Eq)]
pub enum UpsertDecision {
    /// The track is stored: it is the result as it stands, and is neither
    /// enriched nor analysed again.
    Stored(Track),
    /// The track is new: it goes through the lookup pipeline and is stored
    /// then.
    Enrich(UnprocessedTrack),
}

/// Decides what to do with `track` when storage has answered with `stored`.
pub fn after_query(stored: Option<Track>, track: UnprocessedTrack) -> (r: UpsertDecision)
    ensures
        r == match stored {
            Some(t) => UpsertDecision::Stored(t),
            None => UpsertDecision::Enrich(track),
        },
{
    match stored {
        Some(t) => UpsertDecision::Stored(t),
        None => UpsertDecision::Enrich(track),
    }
}

/// The rows that are written for a new track. Each is written so that a row
/// with the same catalog id takes the new name and keeps its id.
#[derive(Debug, PartialEq, Eq)]
pub struct StoragePlan {
    /// The artist of the track.
    pub artist: UnprocessedArtist,
    /// The artist of the album, where the track has an album that names one.
    pub album_artist: Option<UnprocessedArtist>,
    /// The name and the catalog id of the album, where the track has one. The
    /// album is filed under the artist of the track.
    pub album: Option<(String, Option<String>)>,
}

/// The rows to write for `track`. A track without an artist is not stored.
pub fn storage_plan(track: &UnprocessedTrack) -> (r: Result<StoragePlan, UpsertError>)
    ensures
        match track@.artist {
            None => r == Err::<StoragePlan, UpsertError>(UpsertError::NoArtist),
            Some(artist) => r matches Ok(plan) && plan.artist@ == artist && opt_artist(
                plan.album_artist,
            ) == (match track@.album {
                Some(album) => album.artist,
                None => None,
            }) && (match track@.album {
                Some(album) => plan.album matches Some(row) && row.0@ == album.name && opt_chars(
                    row.1,
                ) == album.catalog_id,
                None => plan.album is None,
            }),
        },
{
    let artist = match &track.artist {
        Some(a) => a.clone(),
        None => {
            return Err(UpsertError::NoArtist);
        },
    };
    let (album_artist, album) = match &track.album {
        Some(album) => {
            let album_artist = match &album.artist {
                Some(a) => Some(a.clone()),
                None => None,
            };
            (album_artist, Some((album.name.clone(), album.mbid.clone())))
        },
        None => (None, None),
    };
    Ok(StoragePlan { artist, album_artist, album })
}

/// The ids that storage gave to the rows of a track.
#[derive(Debug, Clone, Copy, PartialEq, Eq, Structural)]
pub struct StoredIds {
    pub artist: i64,
    /// `None` where no row was written for the artist of the album, or
    /// writing it failed.
    pub album_artist: Option<i64>,
    /// `None` where no row was written for the album, or writing it failed.
    pub album: Option<i64>,
    pub track: i64,
}

/// The album of a stored track: the album of `track` under the id it was
/// given, filed under its own artist if that was stored and else under
/// `artist`, the artist of the track. A track has no album where it named
/// none or the album was not stored.
pub open spec fn resolved_album(track: PartialTrack, ids: StoredIds, artist: ResolvedArtist)
    -> Option<ResolvedAlbum> {
    match (track.album, ids.album) {
        (Some(album), Some(id)) => Some(
            ResolvedAlbum {
                id,
                name: album.name,
                catalog_id: album.catalog_id,
                artist: match (album.artist, ids.album_artist) {
                    (Some(a), Some(id)) => ResolvedArtist {
                        id,
                        name: a.name,
                        catalog_id: a.catalog_id,
                    },
                    _ => artist,
                },
            },
        ),
        _ => None,
    }
}

/// The track `track` by `artist` as it is stored under `ids`.
pub open spec fn resolved_track(
    track: PartialTrack,
    artist: PartialArtist,
    ids: StoredIds,
    cover: Option<CoverArt>,
) -> ResolvedTrack {
    let resolved_artist = ResolvedArtist {
        id: ids.artist,
        name: artist.name,
        catalog_id: artist.catalog_id,
    };
    ResolvedTrack {
        id: ids.track,
        name: track.name,
        catalog_id: track.catalog_id,
        beat_timeline: match track.beat_timeline {
            Some(b) => b,
            None => Seq::empty(),
        },
        artist: resolved_artist,
        album: resolved_album(track, ids, resolved_artist),
        file_path: track.file_path,
        cover: opt_cover(cover),
    }
}

/// The stored form of `track`, whose rows storage has given the ids `ids`.
pub fn resolve_track(track: UnprocessedTrack, ids: StoredIds, cover: Option<CoverArt>) -> (r:
    Result<Track, UpsertError>)
    ensures
        match track@.artist {
            None => r == Err::<Track, UpsertError>(UpsertError::NoArtist),
            Some(artist) => r matches Ok(t) && t@ == resolved_track(track@, artist, ids, cover),
        },
{
    let mut track = track;
    let artist = match track.artist.take() {
        Some(a) => Artist::new(a, ids.artist),
        None => {
            return Err(UpsertError::NoArtist);
        },
    };
    let album = match track.album.take() {
        Some(mut album) => match ids.album {
            Some(id) => {
                let album_artist = match album.artist.take() {
                    Some(a) => match ids.album_artist {
                        Some(id) => Artist::new(a, id),
                        None => artist.clone(),
                    },
                    None => artist.clone(),
                };
                Some(Album::new(album, id, album_artist))
            },
            None => None,
        },
        None => None,
    };
    let resolved = Track::new(track, ids.track, artist, album, cover);
    Ok(resolved)
}

/// The analysis to schedule for a track that was stored: its file and its
/// id, or nothing where no file was found for it.
pub fn analysis_job(track: &Track) -> (r: Option<(String, i64)>)
    ensures
        match track@.file_path {
            Some(path) => r matches Some(job) && job.0@ == path && job.1 == track.id,
            None => r is None,
        },
{
    match &track.file {
        Some(path) => Some((path.clone(), track.id)),
        None => None,
    }
}

} // verus!
