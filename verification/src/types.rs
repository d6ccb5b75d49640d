//! Partial and resolved records of artists, albums and tracks.
//!
//! A partial record knows some of its fields and may lack others. Two partial
//! records of one kind merge into one, the left operand winning wherever both
//! know a field. A resolved record is a partial one that storage has given an
//! identifier.

use crate::bpm::BeatEvent;
use crate::metadata::CoverArt;
use crate::text::opt_chars;
use vstd::prelude::*;

verus! {

/// The left operand where it is set, else the right one.
pub open spec fn or_else<T>(left: Option<T>, right: Option<T>) -> Option<T> {
    if left is Some {
        left
    } else {
        right
    }
}

/// Mathematical model of an artist of which only a part may be known.
pub struct PartialArtist {
    pub name: Seq<char>,
    pub catalog_id: Option<Seq<char>>,
}

impl PartialArtist {
    /// Left-biased merge: what `self` knows stays, what it lacks comes from `other`.
    pub open spec fn merge(self, other: PartialArtist) -> PartialArtist {
        PartialArtist { name: self.name, catalog_id: or_else(self.catalog_id, other.catalog_id) }
    }

    /// An artist needs no further enrichment once its catalog id is known.
    pub open spec fn is_ready(self) -> bool {
        self.catalog_id is Some
    }

    /// Every field that `self` knows has the same value in `merged`.
    pub open spec fn kept_in(self, merged: PartialArtist) -> bool {
        &&& merged.name == self.name
        &&& self.catalog_id is Some ==> merged.catalog_id == self.catalog_id
    }

    /// Merge of two optional artists: both merge, one alone stays as it is.
    pub open spec fn merge_opt(left: Option<PartialArtist>, right: Option<PartialArtist>) -> Option<
        PartialArtist,
    > {
        match (left, right) {
            (Some(l), Some(r)) => Some(l.merge(r)),
            (Some(l), None) => Some(l),
            (None, r) => r,
        }
    }

    /// `kept_in` for an artist that may be absent: a known artist stays known.
    pub open spec fn opt_kept_in(left: Option<PartialArtist>, merged: Option<PartialArtist>) -> bool {
        left matches Some(l) ==> merged is Some && l.kept_in(merged->0)
    }
}

/// Mathematical model of an album of which only a part may be known.
pub struct PartialAlbum {
    pub name: Seq<char>,
    pub catalog_id: Option<Seq<char>>,
    pub artist: Option<PartialArtist>,
}

impl PartialAlbum {
    /// Left-biased merge, which goes on into the album's artist.
    pub open spec fn merge(self, other: PartialAlbum) -> PartialAlbum {
        PartialAlbum {
            name: self.name,
            catalog_id: or_else(self.catalog_id, other.catalog_id),
            artist: PartialArtist::merge_opt(self.artist, other.artist),
        }
    }

    /// An album is ready once it has a catalog id and an artist.
    pub open spec fn is_ready(self) -> bool {
        self.catalog_id is Some && self.artist is Some
    }

    /// Every field that `self` knows, its artist's fields included, has the
    /// same value in `merged`.
    pub open spec fn kept_in(self, merged: PartialAlbum) -> bool {
        &&& merged.name == self.name
        &&& self.catalog_id is Some ==> merged.catalog_id == self.catalog_id
        &&& PartialArtist::opt_kept_in(self.artist, merged.artist)
    }

    /// Merge of two optional albums: both merge, one alone stays as it is.
    pub open spec fn merge_opt(left: Option<PartialAlbum>, right: Option<PartialAlbum>) -> Option<
        PartialAlbum,
    > {
        match (left, right) {
            (Some(l), Some(r)) => Some(l.merge(r)),
            (Some(l), None) => Some(l),
            (None, r) => r,
        }
    }

    /// `kept_in` for an album that may be absent: a known album stays known.
    pub open spec fn opt_kept_in(left: Option<PartialAlbum>, merged: Option<PartialAlbum>) -> bool {
        left matches Some(l) ==> merged is Some && l.kept_in(merged->0)
    }
}

/// Mathematical model of a track of which only a part may be known.
pub struct PartialTrack {
    pub name: Seq<char>,
    pub catalog_id: Option<Seq<char>>,
    pub artist: Option<PartialArtist>,
    pub album: Option<PartialAlbum>,
    pub file_path: Option<Seq<char>>,
    pub beat_timeline: Option<Seq<BeatEvent>>,
}

impl PartialTrack {
    /// Left-biased merge, which goes on into the track's artist and album.
    pub open spec fn merge(self, other: PartialTrack) -> PartialTrack {
        PartialTrack {
            name: self.name,
            catalog_id: or_else(self.catalog_id, other.catalog_id),
            artist: PartialArtist::merge_opt(self.artist, other.artist),
            album: PartialAlbum::merge_opt(self.album, other.album),
            file_path: or_else(self.file_path, other.file_path),
            beat_timeline: or_else(self.beat_timeline, other.beat_timeline),
        }
    }

    /// A track is ready once it has a catalog id, a file, a ready artist and a
    /// ready album.
    pub open spec fn is_ready(self) -> bool {
        &&& self.catalog_id is Some
        &&& self.artist matches Some(a) && a.is_ready()
        &&& self.album matches Some(a) && a.is_ready()
        &&& self.file_path is Some
    }

    /// Every field that `self` knows, those of its artist and album included,
    /// has the same value in `merged`.
    pub open spec fn kept_in(self, merged: PartialTrack) -> bool {
        &&& merged.name == self.name
        &&& self.catalog_id is Some ==> merged.catalog_id == self.catalog_id
        &&& PartialArtist::opt_kept_in(self.artist, merged.artist)
        &&& PartialAlbum::opt_kept_in(self.album, merged.album)
        &&& self.file_path is Some ==> merged.file_path == self.file_path
        &&& self.beat_timeline is Some ==> merged.beat_timeline == self.beat_timeline
    }
}

/// Merging a record with itself gives the record back.
pub proof fn lemma_merge_idempotent(a: PartialTrack)
    ensures
        a.merge(a) == a,
{
}

/// Merging an artist or an album with itself gives it back.
pub proof fn lemma_merge_idempotent_parts(artist: PartialArtist, album: PartialAlbum)
    ensures
        artist.merge(artist) == artist,
        album.merge(album) == album,
{
}

/// A merge never loses what its left operand knows: the name, and every
/// optional field that is set, in the track and in its artist and album.
pub proof fn lemma_merge_keeps_left(a: PartialTrack, b: PartialTrack)
    ensures
        a.kept_in(a.merge(b)),
{
}

/// The same for artists and albums merged on their own.
pub proof fn lemma_merge_keeps_left_parts(
    artist: PartialArtist,
    other_artist: PartialArtist,
    album: PartialAlbum,
    other_album: PartialAlbum,
)
    ensures
        artist.kept_in(artist.merge(other_artist)),
        album.kept_in(album.merge(other_album)),
{
}

/// Merging with a ready record never makes a ready record unready.
pub proof fn lemma_merge_ready_monotonic(a: PartialTrack, b: PartialTrack)
    requires
        b.is_ready(),
    ensures
        a.is_ready() ==> a.merge(b).is_ready(),
{
}

/// Whatever is merged with a ready record is ready: what the left operand
/// lacks, the ready record has.
pub proof fn lemma_merge_with_ready_is_ready(a: PartialTrack, b: PartialTrack)
    requires
        b.is_ready(),
    ensures
        a.merge(b).is_ready(),
{
}

/// A ready record stays ready whatever is merged into it.
pub proof fn lemma_ready_survives_merge(a: PartialTrack, b: PartialTrack)
    requires
        a.is_ready(),
    ensures
        a.merge(b).is_ready(),
{
}

/// An artist as it travels through the lookups: a name and, once known, a
/// catalog id.
#[derive(Debug, Default, PartialEq, Eq)]
pub struct UnprocessedArtist {
    pub mbid: Option<String>,
    pub name: String,
}

impl View for UnprocessedArtist {
    type V = PartialArtist;

    open spec fn view(&self) -> PartialArtist {
        PartialArtist { name: self.name@, catalog_id: opt_chars(self.mbid) }
    }
}

impl Clone for UnprocessedArtist {
    fn clone(&self) -> (r: Self)
        ensures
            r == *self,
    {
        UnprocessedArtist { mbid: self.mbid.clone(), name: self.name.clone() }
    }
}

impl UnprocessedArtist {
    pub fn merge(self, other: UnprocessedArtist) -> (r: UnprocessedArtist)
        ensures
            r@ == self@.merge(other@),
    {
        let mbid = match self.mbid {
            Some(id) => Some(id),
            None => other.mbid,
        };
        UnprocessedArtist { mbid, name: self.name }
    }

    pub fn is_ready(&self) -> (r: bool)
        ensures
            r == self@.is_ready(),
    {
        self.mbid.is_some()
    }
}

/// The view of an artist that may be absent.
pub open spec fn opt_artist(a: Option<UnprocessedArtist>) -> Option<PartialArtist> {
    match a {
        Some(a) => Some(a@),
        None => None,
    }
}

/// An album as it travels through the lookups.
#[derive(Debug, Default, PartialEq, Eq)]
pub struct UnprocessedAlbum {
    pub mbid: Option<String>,
    pub name: String,
    pub artist: Option<UnprocessedArtist>,
}

impl View for UnprocessedAlbum {
    type V = PartialAlbum;

    open spec fn view(&self) -> PartialAlbum {
        PartialAlbum {
            name: self.name@,
            catalog_id: opt_chars(self.mbid),
            artist: opt_artist(self.artist),
        }
    }
}

impl Clone for UnprocessedAlbum {
    fn clone(&self) -> (r: Self)
        ensures
            r == *self,
    {
        let artist = match &self.artist {
            Some(a) => Some(a.clone()),
            None => None,
        };
        UnprocessedAlbum { mbid: self.mbid.clone(), name: self.name.clone(), artist }
    }
}

/// Merges two artists of which either may be absent.
fn merge_artists(left: Option<UnprocessedArtist>, right: Option<UnprocessedArtist>) -> (r: Option<
    UnprocessedArtist,
>)
    ensures
        opt_artist(r) == PartialArtist::merge_opt(opt_artist(left), opt_artist(right)),
{
    match left {
        Some(l) => match right {
            Some(r) => Some(l.merge(r)),
            None => Some(l),
        },
        None => right,
    }
}

impl UnprocessedAlbum {
    pub fn merge(self, other: UnprocessedAlbum) -> (r: UnprocessedAlbum)
        ensures
            r@ == self@.merge(other@),
    {
        let mbid = match self.mbid {
            Some(id) => Some(id),
            None => other.mbid,
        };
        UnprocessedAlbum { mbid, name: self.name, artist: merge_artists(self.artist, other.artist) }
    }

    pub fn is_ready(&self) -> (r: bool)
        ensures
            r == self@.is_ready(),
    {
        self.mbid.is_some() && self.artist.is_some()
    }
}

/// The view of an album that may be absent.
pub open spec fn opt_album(a: Option<UnprocessedAlbum>) -> Option<PartialAlbum> {
    match a {
        Some(a) => Some(a@),
        None => None,
    }
}

/// The view of a beat timeline that may be absent.
pub open spec fn opt_beats(b: Option<Vec<BeatEvent>>) -> Option<Seq<BeatEvent>> {
    match b {
        Some(b) => Some(b@),
        None => None,
    }
}

/// A track as it travels through the lookups. `file` is the path of the
/// track's audio file in the local library.
#[derive(Debug, Default, PartialEq, Eq)]
pub struct UnprocessedTrack {
    pub mbid: Option<String>,
    pub name: String,
    pub artist: Option<UnprocessedArtist>,
    pub album: Option<UnprocessedAlbum>,
    pub file: Option<String>,
    pub beatevents: Option<Vec<BeatEvent>>,
}

impl View for UnprocessedTrack {
    type V = PartialTrack;

    open spec fn view(&self) -> PartialTrack {
        PartialTrack {
            name: self.name@,
            catalog_id: opt_chars(self.mbid),
            artist: opt_artist(self.artist),
            album: opt_album(self.album),
            file_path: opt_chars(self.file),
            beat_timeline: opt_beats(self.beatevents),
        }
    }
}

impl Clone for UnprocessedTrack {
    fn clone(&self) -> (r: Self)
        ensures
            r@ == self@,
    {
        let artist = match &self.artist {
            Some(a) => Some(a.clone()),
            None => None,
        };
        let album = match &self.album {
            Some(a) => Some(a.clone()),
            None => None,
        };
        let beatevents = match &self.beatevents {
            Some(b) => Some(b.clone()),
            None => None,
        };
        UnprocessedTrack {
            mbid: self.mbid.clone(),
            name: self.name.clone(),
            artist,
            album,
            file: self.file.clone(),
            beatevents,
        }
    }
}

/// Merges two albums of which either may be absent.
fn merge_albums(left: Option<UnprocessedAlbum>, right: Option<UnprocessedAlbum>) -> (r: Option<
    UnprocessedAlbum,
>)
    ensures
        opt_album(r) == PartialAlbum::merge_opt(opt_album(left), opt_album(right)),
{
    match left {
        Some(l) => match right {
            Some(r) => Some(l.merge(r)),
            None => Some(l),
        },
        None => right,
    }
}

impl UnprocessedTrack {
    pub fn merge(self, other: UnprocessedTrack) -> (r: UnprocessedTrack)
        ensures
            r@ == self@.merge(other@),
    {
        let mbid = match self.mbid {
            Some(id) => Some(id),
            None => other.mbid,
        };
        let file = match self.file {
            Some(f) => Some(f),
            None => other.file,
        };
        let beatevents = match self.beatevents {
            Some(b) => Some(b),
            None => other.beatevents,
        };
        UnprocessedTrack {
            mbid,
            name: self.name,
            artist: merge_artists(self.artist, other.artist),
            album: merge_albums(self.album, other.album),
            file,
            beatevents,
        }
    }

    pub fn is_ready(&self) -> (r: bool)
        ensures
            r == self@.is_ready(),
    {
        let artist_ready = match &self.artist {
            Some(a) => a.is_ready(),
            None => false,
        };
        let album_ready = match &self.album {
            Some(a) => a.is_ready(),
            None => false,
        };
        self.mbid.is_some() && artist_ready && album_ready && self.file.is_some()
    }
}

/// Mathematical model of an artist that storage knows.
pub struct ResolvedArtist {
    pub id: i64,
    pub name: Seq<char>,
    pub catalog_id: Option<Seq<char>>,
}

/// Mathematical model of an album that storage knows.
pub struct ResolvedAlbum {
    pub id: i64,
    pub name: Seq<char>,
    pub catalog_id: Option<Seq<char>>,
    pub artist: ResolvedArtist,
}

/// Mathematical model of a picture.
pub struct CoverModel {
    pub media_type: Seq<char>,
    pub data: Seq<u8>,
}

/// Mathematical model of a track that storage knows.
pub struct ResolvedTrack {
    pub id: i64,
    pub name: Seq<char>,
    pub catalog_id: Option<Seq<char>>,
    pub beat_timeline: Seq<BeatEvent>,
    pub artist: ResolvedArtist,
    pub album: Option<ResolvedAlbum>,
    pub file_path: Option<Seq<char>>,
    pub cover: Option<CoverModel>,
}

/// An artist that storage knows under `id`.
#[derive(Debug, PartialEq, Eq)]
pub struct Artist {
    pub id: i64,
    pub mbid: Option<String>,
    pub name: String,
}

impl View for Artist {
    type V = ResolvedArtist;

    open spec fn view(&self) -> ResolvedArtist {
        ResolvedArtist { id: self.id, name: self.name@, catalog_id: opt_chars(self.mbid) }
    }
}

impl Clone for Artist {
    fn clone(&self) -> (r: Self)
        ensures
            r == *self,
    {
        Artist { id: self.id, mbid: self.mbid.clone(), name: self.name.clone() }
    }
}

impl Artist {
    /// The artist `unprocessed` as storage knows it under `id`.
    pub fn new(unprocessed: UnprocessedArtist, id: i64) -> (r: Artist)
        ensures
            r@ == (ResolvedArtist {
                id,
                name: unprocessed@.name,
                catalog_id: unprocessed@.catalog_id,
            }),
    {
        Artist { id, mbid: unprocessed.mbid, name: unprocessed.name }
    }
}

/// An album that storage knows under `id`, with the artist it is filed under.
#[derive(Debug, PartialEq, Eq)]
pub struct Album {
    pub id: i64,
    pub mbid: Option<String>,
    pub name: String,
    pub artist: Artist,
}

impl View for Album {
    type V = ResolvedAlbum;

    open spec fn view(&self) -> ResolvedAlbum {
        ResolvedAlbum {
            id: self.id,
            name: self.name@,
            catalog_id: opt_chars(self.mbid),
            artist: self.artist@,
        }
    }
}

impl Clone for Album {
    fn clone(&self) -> (r: Self)
        ensures
            r == *self,
    {
        Album {
            id: self.id,
            mbid: self.mbid.clone(),
            name: self.name.clone(),
            artist: self.artist.clone(),
        }
    }
}

impl Album {
    /// The album `unprocessed` as storage knows it under `id`, filed under
    /// `artist`. The artist that `unprocessed` may name is not looked at.
    pub fn new(unprocessed: UnprocessedAlbum, id: i64, artist: Artist) -> (r: Album)
        ensures
            r@ == (ResolvedAlbum {
                id,
                name: unprocessed@.name,
                catalog_id: unprocessed@.catalog_id,
                artist: artist@,
            }),
    {
        Album { id, mbid: unprocessed.mbid, name: unprocessed.name, artist }
    }
}

/// The view of a resolved album that may be absent.
pub open spec fn opt_resolved_album(a: Option<Album>) -> Option<ResolvedAlbum> {
    match a {
        Some(a) => Some(a@),
        None => None,
    }
}

/// The view of a picture that may be absent.
pub open spec fn opt_cover(c: Option<CoverArt>) -> Option<CoverModel> {
    match c {
        Some(c) => Some(CoverModel { media_type: c.media_type@, data: c.data@ }),
        None => None,
    }
}

/// A track that storage knows under `id`. `beatevents` is empty until the
/// track's audio has been analysed.
#[derive(Debug, PartialEq, Eq)]
pub struct Track {
    pub id: i64,
    pub mbid: Option<String>,
    pub name: String,
    pub beatevents: Vec<BeatEvent>,
    pub artist: Artist,
    pub album: Option<Album>,
    pub file: Option<String>,
    pub cover: Option<CoverArt>,
}

impl View for Track {
    type V = ResolvedTrack;

    open spec fn view(&self) -> ResolvedTrack {
        ResolvedTrack {
            id: self.id,
            name: self.name@,
            catalog_id: opt_chars(self.mbid),
            beat_timeline: self.beatevents@,
            artist: self.artist@,
            album: opt_resolved_album(self.album),
            file_path: opt_chars(self.file),
            cover: opt_cover(self.cover),
        }
    }
}

impl Track {
    /// The track `unprocessed` as storage knows it under `id`. `cover` is the
    /// picture found in the track's file, if there is a file and it holds one.
    /// A track that has not been analysed has an empty beat timeline.
    pub fn new(
        unprocessed: UnprocessedTrack,
        id: i64,
        artist: Artist,
        album: Option<Album>,
        cover: Option<CoverArt>,
    ) -> (r: Track)
        ensures
            r@ == (ResolvedTrack {
                id,
                name: unprocessed@.name,
                catalog_id: unprocessed@.catalog_id,
                beat_timeline: match unprocessed@.beat_timeline {
                    Some(b) => b,
                    None => Seq::empty(),
                },
                artist: artist@,
                album: opt_resolved_album(album),
                file_path: unprocessed@.file_path,
                cover: opt_cover(cover),
            }),
    {
        let beatevents = match unprocessed.beatevents {
            Some(b) => b,
            None => Vec::new(),
        };
        Track {
            id,
            mbid: unprocessed.mbid,
            name: unprocessed.name,
            beatevents,
            artist,
            album,
            file: unprocessed.file,
            cover,
        }
    }

    /// The beat timeline of the track as it is now: empty until the track's
    /// audio has been analysed.
    pub fn beat_timeline(&self) -> (r: &Vec<BeatEvent>)
        ensures
            r@ == self@.beat_timeline,
    {
        &self.beatevents
    }
}

} // verus!
