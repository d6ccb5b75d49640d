//! What the tags embedded in an audio file say about it.

use crate::text::opt_chars;
use vstd::prelude::*;

verus! {

/// A picture embedded in an audio file, as it was stored there.
#[derive(Debug, PartialEq, Eq)]
pub struct CoverArt {
    pub media_type: String,
    pub data: Vec<u8>,
}

impl Clone for CoverArt {
    fn clone(&self) -> (r: Self)
        ensures
            r.media_type@ == self.media_type@,
            r.data@ == self.data@,
    {
        CoverArt { media_type: self.media_type.clone(), data: self.data.clone() }
    }
}

/// What a tag is about. `Other` stands for every tag that says nothing of
/// the track's, artist's or album's identity, and for a tag without a
/// standard key.
#[derive(Debug, Clone, Copy, PartialEq, Eq, Structural)]
pub enum TagKey {
    TrackTitle,
    MusicBrainzTrackId,
    Artist,
    MusicBrainzArtistId,
    AlbumArtist,
    MusicBrainzAlbumArtistId,
    Album,
    MusicBrainzAlbumId,
    Other,
}

/// One tag of a file. `value` is `None` for a tag whose value is no text.
#[derive(Debug, PartialEq, Eq)]
pub struct MetadataTag {
    pub key: TagKey,
    pub value: Option<String>,
}

/// Mathematical model of a tag.
pub struct TagModel {
    pub key: TagKey,
    pub value: Option<Seq<char>>,
}

impl View for MetadataTag {
    type V = TagModel;

    open spec fn view(&self) -> TagModel {
        TagModel { key: self.key, value: opt_chars(self.value) }
    }
}

/// The views of tags.
pub open spec fn tag_models(tags: Seq<MetadataTag>) -> Seq<TagModel> {
    Seq::new(tags.len(), |i: int| tags[i]@)
}

/// Mathematical model of the identity that tags give.
pub struct MetadataModel {
    pub track: Option<Seq<char>>,
    pub mb_track: Option<Seq<char>>,
    pub artist: Option<Seq<char>>,
    pub mb_artist: Option<Seq<char>>,
    pub album_artist: Option<Seq<char>>,
    pub mb_album_artist: Option<Seq<char>>,
    pub album: Option<Seq<char>>,
    pub mb_album: Option<Seq<char>>,
}

impl MetadataModel {
    /// Nothing is known.
    pub open spec fn empty() -> MetadataModel {
        MetadataModel {
            track: None,
            mb_track: None,
            artist: None,
            mb_artist: None,
            album_artist: None,
            mb_album_artist: None,
            album: None,
            mb_album: None,
        }
    }

    /// The metadata after one more tag: a tag with a text value sets the
    /// field that its key names, any other tag changes nothing.
    pub open spec fn with_tag(self, tag: TagModel) -> MetadataModel {
        match tag.value {
            None => self,
            Some(v) => match tag.key {
                TagKey::TrackTitle => MetadataModel { track: Some(v), ..self },
                TagKey::MusicBrainzTrackId => MetadataModel { mb_track: Some(v), ..self },
                TagKey::Artist => MetadataModel { artist: Some(v), ..self },
                TagKey::MusicBrainzArtistId => MetadataModel { mb_artist: Some(v), ..self },
                TagKey::AlbumArtist => MetadataModel { album_artist: Some(v), ..self },
                TagKey::MusicBrainzAlbumArtistId => MetadataModel {
                    mb_album_artist: Some(v),
                    ..self
                },
                TagKey::Album => MetadataModel { album: Some(v), ..self },
                TagKey::MusicBrainzAlbumId => MetadataModel { mb_album: Some(v), ..self },
                TagKey::Other => self,
            },
        }
    }

    /// The metadata that `tags` give, taken in their order: of two tags with
    /// one key the later wins.
    pub open spec fn from_tags(tags: Seq<TagModel>) -> MetadataModel
        decreases tags.len(),
    {
        if tags.len() == 0 {
            MetadataModel::empty()
        } else {
            MetadataModel::from_tags(tags.drop_last()).with_tag(tags.last())
        }
    }
}

/// The identity of a track as its file's tags give it.
#[derive(Debug, Default, PartialEq, Eq)]
pub struct Metadata {
    pub track: Option<String>,
    pub mb_track: Option<String>,
    pub artist: Option<String>,
    pub mb_artist: Option<String>,
    pub album_artist: Option<String>,
    pub mb_album_artist: Option<String>,
    pub album: Option<String>,
    pub mb_album: Option<String>,
}

impl View for Metadata {
    type V = MetadataModel;

    open spec fn view(&self) -> MetadataModel {
        MetadataModel {
            track: opt_chars(self.track),
            mb_track: opt_chars(self.mb_track),
            artist: opt_chars(self.artist),
            mb_artist: opt_chars(self.mb_artist),
            album_artist: opt_chars(self.album_artist),
            mb_album_artist: opt_chars(self.mb_album_artist),
            album: opt_chars(self.album),
            mb_album: opt_chars(self.mb_album),
        }
    }
}

impl Metadata {
    /// Metadata that knows nothing.
    pub fn new() -> (r: Metadata)
        ensures
            r@ == MetadataModel::empty(),
    {
        Metadata {
            track: None,
            mb_track: None,
            artist: None,
            mb_artist: None,
            album_artist: None,
            mb_album_artist: None,
            album: None,
            mb_album: None,
        }
    }

    /// Takes in one tag.
    pub fn set(&mut self, tag: &MetadataTag)
        ensures
            final(self)@ == old(self)@.with_tag(tag@),
    {
        let value = match &tag.value {
            Some(v) => v.clone(),
            None => {
                return ;
            },
        };
        match tag.key {
            TagKey::TrackTitle => {
                self.track = Some(value);
            },
            TagKey::MusicBrainzTrackId => {
                self.mb_track = Some(value);
            },
            TagKey::Artist => {
                self.artist = Some(value);
            },
            TagKey::MusicBrainzArtistId => {
                self.mb_artist = Some(value);
            },
            TagKey::AlbumArtist => {
                self.album_artist = Some(value);
            },
            TagKey::MusicBrainzAlbumArtistId => {
                self.mb_album_artist = Some(value);
            },
            TagKey::Album => {
                self.album = Some(value);
            },
            TagKey::MusicBrainzAlbumId => {
                self.mb_album = Some(value);
            },
            TagKey::Other => {},
        }
    }

    /// The metadata that the tags of a file give.
    pub fn from_tags(tags: &Vec<MetadataTag>) -> (r: Metadata)
        ensures
            r@ == MetadataModel::from_tags(tag_models(tags@)),
    {
        let mut metadata = Metadata::new();
        let mut i: usize = 0;
        while i < tags.len()
            invariant
                i <= tags@.len(),
                metadata@ == MetadataModel::from_tags(tag_models(tags@).take(i as int)),
            decreases tags@.len() - i,
        {
            proof {
                let all = tag_models(tags@);
                assert(all.take(i as int + 1).drop_last() =~= all.take(i as int));
            }
            metadata.set(&tags[i]);
            i += 1;
        }
        assert(tag_models(tags@).take(i as int) =~= tag_models(tags@));
        metadata
    }
}

/// The picture at `i` is the first that is marked as the front cover.
pub open spec fn first_front_cover(front_cover: Seq<bool>, i: int) -> bool {
    &&& 0 <= i < front_cover.len()
    &&& front_cover[i]
    &&& forall|j: int| 0 <= j < i ==> !front_cover[j]
}

/// No picture is marked as the front cover.
pub open spec fn no_front_cover(front_cover: Seq<bool>) -> bool {
    forall|j: int| 0 <= j < front_cover.len() ==> !front_cover[j]
}

/// Picks the picture to show among those of a file: the first that is marked
/// as the front cover, or else the first of all. `front_cover` says of each
/// picture whether it is so marked.
pub fn choose_cover(front_cover: &Vec<bool>) -> (r: Option<usize>)
    ensures
        match r {
            Some(i) => first_front_cover(front_cover@, i as int) || (i == 0 && front_cover@.len()
                > 0 && no_front_cover(front_cover@)),
            None => front_cover@.len() == 0,
        },
{
    if front_cover.len() == 0 {
        return None;
    }
    let mut i: usize = 0;
    while i < front_cover.len()
        invariant
            i <= front_cover@.len(),
            front_cover@.len() > 0,
            forall|j: int| 0 <= j < i ==> !front_cover@[j],
        decreases front_cover@.len() - i,
    {
        if front_cover[i] {
            return Some(i);
        }
        i += 1;
    }
    Some(0)
}

} // verus!
