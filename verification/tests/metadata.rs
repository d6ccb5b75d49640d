use sakanaa_web::metadata::{choose_cover, CoverArt, Metadata, MetadataTag, TagKey};

fn tag(key: TagKey, value: Option<&str>) -> MetadataTag {
    MetadataTag { key, value: value.map(|v| v.to_string()) }
}

#[test]
fn tags_set_the_fields_their_keys_name() {
    let tags = vec![
        tag(TagKey::TrackTitle, Some("Song")),
        tag(TagKey::MusicBrainzTrackId, Some("rec-1")),
        tag(TagKey::Artist, Some("Singer")),
        tag(TagKey::MusicBrainzArtistId, Some("art-1")),
        tag(TagKey::AlbumArtist, Some("Band")),
        tag(TagKey::MusicBrainzAlbumArtistId, Some("art-2")),
        tag(TagKey::Album, Some("Record")),
        tag(TagKey::MusicBrainzAlbumId, Some("alb-1")),
    ];
    let expected = Metadata {
        track: Some("Song".to_string()),
        mb_track: Some("rec-1".to_string()),
        artist: Some("Singer".to_string()),
        mb_artist: Some("art-1".to_string()),
        album_artist: Some("Band".to_string()),
        mb_album_artist: Some("art-2".to_string()),
        album: Some("Record".to_string()),
        mb_album: Some("alb-1".to_string()),
    };
    assert_eq!(Metadata::from_tags(&tags), expected);
}

#[test]
fn later_tag_wins() {
    let tags = vec![
        tag(TagKey::TrackTitle, Some("First")),
        tag(TagKey::Artist, Some("Singer")),
        tag(TagKey::TrackTitle, Some("Second")),
    ];
    let m = Metadata::from_tags(&tags);
    assert_eq!(m.track, Some("Second".to_string()));
    assert_eq!(m.artist, Some("Singer".to_string()));
    assert_eq!(m.album, None);
}

#[test]
fn tags_without_text_or_of_other_keys_are_skipped() {
    let tags = vec![
        tag(TagKey::TrackTitle, Some("Song")),
        tag(TagKey::TrackTitle, None),
        tag(TagKey::Other, Some("2011")),
        tag(TagKey::Album, None),
    ];
    let mut expected = Metadata::new();
    expected.track = Some("Song".to_string());
    assert_eq!(Metadata::from_tags(&tags), expected);
    assert_eq!(Metadata::from_tags(&vec![]), Metadata::new());
    assert_eq!(Metadata::new(), Metadata::default());
}

#[test]
fn set_takes_in_one_tag() {
    let mut m = Metadata::new();
    m.set(&tag(TagKey::MusicBrainzAlbumId, Some("alb-1")));
    m.set(&tag(TagKey::Other, Some("x")));
    m.set(&tag(TagKey::Album, None));
    let mut expected = Metadata::new();
    expected.mb_album = Some("alb-1".to_string());
    assert_eq!(m, expected);
}

#[test]
fn front_cover_is_preferred() {
    assert_eq!(choose_cover(&vec![false, true, true]), Some(1));
    assert_eq!(choose_cover(&vec![true]), Some(0));
    assert_eq!(choose_cover(&vec![false, false, true]), Some(2));
}

#[test]
fn first_picture_is_the_fallback() {
    assert_eq!(choose_cover(&vec![false, false]), Some(0));
    assert_eq!(choose_cover(&vec![]), None);
}

#[test]
fn cover_is_cloned_whole() {
    let c = CoverArt { media_type: "image/jpeg".to_string(), data: vec![0xff, 0xd8, 0xff] };
    assert_eq!(c.clone(), c);
}
