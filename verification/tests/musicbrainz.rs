use sakanaa_web::musicbrainz::{
    check_status, non_empty_str, recording_query, request_url, MBArtist, MBArtistCredit, MBError,
    MBRelease, MBTrack, MusicBrainzLookupSource,
};
use sakanaa_web::pipeline::LookupError;
use sakanaa_web::types::{UnprocessedAlbum, UnprocessedArtist, UnprocessedTrack};

fn credit(id: &str, name: &str) -> MBArtistCredit {
    MBArtistCredit {
        name: name.to_string(),
        joinphrase: None,
        artist: MBArtist {
            id: id.to_string(),
            name: name.to_string(),
            sort_name: name.to_string(),
        },
    }
}

fn release(id: &str, title: &str) -> MBRelease {
    MBRelease {
        id: id.to_string(),
        title: title.to_string(),
        quality: "normal".to_string(),
        status: "Official".to_string(),
        packaging_id: String::new(),
        country: "XW".to_string(),
    }
}

fn recording() -> MBTrack {
    MBTrack {
        id: "rec-1".to_string(),
        title: "Song".to_string(),
        length: 180_000,
        artist_credit: vec![credit("art-0", "Guest"), credit("art-1", "SINGER")],
        releases: vec![release("alb-0", "Best Of"), release("alb-1", "record")],
    }
}

fn known() -> UnprocessedTrack {
    UnprocessedTrack {
        mbid: Some("rec-1".to_string()),
        name: "song".to_string(),
        artist: Some(UnprocessedArtist { mbid: None, name: "Singer feat. Guest".to_string() }),
        album: Some(UnprocessedAlbum {
            mbid: None,
            name: "Record (Deluxe)".to_string(),
            artist: None,
        }),
        file: None,
        beatevents: None,
    }
}

#[test]
fn lookup_needs_a_catalog_id() {
    let source = MusicBrainzLookupSource::new();
    let mut track = known();
    assert_eq!(source.catalog_id(&track), Ok("rec-1".to_string()));
    track.mbid = None;
    assert_eq!(source.catalog_id(&track), Err(LookupError::MissingId));
}

#[test]
fn answer_fills_gaps_and_prefers_the_candidate_with_a_fitting_name() {
    let source = MusicBrainzLookupSource::new();
    let result = source.lookup_track(known(), Ok(recording()), false).unwrap();
    let expected = UnprocessedTrack {
        mbid: Some("rec-1".to_string()),
        name: "song".to_string(),
        artist: Some(UnprocessedArtist {
            mbid: Some("art-1".to_string()),
            name: "Singer feat. Guest".to_string(),
        }),
        album: Some(UnprocessedAlbum {
            mbid: Some("alb-1".to_string()),
            name: "Record (Deluxe)".to_string(),
            artist: None,
        }),
        file: None,
        beatevents: None,
    };
    assert_eq!(result, expected);
}

#[test]
fn answer_overrides_when_replacing() {
    let source = MusicBrainzLookupSource::new();
    let mut track = known();
    track.file = Some("/f.flac".to_string());
    let result = source.lookup_track(track, Ok(recording()), true).unwrap();
    let expected = UnprocessedTrack {
        mbid: Some("rec-1".to_string()),
        name: "Song".to_string(),
        artist: Some(UnprocessedArtist {
            mbid: Some("art-1".to_string()),
            name: "SINGER".to_string(),
        }),
        album: Some(UnprocessedAlbum {
            mbid: Some("alb-1".to_string()),
            name: "record".to_string(),
            artist: None,
        }),
        file: Some("/f.flac".to_string()),
        beatevents: None,
    };
    assert_eq!(result, expected);
}

#[test]
fn answer_falls_back_to_the_first_candidate() {
    let source = MusicBrainzLookupSource::new();
    let mut track = known();
    track.artist = Some(UnprocessedArtist { mbid: None, name: "Somebody".to_string() });
    track.album = Some(UnprocessedAlbum { mbid: None, name: "Rec".to_string(), artist: None });
    let result = source.lookup_track(track, Ok(recording()), false).unwrap();
    assert_eq!(
        result.artist,
        Some(UnprocessedArtist { mbid: Some("art-0".to_string()), name: "Somebody".to_string() })
    );
    // "rec" does not start with "record": the first release is taken
    assert_eq!(
        result.album,
        Some(UnprocessedAlbum {
            mbid: Some("alb-0".to_string()),
            name: "Rec".to_string(),
            artist: None
        })
    );
}

#[test]
fn answer_gives_no_artist_or_album_that_was_not_known() {
    let source = MusicBrainzLookupSource::new();
    let mut track = known();
    track.artist = None;
    track.album = None;
    let result = source.lookup_track(track, Ok(recording()), true).unwrap();
    assert_eq!(result.artist, None);
    assert_eq!(result.album, None);
    assert_eq!(result.name, "Song");
}

#[test]
fn answer_without_candidates_gives_none() {
    let source = MusicBrainzLookupSource::new();
    let mut found = recording();
    found.artist_credit = vec![];
    found.releases = vec![];
    let result = source.lookup_track(known(), Ok(found), false).unwrap();
    assert_eq!(result, known());
}

#[test]
fn unknown_id_is_cleared() {
    let source = MusicBrainzLookupSource::new();
    let result = source.lookup_track(known(), Err(MBError::NotFound), false).unwrap();
    let mut expected = known();
    expected.mbid = None;
    assert_eq!(result, expected);
}

#[test]
fn other_failures_fail_the_lookup() {
    let source = MusicBrainzLookupSource::new();
    assert_eq!(
        source.lookup_track(known(), Err(MBError::RateLimited), false),
        Err(LookupError::RateLimited)
    );
    assert_eq!(
        source.lookup_track(known(), Err(MBError::LookupFailed("timeout".to_string())), true),
        Err(LookupError::LookupFailed("timeout".to_string()))
    );
}

#[test]
fn status_is_read_as_the_protocol_says() {
    assert_eq!(check_status(200, "200 OK"), Ok(()));
    assert_eq!(check_status(404, "404 Not Found"), Err(MBError::NotFound));
    assert_eq!(check_status(503, "503 Service Unavailable"), Err(MBError::RateLimited));
    assert_eq!(
        check_status(500, "500 Internal Server Error"),
        Err(MBError::LookupFailed("HTTP status code: 500 Internal Server Error".to_string()))
    );
    assert_eq!(check_status(429, "429 Too Many Requests"), Err(MBError::RateLimited));
    assert_eq!(
        check_status(502, "502 Bad Gateway"),
        Err(MBError::LookupFailed("HTTP status code: 502 Bad Gateway".to_string()))
    );
    assert_eq!(
        check_status(201, "201 Created"),
        Err(MBError::LookupFailed("HTTP status code: 201 Created".to_string()))
    );
}

#[test]
fn errors_in_words() {
    assert_eq!(MBError::NotFound.to_string(), "Not found");
    assert_eq!(MBError::RateLimited.to_string(), "Rate limited");
    assert_eq!(MBError::LookupFailed("boom".to_string()).to_string(), "Lookup failed: boom");
}

#[test]
fn request_asks_for_artists_and_releases() {
    assert_eq!(recording_query("rec-1"), "rec-1?inc=artists+releases");
    assert_eq!(
        request_url("recording", &recording_query("rec-1")),
        "https://musicbrainz.org/ws/2/recording/rec-1?inc=artists+releases&fmt=json"
    );
}

#[test]
fn empty_text_counts_as_missing() {
    assert_eq!(non_empty_str(None), None);
    assert_eq!(non_empty_str(Some(String::new())), None);
    assert_eq!(non_empty_str(Some("x".to_string())), Some("x".to_string()));
}

#[test]
fn track_without_an_id_is_refused_whatever_the_answer() {
    let source = MusicBrainzLookupSource::new();
    let mut track = known();
    track.mbid = None;
    assert_eq!(
        source.lookup_track(track, Ok(recording()), false),
        Err(LookupError::MissingId)
    );
    let mut track = known();
    track.mbid = None;
    assert_eq!(
        source.lookup_track(track, Err(MBError::NotFound), true),
        Err(LookupError::MissingId)
    );
    let mut track = known();
    track.mbid = None;
    assert_eq!(
        source.lookup_track(track, Err(MBError::RateLimited), true),
        Err(LookupError::MissingId)
    );
}
