use sakanaa_web::fs_library::{FsLibrarySource, FsLookupPlan, MusicLibConfig, PathReplaceFilter};
use sakanaa_web::metadata::Metadata;
use sakanaa_web::pipeline::LookupError;
use sakanaa_web::types::{UnprocessedAlbum, UnprocessedArtist, UnprocessedTrack};

fn filter(from: &str, to: &str) -> PathReplaceFilter {
    PathReplaceFilter { from: from.to_string(), to: to.to_string() }
}

fn source() -> FsLibrarySource {
    FsLibrarySource::new(MusicLibConfig {
        path: "/music".to_string(),
        path_replacements: vec![filter(r"\s*\(.*\)$", ""), filter("/", "_")],
        file_regex: r"^\d+[ .-]*(.+)\.\w+$".to_string(),
    })
}

fn track(name: &str, artist: Option<&str>, album: Option<&str>) -> UnprocessedTrack {
    UnprocessedTrack {
        mbid: None,
        name: name.to_string(),
        artist: artist.map(|a| UnprocessedArtist { mbid: None, name: a.to_string() }),
        album: album.map(|a| UnprocessedAlbum { mbid: None, name: a.to_string(), artist: None }),
        file: None,
        beatevents: None,
    }
}

fn file_tags() -> Metadata {
    Metadata {
        track: Some("Tagged Song".to_string()),
        mb_track: Some("rec-9".to_string()),
        artist: Some("Tagged Singer".to_string()),
        mb_artist: Some("art-9".to_string()),
        album_artist: Some("Tagged Band".to_string()),
        mb_album_artist: None,
        album: Some("Tagged Record".to_string()),
        mb_album: Some("alb-9".to_string()),
    }
}

#[test]
fn filter_replaces_every_match() {
    assert_eq!(filter("a", "b").apply("banana"), "bbnbnb");
    assert_eq!(filter(r"\s*\(.*\)$", "").apply("Song (Remastered 2011)"), "Song");
    assert_eq!(filter("x", "y").apply("banana"), "banana");
}

#[test]
fn filter_fills_in_capture_groups() {
    assert_eq!(filter(r"(\w+) & (\w+)", "$2 and $1").apply("Tom & Jerry"), "Jerry and Tom");
}

#[test]
fn filter_that_is_no_regular_expression_rewrites_nothing() {
    assert_eq!(filter("(", "x").apply("a (b"), "a (b");
}

#[test]
fn replacements_apply_in_their_order() {
    let s = FsLibrarySource::new(MusicLibConfig {
        path: "/music".to_string(),
        path_replacements: vec![filter("a", "b"), filter("b", "c")],
        file_regex: "(.*)".to_string(),
    });
    assert_eq!(s.apply_replacements("abc"), "ccc");
    assert_eq!(source().apply_replacements("AC/DC (Live)"), "AC_DC");
    assert_eq!(s.root(), "/music");
}

#[test]
fn known_file_is_read_without_a_search() {
    let mut t = track("Song", None, None);
    t.file = Some("/music/a/b/c.flac".to_string());
    assert_eq!(
        source().plan(&t),
        Ok(FsLookupPlan::ReadTags { path: "/music/a/b/c.flac".to_string() })
    );
}

#[test]
fn track_without_artist_is_not_found() {
    assert_eq!(source().plan(&track("Song", None, Some("Record"))), Err(LookupError::NotFound));
}

#[test]
fn search_goes_by_rewritten_names_in_lowercase() {
    let t = track("My Song (Live)", Some("AC/DC"), Some("Höhen (Deluxe)"));
    assert_eq!(
        source().plan(&t),
        Ok(FsLookupPlan::Search {
            name: "my song".to_string(),
            artist: "ac_dc".to_string(),
            album: Some("höhen".to_string()),
        })
    );
    let t = track("My Song", Some("Singer"), None);
    assert_eq!(
        source().plan(&t),
        Ok(FsLookupPlan::Search {
            name: "my song".to_string(),
            artist: "singer".to_string(),
            album: None,
        })
    );
}

#[test]
fn artist_directory_fits_by_name_or_by_prefix() {
    assert!(FsLibrarySource::artist_dir_matches("Various Artists", "singer"));
    assert!(FsLibrarySource::artist_dir_matches("SINGER", "singer"));
    assert!(FsLibrarySource::artist_dir_matches("ÄRZTE", "ärzte"));
    // the track is by "singer feat. guest", the directory is "Singer"
    assert!(FsLibrarySource::artist_dir_matches("Singer", "singer feat. guest"));
    // the directory names more than the track does
    assert!(FsLibrarySource::artist_dir_matches("Singer and Band", "singer"));
    assert!(!FsLibrarySource::artist_dir_matches("Other", "singer"));
    assert!(!FsLibrarySource::artist_dir_matches("inger", "singer"));
}

#[test]
fn album_directory_fits_by_name() {
    assert!(FsLibrarySource::album_dir_matches("RECORD", &Some("record".to_string())));
    assert!(!FsLibrarySource::album_dir_matches("Record 2", &Some("record".to_string())));
    assert!(!FsLibrarySource::album_dir_matches("Rec", &Some("record".to_string())));
    assert!(FsLibrarySource::album_dir_matches("anything", &None));
}

#[test]
fn file_fits_by_the_title_in_its_name() {
    let s = source();
    assert!(s.track_file_matches("01 - My Song.flac", "my song"));
    assert!(s.track_file_matches("7.MY SONG.mp3", "my song"));
    // the name stands in the file's name, but is not its title
    assert!(!s.track_file_matches("01 - My Song (Live).flac", "my song"));
    assert!(!s.track_file_matches("02 - Not My Song.flac", "my song"));
    // the name does not stand in the file's name at all
    assert!(!s.track_file_matches("03 - Other.flac", "my song"));
    // the pattern does not match
    assert!(!s.track_file_matches("My Song.flac", "my song"));
}

#[test]
fn file_pattern_without_a_group_fits_nothing() {
    let s = FsLibrarySource::new(MusicLibConfig {
        path: "/music".to_string(),
        path_replacements: vec![],
        file_regex: r"^.*$".to_string(),
    });
    assert!(!s.track_file_matches("my song", "my song"));
    let s = FsLibrarySource::new(MusicLibConfig {
        path: "/music".to_string(),
        path_replacements: vec![],
        file_regex: r"(".to_string(),
    });
    assert!(!s.track_file_matches("my song", "my song"));
}

#[test]
fn first_file_of_the_first_directory_with_files_is_taken() {
    let found = vec![
        vec![],
        vec!["/music/a/r/1.flac".to_string(), "/music/a/r/2.flac".to_string()],
        vec!["/music/a/s/3.flac".to_string()],
    ];
    assert_eq!(FsLibrarySource::first_match(&found), Some("/music/a/r/1.flac".to_string()));
    assert_eq!(FsLibrarySource::first_match(&vec![]), None);
    assert_eq!(FsLibrarySource::first_match(&vec![vec![], vec![]]), None);
}

#[test]
fn lookup_without_a_file_fails() {
    let t = track("Song", Some("Singer"), None);
    assert_eq!(source().lookup_track(t, None, None, true), Err(LookupError::NotFound));
}

#[test]
fn file_without_tags_is_recorded() {
    let t = track("Song", Some("Singer"), None);
    let mut expected = track("Song", Some("Singer"), None);
    expected.file = Some("/music/singer/r/1.flac".to_string());
    assert_eq!(
        source().lookup_track(t, Some("/music/singer/r/1.flac".to_string()), None, true),
        Ok(expected)
    );
}

#[test]
fn tags_override_when_replacing() {
    let mut t = track("Song", Some("Singer"), None);
    t.mbid = Some("rec-1".to_string());
    let result = source()
        .lookup_track(t, Some("/p.flac".to_string()), Some(file_tags()), true)
        .unwrap();
    let expected = UnprocessedTrack {
        mbid: Some("rec-9".to_string()),
        name: "Tagged Song".to_string(),
        artist: Some(UnprocessedArtist {
            mbid: Some("art-9".to_string()),
            name: "Tagged Singer".to_string(),
        }),
        album: Some(UnprocessedAlbum {
            mbid: Some("alb-9".to_string()),
            name: "Tagged Record".to_string(),
            artist: Some(UnprocessedArtist { mbid: None, name: "Tagged Band".to_string() }),
        }),
        file: Some("/p.flac".to_string()),
        beatevents: None,
    };
    assert_eq!(result, expected);
}

#[test]
fn tags_fill_gaps_when_not_replacing() {
    let mut t = track("Song", Some("Singer"), None);
    t.mbid = Some("rec-1".to_string());
    let result = source()
        .lookup_track(t, Some("/p.flac".to_string()), Some(file_tags()), false)
        .unwrap();
    let expected = UnprocessedTrack {
        mbid: Some("rec-1".to_string()),
        name: "Song".to_string(),
        artist: Some(UnprocessedArtist {
            mbid: Some("art-9".to_string()),
            name: "Singer".to_string(),
        }),
        album: Some(UnprocessedAlbum {
            mbid: Some("alb-9".to_string()),
            name: "Tagged Record".to_string(),
            artist: Some(UnprocessedArtist { mbid: None, name: "Tagged Band".to_string() }),
        }),
        file: Some("/p.flac".to_string()),
        beatevents: None,
    };
    assert_eq!(result, expected);
}

#[test]
fn tags_without_title_take_the_rewritten_name() {
    let mut t = track("Song (Live)", None, None);
    t.file = Some("/p.flac".to_string());
    let mut tags = Metadata::new();
    tags.mb_track = Some("rec-9".to_string());
    tags.album_artist = Some("Band".to_string());
    let result = source().lookup_track(t, None, Some(tags), true).unwrap();
    let expected = UnprocessedTrack {
        mbid: Some("rec-9".to_string()),
        name: "Song".to_string(),
        artist: None,
        album: None,
        file: Some("/p.flac".to_string()),
        beatevents: None,
    };
    assert_eq!(result, expected);
}

#[test]
fn entries_of_the_other_kind_are_passed_over() {
    // looking for directories
    assert!(FsLibrarySource::entry_wanted(true, false, false));
    assert!(!FsLibrarySource::entry_wanted(false, true, false));
    // looking for files
    assert!(FsLibrarySource::entry_wanted(false, true, true));
    assert!(!FsLibrarySource::entry_wanted(true, false, true));
    // neither a directory nor a file
    assert!(FsLibrarySource::entry_wanted(false, false, true));
    assert!(FsLibrarySource::entry_wanted(false, false, false));
}

#[test]
fn track_with_neither_file_nor_artist_is_not_found() {
    let t = track("Song", None, Some("Record"));
    assert_eq!(
        source().lookup_track(t, Some("/p.flac".to_string()), Some(file_tags()), true),
        Err(LookupError::NotFound)
    );
    let t = track("Song", None, None);
    assert_eq!(source().lookup_track(t, None, None, false), Err(LookupError::NotFound));
}

#[test]
fn known_file_is_kept_whatever_the_search_says() {
    let mut t = track("Song", None, None);
    t.file = Some("/known.flac".to_string());
    let mut expected = track("Song", None, None);
    expected.file = Some("/known.flac".to_string());
    assert_eq!(
        source().lookup_track(t, Some("/other.flac".to_string()), None, false),
        Ok(expected)
    );
    let mut t = track("Song", Some("Singer"), None);
    t.file = Some("/known.flac".to_string());
    let mut expected = track("Song", Some("Singer"), None);
    expected.file = Some("/known.flac".to_string());
    assert_eq!(source().lookup_track(t, None, None, true), Ok(expected));
}
