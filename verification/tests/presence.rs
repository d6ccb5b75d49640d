use sakanaa_web::discord::{discord_img_url, DeviceType, DiscordAssets, DiscordUser, OnlineStatus};
use sakanaa_web::lastfm::{
    now_playing, LastFMAlbum, LastFMArtist, LastFMPeriod, LastFMRecentAlbum, LastFMTrack,
    RecentTrack,
};
use sakanaa_web::types::{UnprocessedAlbum, UnprocessedArtist, UnprocessedTrack};

fn lastfm_artist() -> LastFMArtist {
    LastFMArtist {
        name: "Singer".to_string(),
        playcount: Some(3),
        mbid: Some("art-1".to_string()),
        url: "https://example.org/singer".to_string(),
    }
}

fn lastfm_track(name: &str) -> LastFMTrack {
    LastFMTrack {
        name: name.to_string(),
        playcount: None,
        mbid: None,
        url: "https://example.org/song".to_string(),
        artist: lastfm_artist(),
    }
}

fn recent(name: &str, nowplaying: Option<&str>) -> RecentTrack {
    RecentTrack {
        track: lastfm_track(name),
        album: LastFMRecentAlbum { name: "Record".to_string(), mbid: Some("alb-1".to_string()) },
        nowplaying: nowplaying.map(|s| s.to_string()),
    }
}

#[test]
fn external_assets_lie_with_the_media_proxy() {
    assert_eq!(
        discord_img_url("mp:external/abc/https/example.org/a.png", "42"),
        "https://media.discordapp.net/external/abc/https/example.org/a.png"
    );
    assert_eq!(discord_img_url("mp:external/", "42"), "https://media.discordapp.net/external/");
}

#[test]
fn other_assets_lie_with_the_application() {
    assert_eq!(
        discord_img_url("8812", "42"),
        "https://cdn.discordapp.com/app-assets/42/8812"
    );
    assert_eq!(
        discord_img_url("mp:externa", "42"),
        "https://cdn.discordapp.com/app-assets/42/mp:externa"
    );
}

#[test]
fn status_words_are_read() {
    assert_eq!(OnlineStatus::new("online", true, true), OnlineStatus::Online(DeviceType::Desktop));
    assert_eq!(OnlineStatus::new("idle", false, true), OnlineStatus::Idle(DeviceType::Mobile));
    assert_eq!(
        OnlineStatus::new("dnd", false, false),
        OnlineStatus::DoNotDisturb(DeviceType::Unknown)
    );
    assert_eq!(OnlineStatus::new("invisible", true, false), OnlineStatus::Invisible);
    assert_eq!(OnlineStatus::new("offline", true, false), OnlineStatus::Offline);
    assert_eq!(OnlineStatus::new("Online", true, false), OnlineStatus::Offline);
    assert_eq!(OnlineStatus::new("", true, false), OnlineStatus::Offline);
}

#[test]
fn periods_have_the_words_of_the_service() {
    assert_eq!(LastFMPeriod::Overall.to_string(), "overall");
    assert_eq!(LastFMPeriod::SevenDay.to_string(), "7day");
    assert_eq!(LastFMPeriod::OneMonth.to_string(), "1month");
    assert_eq!(LastFMPeriod::ThreeMonth.to_string(), "3month");
    assert_eq!(LastFMPeriod::SixMonth.to_string(), "6month");
    assert_eq!(LastFMPeriod::OneYear.to_string(), "12month");
}

#[test]
fn reported_records_become_partial_records() {
    assert_eq!(
        UnprocessedArtist::from(lastfm_artist()),
        UnprocessedArtist { mbid: Some("art-1".to_string()), name: "Singer".to_string() }
    );
    let mut t = lastfm_track("Song");
    t.mbid = Some("rec-1".to_string());
    assert_eq!(
        UnprocessedTrack::from(t),
        UnprocessedTrack {
            mbid: Some("rec-1".to_string()),
            name: "Song".to_string(),
            artist: Some(UnprocessedArtist {
                mbid: Some("art-1".to_string()),
                name: "Singer".to_string()
            }),
            album: None,
            file: None,
            beatevents: None,
        }
    );
    let a = LastFMAlbum {
        name: "Record".to_string(),
        playcount: Some(1),
        mbid: None,
        url: String::new(),
        artist: lastfm_artist(),
    };
    assert_eq!(
        UnprocessedAlbum::from(a),
        UnprocessedAlbum {
            mbid: None,
            name: "Record".to_string(),
            artist: Some(UnprocessedArtist {
                mbid: Some("art-1".to_string()),
                name: "Singer".to_string()
            }),
        }
    );
}

#[test]
fn the_track_that_plays_now_is_the_first_marked_so() {
    let tracks = vec![
        recent("Earlier", None),
        recent("Paused", Some("false")),
        recent("Now", Some("true")),
        recent("Also", Some("true")),
    ];
    let expected = UnprocessedTrack {
        mbid: None,
        name: "Now".to_string(),
        artist: Some(UnprocessedArtist {
            mbid: Some("art-1".to_string()),
            name: "Singer".to_string(),
        }),
        album: Some(UnprocessedAlbum {
            mbid: Some("alb-1".to_string()),
            name: "Record".to_string(),
            artist: None,
        }),
        file: None,
        beatevents: None,
    };
    assert_eq!(now_playing(tracks), Some(expected));
}

#[test]
fn nothing_plays_now() {
    assert_eq!(now_playing(vec![]), None);
    assert_eq!(now_playing(vec![recent("Earlier", None), recent("Paused", Some("True"))]), None);
}

#[test]
fn users_and_assets_are_plain_records() {
    let u = DiscordUser {
        username: "fish".to_string(),
        public_flags: 0,
        id: "1".to_string(),
        avatar: None,
    };
    assert_eq!(u.username, "fish");
    let a = DiscordAssets {
        large_image: Some("mp:external/x".to_string()),
        large_text: None,
        small_image: None,
        small_text: None,
    };
    assert_eq!(
        discord_img_url(a.large_image.as_ref().unwrap(), "7"),
        "https://media.discordapp.net/external/x"
    );
}
