use sonorant::media::sort_players;
use sonorant::platform::smtc::pick_session;
use sonorant::platform::windows::{is_new_app, sort_apps};
use sonorant::platform::linux;
use sonorant::platform::windows::display_name;

#[test]
fn the_default_is_dark_with_no_accent() {
    let a = linux::Appearance::default();
    assert!(a.dark);
    assert_eq!(a.accent, None);
}

#[test]
fn app_ids_become_names_worth_showing() {
    assert_eq!(display_name("MusicBee.exe"), "MusicBee");
    assert_eq!(display_name("Spotify.exe"), "Spotify");
    assert_eq!(
        display_name("SpotifyAB.SpotifyMusic_zpdnekdrzrea0!Spotify"),
        "Spotify"
    );
    assert_eq!(
        display_name("Microsoft.ZuneMusic_8wekyb3d8bbwe!Microsoft.ZuneMusic"),
        "ZuneMusic"
    );
    assert_eq!(display_name("firefox.exe"), "firefox");
    assert_eq!(display_name(""), "");
}

use sonorant::media::{ArtSource, Follow, PlayState, Player};
use sonorant::platform::linux::{appearance_from, SinkGraph};
use sonorant::platform::mpris::{
    controls_of, identity_of, mpris_names, number_of, pick, play_state, strings_of, track_from,
    BusValue,
};
use sonorant::platform::smtc::{art_key, player_of, reading_age, windows_ticks};
use sonorant::platform::windows::{match_app_id, AudioApp};
use sonorant::settings::Argb;
use sonorant::time::Duration;

fn graph(ours: u32, sinks: &[u32], links: &[(u32, u32)]) -> SinkGraph<u32> {
    SinkGraph {
        ours: Some(ours),
        sinks: sinks.iter().map(|&s| (s, Some(s * 10))).collect(),
        links: links.to_vec(),
    }
}

#[test]
fn a_monitor_capture_finds_the_sink_it_is_on() {
    // The sink feeds us directly: one hop.
    let g = graph(7, &[3], &[(3, 7)]);
    assert_eq!(g.sink(), Some(3));
}

#[test]
fn capturing_one_app_finds_the_sink_that_app_plays_through() {
    // The app's stream feeds us and also feeds the sink: two hops, and the hop that is
    // not a sink must not be mistaken for one.
    let g = graph(7, &[3], &[(5, 7), (5, 3)]);
    assert_eq!(g.sink(), Some(3));
}

#[test]
fn nothing_is_found_before_the_graph_has_answered() {
    let mut g = graph(7, &[3], &[(3, 7)]);
    g.ours = None;
    assert_eq!(g.sink(), None);
    // A sink that has not reported yet is found but has no figure.
    let mut g = graph(7, &[3], &[(3, 7)]);
    g.sinks[0] = (3, None);
    assert_eq!(g.sink(), Some(3));
    assert_eq!(g.latency(), None);
    // Nothing feeding us at all: a stream that is connected to nowhere.
    assert_eq!(graph(7, &[3], &[(3, 9)]).sink(), None);
}

#[test]
fn the_sink_reports_its_own_figure() {
    let g = graph(7, &[3, 4], &[(5, 7), (5, 4)]);
    assert_eq!(g.sink(), Some(4));
    assert_eq!(g.latency(), Some(40));
}

#[test]
fn the_portal_decides_dark_and_accent() {
    let a = appearance_from(Some(2), Some((0x10, 0x20, 0x30)));
    assert!(!a.dark);
    assert_eq!(a.accent, Some(Argb(0xFF10_2030)));
    assert!(appearance_from(Some(1), None).dark);
    assert!(appearance_from(Some(0), None).dark);
    assert!(appearance_from(None, None).dark);
    assert_eq!(appearance_from(None, None).accent, None);
}

#[test]
fn app_ids_find_the_process_playing_them() {
    let apps = vec![
        AudioApp { pid: 1, name: "firefox".into() },
        AudioApp { pid: 2, name: "spotify".into() },
        AudioApp { pid: 3, name: "Spotify".into() },
    ];
    assert_eq!(match_app_id(&apps, "SpotifyAB.SpotifyMusic_x!Spotify").map(|a| a.pid), Some(2));
    assert_eq!(match_app_id(&apps, "MusicBee.exe"), None);
    assert_eq!(match_app_id(&apps, ""), None);
    let p = player_of("Firefox.EXE", &apps);
    assert_eq!((p.id.as_str(), p.name.as_str(), p.pid), ("Firefox.EXE", "Firefox", Some(1)));
}

fn s(v: &str) -> BusValue {
    BusValue::Str(v.into())
}

#[test]
fn a_track_is_read_out_of_its_metadata() {
    let m = vec![
        ("mpris:trackid".to_string(), BusValue::ObjectPath("/t/1".into())),
        ("xesam:title".to_string(), s("One")),
        ("xesam:artist".to_string(), BusValue::StrList(vec!["".into(), "A".into(), "B".into()])),
        ("xesam:album".to_string(), s("Record")),
        ("xesam:composer".to_string(), s("C")),
        ("xesam:contentCreated".to_string(), s("2004-03-15T00:00:00Z")),
        ("mpris:length".to_string(), BusValue::UInt64(3_000_000)),
        ("mpris:artUrl".to_string(), s("https://x/a.jpg")),
    ];
    let t = track_from(&m);
    assert_eq!(t.track_id, "/t/1");
    assert_eq!(t.title, "One");
    assert_eq!(t.artists, vec!["A".to_string(), "B".to_string()]);
    assert_eq!(t.album, "Record");
    assert_eq!(t.composer, "C");
    assert_eq!(t.year, "2004");
    assert_eq!(t.length, Some(Duration::from_secs(3)));
    assert_eq!(t.art, Some(ArtSource::Url("https://x/a.jpg".to_string())));
}

#[test]
fn album_artists_stand_in_and_a_live_stream_has_no_length() {
    let m = vec![
        ("mpris:trackid".to_string(), s("plain")),
        ("xesam:albumArtist".to_string(), s("Band")),
        ("mpris:length".to_string(), BusValue::Int64(0)),
        ("xesam:title".to_string(), BusValue::Int32(3)),
    ];
    let t = track_from(&m);
    assert_eq!(t.track_id, "plain");
    assert_eq!(t.artists, vec!["Band".to_string()]);
    assert_eq!(t.length, None);
    assert_eq!(t.title, "");
    assert_eq!(t.art, None);
    assert!(strings_of(&m, "missing").is_empty());
    assert_eq!(number_of(&vec![("n".to_string(), BusValue::UInt64(u64::MAX))], "n"), Some(-1));
    assert_eq!(number_of(&vec![("n".to_string(), BusValue::Int32(-5))], "n"), Some(-5));
}

#[test]
fn controls_answer_to_can_control() {
    let all = vec![
        ("CanPlay".to_string(), BusValue::Bool(true)),
        ("CanGoNext".to_string(), BusValue::Bool(true)),
        ("PlaybackStatus".to_string(), s("Paused")),
    ];
    let c = controls_of(&all);
    assert!(c.play_pause && c.next && !c.previous && !c.seek);
    assert_eq!(play_state(&all), PlayState::Paused);
    let mut off = all.clone();
    off.push(("CanControl".to_string(), BusValue::Bool(false)));
    let c = controls_of(&off);
    assert!(!c.play_pause && !c.next);
    assert_eq!(play_state(&vec![("PlaybackStatus".to_string(), s("playing"))]), PlayState::Stopped);
}

fn player(id: &str) -> Player {
    Player { id: id.into(), name: id.into(), pid: None }
}

#[test]
fn the_player_followed_is_the_pinned_one_or_the_one_playing() {
    let players = vec![player("a"), player("b"), player("c")];
    let states = vec![
        ("a".to_string(), PlayState::Paused),
        ("b".to_string(), PlayState::Stopped),
        ("c".to_string(), PlayState::Playing),
    ];
    assert_eq!(pick(&players, &states, &Follow::Whichever).map(|p| p.id), Some("c".into()));
    assert_eq!(pick(&players, &states[..2].to_vec(), &Follow::Whichever).map(|p| p.id), Some("a".into()));
    assert_eq!(pick(&players, &Vec::new(), &Follow::Whichever), None);
    assert_eq!(pick(&players, &states, &Follow::Pinned("b".into())).map(|p| p.id), Some("b".into()));
    assert_eq!(pick(&players, &states, &Follow::Pinned("gone".into())), None);
}

#[test]
fn players_are_named_from_the_bus() {
    let names = vec![
        "org.freedesktop.DBus".to_string(),
        "org.mpris.MediaPlayer2.vlc".to_string(),
        "org.mpris.MediaPlayer2.spotify".to_string(),
    ];
    let kept = mpris_names(&names);
    assert_eq!(kept, vec![names[1].clone(), names[2].clone()]);
    assert_eq!(identity_of(None, &kept[0]), "vlc");
    assert_eq!(identity_of(Some(String::new()), &kept[1]), "spotify");
    assert_eq!(identity_of(Some("VLC media player".into()), &kept[0]), "VLC media player");
}

#[test]
fn smtc_readings_are_dated_from_their_ticks() {
    assert_eq!(reading_age(0, 100), None);
    assert_eq!(reading_age(200, 100), None);
    assert_eq!(reading_age(100, 150), Some(Duration::from_nanos(5000)));
    assert_eq!(reading_age(1, 36_000_000_001), Some(Duration::from_secs(3600)));
    assert_eq!(reading_age(1, 36_000_000_002), None);
    assert_eq!(windows_ticks(0), 116_444_736_000_000_000);
    assert_eq!(windows_ticks(1_000), 116_444_736_000_000_010);
}

#[test]
fn thumbnails_are_keyed_by_the_track() {
    let mut t = sonorant::media::NowPlaying::default();
    t.title = "T".into();
    t.album = "A".into();
    t.artists = vec!["X".into(), "Y".into()];
    assert_eq!(art_key(&t), "T\u{1}A\u{1}X, Y");
}

#[test]
fn reading_the_desktop_never_fails() {
    // A runner with no desktop has no answers from UISettings: that takes the default
    // rather than failing.
    let a = sonorant::platform::windows::appearance_from(None, None);
    if let Some(accent) = a.accent {
        assert_eq!(accent.a(), 255, "an accent colour is opaque");
    }
    assert!(a.dark);
}

#[test]
fn windows_accents_pack_alpha_first() {
    let a = sonorant::platform::windows::appearance_from(Some((255, 0x10, 0x20, 0x30)), Some(false));
    assert_eq!(a.accent, Some(Argb(0xFF10_2030)));
    assert_eq!(a.accent.unwrap().a(), 255);
    assert!(!a.dark);
    let b = sonorant::platform::windows::appearance_from(Some((0x80, 1, 2, 3)), None);
    assert_eq!(b.accent, Some(Argb(0x8001_0203)));
    assert!(b.dark);
}

#[test]
fn audio_sessions_list_each_process_once_sorted_by_name() {
    let app = |pid: u32, name: &str| AudioApp { pid, name: name.to_string() };
    let listed = vec![app(40, "Spotify")];
    assert!(!is_new_app(&listed, 0), "the idle process plays nothing");
    assert!(!is_new_app(&listed, 40), "one entry per process");
    assert!(is_new_app(&listed, 41));
    let sorted = sort_apps(vec![app(3, "spotify"), app(1, "MusicBee"), app(2, "Spotify"), app(4, "chrome")]);
    let names: Vec<(u32, &str)> = sorted.iter().map(|a| (a.pid, a.name.as_str())).collect();
    assert_eq!(names, vec![(4, "chrome"), (1, "MusicBee"), (3, "spotify"), (2, "Spotify")]);
}

#[test]
fn session_players_sort_by_name_and_a_pinned_player_is_found_or_nothing() {
    let player = |id: &str, name: &str| Player { id: id.to_string(), name: name.to_string(), pid: None };
    let sorted = sort_players(vec![player("b", "spotify"), player("a", "MusicBee"), player("c", "Spotify")]);
    let ids: Vec<&str> = sorted.iter().map(|p| p.id.as_str()).collect();
    assert_eq!(ids, vec!["a", "b", "c"]);
    let sessions = vec!["Spotify.exe".to_string(), "MusicBee".to_string(), "Spotify.exe".to_string()];
    assert_eq!(pick_session(&sessions, &Follow::Pinned("Spotify.exe".to_string()), Some(1)), Some(0));
    assert_eq!(pick_session(&sessions, &Follow::Pinned("foobar2000".to_string()), Some(1)), None);
    assert_eq!(pick_session(&sessions, &Follow::Whichever, Some(1)), Some(1));
    assert_eq!(pick_session(&sessions, &Follow::Whichever, None), None);
}
