use sonorant::media::{
    art_source_from_url, percent_decode, resync_after, year_from_date, ArtSource, ArtWanted, NowPlaying, Snapshot,
    PositionClock,
};
use sonorant::time::{Duration, Instant};

fn start() -> Instant {
    Instant::from_nanos(5_000_000_000)
}

#[test]
fn the_position_runs_on_while_playing_and_holds_while_paused() {
    let start = start();
    let mut clock = PositionClock::new();
    clock.set_length(Some(Duration::from_secs(200)));
    clock.set_playing(true, start);
    clock.sync(Duration::from_secs(10), start);

    let later = start.after(Duration::from_secs(5));
    assert_eq!(clock.at(later), Some(Duration::from_secs(15)));

    // Pausing keeps what had been played, and time no longer moves it.
    clock.set_playing(false, later);
    let later_still = later.after(Duration::from_secs(30));
    assert_eq!(clock.at(later_still), Some(Duration::from_secs(15)));

    // Playing again carries on from there.
    clock.set_playing(true, later_still);
    assert_eq!(
        clock.at(later_still.after(Duration::from_secs(2))),
        Some(Duration::from_secs(17))
    );
}

#[test]
fn the_position_never_runs_past_the_end() {
    let start = start();
    let mut clock = PositionClock::new();
    clock.set_playing(true, start);
    clock.set_length(Some(Duration::from_secs(30)));
    clock.sync(Duration::from_secs(29), start);
    assert_eq!(
        clock.at(start.after(Duration::from_secs(10))),
        Some(Duration::from_secs(30))
    );
}

#[test]
fn a_seek_replaces_the_reading_rather_than_adding_to_it() {
    let start = start();
    let mut clock = PositionClock::new();
    clock.set_playing(true, start);
    clock.sync(Duration::from_secs(100), start);
    let at = start.after(Duration::from_secs(4));
    clock.sync(Duration::from_secs(5), at);
    assert_eq!(
        clock.at(at.after(Duration::from_secs(1))),
        Some(Duration::from_secs(6))
    );
}

#[test]
fn only_a_playing_track_is_resynced() {
    let start = start();
    let mut clock = PositionClock::new();
    assert!(clock.needs_resync(start), "with no reading, ask");
    clock.set_playing(true, start);
    clock.sync(Duration::zero(), start);
    assert!(!clock.needs_resync(start.after(Duration::from_millis(500))));
    assert!(clock.needs_resync(start.after(resync_after())));
    clock.set_playing(false, start.after(resync_after()));
    assert!(!clock.needs_resync(start.after(Duration::from_secs(60))));
}

#[test]
fn a_track_change_is_the_players_id_when_it_has_one() {
    let a = NowPlaying {
        track_id: "/org/mpris/track/1".into(),
        title: "One".into(),
        ..NowPlaying::default()
    };
    let mut b = a.clone();
    b.title = "One (remastered)".into();
    assert!(!a.is_new_track(&b), "the same id is the same track");
    b.track_id = "/org/mpris/track/2".into();
    assert!(a.is_new_track(&b));
}

#[test]
fn without_an_id_a_track_change_is_the_title_and_album() {
    let a = NowPlaying {
        title: "One".into(),
        album: "Record".into(),
        ..NowPlaying::default()
    };
    let mut b = a.clone();
    b.artists = vec!["Someone".into()];
    assert!(!a.is_new_track(&b), "artists arriving late is not a change");
    b.title = "Two".into();
    assert!(a.is_new_track(&b));
}

#[test]
fn years_come_out_of_whatever_the_player_sent() {
    assert_eq!(year_from_date("2004-03-15T00:00:00Z"), "2004");
    assert_eq!(year_from_date("1978"), "1978");
    assert_eq!(year_from_date(""), "");
    assert_eq!(year_from_date("unknown"), "");
    assert_eq!(year_from_date("78"), "", "two digits is not a year");
}

#[test]
fn art_urls_become_files_or_fetches() {
    assert_eq!(
        art_source_from_url("file:///home/me/Music/cover%20art.jpg"),
        Some(ArtSource::File("/home/me/Music/cover art.jpg".into()))
    );
    assert_eq!(
        art_source_from_url("file://localhost/home/me/a.png"),
        Some(ArtSource::File("/home/me/a.png".into()))
    );
    assert_eq!(
        art_source_from_url("file:///C:/Users/me/a.png"),
        Some(ArtSource::File("C:/Users/me/a.png".into())),
        "a Windows path loses the slash the URL added"
    );
    assert_eq!(
        art_source_from_url("https://i.scdn.co/image/abc"),
        Some(ArtSource::Url("https://i.scdn.co/image/abc".into()))
    );
    assert_eq!(art_source_from_url("data:image/png;base64,AAA"), None);
}

#[test]
fn a_stray_percent_is_kept_rather_than_eating_the_next_character() {
    assert_eq!(percent_decode("/100%/a.png"), "/100%/a.png");
    assert_eq!(percent_decode("/a%2"), "/a%2");
}

#[test]
fn the_same_bytes_key_the_same_and_different_ones_do_not() {
    let a = ArtSource::Bytes(vec![1u8, 2, 3, 4]);
    let b = ArtSource::Bytes(vec![1u8, 2, 3, 4]);
    let c = ArtSource::Bytes(vec![1u8, 2, 3, 5]);
    assert_eq!(a.key(), b.key());
    assert_ne!(a.key(), c.key());
}

fn fnv_sampled(b: &[u8]) -> u64 {
    let mut hash: u64 = 0xcbf2_9ce4_8422_2325;
    for chunk in b.chunks(64) {
        for &byte in chunk.iter().take(8) {
            hash ^= byte as u64;
            hash = hash.wrapping_mul(0x100_0000_01b3);
        }
    }
    hash
}

#[test]
fn keys_name_the_kind_of_source() {
    assert_eq!(ArtSource::File("/a/b.png".into()).key(), "file:/a/b.png");
    assert_eq!(ArtSource::Url("https://x/y".into()).key(), "url:https://x/y");
    let bytes: Vec<u8> = (0..200u32).map(|i| (i * 7) as u8).collect();
    let want = format!("bytes:200:{:016x}", fnv_sampled(&bytes));
    assert_eq!(ArtSource::Bytes(bytes).key(), want);
    assert_eq!(ArtSource::Bytes(Vec::new()).key(), "bytes:0:cbf29ce484222325");
}

#[test]
fn only_the_head_of_each_chunk_is_digested() {
    let mut a = vec![0u8; 128];
    let mut b = a.clone();
    a[20] = 1;
    assert_eq!(ArtSource::Bytes(a.clone()).key(), ArtSource::Bytes(vec![0u8; 128]).key());
    b[64] = 1;
    assert_ne!(ArtSource::Bytes(b).key(), ArtSource::Bytes(vec![0u8; 128]).key());
}

#[test]
fn artists_go_on_one_line() {
    let mut t = NowPlaying::default();
    assert_eq!(t.artists_line(), "");
    t.artists = vec!["A".into()];
    assert_eq!(t.artists_line(), "A");
    t.artists = vec!["A".into(), "B".into(), "C".into()];
    assert_eq!(t.artists_line(), "A, B, C");
}

#[test]
fn an_id_on_either_side_decides() {
    let a = NowPlaying { track_id: "x".into(), ..NowPlaying::default() };
    let b = NowPlaying::default();
    assert!(a.is_new_track(&b));
    assert!(b.is_new_track(&a));
    assert!(!b.is_new_track(&b));
}

#[test]
fn a_paused_clock_reads_the_same_whenever_asked() {
    let start = start();
    let mut clock = PositionClock::new();
    clock.sync(Duration::from_secs(7), start);
    assert_eq!(clock.at(start.after(Duration::from_secs(100))), Some(Duration::from_secs(7)));
    assert_eq!(clock.at(start), Some(Duration::from_secs(7)));
    assert_eq!(PositionClock::new().at(start), None);
}

#[test]
fn clearing_forgets_the_reading_but_not_the_play_state() {
    let start = start();
    let mut clock = PositionClock::new();
    clock.set_playing(true, start);
    clock.sync(Duration::from_secs(3), start);
    clock.set_length(Some(Duration::from_secs(9)));
    clock.clear();
    assert_eq!(clock.at(start), None);
    assert_eq!(clock.length(), None);
    clock.sync(Duration::from_secs(1), start);
    assert_eq!(clock.at(start.after(Duration::from_secs(1))), Some(Duration::from_secs(2)));
}

#[test]
fn a_reading_heard_after_now_does_not_run_backwards() {
    let start = start();
    let mut clock = PositionClock::new();
    clock.set_playing(true, start);
    clock.sync(Duration::from_secs(4), start.after(Duration::from_secs(2)));
    assert_eq!(clock.at(start), Some(Duration::from_secs(4)));
}

#[test]
fn escapes_decode_on_bytes() {
    assert_eq!(percent_decode("%41%2f%2F"), "A//");
    assert_eq!(percent_decode("caf%C3%A9"), "café");
    assert_eq!(percent_decode("%FF"), "\u{FFFD}");
    assert_eq!(percent_decode("%4"), "%4");
    assert_eq!(percent_decode("%zz"), "%zz");
    assert_eq!(percent_decode(""), "");
}

#[test]
fn only_file_and_web_urls_are_taken() {
    assert_eq!(art_source_from_url("file://server/share/a.png"), None);
    assert_eq!(art_source_from_url("file://LOCALHOST/a.png"), Some(ArtSource::File("/a.png".into())));
    assert_eq!(art_source_from_url("file://"), None);
    assert_eq!(art_source_from_url("http://x/a.png"), Some(ArtSource::Url("http://x/a.png".into())));
    assert_eq!(art_source_from_url("ftp://x/a.png"), None);
    assert_eq!(art_source_from_url("file:///1:/a"), Some(ArtSource::File("/1:/a".into())));
}

#[test]
fn years_need_exactly_four_leading_digits() {
    assert_eq!(year_from_date("20041"), "");
    assert_eq!(year_from_date("2004"), "2004");
    assert_eq!(year_from_date("0999-1"), "0999");
}

#[test]
fn the_deck_only_gets_a_position_when_the_length_is_real() {
    let start = start();
    let mut clock = PositionClock::new();
    clock.sync(Duration::from_secs(3), start);
    assert_eq!(clock.deck_position(start), None, "no length yet");
    clock.set_length(Some(Duration::from_secs(0)));
    assert_eq!(clock.deck_position(start), None, "a live stream has none");
    clock.set_length(Some(Duration::from_secs(60)));
    assert_eq!(
        clock.deck_position(start),
        Some((Duration::from_secs(3), Duration::from_secs(60)))
    );
}

#[test]
fn artwork_is_asked_for_once_and_stale_answers_are_dropped() {
    let mut wanted = ArtWanted::new();
    let a = ArtSource::File("/music/a.jpg".to_string());
    let b = ArtSource::Url("https://example.org/b.png".to_string());
    assert_eq!(wanted.want(&a).as_deref(), Some("file:/music/a.jpg"));
    assert_eq!(wanted.want(&a), None, "already being loaded");
    assert!(wanted.keeps("file:/music/a.jpg"));
    assert_eq!(wanted.want(&b).as_deref(), Some("url:https://example.org/b.png"));
    assert!(!wanted.keeps("file:/music/a.jpg"), "a replaced picture is thrown away");
    assert!(wanted.keeps("url:https://example.org/b.png"));
    wanted.want_nothing();
    assert!(!wanted.keeps("url:https://example.org/b.png"));
    assert_eq!(wanted.want(&b).as_deref(), Some("url:https://example.org/b.png"));
}

#[test]
fn an_empty_snapshot_has_no_player_and_nothing_to_do() {
    let s = Snapshot::default();
    assert!(s.player.is_none());
    assert_eq!(s.track, NowPlaying::default());
    assert!(!s.controls.play_pause && !s.controls.seek);
    assert!(s.position.is_none() && s.players.is_empty());
    assert_eq!(s.generation, 0);
}
