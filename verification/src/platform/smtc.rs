//! The system media transport controls: what the app reads out of a session, reduced to
//! plain values.

use vstd::prelude::*;
use crate::media::{self, NowPlaying, Player};
use crate::platform::windows::{self, AudioApp};
use crate::text;
use crate::time::Duration;

verus! {

/// The player a session's app user model id stands for: its readable name, and the
/// process of the audio app that matches it, where one does.
pub fn player_of(app_id: &str, apps: &[AudioApp]) -> (p: Player)
    ensures
        p.id@ == app_id@,
        p.name@ == windows::spec_display_name(app_id@),
        windows::spec_display_name(app_id@).len() == 0 ==> p.pid is None,
        windows::spec_display_name(app_id@).len() > 0 ==> match windows::first_named(apps@, windows::spec_display_name(app_id@), 0) {
            Some(i) => p.pid == Some(apps@[i].pid),
            None => p.pid is None,
        },
{
    let v = text::chars_of(app_id);
    let pid = match windows::match_app_id(apps, app_id) {
        Some(a) => Some(a.pid),
        None => None,
    };
    Player { id: text::string_of(&v), name: windows::display_name(app_id), pid }
}

/// What a thumbnail belongs to: the title, the album and the artists, so it is read once
/// a track rather than once a second.
pub open spec fn spec_art_key(t: NowPlaying) -> Seq<char> {
    t.title@ + seq!['\u{1}'] + t.album@ + seq!['\u{1}']
        + media::joined(t.artists@.map_values(|a: String| a@), ", "@)
}

pub fn art_key(track: &NowPlaying) -> (k: String)
    ensures
        k@ == spec_art_key(*track),
{
    let mut s = String::new();
    text::push_str(&mut s, track.title.as_str());
    text::push_char(&mut s, '\u{1}');
    text::push_str(&mut s, track.album.as_str());
    text::push_char(&mut s, '\u{1}');
    let artists = track.artists_line();
    text::push_str(&mut s, artists.as_str());
    s
}

/// Seconds between 1601-01-01, where Windows counts from, and the Unix epoch.
pub open spec fn epoch_offset_secs() -> nat {
    11_644_473_600
}

/// Now in Windows' 100-nanosecond ticks since 1601, from nanoseconds since the Unix
/// epoch. The tick count is taken to 64 bits as `as` does, and the sum must fit.
pub fn windows_ticks(unix_nanos: u128) -> (t: u64)
    requires
        (unix_nanos / 100) % 0x1_0000_0000_0000_0000 + epoch_offset_secs() * 10_000_000 <= u64::MAX,
    ensures
        t == (unix_nanos / 100) % 0x1_0000_0000_0000_0000 + epoch_offset_secs() * 10_000_000,
{
    let ticks = unix_nanos / 100;
    let low = (ticks % 0x1_0000_0000_0000_0000) as u64;
    low + 11_644_473_600u64 * 10_000_000
}

/// How long ago a session's `LastUpdatedTime` was, given now in the same ticks; nothing
/// for a time that is unset, in the future, or more than an hour old: a reading from
/// another era is a clock that has been changed under us, or a player writing
/// nonsense, and says nothing about when.
pub open spec fn spec_reading_age(universal_time: i64, now_ticks: u64) -> Option<nat> {
    if universal_time <= 0 || (now_ticks as int) < universal_time {
        None
    } else {
        let age_ticks = (now_ticks - universal_time) as nat;
        let nanos = if age_ticks * 100 <= u64::MAX { age_ticks * 100 } else { u64::MAX as nat };
        if nanos > 3600 * 1_000_000_000 { None } else { Some(nanos) }
    }
}

pub fn reading_age(universal_time: i64, now_ticks: u64) -> (r: Option<Duration>)
    ensures
        match r {
            Some(d) => spec_reading_age(universal_time, now_ticks) == Some(d@),
            None => spec_reading_age(universal_time, now_ticks) is None,
        },
{
    if universal_time <= 0 {
        return None;
    }
    let then = universal_time as u64;
    if now_ticks < then {
        return None;
    }
    let age_ticks = now_ticks - then;
    let nanos: u64 = if age_ticks <= u64::MAX / 100 { age_ticks * 100 } else { u64::MAX };
    if nanos > 3_600_000_000_000 {
        return None;
    }
    Some(Duration::from_nanos(nanos))
}

} // verus!

verus! {

/// Which session to follow, given the app ids of the sessions there are and the one the
/// system calls current: the pinned player's first session, or none when it has gone,
/// rather than something the user did not ask for; otherwise the current one.
pub fn pick_session(ids: &Vec<String>, follow: &media::Follow, current: Option<usize>) -> (r: Option<usize>)
    ensures
        match follow {
            media::Follow::Pinned(p) => match r {
                Some(i) => i < ids@.len() && ids@[i as int]@ == p@ && forall|j: int|
                    0 <= j < i ==> #[trigger] ids@[j]@ != p@,
                None => forall|j: int| 0 <= j < ids@.len() ==> #[trigger] ids@[j]@ != p@,
            },
            media::Follow::Whichever => r == current,
        },
{
    match follow {
        media::Follow::Pinned(p) => {
            let mut i: usize = 0;
            while i < ids.len()
                invariant
                    i <= ids.len(),
                    *follow == media::Follow::Pinned(*p),
                    forall|j: int| 0 <= j < i ==> #[trigger] ids@[j]@ != p@,
                decreases ids.len() - i,
            {
                if text::same_chars(&ids[i], p.as_str()) {
                    return Some(i);
                }
                i = i + 1;
            }
            None
        },
        media::Follow::Whichever => current,
    }
}

} // verus!
