//! Reading what an MPRIS player says about itself and its track.
//!
//! The app asks the player over D-Bus with one `GetAll` and hands the answer here as
//! plain values: [`BusValue`] holds the shapes of value a player sends. Which player to
//! follow, what its controls allow, and what track it is playing are decided here.

use vstd::prelude::*;
use crate::media::{self, ArtSource, Controls, Follow, NowPlaying, PlayState, Player};
use crate::text;
use crate::time::Duration;

verus! {

/// One value of a player's properties or metadata, in the shapes players send.
#[derive(Clone, Debug, PartialEq, Eq)]
pub enum BusValue {
    Bool(bool),
    Int32(i32),
    Int64(i64),
    UInt64(u64),
    Str(String),
    ObjectPath(String),
    StrList(Vec<String>),
    /// Anything else, which nothing here reads.
    Other,
}

/// A property or metadata map: each key once, with its value.
pub type BusMap = Vec<(String, BusValue)>;

/// The value under `key`.
pub open spec fn lookup(m: Seq<(String, BusValue)>, key: Seq<char>) -> Option<BusValue>
    decreases m.len(),
{
    if m.len() == 0 {
        None
    } else if m[0].0@ == key {
        Some(m[0].1)
    } else {
        lookup(m.drop_first(), key)
    }
}

fn get<'a>(m: &'a BusMap, key: &str) -> (r: Option<&'a BusValue>)
    ensures
        match r {
            Some(v) => lookup(m@, key@) == Some(*v),
            None => lookup(m@, key@) is None,
        },
{
    let mut i: usize = 0;
    assert(m@.subrange(0, m@.len() as int) =~= m@);
    while i < m.len()
        invariant
            i <= m.len(),
            lookup(m@, key@) == lookup(m@.subrange(i as int, m@.len() as int), key@),
        decreases m.len() - i,
    {
        let ghost rest = m@.subrange(i as int, m@.len() as int);
        assert(rest.drop_first() =~= m@.subrange(i + 1, m@.len() as int));
        if text::same_chars(&m[i].0, key) {
            return Some(&m[i].1);
        }
        i = i + 1;
    }
    None
}

/// The text under `key`, or nothing when there is none.
pub open spec fn spec_text(m: Seq<(String, BusValue)>, key: Seq<char>) -> Seq<char> {
    match lookup(m, key) {
        Some(BusValue::Str(s)) => s@,
        _ => Seq::empty(),
    }
}

/// The number under `key`: players send lengths and positions as an `i64`, a `u64` or
/// an `i32`. A `u64` past the `i64` range wraps, as `as` casts it.
pub open spec fn spec_number(m: Seq<(String, BusValue)>, key: Seq<char>) -> Option<int> {
    match lookup(m, key) {
        Some(BusValue::Int64(n)) => Some(n as int),
        Some(BusValue::UInt64(n)) => Some(if n < 0x8000_0000_0000_0000 { n as int } else { n - 0x1_0000_0000_0000_0000 }),
        Some(BusValue::Int32(n)) => Some(n as int),
        _ => None,
    }
}

/// The non-empty strings of `v`, in order.
pub open spec fn non_empty(v: Seq<String>) -> Seq<Seq<char>>
    decreases v.len(),
{
    if v.len() == 0 {
        Seq::empty()
    } else if v.last()@.len() > 0 {
        non_empty(v.drop_last()).push(v.last()@)
    } else {
        non_empty(v.drop_last())
    }
}

/// A list of strings under `key`, allowing for the players that send a bare string;
/// empty strings are dropped.
pub open spec fn spec_strings(m: Seq<(String, BusValue)>, key: Seq<char>) -> Seq<Seq<char>> {
    match lookup(m, key) {
        Some(BusValue::StrList(list)) => non_empty(list@),
        Some(BusValue::Str(s)) => if s@.len() > 0 { seq![s@] } else { Seq::empty() },
        _ => Seq::empty(),
    }
}

/// The player's id for the track: the object path the specification asks for, or the
/// plain string enough players send instead.
pub open spec fn spec_track_id(m: Seq<(String, BusValue)>) -> Seq<char> {
    match lookup(m, "mpris:trackid"@) {
        Some(BusValue::ObjectPath(p)) => p@,
        Some(BusValue::Str(s)) => s@,
        _ => Seq::empty(),
    }
}

/// The text under `key`, or an empty string.
pub fn text_of(m: &BusMap, key: &str) -> (r: String)
    ensures
        r@ == spec_text(m@, key@),
{
    match get(m, key) {
        Some(BusValue::Str(s)) => s.clone(),
        _ => String::new(),
    }
}

/// The number under `key`, in whichever integer shape it came.
pub fn number_of(m: &BusMap, key: &str) -> (r: Option<i64>)
    ensures
        match r {
            Some(n) => spec_number(m@, key@) == Some(n as int),
            None => spec_number(m@, key@) is None,
        },
{
    match get(m, key) {
        Some(BusValue::Int64(n)) => Some(*n),
        Some(BusValue::UInt64(n)) => {
            let v = *n;
            if v < 0x8000_0000_0000_0000 {
                Some(v as i64)
            } else {
                Some((v - 0x8000_0000_0000_0000) as i64 - 0x4000_0000_0000_0000 - 0x4000_0000_0000_0000)
            }
        },
        Some(BusValue::Int32(n)) => Some(*n as i64),
        _ => None,
    }
}

/// The strings under `key`, empty ones dropped.
pub fn strings_of(m: &BusMap, key: &str) -> (r: Vec<String>)
    ensures
        r@.map_values(|s: String| s@) == spec_strings(m@, key@),
{
    match get(m, key) {
        Some(BusValue::StrList(list)) => {
            let mut out: Vec<String> = Vec::new();
            let mut i: usize = 0;
            while i < list.len()
                invariant
                    i <= list.len(),
                    out@.map_values(|s: String| s@) == non_empty(list@.subrange(0, i as int)),
                decreases list.len() - i,
            {
                assert(list@.subrange(0, i + 1).drop_last() =~= list@.subrange(0, i as int));
                if !list[i].as_str().is_empty() {
                    out.push(list[i].clone());
                    assert(out@.map_values(|s: String| s@) =~= non_empty(list@.subrange(0, i as int)).push(list@[i as int]@));
                }
                i = i + 1;
            }
            assert(list@.subrange(0, list.len() as int) =~= list@);
            out
        },
        Some(BusValue::Str(s)) => {
            let mut out: Vec<String> = Vec::new();
            if !s.as_str().is_empty() {
                out.push(s.clone());
                assert(out@.map_values(|x: String| x@) =~= seq![s@]);
            } else {
                assert(out@.map_values(|x: String| x@) =~= Seq::<Seq<char>>::empty());
            }
            out
        },
        _ => {
            let out: Vec<String> = Vec::new();
            assert(out@.map_values(|x: String| x@) =~= Seq::<Seq<char>>::empty());
            out
        },
    }
}

/// The player's id for the track.
pub fn track_id_of(m: &BusMap) -> (r: String)
    ensures
        r@ == spec_track_id(m@),
{
    match get(m, "mpris:trackid") {
        Some(BusValue::ObjectPath(p)) => p.clone(),
        Some(BusValue::Str(s)) => s.clone(),
        _ => String::new(),
    }
}

/// Where the artwork is, from `mpris:artUrl`, when it names somewhere.
pub fn art_of(m: &BusMap) -> (r: Option<ArtSource>)
    ensures
        spec_text(m@, "mpris:artUrl"@).len() == 0 ==> r is None,
        spec_text(m@, "mpris:artUrl"@).len() > 0 ==> media::is_art_source_of(
            spec_text(m@, "mpris:artUrl"@),
            r,
        ),
{
    let url = text_of(m, "mpris:artUrl");
    if url.as_str().is_empty() {
        return None;
    }
    media::art_source_from_url(url.as_str())
}

/// The strings of `parts` joined with `sep`.
fn join(parts: &Vec<String>, sep: &str) -> (r: String)
    ensures
        r@ == media::joined(parts@.map_values(|s: String| s@), sep@),
{
    let ghost all = parts@.map_values(|s: String| s@);
    let mut s = String::new();
    let mut i: usize = 0;
    while i < parts.len()
        invariant
            i <= parts.len(),
            all == parts@.map_values(|x: String| x@),
            s@ == media::joined(all.subrange(0, i as int), sep@),
        decreases parts.len() - i,
    {
        assert(all.subrange(0, i + 1).drop_last() =~= all.subrange(0, i as int));
        if i > 0 {
            text::push_str(&mut s, sep);
        } else {
            assert(s@ + parts[0 as int]@ =~= parts[0 as int]@);
        }
        text::push_str(&mut s, parts[i].as_str());
        i = i + 1;
    }
    assert(all.subrange(0, parts.len() as int) =~= all);
    s
}

/// One track out of an MPRIS metadata map.
pub fn track_from(metadata: &BusMap) -> (t: NowPlaying)
    ensures
        t.track_id@ == spec_track_id(metadata@),
        t.title@ == spec_text(metadata@, "xesam:title"@),
        t.artists@.map_values(|s: String| s@) == (if spec_strings(metadata@, "xesam:artist"@).len() == 0 {
            spec_strings(metadata@, "xesam:albumArtist"@)
        } else {
            spec_strings(metadata@, "xesam:artist"@)
        }),
        t.album@ == spec_text(metadata@, "xesam:album"@),
        t.composer@ == media::joined(spec_strings(metadata@, "xesam:composer"@), ", "@),
        t.year@ == media::spec_year(spec_text(metadata@, "xesam:contentCreated"@)),
        match t.length {
            Some(l) => spec_number(metadata@, "mpris:length"@) matches Some(n) && n > 0 && l@ == n * 1000,
            None => !(spec_number(metadata@, "mpris:length"@) matches Some(n) && n > 0),
        },
        spec_text(metadata@, "mpris:artUrl"@).len() == 0 ==> t.art is None,
        spec_text(metadata@, "mpris:artUrl"@).len() > 0 ==> media::is_art_source_of(
            spec_text(metadata@, "mpris:artUrl"@),
            t.art,
        ),
{
    let listed = strings_of(metadata, "xesam:artist");
    let artists = if listed.len() == 0 { strings_of(metadata, "xesam:albumArtist") } else { listed };
    let composers = strings_of(metadata, "xesam:composer");
    let created = text_of(metadata, "xesam:contentCreated");
    let length = match number_of(metadata, "mpris:length") {
        Some(n) => if n > 0 {
            Some(Duration::new(n as u64 / 1_000_000, (n as u64 % 1_000_000) as u32 * 1000))
        } else {
            None
        },
        None => None,
    };
    NowPlaying {
        track_id: track_id_of(metadata),
        title: text_of(metadata, "xesam:title"),
        artists,
        album: text_of(metadata, "xesam:album"),
        composer: join(&composers, ", "),
        year: media::year_from_date(created.as_str()),
        length,
        art: art_of(metadata),
    }
}

/// The play state `PlaybackStatus` names.
pub open spec fn spec_play_state(all: Seq<(String, BusValue)>) -> PlayState {
    let s = spec_text(all, "PlaybackStatus"@);
    if s == "Playing"@ {
        PlayState::Playing
    } else if s == "Paused"@ {
        PlayState::Paused
    } else {
        PlayState::Stopped
    }
}

pub fn play_state(all: &BusMap) -> (r: PlayState)
    ensures
        r == spec_play_state(all@),
{
    let s = text_of(all, "PlaybackStatus");
    if text::same_chars(&s, "Playing") {
        PlayState::Playing
    } else if text::same_chars(&s, "Paused") {
        PlayState::Paused
    } else {
        PlayState::Stopped
    }
}

/// The switch under `key`, or `fallback` when there is no switch there.
pub open spec fn spec_flag(all: Seq<(String, BusValue)>, key: Seq<char>, fallback: bool) -> bool {
    match lookup(all, key) {
        Some(BusValue::Bool(b)) => b,
        _ => fallback,
    }
}

fn flag(all: &BusMap, key: &str, fallback: bool) -> (r: bool)
    ensures
        r == spec_flag(all@, key@, fallback),
{
    match get(all, key) {
        Some(BusValue::Bool(b)) => *b,
        _ => fallback,
    }
}

/// What the player will let us do. `CanControl` is the player's blanket answer: when it
/// is false the rest mean nothing. A player that doesn't send it at all is taken at its
/// word on the individual flags, and a flag it doesn't send is off.
pub fn controls_of(all: &BusMap) -> (c: Controls)
    ensures
        c.play_pause == (spec_flag(all@, "CanControl"@, true)
            && (spec_flag(all@, "CanPlay"@, false) || spec_flag(all@, "CanPause"@, false))),
        c.next == (spec_flag(all@, "CanControl"@, true) && spec_flag(all@, "CanGoNext"@, false)),
        c.previous == (spec_flag(all@, "CanControl"@, true) && spec_flag(all@, "CanGoPrevious"@, false)),
        c.seek == (spec_flag(all@, "CanControl"@, true) && spec_flag(all@, "CanSeek"@, false)),
{
    let controllable = flag(all, "CanControl", true);
    let play = flag(all, "CanPlay", false);
    let pause = flag(all, "CanPause", false);
    let next = flag(all, "CanGoNext", false);
    let previous = flag(all, "CanGoPrevious", false);
    let seek = flag(all, "CanSeek", false);
    Controls {
        play_pause: controllable && (play || pause),
        next: controllable && next,
        previous: controllable && previous,
        seek: controllable && seek,
    }
}

/// The bus names that belong to MPRIS players.
pub open spec fn is_player_name(name: Seq<char>) -> bool {
    text::starts_with(name, "org.mpris.MediaPlayer2."@)
}

/// Every MPRIS player's bus name, in the order the bus listed them.
pub fn mpris_names(names: &Vec<String>) -> (r: Vec<String>)
    ensures
        r@.map_values(|s: String| s@) == names@.map_values(|s: String| s@).filter(|n: Seq<char>| is_player_name(n)),
{
    let ghost all = names@.map_values(|s: String| s@);
    let mut out: Vec<String> = Vec::new();
    let mut i: usize = 0;
    while i < names.len()
        invariant
            i <= names.len(),
            all == names@.map_values(|s: String| s@),
            out@.map_values(|s: String| s@) == all.subrange(0, i as int).filter(|n: Seq<char>| is_player_name(n)),
        decreases names.len() - i,
    {
        proof {
            reveal_with_fuel(Seq::<_>::filter, 1);
            assert(all.subrange(0, i + 1).drop_last() =~= all.subrange(0, i as int));
        }
        let v = text::chars_of(names[i].as_str());
        if text::has_prefix(&v, "org.mpris.MediaPlayer2.") {
            out.push(names[i].clone());
            assert(out@.map_values(|s: String| s@) =~= all.subrange(0, i as int).filter(|n: Seq<char>| is_player_name(n)).push(all[i as int]));
        }
        i = i + 1;
    }
    assert(all.subrange(0, names.len() as int) =~= all);
    out
}

/// What a player calls itself: its `Identity` when it gives a non-empty one, otherwise
/// the tail of its bus name after the MPRIS prefix.
pub open spec fn spec_identity(identity: Option<Seq<char>>, bus_name: Seq<char>) -> Seq<char> {
    match identity {
        Some(i) => if i.len() > 0 { i } else { bus_name.subrange(23, bus_name.len() as int) },
        None => bus_name.subrange(23, bus_name.len() as int),
    }
}

/// The name to show for a player, from what it said of itself and its bus name, which is
/// one of the names [`mpris_names`] keeps.
pub fn identity_of(identity: Option<String>, bus_name: &str) -> (r: String)
    requires
        is_player_name(bus_name@),
    ensures
        r@ == spec_identity(match identity { Some(i) => Some(i@), None => None }, bus_name@),
{
    proof { reveal_strlit("org.mpris.MediaPlayer2."); }
    if let Some(i) = identity {
        if !i.as_str().is_empty() {
            return i;
        }
    }
    let v = text::chars_of(bus_name);
    let tail = text::slice_chars(&v, 23, v.len());
    text::string_of(&tail)
}

/// The state a player reports, or stopped for one that did not answer.
pub open spec fn state_of(states: Seq<(String, PlayState)>, id: Seq<char>) -> PlayState
    decreases states.len(),
{
    if states.len() == 0 {
        PlayState::Stopped
    } else if states[0].0@ == id {
        states[0].1
    } else {
        state_of(states.drop_first(), id)
    }
}

/// The first player from `k` on whose id is `id`.
pub open spec fn first_with_id(players: Seq<Player>, id: Seq<char>, k: int) -> Option<int>
    decreases players.len() - k,
{
    if k < 0 || k >= players.len() {
        None
    } else if players[k].id@ == id {
        Some(k)
    } else {
        first_with_id(players, id, k + 1)
    }
}

/// The first player from `k` on in state `want`.
pub open spec fn first_in_state(players: Seq<Player>, states: Seq<(String, PlayState)>, want: PlayState, k: int) -> Option<int>
    decreases players.len() - k,
{
    if k < 0 || k >= players.len() {
        None
    } else if state_of(states, players[k].id@) == want {
        Some(k)
    } else {
        first_in_state(players, states, want, k + 1)
    }
}

/// Which player [`pick`] follows: the pinned one, if it is there; otherwise the first
/// playing, or failing that the first paused.
pub open spec fn spec_pick(players: Seq<Player>, states: Seq<(String, PlayState)>, follow: Follow) -> Option<int> {
    match follow {
        Follow::Pinned(id) => first_with_id(players, id@, 0),
        Follow::Whichever => match first_in_state(players, states, PlayState::Playing, 0) {
            Some(i) => Some(i),
            None => first_in_state(players, states, PlayState::Paused, 0),
        },
    }
}

fn state_for(states: &Vec<(String, PlayState)>, id: &String) -> (r: PlayState)
    ensures
        r == state_of(states@, id@),
{
    let mut i: usize = 0;
    assert(states@.subrange(0, states@.len() as int) =~= states@);
    while i < states.len()
        invariant
            i <= states.len(),
            state_of(states@, id@) == state_of(states@.subrange(i as int, states@.len() as int), id@),
        decreases states.len() - i,
    {
        let ghost rest = states@.subrange(i as int, states@.len() as int);
        assert(rest.drop_first() =~= states@.subrange(i + 1, states@.len() as int));
        if states[i].0 == *id {
            return states[i].1;
        }
        i = i + 1;
    }
    PlayState::Stopped
}

/// The player to follow: the one the user pinned, or whichever is playing. `states` is
/// what each player reports, by id.
///
/// A paused player is taken only when nothing is playing, so one left paused in another
/// window doesn't take the deck away from what you are listening to.
pub fn pick(players: &Vec<Player>, states: &Vec<(String, PlayState)>, follow: &Follow) -> (r: Option<Player>)
    ensures
        match spec_pick(players@, states@, *follow) {
            Some(i) => r matches Some(p) && p.id@ == players@[i].id@ && p.name@ == players@[i].name@
                && p.pid == players@[i].pid,
            None => r is None,
        },
{
    if let Follow::Pinned(id) = follow {
        let mut k: usize = 0;
        while k < players.len()
            invariant
                *follow == Follow::Pinned(*id),
                k <= players.len(),
                first_with_id(players@, id@, 0) == first_with_id(players@, id@, k as int),
            decreases players.len() - k,
        {
            if players[k].id == *id {
                return Some(clone_player(&players[k]));
            }
            k = k + 1;
        }
        return None;
    }
    let mut paused: Option<usize> = None;
    let mut k: usize = 0;
    while k < players.len()
        invariant
            *follow == Follow::Whichever,
            k <= players.len(),
            first_in_state(players@, states@, PlayState::Playing, 0)
                == first_in_state(players@, states@, PlayState::Playing, k as int),
            match paused {
                Some(i) => i < k && first_in_state(players@, states@, PlayState::Paused, 0) == Some(i as int),
                None => first_in_state(players@, states@, PlayState::Paused, 0)
                    == first_in_state(players@, states@, PlayState::Paused, k as int),
            },
        decreases players.len() - k,
    {
        let state = state_for(states, &players[k].id);
        match state {
            PlayState::Playing => {
                return Some(clone_player(&players[k]));
            },
            PlayState::Paused => {
                if paused.is_none() {
                    paused = Some(k);
                }
            },
            PlayState::Stopped => {},
        }
        proof {
            if paused is Some && paused.unwrap() < k {
            }
        }
        k = k + 1;
    }
    match paused {
        Some(i) => Some(clone_player(&players[i])),
        None => None,
    }
}

fn clone_player(p: &Player) -> (r: Player)
    ensures
        r.id@ == p.id@,
        r.name@ == p.name@,
        r.pid == p.pid,
{
    Player { id: p.id.clone(), name: p.name.clone(), pid: p.pid }
}

/// A pinned player is followed whatever the others are doing, and only it: when it has
/// gone, nothing is.
pub proof fn lemma_pinned_player_wins(players: Seq<Player>, states: Seq<(String, PlayState)>, id: String)
    ensures
        spec_pick(players, states, Follow::Pinned(id)) matches Some(i) ==> players[i].id@ == id@,
        (forall|j: int| 0 <= j < players.len() ==> (#[trigger] players[j]).id@ != id@)
            ==> spec_pick(players, states, Follow::Pinned(id)) is None,
{
    lemma_first_with_id(players, id@, 0);
}

proof fn lemma_first_with_id(players: Seq<Player>, id: Seq<char>, k: int)
    requires
        0 <= k,
    ensures
        first_with_id(players, id, k) matches Some(i) ==> k <= i < players.len() && players[i].id@ == id,
        (forall|j: int| k <= j < players.len() ==> (#[trigger] players[j]).id@ != id)
            ==> first_with_id(players, id, k) is None,
    decreases players.len() - k,
{
    if k < players.len() {
        lemma_first_with_id(players, id, k + 1);
    }
}

proof fn lemma_first_in_state(players: Seq<Player>, states: Seq<(String, PlayState)>, want: PlayState, k: int)
    requires
        0 <= k,
    ensures
        first_in_state(players, states, want, k) matches Some(i) ==> k <= i < players.len()
            && state_of(states, players[i].id@) == want
            && forall|j: int| k <= j < i ==> state_of(states, (#[trigger] players[j]).id@) != want,
        first_in_state(players, states, want, k) is None ==> forall|j: int| k <= j < players.len()
            ==> state_of(states, (#[trigger] players[j]).id@) != want,
    decreases players.len() - k,
{
    if k < players.len() {
        lemma_first_in_state(players, states, want, k + 1);
    }
}

/// Following whichever player: a playing player is always preferred to a paused one,
/// and a paused one is taken only when none is playing.
pub proof fn lemma_playing_beats_paused(players: Seq<Player>, states: Seq<(String, PlayState)>)
    ensures
        spec_pick(players, states, Follow::Whichever) matches Some(i) ==> (
            state_of(states, players[i].id@) == PlayState::Playing
            || (state_of(states, players[i].id@) == PlayState::Paused
                && forall|j: int| 0 <= j < players.len()
                    ==> state_of(states, (#[trigger] players[j]).id@) != PlayState::Playing)),
        spec_pick(players, states, Follow::Whichever) is None ==> forall|j: int| 0 <= j < players.len()
            ==> state_of(states, (#[trigger] players[j]).id@) == PlayState::Stopped,
{
    lemma_first_in_state(players, states, PlayState::Playing, 0);
    lemma_first_in_state(players, states, PlayState::Paused, 0);
}

} // verus!
