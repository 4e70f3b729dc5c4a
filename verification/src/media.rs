//! Now playing: what the deck shows, where it comes from, and the clock that keeps the
//! position moving between the updates a player sends.
//!
//! Neither platform tells us the position continuously, so nothing here treats the
//! reported position as current: it is a reading with a time attached, and
//! [`PositionClock`] carries it forward.

use vstd::prelude::*;
use crate::text;
use crate::time::{Duration, Instant};

verus! {

/// Whether the player is playing, paused or stopped.
#[derive(Clone, Copy, Debug, PartialEq, Eq, Structural)]
pub enum PlayState {
    Stopped,
    Paused,
    Playing,
}

impl Default for PlayState {
    fn default() -> (s: PlayState)
        ensures
            s == PlayState::Stopped,
    {
        PlayState::Stopped
    }
}

impl PlayState {
    pub fn is_playing(self) -> (r: bool)
        ensures
            r == (self == PlayState::Playing),
    {
        match self {
            PlayState::Playing => true,
            _ => false,
        }
    }
}

/// What the player will let us do. A control it can't do stays unwired and the deck
/// hides it, rather than offering a button that does nothing.
#[derive(Clone, Copy, Debug, Default, PartialEq, Eq, Structural)]
pub struct Controls {
    pub play_pause: bool,
    pub next: bool,
    pub previous: bool,
    pub seek: bool,
}

/// Something to ask the player to do.
#[derive(Clone, Copy, Debug, PartialEq, Eq, Structural)]
pub enum Transport {
    PlayPause,
    Next,
    Previous,
    /// An absolute position in the current track.
    SeekTo(Duration),
}

/// A player the session can see.
#[derive(Clone, Debug, Default, PartialEq, Eq)]
pub struct Player {
    /// How the session names it: an MPRIS bus name, or an SMTC app id.
    pub id: String,
    /// What to show in a menu, such as "MusicBee" or "Spotify".
    pub name: String,
    /// The process behind it, when the platform will say. Capture uses it to follow
    /// the player.
    pub pid: Option<u32>,
}

/// Which player to follow.
#[derive(Clone, Debug, PartialEq, Eq)]
pub enum Follow {
    /// Whichever player is playing, preferring the one that started most recently.
    Whichever,
    /// One the user pinned, by [`Player::id`].
    Pinned(String),
}

impl Default for Follow {
    fn default() -> (f: Follow)
        ensures
            f == Follow::Whichever,
    {
        Follow::Whichever
    }
}

/// How long a reported position is trusted before the session is asked again: a
/// second, often enough to keep a seek bar honest and rare enough that a player polled
/// over D-Bus doesn't notice.
pub open spec fn resync_nanos() -> nat {
    1_000_000_000
}

/// [`resync_nanos`] as a duration.
pub fn resync_after() -> (d: Duration)
    ensures
        d@ == resync_nanos(),
{
    Duration::from_millis(1000)
}

/// What a [`PositionClock`] holds, in nanoseconds.
pub struct ClockModel {
    /// What the player said, and when we heard it.
    pub reading: Option<(nat, nat)>,
    /// When the reading was last replaced.
    pub synced: Option<nat>,
    pub playing: bool,
    pub length: Option<nat>,
}

/// How long after `from` the moment `now` is, or nothing if it is not after it.
pub open spec fn elapsed(from: nat, now: nat) -> nat {
    if now >= from { (now - from) as nat } else { 0 }
}

/// The position `m` gives at `now`, before it is held to the track's length.
pub open spec fn running_position(m: ClockModel, now: nat) -> nat {
    let (position, heard) = m.reading.unwrap();
    if m.playing { position + elapsed(heard, now) } else { position }
}

/// The position `m` gives at `now`: the reading, carried forward by the time since it
/// was heard while playing, never past the end of the track. `None` before any reading.
pub open spec fn position_at(m: ClockModel, now: nat) -> Option<nat> {
    if m.reading is None {
        None
    } else {
        let run = running_position(m, now);
        match m.length {
            Some(length) => Some(if run > length { length } else { run }),
            None => Some(run),
        }
    }
}

/// Whether carrying the reading forward to `now` stays within the longest duration there
/// is. `std::time::Duration`'s `+` panics past it.
pub open spec fn can_run_to(m: ClockModel, now: nat) -> bool {
    m.reading is Some ==> running_position(m, now) <= crate::time::max_nanos()
}

/// The clock after a fresh reading of `position`, heard at `at`.
pub open spec fn synced_model(m: ClockModel, position: nat, at: nat) -> ClockModel {
    ClockModel { reading: Some((position, at)), synced: Some(at), ..m }
}

/// The clock after the player started or stopped moving at `now`: the position is
/// first brought up to date at the old state.
pub open spec fn playing_model(m: ClockModel, playing: bool, now: nat) -> ClockModel {
    if playing == m.playing {
        m
    } else {
        match position_at(m, now) {
            Some(p) => ClockModel { reading: Some((p, now)), playing, ..m },
            None => ClockModel { playing, ..m },
        }
    }
}

/// The clock after a track change: everything forgotten but whether it is playing.
pub open spec fn cleared_model(m: ClockModel) -> ClockModel {
    ClockModel { reading: None, synced: None, playing: m.playing, length: None }
}

/// Whether the reading is old enough to ask the player again. Only a playing track
/// drifts; a paused one stays where it was put. With no reading, always ask.
pub open spec fn spec_needs_resync(m: ClockModel, now: nat) -> bool {
    match m.synced {
        Some(at) => m.playing && elapsed(at, now) >= resync_nanos(),
        None => true,
    }
}

/// The playing position, carried forward between the readings a player sends.
///
/// MPRIS has no signal for the position changing: it moves because time passes, and
/// jumps only on `Seeked`. SMTC is the same in practice. So the position is held as a
/// reading with a time attached and advanced by the clock, which keeps the seek bar
/// smooth instead of stepping once a second, and resyncs often enough that drift never
/// shows.
#[derive(Clone, Copy, Debug)]
pub struct PositionClock {
    reading: Option<(Duration, Instant)>,
    synced: Option<Instant>,
    playing: bool,
    length: Option<Duration>,
}

impl View for PositionClock {
    type V = ClockModel;

    closed spec fn view(&self) -> ClockModel {
        ClockModel {
            reading: match self.reading {
                Some((p, t)) => Some((p@, t@)),
                None => None,
            },
            synced: match self.synced {
                Some(t) => Some(t@),
                None => None,
            },
            playing: self.playing,
            length: match self.length {
                Some(l) => Some(l@),
                None => None,
            },
        }
    }
}

impl Default for PositionClock {
    fn default() -> (c: PositionClock)
        ensures
            c@ == (ClockModel { reading: None, synced: None, playing: false, length: None }),
    {
        PositionClock { reading: None, synced: None, playing: false, length: None }
    }
}

impl PositionClock {
    pub fn new() -> (c: PositionClock)
        ensures
            c@ == (ClockModel { reading: None, synced: None, playing: false, length: None }),
    {
        PositionClock::default()
    }

    /// Takes a fresh reading. `at` is when the player reported it.
    pub fn sync(&mut self, position: Duration, at: Instant)
        ensures
            final(self)@ == synced_model(old(self)@, position@, at@),
    {
        self.reading = Some((position, at));
        self.synced = Some(at);
    }

    /// The player started or stopped moving through the track.
    ///
    /// The position is first brought up to date at the old state, so a pause keeps
    /// what had been played rather than freezing at the last reading.
    pub fn set_playing(&mut self, playing: bool, now: Instant)
        requires
            playing != old(self)@.playing ==> can_run_to(old(self)@, now@),
        ensures
            final(self)@ == playing_model(old(self)@, playing, now@),
    {
        if playing == self.playing {
            return;
        }
        if let Some(at) = self.at(now) {
            self.reading = Some((at, now));
        }
        self.playing = playing;
    }

    pub fn set_length(&mut self, length: Option<Duration>)
        ensures
            final(self)@ == (ClockModel {
                length: match length {
                    Some(l) => Some(l@),
                    None => None,
                },
                ..old(self)@
            }),
    {
        self.length = length;
    }

    pub fn length(&self) -> (r: Option<Duration>)
        ensures
            match r {
                Some(l) => self@.length == Some(l@),
                None => self@.length is None,
            },
    {
        self.length
    }

    /// Forgets everything, for a track change.
    pub fn clear(&mut self)
        ensures
            final(self)@ == cleared_model(old(self)@),
    {
        let playing = self.playing;
        *self = PositionClock { reading: None, synced: None, playing, length: None };
    }

    /// Whether the reading can be carried forward to `now` without passing the longest
    /// duration there is, which is what [`PositionClock::at`] needs.
    pub fn reaches(&self, now: Instant) -> (r: bool)
        ensures
            r == can_run_to(self@, now@),
    {
        match self.reading {
            None => true,
            Some((position, heard)) => {
                if self.playing {
                    position.checked_add(now.saturating_duration_since(heard)).is_some()
                } else {
                    position.as_nanos() <= 18_446_744_073_709_551_615u128 * 1_000_000_000 + 999_999_999
                }
            },
        }
    }

    /// The position now, or `None` when no player has reported one.
    pub fn at(&self, now: Instant) -> (r: Option<Duration>)
        requires
            can_run_to(self@, now@),
        ensures
            match r {
                Some(p) => position_at(self@, now@) == Some(p@),
                None => position_at(self@, now@) is None,
            },
    {
        match self.reading {
            None => None,
            Some((position, heard)) => {
                let mut out = position;
                if self.playing {
                    out = out.plus(now.saturating_duration_since(heard));
                }
                if let Some(length) = self.length {
                    if out.longer_than(&length) {
                        out = length;
                    }
                }
                Some(out)
            },
        }
    }

    /// The position and the track's length, as the deck wants them: only when both are
    /// known and the length is real. The deck draws them as seconds.
    pub fn deck_position(&self, now: Instant) -> (r: Option<(Duration, Duration)>)
        requires
            can_run_to(self@, now@),
        ensures
            match r {
                Some((p, l)) => position_at(self@, now@) == Some(p@) && self@.length == Some(l@)
                    && l@ > 0,
                None => position_at(self@, now@) is None || self@.length is None
                    || self@.length == Some(0nat),
            },
    {
        let at = match self.at(now) {
            Some(p) => p,
            None => return None,
        };
        let length = match self.length {
            Some(l) => l,
            None => return None,
        };
        if length.is_zero() {
            return None;
        }
        Some((at, length))
    }

    /// Whether the reading is old enough to ask the player again.
    pub fn needs_resync(&self, now: Instant) -> (r: bool)
        ensures
            r == spec_needs_resync(self@, now@),
    {
        match self.synced {
            Some(at) => self.playing && now.saturating_duration_since(at).as_nanos() >= 1_000_000_000,
            None => true,
        }
    }
}

/// While paused, the position holds still: it reads the same at any two moments.
pub proof fn lemma_paused_position_holds(m: ClockModel, t1: nat, t2: nat)
    requires
        !m.playing,
    ensures
        position_at(m, t1) == position_at(m, t2),
{
}

/// The position never runs past the end of the track.
pub proof fn lemma_position_within_length(m: ClockModel, now: nat)
    requires
        m.reading is Some,
        m.length is Some,
    ensures
        position_at(m, now).unwrap() <= m.length.unwrap(),
{
}

/// While playing, the position only moves forward as time does.
pub proof fn lemma_position_never_goes_back(m: ClockModel, t1: nat, t2: nat)
    requires
        m.reading is Some,
        t1 <= t2,
    ensures
        position_at(m, t1).unwrap() <= position_at(m, t2).unwrap(),
{
}

/// A seek replaces the reading rather than adding to it: after a sync, the position is
/// the synced one carried forward from when it was heard, whatever came before.
pub proof fn lemma_sync_replaces_reading(m1: ClockModel, m2: ClockModel, position: nat, at: nat, now: nat)
    requires
        m1.playing == m2.playing,
        m1.length == m2.length,
    ensures
        position_at(synced_model(m1, position, at), now) == position_at(synced_model(m2, position, at), now),
        position_at(synced_model(m1, position, at), now) == Some({
            let run = if m1.playing { position + elapsed(at, now) } else { position };
            match m1.length {
                Some(l) => if run > l { l } else { run },
                None => run,
            }
        }),
{
}

/// Starting or stopping keeps the position where it was at that moment: a pause keeps
/// what had been played.
pub proof fn lemma_play_state_change_keeps_position(m: ClockModel, playing: bool, now: nat)
    ensures
        position_at(playing_model(m, playing, now), now) == position_at(m, now),
{
}

/// The clock knows a position exactly when it holds a reading: a sync gives it one, a
/// track change takes it away, and starting, stopping or a new length keep whatever
/// there was.
pub proof fn lemma_position_known_only_after_a_sync(
    m: ClockModel,
    now: nat,
    position: nat,
    at: nat,
    playing: bool,
    length: Option<nat>,
)
    ensures
        (position_at(m, now) is None) == (m.reading is None),
        synced_model(m, position, at).reading is Some,
        cleared_model(m).reading is None,
        (playing_model(m, playing, now).reading is Some) == (m.reading is Some),
        (ClockModel { length, ..m }.reading is Some) == (m.reading is Some),
{
}

/// A paused clock never asks to be resynced once it has a reading.
pub proof fn lemma_paused_clock_needs_no_resync(m: ClockModel, now: nat)
    requires
        !m.playing,
        m.synced is Some,
    ensures
        !spec_needs_resync(m, now),
{
}

} // verus!

verus! {

/// The FNV-1a offset basis and prime that artwork keys start from and multiply by.
pub open spec fn fnv_offset() -> u64 {
    0xcbf2_9ce4_8422_2325
}

pub open spec fn fnv_prime() -> u64 {
    0x100_0000_01b3
}

/// The digest of the first `n` bytes of `b`, taking only the first eight bytes of each
/// 64-byte chunk.
pub open spec fn art_hash(b: Seq<u8>, n: nat) -> u64
    decreases n,
{
    if n == 0 {
        fnv_offset()
    } else {
        let h = art_hash(b, (n - 1) as nat);
        if (n - 1) % 64 < 8 {
            (h ^ (b[n - 1] as u64)).wrapping_mul(fnv_prime())
        } else {
            h
        }
    }
}

/// Where a track's artwork lives.
///
/// The session hands over the cheapest form it has: SMTC gives bytes, MPRIS gives a URL.
#[derive(Clone, Debug, PartialEq, Eq)]
pub enum ArtSource {
    /// Encoded bytes the session already held, such as an SMTC thumbnail.
    Bytes(Vec<u8>),
    /// A local file to read, from a `file://` URL.
    File(String),
    /// A picture to fetch over the network. Spotify and browsers report these.
    Url(String),
}

/// The key [`ArtSource::key`] gives a source.
pub open spec fn art_key(source: ArtSource) -> Seq<char> {
    match source {
        ArtSource::Bytes(b) => "bytes:"@ + text::decimal_digits(b@.len()) + ":"@
            + text::hex_digits(art_hash(b@, b@.len()) as nat, 16, false),
        ArtSource::File(p) => "file:"@ + p@,
        ArtSource::Url(u) => "url:"@ + u@,
    }
}

impl ArtSource {
    /// A short, stable name for this artwork, so the same picture is decoded once.
    ///
    /// Bytes are keyed by length and a cheap digest rather than the whole buffer: the
    /// key is compared every frame and copying half a megabyte to do it would be
    /// sillier than the collision it avoids.
    pub fn key(&self) -> (k: String)
        ensures
            k@ == art_key(*self),
    {
        match self {
            ArtSource::Bytes(b) => {
                let mut hash: u64 = 0xcbf2_9ce4_8422_2325;
                let mut i: usize = 0;
                while i < b.len()
                    invariant
                        i <= b.len(),
                        hash == art_hash(b@, i as nat),
                    decreases b.len() - i,
                {
                    if i % 64 < 8 {
                        hash = (hash ^ (b[i] as u64)).wrapping_mul(0x100_0000_01b3);
                    }
                    i = i + 1;
                }
                let mut s = String::new();
                text::push_str(&mut s, "bytes:");
                text::push_decimal(&mut s, b.len() as u64);
                text::push_str(&mut s, ":");
                text::push_hex(&mut s, hash, 16, false);
                s
            },
            ArtSource::File(p) => {
                let mut s = String::new();
                text::push_str(&mut s, "file:");
                text::push_str(&mut s, p.as_str());
                s
            },
            ArtSource::Url(u) => {
                let mut s = String::new();
                text::push_str(&mut s, "url:");
                text::push_str(&mut s, u.as_str());
                s
            },
        }
    }
}

/// Which picture the artwork loader is waiting for. The loader reads files and fetches
/// URLs on a worker of its own; what it asks that worker for, and which of its answers
/// reach the screen, is decided here.
#[derive(Clone, Debug)]
pub struct ArtWanted {
    asked: Option<String>,
}

impl View for ArtWanted {
    /// The key of the picture last asked for, if one is still wanted.
    type V = Option<Seq<char>>;

    closed spec fn view(&self) -> Option<Seq<char>> {
        match self.asked {
            Some(k) => Some(k@),
            None => None,
        }
    }
}

impl ArtWanted {
    /// Nothing asked for yet.
    pub fn new() -> (r: ArtWanted)
        ensures
            r@ is None,
    {
        ArtWanted { asked: None }
    }

    /// Asks for `source`: the key to hand the worker with it, or `None` when it is the
    /// picture already being loaded, so the same picture isn't loaded twice.
    pub fn want(&mut self, source: &ArtSource) -> (r: Option<String>)
        ensures
            old(self)@ == Some(art_key(*source)) ==> r is None && final(self)@ == old(self)@,
            old(self)@ != Some(art_key(*source)) ==> (r matches Some(k) && k@ == art_key(*source))
                && final(self)@ == Some(art_key(*source)),
    {
        let key = source.key();
        let same = match &self.asked {
            Some(k) => text::same_chars(k, key.as_str()),
            None => false,
        };
        if same {
            return None;
        }
        self.asked = Some(key.clone());
        Some(key)
    }

    /// Forgets what was asked for, so nothing is loaded until a track asks again.
    pub fn want_nothing(&mut self)
        ensures
            final(self)@ is None,
    {
        self.asked = None;
    }

    /// Whether an answer for `key` is for the picture still wanted. Answers for artwork
    /// that has since been replaced are thrown away rather than reaching the screen.
    pub fn keeps(&self, key: &str) -> (r: bool)
        ensures
            r == (self@ == Some(key@)),
    {
        match &self.asked {
            Some(k) => text::same_chars(k, key),
            None => false,
        }
    }
}

/// Fetches a picture from the network.
///
/// MPRIS players that keep their artwork on the web report an `https://` URL, and
/// reaching it means an HTTP client, which the app may or may not carry.
pub trait ArtFetcher {
    /// The encoded picture at `url`, or `None` if it could not be had.
    fn fetch(&self, url: &str) -> Option<Vec<u8>>;
}

/// One track, as the deck shows it.
#[derive(Clone, Debug, PartialEq, Eq)]
pub struct NowPlaying {
    /// The player's own identity for this track. A new one starts the programme
    /// measures again; a changed title with the same id does not.
    pub track_id: String,
    pub title: String,
    pub artists: Vec<String>,
    pub album: String,
    pub composer: String,
    /// The release year as four digits, or empty.
    pub year: String,
    pub length: Option<Duration>,
    pub art: Option<ArtSource>,
}

impl Default for NowPlaying {
    fn default() -> (n: NowPlaying)
        ensures
            n.track_id@ == Seq::<char>::empty(),
            n.title@ == Seq::<char>::empty(),
            n.artists@ == Seq::<String>::empty(),
            n.album@ == Seq::<char>::empty(),
            n.composer@ == Seq::<char>::empty(),
            n.year@ == Seq::<char>::empty(),
            n.length is None,
            n.art is None,
    {
        NowPlaying {
            track_id: String::new(),
            title: String::new(),
            artists: Vec::new(),
            album: String::new(),
            composer: String::new(),
            year: String::new(),
            length: None,
            art: None,
        }
    }
}

/// `parts` one after another with `sep` between each pair.
pub open spec fn joined(parts: Seq<Seq<char>>, sep: Seq<char>) -> Seq<char>
    decreases parts.len(),
{
    if parts.len() == 0 {
        Seq::empty()
    } else if parts.len() == 1 {
        parts[0]
    } else {
        joined(parts.drop_last(), sep) + sep + parts.last()
    }
}

/// Whether `a` and `b` are different tracks: by the player's id when either has one,
/// otherwise by title and album.
pub open spec fn spec_is_new_track(a: NowPlaying, b: NowPlaying) -> bool {
    if a.track_id@.len() > 0 || b.track_id@.len() > 0 {
        a.track_id@ != b.track_id@
    } else {
        a.title@ != b.title@ || a.album@ != b.album@
    }
}

impl NowPlaying {
    /// The artists on one line, as the deck shows them.
    pub fn artists_line(&self) -> (r: String)
        ensures
            r@ == joined(self.artists@.map_values(|a: String| a@), ", "@),
    {
        let ghost parts = self.artists@.map_values(|a: String| a@);
        let mut s = String::new();
        let mut i: usize = 0;
        while i < self.artists.len()
            invariant
                i <= self.artists.len(),
                parts == self.artists@.map_values(|a: String| a@),
                s@ == joined(parts.subrange(0, i as int), ", "@),
            decreases self.artists.len() - i,
        {
            proof {
                assert(parts.subrange(0, i + 1).drop_last() =~= parts.subrange(0, i as int));
            }
            if i > 0 {
                text::push_str(&mut s, ", ");
            } else {
                assert(s@ + self.artists[0 as int]@ =~= self.artists[0 as int]@);
            }
            text::push_str(&mut s, self.artists[i].as_str());
            i = i + 1;
        }
        proof {
            assert(parts.subrange(0, self.artists.len() as int) =~= parts);
        }
        s
    }

    /// Whether this is a different track from `other`, and so the programme measures
    /// should start again.
    ///
    /// The id is the player's word for it and is trusted when there is one. Players
    /// that report no id (some browsers) fall back to the title and album, which is
    /// enough to catch a track change and not so eager that a metadata refresh on the
    /// same track throws away a minute of integrated loudness.
    pub fn is_new_track(&self, other: &NowPlaying) -> (r: bool)
        ensures
            r == spec_is_new_track(*self, *other),
    {
        if !self.track_id.as_str().is_empty() || !other.track_id.as_str().is_empty() {
            return !(self.track_id == other.track_id);
        }
        !(self.title == other.title) || !(self.album == other.album)
    }
}

/// The same track, by the rules of [`NowPlaying::is_new_track`], is never new to itself,
/// and the relation reads the same both ways round.
pub proof fn lemma_track_change_is_symmetric(a: NowPlaying, b: NowPlaying)
    ensures
        !spec_is_new_track(a, a),
        spec_is_new_track(a, b) == spec_is_new_track(b, a),
{
}

} // verus!

verus! {

/// How many ASCII digits `s` starts with.
pub open spec fn leading_digits(s: Seq<char>) -> nat
    decreases s.len(),
{
    if s.len() > 0 && text::is_ascii_digit(s[0]) {
        1 + leading_digits(s.drop_first())
    } else {
        0
    }
}

proof fn lemma_leading_digits(s: Seq<char>, k: int)
    requires
        0 <= k <= s.len(),
        forall|j: int| 0 <= j < k ==> text::is_ascii_digit(#[trigger] s[j]),
        k == s.len() || !text::is_ascii_digit(s[k]),
    ensures
        leading_digits(s) == k,
    decreases k,
{
    if k > 0 {
        lemma_leading_digits(s.drop_first(), k - 1);
    }
}

/// The year [`year_from_date`] reads out of `date`: its leading digits when there are
/// exactly four of them, and otherwise nothing.
pub open spec fn spec_year(date: Seq<char>) -> Seq<char> {
    if leading_digits(date) == 4 { date.subrange(0, 4) } else { Seq::empty() }
}

/// Reads the four-digit year out of an ISO 8601 date, as MPRIS reports one.
///
/// `xesam:contentCreated` is a full timestamp such as `2004-03-15T00:00:00Z`, and
/// players are loose about it: some send only the year, some send nothing useful.
pub fn year_from_date(date: &str) -> (r: String)
    ensures
        r@ == spec_year(date@),
{
    let v = text::chars_of(date);
    let mut i: usize = 0;
    while i < v.len() && '0' <= v[i] && v[i] <= '9'
        invariant
            i <= v.len(),
            forall|j: int| 0 <= j < i ==> text::is_ascii_digit(#[trigger] v@[j]),
        decreases v.len() - i,
    {
        i = i + 1;
    }
    proof { lemma_leading_digits(v@, i as int); }
    if i == 4 {
        let head = text::slice_chars(&v, 0, 4);
        text::string_of(&head)
    } else {
        String::new()
    }
}

/// Whether `b` is an ASCII hexadecimal digit.
pub open spec fn is_hex_byte(b: u8) -> bool {
    (48 <= b && b <= 57) || (97 <= b && b <= 102) || (65 <= b && b <= 70)
}

pub open spec fn hex_byte_value(b: u8) -> nat {
    if 48 <= b && b <= 57 {
        (b - 48) as nat
    } else if 97 <= b && b <= 102 {
        (b - 87) as nat
    } else {
        (b - 55) as nat
    }
}

/// `b` with each `%` followed by two hexadecimal digits turned into the byte they
/// write. A `%` without two digits after it is kept as written, so it never eats the
/// character after it.
pub open spec fn percent_decoded(b: Seq<u8>) -> Seq<u8>
    decreases b.len(),
{
    if b.len() == 0 {
        b
    } else if b[0] == 37 && 2 < b.len() && is_hex_byte(b[1]) && is_hex_byte(b[2]) {
        seq![(hex_byte_value(b[1]) * 16 + hex_byte_value(b[2])) as u8]
            + percent_decoded(b.subrange(3, b.len() as int))
    } else {
        seq![b[0]] + percent_decoded(b.drop_first())
    }
}

fn hex_byte(b: u8) -> (r: Option<u8>)
    ensures
        match r {
            Some(v) => is_hex_byte(b) && v == hex_byte_value(b),
            None => !is_hex_byte(b),
        },
{
    if 48 <= b && b <= 57 {
        Some(b - 48)
    } else if 97 <= b && b <= 102 {
        Some(b - 87)
    } else if 65 <= b && b <= 70 {
        Some(b - 55)
    } else {
        None
    }
}

/// Decodes the `%XX` escapes of a URL path, on its bytes, then reads the bytes as UTF-8
/// with anything invalid replaced.
pub fn percent_decode(s: &str) -> (r: String)
    ensures
        r@ == text::lossy_utf8(percent_decoded(vstd::utf8::encode_utf8(s@))),
        vstd::utf8::valid_utf8(percent_decoded(vstd::utf8::encode_utf8(s@))) ==> r@ == vstd::utf8::decode_utf8(percent_decoded(vstd::utf8::encode_utf8(s@))),
{
    let bytes = s.as_bytes();
    let ghost all = bytes@;
    let mut out: Vec<u8> = Vec::new();
    let mut i: usize = 0;
    assert(all.subrange(0, all.len() as int) =~= all);
    assert(out@ + percent_decoded(all) =~= percent_decoded(all));
    while i < bytes.len()
        invariant
            all == bytes@,
            i <= bytes.len(),
            percent_decoded(all) == out@ + percent_decoded(all.subrange(i as int, all.len() as int)),
        decreases bytes.len() - i,
    {
        let ghost rest = all.subrange(i as int, all.len() as int);
        if bytes[i] == 37 && 2 < bytes.len() - i {
            let hi = hex_byte(bytes[i + 1]);
            let lo = hex_byte(bytes[i + 2]);
            if let (Some(h), Some(l)) = (hi, lo) {
                proof {
                    assert(rest[1] == all[i + 1]);
                    assert(rest.subrange(3, rest.len() as int) =~= all.subrange(i + 3, all.len() as int));
                    assert(out@.push((h * 16 + l) as u8) + percent_decoded(all.subrange(i + 3, all.len() as int))
                        =~= out@ + (seq![(hex_byte_value(rest[1]) * 16 + hex_byte_value(rest[2])) as u8]
                        + percent_decoded(rest.subrange(3, rest.len() as int))));
                }
                out.push(h * 16 + l);
                i = i + 3;
                continue;
            }
        }
        proof {
            assert(rest.drop_first() =~= all.subrange(i + 1, all.len() as int));
            assert(out@.push(all[i as int]) + percent_decoded(all.subrange(i + 1, all.len() as int))
                =~= out@ + (seq![rest[0]] + percent_decoded(rest.drop_first())));
        }
        out.push(bytes[i]);
        i = i + 1;
    }
    proof {
        assert(out@ + percent_decoded(all.subrange(i as int, all.len() as int)) =~= out@);
    }
    text::from_utf8_lossy(&out)
}

} // verus!

verus! {

/// The still-encoded path of a `file://` URL: after an empty or `localhost` authority.
/// `None` for any other authority, or none at all.
pub open spec fn file_url_path(url: Seq<char>) -> Option<Seq<char>> {
    let rest = url.subrange(7, url.len() as int);
    match text::index_of(rest, '/') {
        Some(i) => if i == 0 {
            Some(rest)
        } else if text::eq_ignore_ascii_case(rest.subrange(0, i as int), "localhost"@) {
            Some(rest.subrange(i as int, rest.len() as int))
        } else {
            None
        },
        None => None,
    }
}

/// A Windows path arrives as `/C:/...`, which needs its leading slash off.
pub open spec fn without_drive_slash(p: Seq<char>) -> Seq<char> {
    if p.len() >= 3 && p[0] == '/' && text::is_ascii_alphabetic(p[1]) && p[2] == ':' {
        p.drop_first()
    } else {
        p
    }
}

/// The local path a `file://` URL names, decoded.
pub open spec fn file_path_from_url(url: Seq<char>) -> Option<Seq<char>> {
    match file_url_path(url) {
        Some(p) => Some(without_drive_slash(
            text::lossy_utf8(percent_decoded(vstd::utf8::encode_utf8(p))),
        )),
        None => None,
    }
}

/// Whether `url` is one to fetch over the network.
pub open spec fn is_web_url(url: Seq<char>) -> bool {
    text::starts_with(url, "http://"@) || text::starts_with(url, "https://"@)
}

/// Whether `r` is what [`art_source_from_url`] makes of `url`: the path of a
/// `file://` URL, an `http://` or `https://` URL as it is, and nothing for anything else.
pub open spec fn is_art_source_of(url: Seq<char>, r: Option<ArtSource>) -> bool {
    match r {
        Some(ArtSource::File(p)) => text::starts_with(url, "file://"@) && file_path_from_url(url)
            == Some(p@),
        Some(ArtSource::Url(u)) => !text::starts_with(url, "file://"@) && is_web_url(url) && u@
            == url,
        Some(ArtSource::Bytes(_)) => false,
        None => if text::starts_with(url, "file://"@) {
            file_url_path(url) is None
        } else {
            !is_web_url(url)
        },
    }
}

/// Turns a `file://` URL into a path, keeps a web address as it is, and gives up on
/// anything else.
///
/// Players percent-encode the path, and some of them encode more than they need to, so
/// the decoding is done on bytes and any stray `%` is kept as written rather than
/// dropping the character after it.
pub fn art_source_from_url(url: &str) -> (r: Option<ArtSource>)
    ensures
        is_art_source_of(url@, r),
{
    let v = text::chars_of(url);
    if text::has_prefix(&v, "file://") {
        proof { reveal_strlit("file://"); }
        let n = v.len();
        let rest = text::slice_chars(&v, 7, n);
        let start: usize = match text::find_char(&rest, '/') {
            Some(i) => {
                if i == 0 {
                    7
                } else {
                    let authority = url.substring_char(7, 7 + i);
                    assert(authority@ =~= rest@.subrange(0, i as int));
                    if text::same_ignoring_ascii_case(authority, "localhost") {
                        7 + i
                    } else {
                        return None;
                    }
                }
            },
            None => {
                return None;
            },
        };
        let path = url.substring_char(start, n);
        assert(path@ =~= file_url_path(url@).unwrap());
        let decoded = percent_decode(path);
        let d = text::chars_of(decoded.as_str());
        let kept = if d.len() >= 3 && d[0] == '/' && (('a' <= d[1] && d[1] <= 'z') || ('A' <= d[1] && d[1] <= 'Z')) && d[2] == ':' {
            text::slice_chars(&d, 1, d.len())
        } else {
            text::slice_chars(&d, 0, d.len())
        };
        proof {
            if d@.len() >= 3 && d@[0] == '/' && text::is_ascii_alphabetic(d@[1]) && d@[2] == ':' {
                assert(kept@ =~= d@.drop_first());
            } else {
                assert(kept@ =~= d@);
            }
        }
        return Some(ArtSource::File(text::string_of(&kept)));
    }
    if text::has_prefix(&v, "http://") || text::has_prefix(&v, "https://") {
        return Some(ArtSource::Url(text::string_of(&v)));
    }
    None
}

} // verus!

verus! {

/// Each player's name in lower case, the key the list is sorted by.
pub open spec fn player_keys(players: Seq<Player>) -> Seq<Seq<char>> {
    Seq::new(players.len(), |i: int| text::unicode_lowercase(players[i].name@))
}

/// `players` taken in the order `order` gives.
pub open spec fn players_in_order(players: Seq<Player>, order: Seq<int>) -> Seq<Player> {
    Seq::new(order.len(), |i: int| players[order[i]])
}

/// The players a session can see, sorted by name without regard to case, as the menu
/// lists them; players whose names read the same keep the order they came in.
pub fn sort_players(players: Vec<Player>) -> (r: Vec<Player>)
    ensures
        exists|order: Seq<int>|
            #[trigger] text::is_stable_order(player_keys(players@), order) && r@
                == players_in_order(players@, order),
{
    let mut keys: Vec<Vec<char>> = Vec::new();
    let mut i: usize = 0;
    while i < players.len()
        invariant
            i <= players.len(),
            keys@.len() == i,
            forall|j: int| 0 <= j < i ==> #[trigger] keys@[j]@ == player_keys(players@)[j],
        decreases players.len() - i,
    {
        let key = text::chars_of(text::lowercase(players[i].name.as_str()).as_str());
        keys.push(key);
        i = i + 1;
    }
    proof {
        assert(text::texts_of(keys@) =~= player_keys(players@));
    }
    let order = text::stable_order(&keys);
    let ghost o = text::positions_of(order@);
    let mut r: Vec<Player> = Vec::new();
    let mut j: usize = 0;
    while j < order.len()
        invariant
            j <= order.len(),
            order@.len() == players@.len(),
            o == text::positions_of(order@),
            text::is_stable_order(player_keys(players@), o),
            r@ =~= players_in_order(players@, o.subrange(0, j as int)),
        decreases order.len() - j,
    {
        assert(o[j as int] == order@[j as int] as int);
        let from = &players[order[j]];
        r.push(Player { id: from.id.clone(), name: from.name.clone(), pid: from.pid });
        proof {
            assert(r@ =~= players_in_order(players@, o.subrange(0, j + 1)));
        }
        j = j + 1;
    }
    proof {
        assert(o.subrange(0, order@.len() as int) =~= o);
    }
    r
}

} // verus!

verus! {

/// Everything the app reads from a session in one frame.
#[derive(Clone, Debug)]
pub struct Snapshot {
    /// The player this is about, or `None` when no player is running.
    pub player: Option<Player>,
    pub track: NowPlaying,
    pub state: PlayState,
    pub controls: Controls,
    /// The position the player last reported and the instant we heard it, which is not
    /// the position now. Feed it to a [`PositionClock`].
    pub position: Option<(Duration, Instant)>,
    /// Every player the session can see, for the "Follow player" menu.
    pub players: Vec<Player>,
    /// Bumped whenever anything above changed, so the app can skip the work of
    /// reacting to a snapshot it has already seen.
    pub generation: u64,
}

impl Default for Snapshot {
    /// No player, no track, stopped, nothing allowed, and nothing seen yet.
    fn default() -> (s: Snapshot)
        ensures
            s.player is None,
            s.track.track_id@.len() == 0 && s.track.title@.len() == 0 && s.track.artists@.len() == 0,
            s.track.album@.len() == 0 && s.track.composer@.len() == 0 && s.track.year@.len() == 0,
            s.track.length is None && s.track.art is None,
            s.state == PlayState::Stopped,
            s.controls == (Controls { play_pause: false, next: false, previous: false, seek: false }),
            s.position is None,
            s.players@.len() == 0,
            s.generation == 0,
    {
        Snapshot {
            player: None,
            track: NowPlaying::default(),
            state: PlayState::default(),
            controls: Controls { play_pause: false, next: false, previous: false, seek: false },
            position: None,
            players: Vec::new(),
            generation: 0,
        }
    }
}

} // verus!
