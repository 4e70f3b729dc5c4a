//! Windows: WASAPI capture targets, the apps with audio sessions, and the readable names
//! of SMTC sessions.

use vstd::prelude::*;
use crate::settings::Argb;
use crate::text;

verus! {

/// The desktop's accent colour and whether its windows are dark.
#[derive(Clone, Copy, Debug, PartialEq, Eq, Structural)]
pub struct Appearance {
    pub accent: Option<Argb>,
    pub dark: bool,
}

impl Default for Appearance {
    /// Dark is the assumption: an analyser is looked at in the dark, and a wrong guess
    /// towards dark costs less than a white window in a dim room.
    fn default() -> (a: Appearance)
        ensures
            a.accent is None,
            a.dark,
    {
        Appearance { accent: None, dark: true }
    }
}

/// `0xAARRGGBB` from four channels, alpha first, as `u32::from_be_bytes` packs them.
pub open spec fn packed(a: u8, r: u8, g: u8, b: u8) -> u32 {
    (a as int * 0x100_0000 + r as int * 0x1_0000 + g as int * 0x100 + b as int) as u32
}

/// The appearance Windows' `UISettings` answers make: `accent` is the accent colour's
/// channels, alpha first, where Windows gave one, and `dark` whether the colour it would
/// paint a window's background is a dark one, where it gave one. Where it says nothing
/// about the background, the window is taken to be dark.
pub fn appearance_from(accent: Option<(u8, u8, u8, u8)>, dark: Option<bool>) -> (r: Appearance)
    ensures
        r.accent == match accent {
            Some((a, red, g, b)) => Some(Argb(packed(a, red, g, b))),
            None => None,
        },
        r.dark == match dark {
            Some(d) => d,
            None => true,
        },
{
    let accent = match accent {
        Some((a, red, g, b)) => Some(
            Argb((a as u32) * 0x100_0000 + (red as u32) * 0x1_0000 + (g as u32) * 0x100 + b as u32),
        ),
        None => None,
    };
    let dark = match dark {
        Some(d) => d,
        None => true,
    };
    Appearance { accent, dark }
}

/// What to capture.
#[derive(Clone, Debug, PartialEq, Eq)]
pub enum Target {
    /// Everything the default output device plays.
    WholeSystem,
    /// One process and the processes it started, such as a browser's audio process.
    /// Needs Windows 10 2004 (build 19041) or later.
    Process { pid: u32, name: String },
}

/// One app with an audio session.
#[derive(Clone, Debug, PartialEq, Eq)]
pub struct AudioApp {
    pub pid: u32,
    /// The executable's name without its extension, such as "MusicBee".
    pub name: String,
}

/// What follows the last `c` in `s`, or all of `s` when there is none.
pub open spec fn after_last(s: Seq<char>, c: char) -> Seq<char>
    decreases s.len(),
{
    if s.len() == 0 {
        s
    } else if s.last() == c {
        Seq::empty()
    } else {
        after_last(s.drop_last(), c).push(s.last())
    }
}

/// `s` without a `.exe` or `.EXE` ending.
pub open spec fn without_exe(s: Seq<char>) -> Seq<char> {
    if s.len() >= 4 && (s.subrange(s.len() - 4, s.len() as int) == ".exe"@
        || s.subrange(s.len() - 4, s.len() as int) == ".EXE"@) {
        s.subrange(0, s.len() - 4)
    } else {
        s
    }
}

/// The readable name [`display_name`] makes of an app user model id.
pub open spec fn spec_display_name(app_id: Seq<char>) -> Seq<char> {
    let name = after_last(without_exe(after_last(app_id, '!')), '.');
    if name.len() == 0 { app_id } else { name }
}

proof fn lemma_after_last(s: Seq<char>, c: char, k: int)
    requires
        0 <= k <= s.len(),
        forall|j: int| k <= j < s.len() ==> #[trigger] s[j] != c,
        k == 0 || s[k - 1] == c,
    ensures
        after_last(s, c) == s.subrange(k, s.len() as int),
    decreases s.len() - k,
{
    if s.len() > k {
        lemma_after_last(s.drop_last(), c, k);
        assert(s.drop_last().subrange(k, s.len() - 1).push(s.last()) =~= s.subrange(k, s.len() as int));
    } else if k > 0 {
        assert(s.subrange(k, s.len() as int) =~= Seq::<char>::empty());
    } else {
        assert(s =~= Seq::<char>::empty());
    }
}

/// The part of `v` after its last `c`.
fn tail_after(v: &Vec<char>, c: char) -> (r: Vec<char>)
    ensures
        r@ == after_last(v@, c),
{
    let mut k = v.len();
    while k > 0 && v[k - 1] != c
        invariant
            k <= v.len(),
            forall|j: int| k <= j < v.len() ==> #[trigger] v@[j] != c,
        decreases k,
    {
        k = k - 1;
    }
    proof { lemma_after_last(v@, c, k as int); }
    text::slice_chars(v, k, v.len())
}

/// Whether `v` ends with the four characters of `ending`.
fn ends_with4(v: &Vec<char>, ending: &str) -> (r: bool)
    requires
        ending@.len() == 4,
    ensures
        r == (v@.len() >= 4 && v@.subrange(v@.len() - 4, v@.len() as int) == ending@),
{
    if v.len() < 4 {
        return false;
    }
    let e = text::chars_of(ending);
    let n = v.len();
    let mut i: usize = 0;
    while i < 4
        invariant
            e@ == ending@,
            e.len() == 4,
            n == v.len(),
            n >= 4,
            i <= 4,
            forall|j: int| 0 <= j < i ==> v@[n - 4 + j] == #[trigger] e@[j],
        decreases 4 - i,
    {
        if v[n - 4 + i] != e[i] {
            assert(v@.subrange(n - 4, n as int)[i as int] != e@[i as int]);
            return false;
        }
        i = i + 1;
    }
    assert(v@.subrange(n - 4, n as int) =~= e@);
    true
}

/// A readable name for an app user model id.
///
/// A desktop app reports its executable, such as `MusicBee.exe`. A packaged one reports
/// a family name and an application id joined by `!`, such as
/// `SpotifyAB.SpotifyMusic_zpdnekdrzrea0!Spotify`, where only the tail is worth showing.
pub fn display_name(app_id: &str) -> (r: String)
    ensures
        r@ == spec_display_name(app_id@),
{
    let all = text::chars_of(app_id);
    let tail = tail_after(&all, '!');
    proof {
        reveal_strlit(".exe");
        reveal_strlit(".EXE");
    }
    let stem = if ends_with4(&tail, ".exe") || ends_with4(&tail, ".EXE") {
        text::slice_chars(&tail, 0, tail.len() - 4)
    } else {
        text::slice_chars(&tail, 0, tail.len())
    };
    assert(stem@ =~= without_exe(tail@));
    let name = tail_after(&stem, '.');
    if name.len() == 0 {
        text::string_of(&all)
    } else {
        text::string_of(&name)
    }
}

/// The first app in `apps`, from `from` on, whose name is `want` but for ASCII case.
pub open spec fn first_named(apps: Seq<AudioApp>, want: Seq<char>, from: int) -> Option<int>
    decreases apps.len() - from,
{
    if from < 0 || from >= apps.len() {
        None
    } else if text::eq_ignore_ascii_case(apps[from].name@, want) {
        Some(from)
    } else {
        first_named(apps, want, from + 1)
    }
}

/// The app behind a media session's app user model id, if it is playing something.
///
/// SMTC names a player by app id and never says which process it is, and process
/// loopback capture needs a process. The two are matched by name, which is what those
/// ids reduce to: `MusicBee.exe` and `SpotifyAB.SpotifyMusic_...!Spotify` both come
/// down to the executable running behind them.
pub fn match_app_id<'a>(apps: &'a [AudioApp], app_id: &str) -> (r: Option<&'a AudioApp>)
    ensures
        spec_display_name(app_id@).len() == 0 ==> r is None,
        spec_display_name(app_id@).len() > 0 ==> match first_named(apps@, spec_display_name(app_id@), 0) {
            Some(i) => r == Some(&apps@[i]),
            None => r is None,
        },
{
    let want = display_name(app_id);
    if want.as_str().is_empty() {
        return None;
    }
    let mut i: usize = 0;
    while i < apps.len()
        invariant
            i <= apps@.len(),
            want@ == spec_display_name(app_id@),
            want@.len() > 0,
            first_named(apps@, want@, 0) == first_named(apps@, want@, i as int),
        decreases apps.len() - i,
    {
        if text::same_ignoring_ascii_case(apps[i].name.as_str(), want.as_str()) {
            return Some(&apps[i]);
        }
        i = i + 1;
    }
    None
}

} // verus!

verus! {

/// Whether the audio session of process `pid` adds an app to `apps`: a real process,
/// and one not listed yet. Process 0 is the system's idle process, which plays
/// nothing of its own.
pub fn is_new_app(apps: &Vec<AudioApp>, pid: u32) -> (r: bool)
    ensures
        r == (pid != 0 && forall|i: int| 0 <= i < apps@.len() ==> #[trigger] apps@[i].pid != pid),
{
    if pid == 0 {
        return false;
    }
    let mut i: usize = 0;
    while i < apps.len()
        invariant
            i <= apps.len(),
            forall|j: int| 0 <= j < i ==> #[trigger] apps@[j].pid != pid,
        decreases apps.len() - i,
    {
        if apps[i].pid == pid {
            return false;
        }
        i = i + 1;
    }
    true
}

/// Each app's name in lower case, the key the list is sorted by.
pub open spec fn app_keys(apps: Seq<AudioApp>) -> Seq<Seq<char>> {
    Seq::new(apps.len(), |i: int| text::unicode_lowercase(apps[i].name@))
}

/// `apps` taken in the order `order` gives.
pub open spec fn apps_in_order(apps: Seq<AudioApp>, order: Seq<int>) -> Seq<AudioApp> {
    Seq::new(order.len(), |i: int| apps[order[i]])
}

/// The apps sorted by name without regard to case; apps whose names read the same keep
/// the order they came in.
pub fn sort_apps(apps: Vec<AudioApp>) -> (r: Vec<AudioApp>)
    ensures
        exists|order: Seq<int>|
            #[trigger] text::is_stable_order(app_keys(apps@), order) && r@ == apps_in_order(
                apps@,
                order,
            ),
{
    let mut keys: Vec<Vec<char>> = Vec::new();
    let mut i: usize = 0;
    while i < apps.len()
        invariant
            i <= apps.len(),
            keys@.len() == i,
            forall|j: int| 0 <= j < i ==> #[trigger] keys@[j]@ == app_keys(apps@)[j],
        decreases apps.len() - i,
    {
        let key = text::chars_of(text::lowercase(apps[i].name.as_str()).as_str());
        keys.push(key);
        i = i + 1;
    }
    proof {
        assert(text::texts_of(keys@) =~= app_keys(apps@));
    }
    let order = text::stable_order(&keys);
    let ghost o = text::positions_of(order@);
    let mut r: Vec<AudioApp> = Vec::new();
    let mut j: usize = 0;
    while j < order.len()
        invariant
            j <= order.len(),
            order@.len() == apps@.len(),
            o == text::positions_of(order@),
            text::is_stable_order(app_keys(apps@), o),
            r@ =~= apps_in_order(apps@, o.subrange(0, j as int)),
        decreases order.len() - j,
    {
        assert(o[j as int] == order@[j as int] as int);
        let from = &apps[order[j]];
        r.push(AudioApp { pid: from.pid, name: from.name.clone() });
        proof {
            assert(r@ =~= apps_in_order(apps@, o.subrange(0, j + 1)));
        }
        j = j + 1;
    }
    proof {
        assert(o.subrange(0, order@.len() as int) =~= o);
    }
    r
}

} // verus!
