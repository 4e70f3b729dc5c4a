//! Reading Nostalgia+'s plain `Key=Value` files.
//!
//! Nostalgia+ wrote plain `Key=Value` lines. [`Lines::parse`] reads them exactly as
//! Nostalgia+ did - keys in any case, the last of a repeated key winning, blank lines,
//! `#` comments and lines without a key ignored - and [`parse_theme`] carries a theme
//! file's colours over. The numeric settings are floating-point and are read by the app.

use vstd::prelude::*;
use crate::switches::{Flag, Switches};
use crate::menu::Chosen;
use crate::settings::{self, Argb, Theme, ThemeSlot};
use crate::text;

verus! {

/// `s` with every ASCII capital in lower case.
pub open spec fn lower_all(s: Seq<char>) -> Seq<char> {
    s.map_values(|c: char| text::ascii_lower(c))
}

/// The key and value one line holds, if it holds one: trimmed, not a `#` comment, with
/// an `=` that has at least one character before it. The key is trimmed and in lower
/// case, the value trimmed.
pub open spec fn line_entry(line: Seq<char>) -> Option<(Seq<char>, Seq<char>)> {
    let t = text::trim(line);
    if t.len() == 0 || t[0] == '#' {
        None
    } else {
        match text::index_of(t, '=') {
            Some(eq) => if eq > 0 {
                Some((
                    lower_all(text::trim(t.subrange(0, eq as int))),
                    text::trim(t.subrange(eq as int + 1, t.len() as int)),
                ))
            } else {
                None
            },
            None => None,
        }
    }
}

pub open spec fn entry_seq(e: Option<(Seq<char>, Seq<char>)>) -> Seq<(Seq<char>, Seq<char>)> {
    match e {
        Some(kv) => seq![kv],
        None => Seq::empty(),
    }
}

/// The entries of a text, line by line in order. Lines end at `\n`; a `\r` before it is
/// white space and goes with the trimming.
pub open spec fn entries_of(s: Seq<char>) -> Seq<(Seq<char>, Seq<char>)>
    decreases s.len(),
{
    match text::index_of(s, '\n') {
        Some(i) => if i < s.len() {
            entry_seq(line_entry(s.subrange(0, i as int)))
                + entries_of(s.subrange(i as int + 1, s.len() as int))
        } else {
            Seq::empty()
        },
        None => entry_seq(line_entry(s)),
    }
}

/// The value of the last entry whose key is `key`.
pub open spec fn lookup(entries: Seq<(Seq<char>, Seq<char>)>, key: Seq<char>) -> Option<Seq<char>>
    decreases entries.len(),
{
    if entries.len() == 0 {
        None
    } else if entries.last().0 == key {
        Some(entries.last().1)
    } else {
        lookup(entries.drop_last(), key)
    }
}

/// Parsed `Key=Value` lines: case-insensitive keys, the last duplicate winning.
pub struct Lines {
    entries: Vec<(String, String)>,
}

impl View for Lines {
    type V = Seq<(Seq<char>, Seq<char>)>;

    closed spec fn view(&self) -> Seq<(Seq<char>, Seq<char>)> {
        self.entries@.map_values(|e: (String, String)| (e.0@, e.1@))
    }
}

/// The characters of `v`, with ASCII capitals lowered.
fn lowered(v: &Vec<char>) -> (r: Vec<char>)
    ensures
        r@ == lower_all(v@),
{
    let mut r: Vec<char> = Vec::new();
    let mut i: usize = 0;
    while i < v.len()
        invariant
            i <= v.len(),
            r@ == lower_all(v@.subrange(0, i as int)),
        decreases v.len() - i,
    {
        r.push(text::to_ascii_lower(v[i]));
        i = i + 1;
        assert(r@ =~= lower_all(v@.subrange(0, i as int)));
    }
    assert(v@.subrange(0, v.len() as int) =~= v@);
    r
}

/// The entry `line` holds, as [`line_entry`] reads it.
fn entry_of_line(line: &Vec<char>) -> (r: Option<(String, String)>)
    ensures
        match r {
            Some(kv) => line_entry(line@) == Some((kv.0@, kv.1@)),
            None => line_entry(line@) is None,
        },
{
    let (s, e) = text::trimmed_bounds(line);
    let t = text::slice_chars(line, s, e);
    if t.len() == 0 || t[0] == '#' {
        return None;
    }
    match text::find_char(&t, '=') {
        Some(eq) => {
            if eq == 0 {
                return None;
            }
            let k0 = text::slice_chars(&t, 0, eq);
            let (ks, ke) = text::trimmed_bounds(&k0);
            let k1 = text::slice_chars(&k0, ks, ke);
            let k = lowered(&k1);
            let v0 = text::slice_chars(&t, eq + 1, t.len());
            let (vs, ve) = text::trimmed_bounds(&v0);
            let v = text::slice_chars(&v0, vs, ve);
            Some((text::string_of(&k), text::string_of(&v)))
        },
        None => None,
    }
}

proof fn lemma_entries_step(s: Seq<char>, i: int)
    requires
        0 <= i < s.len(),
        s[i] == '\n',
        forall|j: int| 0 <= j < i ==> #[trigger] s[j] != '\n',
    ensures
        entries_of(s) == entry_seq(line_entry(s.subrange(0, i))) + entries_of(s.subrange(i as int + 1, s.len() as int)),
{
    text::lemma_index_of_pub(s, '\n', i);
}

proof fn lemma_entries_last(s: Seq<char>)
    requires
        forall|j: int| 0 <= j < s.len() ==> #[trigger] s[j] != '\n',
    ensures
        entries_of(s) == entry_seq(line_entry(s)),
{
    text::lemma_index_of_pub(s, '\n', s.len() as int);
}

/// The switch under `key`: `true` or `false` in any case, or `fallback` for anything
/// else and for a missing key.
#[verifier::opaque]
pub open spec fn spec_bool(entries: Seq<(Seq<char>, Seq<char>)>, key: Seq<char>, fallback: bool) -> bool {
    match lookup(entries, lower_all(key)) {
        Some(v) => if lower_all(text::trim(v)) == "true"@ {
            true
        } else if lower_all(text::trim(v)) == "false"@ {
            false
        } else {
            fallback
        },
        None => fallback,
    }
}

impl Lines {
    /// Reads every `Key=Value` line of `written`.
    pub fn parse(written: &str) -> (l: Lines)
        ensures
            l@ == entries_of(written@),
    {
        let v = text::chars_of(written);
        let mut entries: Vec<(String, String)> = Vec::new();
        let mut start: usize = 0;
        let mut j: usize = 0;
        assert(v@.subrange(0, v.len() as int) =~= v@);
        assert(entries@.map_values(|e: (String, String)| (e.0@, e.1@)) + entries_of(v@) =~= entries_of(v@));
        while j < v.len()
            invariant
                v@ == written@,
                start <= j <= v.len(),
                forall|k: int| start <= k < j ==> #[trigger] v@[k] != '\n',
                entries_of(v@) == entries@.map_values(|e: (String, String)| (e.0@, e.1@))
                    + entries_of(v@.subrange(start as int, v.len() as int)),
            decreases v.len() - j,
        {
            if v[j] == '\n' {
                let line = text::slice_chars(&v, start, j);
                let ghost rest = v@.subrange(start as int, v.len() as int);
                proof {
                    assert forall|k: int| 0 <= k < j - start implies #[trigger] rest[k] != '\n' by {
                        assert(rest[k] == v@[start + k]);
                    }
                    lemma_entries_step(rest, j - start);
                    assert(rest.subrange(0, j - start) =~= line@);
                    assert(rest.subrange(j - start + 1, rest.len() as int) =~= v@.subrange(j + 1, v.len() as int));
                }
                let got = entry_of_line(&line);
                let ghost before = entries@.map_values(|e: (String, String)| (e.0@, e.1@));
                match got {
                    Some(kv) => {
                        entries.push(kv);
                        assert(entries@.map_values(|e: (String, String)| (e.0@, e.1@)) =~= before + entry_seq(line_entry(line@)));
                    },
                    None => {
                        assert(before + entry_seq(line_entry(line@)) =~= before);
                    },
                }
                start = j + 1;
            }
            j = j + 1;
        }
        let line = text::slice_chars(&v, start, v.len());
        let ghost before = entries@.map_values(|e: (String, String)| (e.0@, e.1@));
        proof {
            let rest = v@.subrange(start as int, v.len() as int);
            assert(rest =~= line@);
            assert forall|k: int| 0 <= k < rest.len() implies #[trigger] rest[k] != '\n' by {
                assert(rest[k] == v@[start + k]);
            }
            lemma_entries_last(rest);
        }
        match entry_of_line(&line) {
            Some(kv) => {
                entries.push(kv);
                assert(entries@.map_values(|e: (String, String)| (e.0@, e.1@)) =~= before + entry_seq(line_entry(line@)));
            },
            None => {
                assert(before + entry_seq(line_entry(line@)) =~= before);
            },
        }
        Lines { entries }
    }

    /// The value last given for `key`, whatever its case.
    pub fn get(&self, key: &str) -> (r: Option<String>)
        ensures
            match r {
                Some(v) => lookup(self@, lower_all(key@)) == Some(v@),
                None => lookup(self@, lower_all(key@)) is None,
            },
    {
        let kc = text::chars_of(key);
        let k = text::string_of(&lowered(&kc));
        let mut i = self.entries.len();
        assert(self@.subrange(0, i as int) =~= self@);
        while i > 0
            invariant
                i <= self.entries.len(),
                k@ == lower_all(key@),
                lookup(self@, k@) == lookup(self@.subrange(0, i as int), k@),
            decreases i,
        {
            let ghost prefix = self@.subrange(0, i as int);
            assert(prefix.drop_last() =~= self@.subrange(0, i - 1));
            assert(prefix.last() == (self.entries@[i - 1].0@, self.entries@[i - 1].1@));
            if self.entries[i - 1].0 == k {
                return Some(self.entries[i - 1].1.clone());
            }
            i = i - 1;
        }
        None
    }

    /// A switch: `true` or `false` in any case, or `fallback` for anything else.
    pub fn bool(&self, key: &str, fallback: bool) -> (r: bool)
        ensures
            r == spec_bool(self@, key@, fallback),
    {
        proof {
            reveal(spec_bool);
        }
        match self.get(key) {
            Some(v) => {
                let t = text::trimmed_chars(v.as_str());
                let l = text::string_of(&lowered(&t));
                if text::same_chars(&l, "true") {
                    true
                } else if text::same_chars(&l, "false") {
                    false
                } else {
                    fallback
                }
            },
            None => fallback,
        }
    }

    /// `#AARRGGBB`, or `auto` or nothing for "follow the palette"; a colour that does not
    /// read keeps `fallback`, as does a missing key.
    pub fn colour(&self, key: &str, fallback: Option<Argb>) -> (r: Option<Argb>)
        ensures
            r == spec_colour(self@, key@, fallback),
    {
        match self.get(key) {
            None => fallback,
            Some(v) => {
                let t = text::trimmed_chars(v.as_str());
                let ts = text::string_of(&t);
                if t.len() == 0 || text::same_ignoring_ascii_case(ts.as_str(), "auto") {
                    None
                } else {
                    match Argb::parse(v.as_str()) {
                        Some(c) => Some(c),
                        None => fallback,
                    }
                }
            },
        }
    }
}

/// What [`Lines::colour`] reads for `key`.
pub open spec fn spec_colour(entries: Seq<(Seq<char>, Seq<char>)>, key: Seq<char>, fallback: Option<Argb>) -> Option<Argb> {
    match lookup(entries, lower_all(key)) {
        None => fallback,
        Some(v) => if text::trim(v).len() == 0 || text::eq_ignore_ascii_case(text::trim(v), "auto"@) {
            None
        } else {
            match settings::spec_parse_argb(v) {
                Some(c) => Some(c),
                None => fallback,
            }
        },
    }
}

/// The key a theme slot's colour is written under: `Col` and the slot's name.
pub open spec fn colour_key(slot: ThemeSlot) -> Seq<char> {
    "Col"@ + slot.spec_name()
}

/// Reads a Nostalgia+ theme file: colour keys only, so it applies over any preset.
pub fn parse_theme(written: &str) -> (t: Theme)
    ensures
        forall|slot: ThemeSlot| #[trigger] t.slot_value(slot)
            == spec_colour(entries_of(written@), colour_key(slot), None),
{
    let m = Lines::parse(written);
    let mut theme = Theme::default();
    let all = ThemeSlot::ALL;
    let mut i: usize = 0;
    while i < 13
        invariant
            m@ == entries_of(written@),
            all@ == seq![ThemeSlot::Background, ThemeSlot::Panel, ThemeSlot::GridMajor,
                ThemeSlot::GridMinor, ThemeSlot::AxisText, ThemeSlot::Units, ThemeSlot::Curve,
                ThemeSlot::PeakTrace, ThemeSlot::AverageTrace, ThemeSlot::MinimumTrace,
                ThemeSlot::Hover, ThemeSlot::Waveform, ThemeSlot::Snapshot],
            i <= 13,
            forall|j: int| 0 <= j < i ==> #[trigger] theme.slot_value(all@[j])
                == spec_colour(m@, colour_key(all@[j]), None),
            forall|j: int| i <= j < 13 ==> #[trigger] theme.slot_value(all@[j]) is None,
        decreases 13 - i,
    {
        let slot = all[i];
        let mut key = String::new();
        text::push_str(&mut key, "Col");
        text::push_str(&mut key, slot.name());
        let c = m.colour(key.as_str(), None);
        let ghost old_theme = theme;
        theme.set(slot, c);
        proof {
            assert forall|j: int| 0 <= j < 13 implies #[trigger] theme.slot_value(all@[j])
                == (if j == i { c } else { old_theme.slot_value(all@[j]) }) by {
                settings::lemma_theme_slots_independent(old_theme, slot, c, all@[j]);
            }
        }
        i = i + 1;
    }
    proof {
        assert forall|slot: ThemeSlot| #[trigger] theme.slot_value(slot)
            == spec_colour(m@, colour_key(slot), None) by {
            match slot {
                ThemeSlot::Background => assert(all@[0] == slot),
                ThemeSlot::Panel => assert(all@[1] == slot),
                ThemeSlot::GridMajor => assert(all@[2] == slot),
                ThemeSlot::GridMinor => assert(all@[3] == slot),
                ThemeSlot::AxisText => assert(all@[4] == slot),
                ThemeSlot::Units => assert(all@[5] == slot),
                ThemeSlot::Curve => assert(all@[6] == slot),
                ThemeSlot::PeakTrace => assert(all@[7] == slot),
                ThemeSlot::AverageTrace => assert(all@[8] == slot),
                ThemeSlot::MinimumTrace => assert(all@[9] == slot),
                ThemeSlot::Hover => assert(all@[10] == slot),
                ThemeSlot::Waveform => assert(all@[11] == slot),
                ThemeSlot::Snapshot => assert(all@[12] == slot),
            }
        }
    }
    theme
}

/// A key is found in any case: two keys that differ only in ASCII case read the same
/// entry.
pub proof fn lemma_key_case_does_not_matter(entries: Seq<(Seq<char>, Seq<char>)>, a: Seq<char>, b: Seq<char>)
    requires
        text::eq_ignore_ascii_case(a, b),
    ensures
        lookup(entries, lower_all(a)) == lookup(entries, lower_all(b)),
{
    assert(lower_all(a) =~= lower_all(b));
}

/// Of two entries for the same key, whatever their case, the later one wins.
pub proof fn lemma_last_key_wins(entries: Seq<(Seq<char>, Seq<char>)>, key: Seq<char>, value: Seq<char>, later: Seq<(Seq<char>, Seq<char>)>)
    requires
        forall|j: int| 0 <= j < later.len() ==> (#[trigger] later[j]).0 != key,
    ensures
        lookup(entries.push((key, value)) + later, key) == Some(value),
    decreases later.len(),
{
    if later.len() > 0 {
        let all = entries.push((key, value)) + later;
        assert(all.drop_last() =~= entries.push((key, value)) + later.drop_last());
        assert(all.last() == later.last());
        lemma_last_key_wins(entries, key, value, later.drop_last());
    } else {
        assert(entries.push((key, value)) + later =~= entries.push((key, value)));
    }
}

} // verus!

verus! {

/// The number a run of decimal digits writes.
pub open spec fn decimal_value(s: Seq<char>) -> nat
    decreases s.len(),
{
    if s.len() == 0 {
        0
    } else {
        decimal_value(s.drop_last()) * 10 + (s.last() as u32 - '0' as u32) as nat
    }
}

/// The digits of an unsigned number as `usize`'s parser takes it: an optional `+`, then
/// one or more ASCII digits and nothing else.
pub open spec fn number_digits(v: Seq<char>) -> Option<Seq<char>> {
    let d = unsigned_part(v);
    if d.len() > 0 && all_digits(d) {
        Some(d)
    } else {
        None
    }
}

/// `v` without a leading `+`.
pub open spec fn unsigned_part(v: Seq<char>) -> Seq<char> {
    if v.len() > 0 && v[0] == '+' { v.drop_first() } else { v }
}

/// Every character of `d` is an ASCII digit.
pub open spec fn all_digits(d: Seq<char>) -> bool {
    forall|i: int| 0 <= i < d.len() ==> text::is_ascii_digit(#[trigger] d[i])
}

/// The first position in `names` that `v` names, ignoring ASCII case.
pub open spec fn name_index(names: Seq<Seq<char>>, v: Seq<char>, k: int) -> Option<int>
    decreases names.len() - k,
{
    if k < 0 || k >= names.len() {
        None
    } else if text::eq_ignore_ascii_case(names[k], v) {
        Some(k)
    } else {
        name_index(names, v, k + 1)
    }
}

/// Which of `count` values `v` picks, as .NET's `Enum.Parse(type, value, ignoreCase:
/// true)` read it: a member's name, or a member's number.
pub open spec fn spec_enum_index(names: Seq<Seq<char>>, v: Seq<char>) -> Option<int> {
    match name_index(names, v, 0) {
        Some(i) => Some(i),
        None => match number_digits(v) {
            Some(d) => if decimal_value(d) < names.len() { Some(decimal_value(d) as int) } else { None },
            None => None,
        },
    }
}

proof fn lemma_decimal_grows(s: Seq<char>, c: char)
    requires
        text::is_ascii_digit(c),
    ensures
        decimal_value(s.push(c)) >= decimal_value(s),
        decimal_value(s.push(c)) == decimal_value(s) * 10 + (c as u32 - '0' as u32),
{
    assert(s.push(c).drop_last() =~= s);
}

/// The index `v` names among `names`, by name or by number.
fn enum_index(names: &[&str], v: &Vec<char>) -> (r: Option<usize>)
    ensures
        match r {
            Some(i) => spec_enum_index(names@.map_values(|n: &str| n@), v@) == Some(i as int),
            None => spec_enum_index(names@.map_values(|n: &str| n@), v@) is None,
        },
{
    let ghost all = names@.map_values(|n: &str| n@);
    let vs = text::string_of(v);
    let mut k: usize = 0;
    while k < names.len()
        invariant
            k <= names.len(),
            all == names@.map_values(|n: &str| n@),
            vs@ == v@,
            name_index(all, v@, 0) == name_index(all, v@, k as int),
        decreases names.len() - k,
    {
        if text::same_ignoring_ascii_case(names[k], vs.as_str()) {
            return Some(k);
        }
        k = k + 1;
    }
    let start: usize = if v.len() > 0 && v[0] == '+' { 1 } else { 0 };
    let ghost d = if v@.len() > 0 && v@[0] == '+' { v@.drop_first() } else { v@ };
    assert(d =~= v@.subrange(start as int, v@.len() as int));
    if start >= v.len() {
        return None;
    }
    let n = names.len() as u128;
    let mut value: u128 = 0;
    let mut i = start;
    while i < v.len()
        invariant
            start <= i <= v.len(),
            all == names@.map_values(|n: &str| n@),
            name_index(all, v@, 0) is None,
            d == unsigned_part(v@),
            d == v@.subrange(start as int, v@.len() as int),
            n == names@.len(),
            n <= usize::MAX,
            forall|j: int| start <= j < i ==> text::is_ascii_digit(#[trigger] v@[j]),
            value < n ==> value == decimal_value(v@.subrange(start as int, i as int)),
            value >= n ==> decimal_value(v@.subrange(start as int, i as int)) >= n,
            value <= n,
        decreases v.len() - i,
    {
        let c = v[i];
        if !('0' <= c && c <= '9') {
            assert(number_digits(v@) is None) by {
                assert(d[i - start] == c);
                assert(!text::is_ascii_digit(d[i - start]));
            }
            return None;
        }
        proof {
            assert(v@.subrange(start as int, i + 1) =~= v@.subrange(start as int, i as int).push(c));
            lemma_decimal_grows(v@.subrange(start as int, i as int), c);
        }
        if value < n {
            let next = value * 10 + ((c as u32) - ('0' as u32)) as u128;
            value = if next < n { next } else { n };
        }
        i = i + 1;
    }
    assert(v@.subrange(start as int, v@.len() as int) == d);
    if value < n {
        Some(value as usize)
    } else {
        None
    }
}

/// The choice under `key` among `all`, whose names are `names`: a member's name in any
/// case or a member's number, or `fallback` for anything else and for a missing key.
pub open spec fn spec_en<T>(entries: Seq<(Seq<char>, Seq<char>)>, key: Seq<char>, all: Seq<T>, names: Seq<Seq<char>>, fallback: T) -> T {
    match lookup(entries, lower_all(key)) {
        Some(v) => match spec_enum_index(names, text::trim(v)) {
            Some(i) => all[i],
            None => fallback,
        },
        None => fallback,
    }
}

impl Lines {
    /// A choice among `all`, whose names are `names` in the same order: a member's name
    /// in any case, or a member's number, as .NET's `Enum.Parse` read Nostalgia+'s
    /// files. Anything else, or a missing key, keeps `fallback`.
    pub fn en<T: Copy>(&self, key: &str, all: &[T], names: &[&str], fallback: T) -> (r: T)
        requires
            all@.len() == names@.len(),
        ensures
            r == spec_en(self@, key@, all@, names@.map_values(|n: &str| n@), fallback),
    {
        match self.get(key) {
            None => fallback,
            Some(v) => {
                let t = text::trimmed_chars(v.as_str());
                match enum_index(names, &t) {
                    Some(i) => {
                        proof {
                            lemma_enum_index_in_range(names@.map_values(|n: &str| n@), t@);
                        }
                        all[i]
                    },
                    None => fallback,
                }
            },
        }
    }
}

proof fn lemma_name_index_in_range(names: Seq<Seq<char>>, v: Seq<char>, k: int)
    ensures
        name_index(names, v, k) matches Some(i) ==> 0 <= i < names.len(),
    decreases names.len() - k,
{
    if 0 <= k < names.len() {
        lemma_name_index_in_range(names, v, k + 1);
    }
}

proof fn lemma_enum_index_in_range(names: Seq<Seq<char>>, v: Seq<char>)
    ensures
        spec_enum_index(names, v) matches Some(i) ==> 0 <= i < names.len(),
{
    lemma_name_index_in_range(names, v, 0);
}

} // verus!

verus! {

/// A switch as a Nostalgia+ settings file holds it: under its own key, with the keys
/// older files used still honoured where the key has changed, and the switch as the app
/// ships it where the file says nothing readable. The old `DeckShowMeters` stands for
/// both the correlation and the balance meter, and the scroll smoothing is new, so no
/// file holds it.
pub open spec fn spec_legacy_flag(entries: Seq<(Seq<char>, Seq<char>)>, flag: Flag) -> bool {
    match flag {
        Flag::ShowGrid => spec_bool(entries, "ShowGrid"@, true),
        Flag::ShowLabels => spec_bool(entries, "ShowLabels"@, true),
        Flag::ShowColourBar => spec_bool(entries, "ShowColorBar"@, true),
        Flag::ShowHud => spec_bool(entries, "ShowHud"@, true),
        Flag::ShowStatus => spec_bool(entries, "ShowStatus"@, true),
        Flag::AdaptiveRange => spec_bool(entries, "AdaptiveRange"@, true),
        Flag::SmoothTime => false,
        Flag::ShowMax => spec_bool(entries, "ShowMax"@, true),
        Flag::ShowMin => spec_bool(entries, "ShowMin"@, false),
        Flag::ShowAvg => spec_bool(entries, "ShowAvg"@, false),
        Flag::SolidFill => spec_bool(entries, "SolidFill"@, true),
        Flag::CurveOnLeft => spec_bool(entries, "CurveOnLeft"@, true),
        Flag::MirrorLeftPane => spec_bool(entries, "MirrorLeftPane"@, false),
        Flag::ShowDbScale => spec_bool(entries, "ShowDbScale"@, true),
        Flag::ShowTimeMarks => spec_bool(entries, "ShowTimeMarks"@, true),
        Flag::ShowSemitones => spec_bool(entries, "ShowSemitones"@, true),
        Flag::ShowOuterLabels => spec_bool(entries, "ShowOuterLabels"@, true),
        Flag::ShowAxisLabels => spec_bool(entries, "ShowAxisLabels"@, true),
        Flag::SyncHover => spec_bool(entries, "SyncHover"@, true),
        Flag::ShowHoverPin => spec_bool(entries, "ShowHoverPin"@, true),
        Flag::ShowHarmonics => spec_bool(entries, "ShowHarmonics"@, false),
        Flag::SeekOnImageClick => spec_bool(entries, "SeekOnImageClick"@, true),
        Flag::ShowOsd => spec_bool(entries, "ShowOsd"@, spec_bool(entries, "FsShowOsd"@, true)),
        Flag::ShowQuickButtons => spec_bool(entries, "ShowQuickButtons"@, true),
        Flag::QuickBarCompact => spec_bool(entries, "QuickBarCompact"@, false),
        Flag::QuickBarSplit => spec_bool(entries, "QuickBarSplit"@, true),
        Flag::ReserveScaleSpace => spec_bool(entries, "ReserveScaleSpace"@, true),
        Flag::ShowScaleUnits => spec_bool(entries, "ShowScaleUnits"@, true),
        Flag::ShowCentreDeck => spec_bool(entries, "ShowCenterDeck"@, true),
        Flag::DeckGoniometer => spec_bool(entries, "DeckShowGoniometer"@, true),
        Flag::DeckTransport => spec_bool(entries, "DeckShowTransport"@, true),
        Flag::DeckArtwork => spec_bool(entries, "DeckShowArtwork"@, true),
        Flag::DeckTrackInfo => spec_bool(entries, "DeckShowTrackInfo"@, true),
        Flag::DeckCorrelation => spec_bool(entries, "DeckShowCorrelation"@, spec_bool(entries, "DeckShowMeters"@, true)),
        Flag::DeckBalance => spec_bool(entries, "DeckShowBalance"@, spec_bool(entries, "DeckShowMeters"@, true)),
        Flag::DeckLufsM => spec_bool(entries, "DeckShowLufsM"@, true),
        Flag::DeckLufsS => spec_bool(entries, "DeckShowLufsS"@, true),
        Flag::DeckTruePeak => spec_bool(entries, "DeckShowTruePeak"@, true),
        Flag::DeckCrest => spec_bool(entries, "DeckShowCrest"@, true),
        Flag::DeckLufsI => spec_bool(entries, "DeckShowLufsI"@, true),
        Flag::DeckLra => spec_bool(entries, "DeckShowLra"@, true),
        Flag::DeckOvers => spec_bool(entries, "DeckShowOvers"@, true),
        Flag::DeckBpm => spec_bool(entries, "DeckShowBpm"@, true),
        Flag::DeckBrightness => spec_bool(entries, "DeckShowBrightness"@, true),
        Flag::ShowWaveform => spec_bool(entries, "ShowWaveform"@, spec_bool(entries, "FsShowWaveform"@, true)),
        Flag::Immersive => spec_bool(entries, "Immersive"@, spec_bool(entries, "FsImmersive"@, false)),
        Flag::Glow => spec_bool(entries, "Glow"@, spec_bool(entries, "FsGlow"@, true)),
        Flag::AutoHide => spec_bool(entries, "AutoHide"@, spec_bool(entries, "FsAutoHide"@, true)),
        Flag::Backdrop => spec_bool(entries, "ImmBackdrop"@, true),
        Flag::BeatReactive => spec_bool(entries, "ImmBeatReactive"@, true),
        Flag::ColourFollows => spec_bool(entries, "ImmColourFollows"@, true),
        Flag::Cinematic => spec_bool(entries, "ImmCinematic"@, false),
    }
}

/// One switch of a Nostalgia+ settings file, read as [`spec_legacy_flag`] says.
pub fn legacy_flag(m: &Lines, flag: Flag) -> (r: bool)
    ensures
        r == spec_legacy_flag(m@, flag),
{
    match flag {
        Flag::ShowGrid => m.bool("ShowGrid", true),
        Flag::ShowLabels => m.bool("ShowLabels", true),
        Flag::ShowColourBar => m.bool("ShowColorBar", true),
        Flag::ShowHud => m.bool("ShowHud", true),
        Flag::ShowStatus => m.bool("ShowStatus", true),
        Flag::AdaptiveRange => m.bool("AdaptiveRange", true),
        Flag::SmoothTime => false,
        Flag::ShowMax => m.bool("ShowMax", true),
        Flag::ShowMin => m.bool("ShowMin", false),
        Flag::ShowAvg => m.bool("ShowAvg", false),
        Flag::SolidFill => m.bool("SolidFill", true),
        Flag::CurveOnLeft => m.bool("CurveOnLeft", true),
        Flag::MirrorLeftPane => m.bool("MirrorLeftPane", false),
        Flag::ShowDbScale => m.bool("ShowDbScale", true),
        Flag::ShowTimeMarks => m.bool("ShowTimeMarks", true),
        Flag::ShowSemitones => m.bool("ShowSemitones", true),
        Flag::ShowOuterLabels => m.bool("ShowOuterLabels", true),
        Flag::ShowAxisLabels => m.bool("ShowAxisLabels", true),
        Flag::SyncHover => m.bool("SyncHover", true),
        Flag::ShowHoverPin => m.bool("ShowHoverPin", true),
        Flag::ShowHarmonics => m.bool("ShowHarmonics", false),
        Flag::SeekOnImageClick => m.bool("SeekOnImageClick", true),
        Flag::ShowOsd => m.bool("ShowOsd", m.bool("FsShowOsd", true)),
        Flag::ShowQuickButtons => m.bool("ShowQuickButtons", true),
        Flag::QuickBarCompact => m.bool("QuickBarCompact", false),
        Flag::QuickBarSplit => m.bool("QuickBarSplit", true),
        Flag::ReserveScaleSpace => m.bool("ReserveScaleSpace", true),
        Flag::ShowScaleUnits => m.bool("ShowScaleUnits", true),
        Flag::ShowCentreDeck => m.bool("ShowCenterDeck", true),
        Flag::DeckGoniometer => m.bool("DeckShowGoniometer", true),
        Flag::DeckTransport => m.bool("DeckShowTransport", true),
        Flag::DeckArtwork => m.bool("DeckShowArtwork", true),
        Flag::DeckTrackInfo => m.bool("DeckShowTrackInfo", true),
        Flag::DeckCorrelation => m.bool("DeckShowCorrelation", m.bool("DeckShowMeters", true)),
        Flag::DeckBalance => m.bool("DeckShowBalance", m.bool("DeckShowMeters", true)),
        Flag::DeckLufsM => m.bool("DeckShowLufsM", true),
        Flag::DeckLufsS => m.bool("DeckShowLufsS", true),
        Flag::DeckTruePeak => m.bool("DeckShowTruePeak", true),
        Flag::DeckCrest => m.bool("DeckShowCrest", true),
        Flag::DeckLufsI => m.bool("DeckShowLufsI", true),
        Flag::DeckLra => m.bool("DeckShowLra", true),
        Flag::DeckOvers => m.bool("DeckShowOvers", true),
        Flag::DeckBpm => m.bool("DeckShowBpm", true),
        Flag::DeckBrightness => m.bool("DeckShowBrightness", true),
        Flag::ShowWaveform => m.bool("ShowWaveform", m.bool("FsShowWaveform", true)),
        Flag::Immersive => m.bool("Immersive", m.bool("FsImmersive", false)),
        Flag::Glow => m.bool("Glow", m.bool("FsGlow", true)),
        Flag::AutoHide => m.bool("AutoHide", m.bool("FsAutoHide", true)),
        Flag::Backdrop => m.bool("ImmBackdrop", true),
        Flag::BeatReactive => m.bool("ImmBeatReactive", true),
        Flag::ColourFollows => m.bool("ImmColourFollows", true),
        Flag::Cinematic => m.bool("ImmCinematic", false),
    }
}

/// The switches a Nostalgia+ settings file holds, read as [`spec_legacy_flag`] says.
pub fn legacy_switches(m: &Lines) -> (w: Switches)
    ensures
        w@.len() == 52,
        forall|f: Flag| #[trigger] w.is_on(f) == spec_legacy_flag(m@, f),
{
    let all = Flag::ALL;
    let mut on: Vec<bool> = Vec::new();
    let mut i: usize = 0;
    while i < 52
        invariant
            i <= 52,
            all@ == Flag::ALL@,
            on@.len() == i,
            forall|j: int| 0 <= j < i ==> #[trigger] on@[j] == spec_legacy_flag(m@, all@[j]),
        decreases 52 - i,
    {
        on.push(legacy_flag(m, all[i]));
        i = i + 1;
    }
    let w = Switches::from_values(on);
    proof {
        assert forall|f: Flag| #[trigger] w.is_on(f) == spec_legacy_flag(m@, f) by {
            Flag::lemma_index_finds_the_flag(f);
        }
    }
    w
}

} // verus!

verus! {

/// The names of every [`PaletteKind`], in the order of its `ALL`.
pub open spec fn palette_kind_names() -> Seq<Seq<char>> {
    crate::palette::PaletteKind::ALL@.map_values(|v: crate::palette::PaletteKind| v.spec_name())
}

fn palette_kind_name_list() -> (r: Vec<&'static str>)
    ensures
        r@.map_values(|n: &str| n@) == palette_kind_names(),
        r@.len() == 13,
{
    let all = crate::palette::PaletteKind::ALL;
    let mut r: Vec<&'static str> = Vec::new();
    let mut i: usize = 0;
    while i < 13
        invariant
            i <= 13,
            all@ == crate::palette::PaletteKind::ALL@,
            r@.len() == i,
            forall|j: int| 0 <= j < i ==> #[trigger] r@[j]@ == all@[j].spec_name(),
        decreases 13 - i,
    {
        r.push(all[i].name());
        i = i + 1;
    }
    assert(r@.map_values(|n: &str| n@) =~= palette_kind_names());
    r
}

/// The names of every [`FreqScale`], in the order of its `ALL`.
pub open spec fn freq_scale_names() -> Seq<Seq<char>> {
    crate::dsp::frequency_map::FreqScale::ALL@.map_values(|v: crate::dsp::frequency_map::FreqScale| v.spec_name())
}

fn freq_scale_name_list() -> (r: Vec<&'static str>)
    ensures
        r@.map_values(|n: &str| n@) == freq_scale_names(),
        r@.len() == 3,
{
    let all = crate::dsp::frequency_map::FreqScale::ALL;
    let mut r: Vec<&'static str> = Vec::new();
    let mut i: usize = 0;
    while i < 3
        invariant
            i <= 3,
            all@ == crate::dsp::frequency_map::FreqScale::ALL@,
            r@.len() == i,
            forall|j: int| 0 <= j < i ==> #[trigger] r@[j]@ == all@[j].spec_name(),
        decreases 3 - i,
    {
        r.push(all[i].name());
        i = i + 1;
    }
    assert(r@.map_values(|n: &str| n@) =~= freq_scale_names());
    r
}

/// The names of every [`AnalysisQuality`], in the order of its `ALL`.
pub open spec fn analysis_quality_names() -> Seq<Seq<char>> {
    crate::dsp::analyzer::AnalysisQuality::ALL@.map_values(|v: crate::dsp::analyzer::AnalysisQuality| v.spec_name())
}

fn analysis_quality_name_list() -> (r: Vec<&'static str>)
    ensures
        r@.map_values(|n: &str| n@) == analysis_quality_names(),
        r@.len() == 4,
{
    let all = crate::dsp::analyzer::AnalysisQuality::ALL;
    let mut r: Vec<&'static str> = Vec::new();
    let mut i: usize = 0;
    while i < 4
        invariant
            i <= 4,
            all@ == crate::dsp::analyzer::AnalysisQuality::ALL@,
            r@.len() == i,
            forall|j: int| 0 <= j < i ==> #[trigger] r@[j]@ == all@[j].spec_name(),
        decreases 4 - i,
    {
        r.push(all[i].name());
        i = i + 1;
    }
    assert(r@.map_values(|n: &str| n@) =~= analysis_quality_names());
    r
}

/// The names of every [`WindowType`], in the order of its `ALL`.
pub open spec fn window_type_names() -> Seq<Seq<char>> {
    crate::dsp::window::WindowType::ALL@.map_values(|v: crate::dsp::window::WindowType| v.spec_name())
}

fn window_type_name_list() -> (r: Vec<&'static str>)
    ensures
        r@.map_values(|n: &str| n@) == window_type_names(),
        r@.len() == 6,
{
    let all = crate::dsp::window::WindowType::ALL;
    let mut r: Vec<&'static str> = Vec::new();
    let mut i: usize = 0;
    while i < 6
        invariant
            i <= 6,
            all@ == crate::dsp::window::WindowType::ALL@,
            r@.len() == i,
            forall|j: int| 0 <= j < i ==> #[trigger] r@[j]@ == all@[j].spec_name(),
        decreases 6 - i,
    {
        r.push(all[i].name());
        i = i + 1;
    }
    assert(r@.map_values(|n: &str| n@) =~= window_type_names());
    r
}

/// The names of every [`BandAggregate`], in the order of its `ALL`.
pub open spec fn band_aggregate_names() -> Seq<Seq<char>> {
    crate::dsp::analyzer::BandAggregate::ALL@.map_values(|v: crate::dsp::analyzer::BandAggregate| v.spec_name())
}

fn band_aggregate_name_list() -> (r: Vec<&'static str>)
    ensures
        r@.map_values(|n: &str| n@) == band_aggregate_names(),
        r@.len() == 2,
{
    let all = crate::dsp::analyzer::BandAggregate::ALL;
    let mut r: Vec<&'static str> = Vec::new();
    let mut i: usize = 0;
    while i < 2
        invariant
            i <= 2,
            all@ == crate::dsp::analyzer::BandAggregate::ALL@,
            r@.len() == i,
            forall|j: int| 0 <= j < i ==> #[trigger] r@[j]@ == all@[j].spec_name(),
        decreases 2 - i,
    {
        r.push(all[i].name());
        i = i + 1;
    }
    assert(r@.map_values(|n: &str| n@) =~= band_aggregate_names());
    r
}

/// The names of every [`ChannelPairMode`], in the order of its `ALL`.
pub open spec fn channel_pair_mode_names() -> Seq<Seq<char>> {
    crate::dsp::analyzer::ChannelPairMode::ALL@.map_values(|v: crate::dsp::analyzer::ChannelPairMode| v.spec_name())
}

fn channel_pair_mode_name_list() -> (r: Vec<&'static str>)
    ensures
        r@.map_values(|n: &str| n@) == channel_pair_mode_names(),
        r@.len() == 4,
{
    let all = crate::dsp::analyzer::ChannelPairMode::ALL;
    let mut r: Vec<&'static str> = Vec::new();
    let mut i: usize = 0;
    while i < 4
        invariant
            i <= 4,
            all@ == crate::dsp::analyzer::ChannelPairMode::ALL@,
            r@.len() == i,
            forall|j: int| 0 <= j < i ==> #[trigger] r@[j]@ == all@[j].spec_name(),
        decreases 4 - i,
    {
        r.push(all[i].name());
        i = i + 1;
    }
    assert(r@.map_values(|n: &str| n@) =~= channel_pair_mode_names());
    r
}

/// The names of every [`CurveStyle`], in the order of its `ALL`.
pub open spec fn curve_style_names() -> Seq<Seq<char>> {
    crate::settings::CurveStyle::ALL@.map_values(|v: crate::settings::CurveStyle| v.spec_name())
}

fn curve_style_name_list() -> (r: Vec<&'static str>)
    ensures
        r@.map_values(|n: &str| n@) == curve_style_names(),
        r@.len() == 3,
{
    let all = crate::settings::CurveStyle::ALL;
    let mut r: Vec<&'static str> = Vec::new();
    let mut i: usize = 0;
    while i < 3
        invariant
            i <= 3,
            all@ == crate::settings::CurveStyle::ALL@,
            r@.len() == i,
            forall|j: int| 0 <= j < i ==> #[trigger] r@[j]@ == all@[j].spec_name(),
        decreases 3 - i,
    {
        r.push(all[i].name());
        i = i + 1;
    }
    assert(r@.map_values(|n: &str| n@) =~= curve_style_names());
    r
}

/// The names of every [`CurveInterpolation`], in the order of its `ALL`.
pub open spec fn curve_interpolation_names() -> Seq<Seq<char>> {
    crate::dsp::curve::CurveInterpolation::ALL@.map_values(|v: crate::dsp::curve::CurveInterpolation| v.spec_name())
}

fn curve_interpolation_name_list() -> (r: Vec<&'static str>)
    ensures
        r@.map_values(|n: &str| n@) == curve_interpolation_names(),
        r@.len() == 3,
{
    let all = crate::dsp::curve::CurveInterpolation::ALL;
    let mut r: Vec<&'static str> = Vec::new();
    let mut i: usize = 0;
    while i < 3
        invariant
            i <= 3,
            all@ == crate::dsp::curve::CurveInterpolation::ALL@,
            r@.len() == i,
            forall|j: int| 0 <= j < i ==> #[trigger] r@[j]@ == all@[j].spec_name(),
        decreases 3 - i,
    {
        r.push(all[i].name());
        i = i + 1;
    }
    assert(r@.map_values(|n: &str| n@) =~= curve_interpolation_names());
    r
}

/// The names of every [`FilteringAmount`], in the order of its `ALL`.
pub open spec fn filtering_amount_names() -> Seq<Seq<char>> {
    crate::dsp::curve::FilteringAmount::ALL@.map_values(|v: crate::dsp::curve::FilteringAmount| v.spec_name())
}

fn filtering_amount_name_list() -> (r: Vec<&'static str>)
    ensures
        r@.map_values(|n: &str| n@) == filtering_amount_names(),
        r@.len() == 4,
{
    let all = crate::dsp::curve::FilteringAmount::ALL;
    let mut r: Vec<&'static str> = Vec::new();
    let mut i: usize = 0;
    while i < 4
        invariant
            i <= 4,
            all@ == crate::dsp::curve::FilteringAmount::ALL@,
            r@.len() == i,
            forall|j: int| 0 <= j < i ==> #[trigger] r@[j]@ == all@[j].spec_name(),
        decreases 4 - i,
    {
        r.push(all[i].name());
        i = i + 1;
    }
    assert(r@.map_values(|n: &str| n@) =~= filtering_amount_names());
    r
}

/// The names of every [`GraphBackground`], in the order of its `ALL`.
pub open spec fn graph_background_names() -> Seq<Seq<char>> {
    crate::settings::GraphBackground::ALL@.map_values(|v: crate::settings::GraphBackground| v.spec_name())
}

fn graph_background_name_list() -> (r: Vec<&'static str>)
    ensures
        r@.map_values(|n: &str| n@) == graph_background_names(),
        r@.len() == 4,
{
    let all = crate::settings::GraphBackground::ALL;
    let mut r: Vec<&'static str> = Vec::new();
    let mut i: usize = 0;
    while i < 4
        invariant
            i <= 4,
            all@ == crate::settings::GraphBackground::ALL@,
            r@.len() == i,
            forall|j: int| 0 <= j < i ==> #[trigger] r@[j]@ == all@[j].spec_name(),
        decreases 4 - i,
    {
        r.push(all[i].name());
        i = i + 1;
    }
    assert(r@.map_values(|n: &str| n@) =~= graph_background_names());
    r
}

/// The names of every [`AxisLabelMode`], in the order of its `ALL`.
pub open spec fn axis_label_mode_names() -> Seq<Seq<char>> {
    crate::settings::AxisLabelMode::ALL@.map_values(|v: crate::settings::AxisLabelMode| v.spec_name())
}

fn axis_label_mode_name_list() -> (r: Vec<&'static str>)
    ensures
        r@.map_values(|n: &str| n@) == axis_label_mode_names(),
        r@.len() == 3,
{
    let all = crate::settings::AxisLabelMode::ALL;
    let mut r: Vec<&'static str> = Vec::new();
    let mut i: usize = 0;
    while i < 3
        invariant
            i <= 3,
            all@ == crate::settings::AxisLabelMode::ALL@,
            r@.len() == i,
            forall|j: int| 0 <= j < i ==> #[trigger] r@[j]@ == all@[j].spec_name(),
        decreases 3 - i,
    {
        r.push(all[i].name());
        i = i + 1;
    }
    assert(r@.map_values(|n: &str| n@) =~= axis_label_mode_names());
    r
}

/// The names of every [`ScaleLanePosition`], in the order of its `ALL`.
pub open spec fn scale_lane_position_names() -> Seq<Seq<char>> {
    crate::settings::ScaleLanePosition::ALL@.map_values(|v: crate::settings::ScaleLanePosition| v.spec_name())
}

fn scale_lane_position_name_list() -> (r: Vec<&'static str>)
    ensures
        r@.map_values(|n: &str| n@) == scale_lane_position_names(),
        r@.len() == 2,
{
    let all = crate::settings::ScaleLanePosition::ALL;
    let mut r: Vec<&'static str> = Vec::new();
    let mut i: usize = 0;
    while i < 2
        invariant
            i <= 2,
            all@ == crate::settings::ScaleLanePosition::ALL@,
            r@.len() == i,
            forall|j: int| 0 <= j < i ==> #[trigger] r@[j]@ == all@[j].spec_name(),
        decreases 2 - i,
    {
        r.push(all[i].name());
        i = i + 1;
    }
    assert(r@.map_values(|n: &str| n@) =~= scale_lane_position_names());
    r
}

/// The names of every [`Preset`], in the order of its `ALL`.
pub open spec fn preset_names() -> Seq<Seq<char>> {
    crate::settings::Preset::ALL@.map_values(|v: crate::settings::Preset| v.spec_name())
}

fn preset_name_list() -> (r: Vec<&'static str>)
    ensures
        r@.map_values(|n: &str| n@) == preset_names(),
        r@.len() == 9,
{
    let all = crate::settings::Preset::ALL;
    let mut r: Vec<&'static str> = Vec::new();
    let mut i: usize = 0;
    while i < 9
        invariant
            i <= 9,
            all@ == crate::settings::Preset::ALL@,
            r@.len() == i,
            forall|j: int| 0 <= j < i ==> #[trigger] r@[j]@ == all@[j].spec_name(),
        decreases 9 - i,
    {
        r.push(all[i].name());
        i = i + 1;
    }
    assert(r@.map_values(|n: &str| n@) =~= preset_names());
    r
}

/// The fixed choices a Nostalgia+ settings file holds, each under its key by a member's
/// name or number, and as the app ships it where the file says nothing readable. The
/// frame cap is not among them: it comes from the file's frame rate.
pub open spec fn spec_legacy_chosen(entries: Seq<(Seq<char>, Seq<char>)>) -> Chosen {
    Chosen {
        palette: spec_en(entries, "Palette"@, crate::palette::PaletteKind::ALL@, palette_kind_names(), crate::palette::PaletteKind::Magma),
        scale: spec_en(entries, "Scale"@, crate::dsp::frequency_map::FreqScale::ALL@, freq_scale_names(), crate::dsp::frequency_map::FreqScale::Note),
        quality: spec_en(entries, "Quality"@, crate::dsp::analyzer::AnalysisQuality::ALL@, analysis_quality_names(), crate::dsp::analyzer::AnalysisQuality::Balanced),
        window: spec_en(entries, "Window"@, crate::dsp::window::WindowType::ALL@, window_type_names(), crate::dsp::window::WindowType::Hann),
        aggregate: spec_en(entries, "Aggregate"@, crate::dsp::analyzer::BandAggregate::ALL@, band_aggregate_names(), crate::dsp::analyzer::BandAggregate::Peak),
        pair_mode: spec_en(entries, "PairMode"@, crate::dsp::analyzer::ChannelPairMode::ALL@, channel_pair_mode_names(), crate::dsp::analyzer::ChannelPairMode::LeftRight),
        style: spec_en(entries, "Style"@, crate::settings::CurveStyle::ALL@, curve_style_names(), crate::settings::CurveStyle::Line),
        interp: spec_en(entries, "Interp"@, crate::dsp::curve::CurveInterpolation::ALL@, curve_interpolation_names(), crate::dsp::curve::CurveInterpolation::LinearSmooth),
        filter: spec_en(entries, "Filter"@, crate::dsp::curve::FilteringAmount::ALL@, filtering_amount_names(), crate::dsp::curve::FilteringAmount::Light),
        background: spec_en(entries, "Background"@, crate::settings::GraphBackground::ALL@, graph_background_names(), crate::settings::GraphBackground::Lines),
        label_mode: spec_en(entries, "LabelMode"@, crate::settings::AxisLabelMode::ALL@, axis_label_mode_names(), crate::settings::AxisLabelMode::Notes),
        scale_lane_pos: spec_en(entries, "ScaleLanePos"@, crate::settings::ScaleLanePosition::ALL@, scale_lane_position_names(), crate::settings::ScaleLanePosition::Top),
        frame_cap: crate::settings::FrameCap::Display,
    }
}

/// The fixed choices a Nostalgia+ settings file holds, read as [`spec_legacy_chosen`]
/// says.
pub fn legacy_chosen(m: &Lines) -> (c: Chosen)
    ensures
        c == spec_legacy_chosen(m@),
{
    let palette = m.en("Palette", &crate::palette::PaletteKind::ALL, palette_kind_name_list().as_slice(), crate::palette::PaletteKind::Magma);
    let scale = m.en("Scale", &crate::dsp::frequency_map::FreqScale::ALL, freq_scale_name_list().as_slice(), crate::dsp::frequency_map::FreqScale::Note);
    let quality = m.en("Quality", &crate::dsp::analyzer::AnalysisQuality::ALL, analysis_quality_name_list().as_slice(), crate::dsp::analyzer::AnalysisQuality::Balanced);
    let window = m.en("Window", &crate::dsp::window::WindowType::ALL, window_type_name_list().as_slice(), crate::dsp::window::WindowType::Hann);
    let aggregate = m.en("Aggregate", &crate::dsp::analyzer::BandAggregate::ALL, band_aggregate_name_list().as_slice(), crate::dsp::analyzer::BandAggregate::Peak);
    let pair_mode = m.en("PairMode", &crate::dsp::analyzer::ChannelPairMode::ALL, channel_pair_mode_name_list().as_slice(), crate::dsp::analyzer::ChannelPairMode::LeftRight);
    let style = m.en("Style", &crate::settings::CurveStyle::ALL, curve_style_name_list().as_slice(), crate::settings::CurveStyle::Line);
    let interp = m.en("Interp", &crate::dsp::curve::CurveInterpolation::ALL, curve_interpolation_name_list().as_slice(), crate::dsp::curve::CurveInterpolation::LinearSmooth);
    let filter = m.en("Filter", &crate::dsp::curve::FilteringAmount::ALL, filtering_amount_name_list().as_slice(), crate::dsp::curve::FilteringAmount::Light);
    let background = m.en("Background", &crate::settings::GraphBackground::ALL, graph_background_name_list().as_slice(), crate::settings::GraphBackground::Lines);
    let label_mode = m.en("LabelMode", &crate::settings::AxisLabelMode::ALL, axis_label_mode_name_list().as_slice(), crate::settings::AxisLabelMode::Notes);
    let scale_lane_pos = m.en("ScaleLanePos", &crate::settings::ScaleLanePosition::ALL, scale_lane_position_name_list().as_slice(), crate::settings::ScaleLanePosition::Top);
    Chosen {
        palette,
        scale,
        quality,
        window,
        aggregate,
        pair_mode,
        style,
        interp,
        filter,
        background,
        label_mode,
        scale_lane_pos,
        frame_cap: crate::settings::FrameCap::Display,
    }
}

/// The preset a Nostalgia+ settings file names, by name or number, or the one the app
/// ships with.
pub fn legacy_preset(m: &Lines) -> (p: crate::settings::Preset)
    ensures
        p == spec_en(m@, "Preset"@, crate::settings::Preset::ALL@, preset_names(), crate::settings::Preset::Studio),
{
    m.en("Preset", &crate::settings::Preset::ALL, preset_name_list().as_slice(), crate::settings::Preset::Studio)
}

} // verus!

verus! {

/// The key a Nostalgia+ settings file writes a switch under. The scroll smoothing is
/// new here, so no file holds it.
pub open spec fn nostalgia_key(flag: Flag) -> Seq<char> {
    match flag {
        Flag::ShowGrid => "ShowGrid"@,
        Flag::ShowLabels => "ShowLabels"@,
        Flag::ShowColourBar => "ShowColorBar"@,
        Flag::ShowHud => "ShowHud"@,
        Flag::ShowStatus => "ShowStatus"@,
        Flag::AdaptiveRange => "AdaptiveRange"@,
        Flag::ShowMax => "ShowMax"@,
        Flag::ShowMin => "ShowMin"@,
        Flag::ShowAvg => "ShowAvg"@,
        Flag::SolidFill => "SolidFill"@,
        Flag::CurveOnLeft => "CurveOnLeft"@,
        Flag::MirrorLeftPane => "MirrorLeftPane"@,
        Flag::ShowDbScale => "ShowDbScale"@,
        Flag::ShowTimeMarks => "ShowTimeMarks"@,
        Flag::ShowSemitones => "ShowSemitones"@,
        Flag::ShowOuterLabels => "ShowOuterLabels"@,
        Flag::ShowAxisLabels => "ShowAxisLabels"@,
        Flag::SyncHover => "SyncHover"@,
        Flag::ShowHoverPin => "ShowHoverPin"@,
        Flag::ShowHarmonics => "ShowHarmonics"@,
        Flag::SeekOnImageClick => "SeekOnImageClick"@,
        Flag::ShowOsd => "ShowOsd"@,
        Flag::ShowQuickButtons => "ShowQuickButtons"@,
        Flag::QuickBarCompact => "QuickBarCompact"@,
        Flag::QuickBarSplit => "QuickBarSplit"@,
        Flag::ReserveScaleSpace => "ReserveScaleSpace"@,
        Flag::ShowScaleUnits => "ShowScaleUnits"@,
        Flag::ShowCentreDeck => "ShowCenterDeck"@,
        Flag::DeckGoniometer => "DeckShowGoniometer"@,
        Flag::DeckTransport => "DeckShowTransport"@,
        Flag::DeckArtwork => "DeckShowArtwork"@,
        Flag::DeckTrackInfo => "DeckShowTrackInfo"@,
        Flag::DeckCorrelation => "DeckShowCorrelation"@,
        Flag::DeckBalance => "DeckShowBalance"@,
        Flag::DeckLufsM => "DeckShowLufsM"@,
        Flag::DeckLufsS => "DeckShowLufsS"@,
        Flag::DeckTruePeak => "DeckShowTruePeak"@,
        Flag::DeckCrest => "DeckShowCrest"@,
        Flag::DeckLufsI => "DeckShowLufsI"@,
        Flag::DeckLra => "DeckShowLra"@,
        Flag::DeckOvers => "DeckShowOvers"@,
        Flag::DeckBpm => "DeckShowBpm"@,
        Flag::DeckBrightness => "DeckShowBrightness"@,
        Flag::ShowWaveform => "ShowWaveform"@,
        Flag::Immersive => "Immersive"@,
        Flag::Glow => "Glow"@,
        Flag::AutoHide => "AutoHide"@,
        Flag::Backdrop => "ImmBackdrop"@,
        Flag::BeatReactive => "ImmBeatReactive"@,
        Flag::ColourFollows => "ImmColourFollows"@,
        Flag::Cinematic => "ImmCinematic"@,
        Flag::SmoothTime => Seq::empty(),
    }
}

/// The key older Nostalgia+ files wrote a switch under, before it lost its `Fs` prefix
/// when the docked panel gained it.
pub open spec fn older_key(flag: Flag) -> Option<Seq<char>> {
    match flag {
        Flag::ShowOsd => Some("FsShowOsd"@),
        Flag::ShowWaveform => Some("FsShowWaveform"@),
        Flag::Immersive => Some("FsImmersive"@),
        Flag::Glow => Some("FsGlow"@),
        Flag::AutoHide => Some("FsAutoHide"@),
        _ => None,
    }
}

/// How a settings file writes a switch's value.
pub open spec fn bool_word(on: bool) -> Seq<char> {
    if on { "true"@ } else { "false"@ }
}

/// A file that writes `key=true` or `key=false` and nothing else.
pub open spec fn only_entry(key: Seq<char>, on: bool) -> Seq<(Seq<char>, Seq<char>)> {
    seq![(lower_all(key), bool_word(on))]
}

proof fn lemma_bool_word_reads(on: bool)
    ensures
        lower_all(text::trim(bool_word(on))) == bool_word(on),
        lower_all(text::trim(bool_word(!on))) != bool_word(on),
{
    reveal_strlit("true");
    reveal_strlit("false");
    assert(text::trim_start("true"@) == "true"@);
    assert(text::trim_end("true"@) == "true"@);
    assert(text::trim_start("false"@) == "false"@);
    assert(text::trim_end("false"@) == "false"@);
    assert(lower_all("true"@) =~= "true"@);
    assert(lower_all("false"@) =~= "false"@);
}

/// A file holding only `key` set to `on` reads `on` under that key, whatever stands in
/// for it otherwise.
proof fn lemma_only_entry_reads(key: Seq<char>, on: bool)
    ensures
        forall|fallback: bool| #[trigger] spec_bool(only_entry(key, on), key, fallback) == on,
{
    reveal(spec_bool);
    lemma_bool_word_reads(on);
    reveal_strlit("true");
    reveal_strlit("false");
    assert("true"@.len() != "false"@.len());
    let e = only_entry(key, on);
    assert(e.last().0 == lower_all(key));
    assert(lookup(e, lower_all(key)) == Some(bool_word(on)));
    assert forall|fallback: bool| #[trigger] spec_bool(only_entry(key, on), key, fallback) == on by {
        if on {
            assert(lower_all(text::trim(bool_word(on))) == "true"@);
        } else {
            assert(lower_all(text::trim(bool_word(on))) == "false"@);
            assert(lower_all(text::trim(bool_word(on))) != "true"@);
        }
    }
}

/// Nothing else in a file holding only `key` answers to `other`, a key of another length.
proof fn lemma_only_entry_silent(key: Seq<char>, on: bool, other: Seq<char>)
    requires
        key.len() != other.len(),
    ensures
        forall|fallback: bool| #[trigger] spec_bool(only_entry(key, on), other, fallback) == fallback,
{
    reveal(spec_bool);
    let e = only_entry(key, on);
    assert(lower_all(key).len() != lower_all(other).len());
    assert(e.last().0 != lower_all(other));
    assert(e.drop_last().len() == 0);
    assert(lookup(e.drop_last(), lower_all(other)) is None);
    assert(lookup(e, lower_all(other)) is None);
}

/// Each switch is read from the key Nostalgia+ wrote it under: a file that sets that
/// key to `on` gives the switch `on`, whatever the switch ships as.
pub proof fn lemma_a_switch_reads_its_nostalgia_key(flag: Flag, on: bool)
    requires
        flag != Flag::SmoothTime,
    ensures
        spec_legacy_flag(only_entry(nostalgia_key(flag), on), flag) == on,
{
    lemma_only_entry_reads(nostalgia_key(flag), on);
}

/// A file that says nothing of a switch gives it as the app ships it.
pub proof fn lemma_a_silent_file_gives_the_shipped_switches(flag: Flag)
    ensures
        spec_legacy_flag(Seq::empty(), flag) == crate::switches::shipped_on(flag),
{
    reveal(spec_bool);
    match flag {
        Flag::ShowGrid => {
            assert(spec_legacy_flag(Seq::empty(), flag) == crate::switches::shipped()[0]);
        },
        Flag::ShowLabels => {
            assert(spec_legacy_flag(Seq::empty(), flag) == crate::switches::shipped()[1]);
        },
        Flag::ShowColourBar => {
            assert(spec_legacy_flag(Seq::empty(), flag) == crate::switches::shipped()[2]);
        },
        Flag::ShowHud => {
            assert(spec_legacy_flag(Seq::empty(), flag) == crate::switches::shipped()[3]);
        },
        Flag::ShowStatus => {
            assert(spec_legacy_flag(Seq::empty(), flag) == crate::switches::shipped()[4]);
        },
        Flag::AdaptiveRange => {
            assert(spec_legacy_flag(Seq::empty(), flag) == crate::switches::shipped()[5]);
        },
        Flag::SmoothTime => {
            assert(spec_legacy_flag(Seq::empty(), flag) == crate::switches::shipped()[6]);
        },
        Flag::ShowMax => {
            assert(spec_legacy_flag(Seq::empty(), flag) == crate::switches::shipped()[7]);
        },
        Flag::ShowMin => {
            assert(spec_legacy_flag(Seq::empty(), flag) == crate::switches::shipped()[8]);
        },
        Flag::ShowAvg => {
            assert(spec_legacy_flag(Seq::empty(), flag) == crate::switches::shipped()[9]);
        },
        Flag::SolidFill => {
            assert(spec_legacy_flag(Seq::empty(), flag) == crate::switches::shipped()[10]);
        },
        Flag::CurveOnLeft => {
            assert(spec_legacy_flag(Seq::empty(), flag) == crate::switches::shipped()[11]);
        },
        Flag::MirrorLeftPane => {
            assert(spec_legacy_flag(Seq::empty(), flag) == crate::switches::shipped()[12]);
        },
        Flag::ShowDbScale => {
            assert(spec_legacy_flag(Seq::empty(), flag) == crate::switches::shipped()[13]);
        },
        Flag::ShowTimeMarks => {
            assert(spec_legacy_flag(Seq::empty(), flag) == crate::switches::shipped()[14]);
        },
        Flag::ShowSemitones => {
            assert(spec_legacy_flag(Seq::empty(), flag) == crate::switches::shipped()[15]);
        },
        Flag::ShowOuterLabels => {
            assert(spec_legacy_flag(Seq::empty(), flag) == crate::switches::shipped()[16]);
        },
        Flag::ShowAxisLabels => {
            assert(spec_legacy_flag(Seq::empty(), flag) == crate::switches::shipped()[17]);
        },
        Flag::SyncHover => {
            assert(spec_legacy_flag(Seq::empty(), flag) == crate::switches::shipped()[18]);
        },
        Flag::ShowHoverPin => {
            assert(spec_legacy_flag(Seq::empty(), flag) == crate::switches::shipped()[19]);
        },
        Flag::ShowHarmonics => {
            assert(spec_legacy_flag(Seq::empty(), flag) == crate::switches::shipped()[20]);
        },
        Flag::SeekOnImageClick => {
            assert(spec_legacy_flag(Seq::empty(), flag) == crate::switches::shipped()[21]);
        },
        Flag::ShowOsd => {
            assert(spec_legacy_flag(Seq::empty(), flag) == crate::switches::shipped()[22]);
        },
        Flag::ShowQuickButtons => {
            assert(spec_legacy_flag(Seq::empty(), flag) == crate::switches::shipped()[23]);
        },
        Flag::QuickBarCompact => {
            assert(spec_legacy_flag(Seq::empty(), flag) == crate::switches::shipped()[24]);
        },
        Flag::QuickBarSplit => {
            assert(spec_legacy_flag(Seq::empty(), flag) == crate::switches::shipped()[25]);
        },
        Flag::ReserveScaleSpace => {
            assert(spec_legacy_flag(Seq::empty(), flag) == crate::switches::shipped()[26]);
        },
        Flag::ShowScaleUnits => {
            assert(spec_legacy_flag(Seq::empty(), flag) == crate::switches::shipped()[27]);
        },
        Flag::ShowCentreDeck => {
            assert(spec_legacy_flag(Seq::empty(), flag) == crate::switches::shipped()[28]);
        },
        Flag::DeckGoniometer => {
            assert(spec_legacy_flag(Seq::empty(), flag) == crate::switches::shipped()[29]);
        },
        Flag::DeckTransport => {
            assert(spec_legacy_flag(Seq::empty(), flag) == crate::switches::shipped()[30]);
        },
        Flag::DeckArtwork => {
            assert(spec_legacy_flag(Seq::empty(), flag) == crate::switches::shipped()[31]);
        },
        Flag::DeckTrackInfo => {
            assert(spec_legacy_flag(Seq::empty(), flag) == crate::switches::shipped()[32]);
        },
        Flag::DeckCorrelation => {
            assert(spec_legacy_flag(Seq::empty(), flag) == crate::switches::shipped()[33]);
        },
        Flag::DeckBalance => {
            assert(spec_legacy_flag(Seq::empty(), flag) == crate::switches::shipped()[34]);
        },
        Flag::DeckLufsM => {
            assert(spec_legacy_flag(Seq::empty(), flag) == crate::switches::shipped()[35]);
        },
        Flag::DeckLufsS => {
            assert(spec_legacy_flag(Seq::empty(), flag) == crate::switches::shipped()[36]);
        },
        Flag::DeckTruePeak => {
            assert(spec_legacy_flag(Seq::empty(), flag) == crate::switches::shipped()[37]);
        },
        Flag::DeckCrest => {
            assert(spec_legacy_flag(Seq::empty(), flag) == crate::switches::shipped()[38]);
        },
        Flag::DeckLufsI => {
            assert(spec_legacy_flag(Seq::empty(), flag) == crate::switches::shipped()[39]);
        },
        Flag::DeckLra => {
            assert(spec_legacy_flag(Seq::empty(), flag) == crate::switches::shipped()[40]);
        },
        Flag::DeckOvers => {
            assert(spec_legacy_flag(Seq::empty(), flag) == crate::switches::shipped()[41]);
        },
        Flag::DeckBpm => {
            assert(spec_legacy_flag(Seq::empty(), flag) == crate::switches::shipped()[42]);
        },
        Flag::DeckBrightness => {
            assert(spec_legacy_flag(Seq::empty(), flag) == crate::switches::shipped()[43]);
        },
        Flag::ShowWaveform => {
            assert(spec_legacy_flag(Seq::empty(), flag) == crate::switches::shipped()[44]);
        },
        Flag::Immersive => {
            assert(spec_legacy_flag(Seq::empty(), flag) == crate::switches::shipped()[45]);
        },
        Flag::Glow => {
            assert(spec_legacy_flag(Seq::empty(), flag) == crate::switches::shipped()[46]);
        },
        Flag::AutoHide => {
            assert(spec_legacy_flag(Seq::empty(), flag) == crate::switches::shipped()[47]);
        },
        Flag::Backdrop => {
            assert(spec_legacy_flag(Seq::empty(), flag) == crate::switches::shipped()[48]);
        },
        Flag::BeatReactive => {
            assert(spec_legacy_flag(Seq::empty(), flag) == crate::switches::shipped()[49]);
        },
        Flag::ColourFollows => {
            assert(spec_legacy_flag(Seq::empty(), flag) == crate::switches::shipped()[50]);
        },
        Flag::Cinematic => {
            assert(spec_legacy_flag(Seq::empty(), flag) == crate::switches::shipped()[51]);
        },
        Flag::ShowGrid => {
            assert(spec_legacy_flag(Seq::empty(), flag) == crate::switches::shipped()[0]);
        },
        Flag::ShowLabels => {
            assert(spec_legacy_flag(Seq::empty(), flag) == crate::switches::shipped()[1]);
        },
        Flag::ShowColourBar => {
            assert(spec_legacy_flag(Seq::empty(), flag) == crate::switches::shipped()[2]);
        },
        Flag::ShowHud => {
            assert(spec_legacy_flag(Seq::empty(), flag) == crate::switches::shipped()[3]);
        },
        Flag::ShowStatus => {
            assert(spec_legacy_flag(Seq::empty(), flag) == crate::switches::shipped()[4]);
        },
        Flag::AdaptiveRange => {
            assert(spec_legacy_flag(Seq::empty(), flag) == crate::switches::shipped()[5]);
        },
        Flag::SmoothTime => {
            assert(spec_legacy_flag(Seq::empty(), flag) == crate::switches::shipped()[6]);
        },
        Flag::ShowMax => {
            assert(spec_legacy_flag(Seq::empty(), flag) == crate::switches::shipped()[7]);
        },
        Flag::ShowMin => {
            assert(spec_legacy_flag(Seq::empty(), flag) == crate::switches::shipped()[8]);
        },
        Flag::ShowAvg => {
            assert(spec_legacy_flag(Seq::empty(), flag) == crate::switches::shipped()[9]);
        },
        Flag::SolidFill => {
            assert(spec_legacy_flag(Seq::empty(), flag) == crate::switches::shipped()[10]);
        },
        Flag::CurveOnLeft => {
            assert(spec_legacy_flag(Seq::empty(), flag) == crate::switches::shipped()[11]);
        },
        Flag::MirrorLeftPane => {
            assert(spec_legacy_flag(Seq::empty(), flag) == crate::switches::shipped()[12]);
        },
        Flag::ShowDbScale => {
            assert(spec_legacy_flag(Seq::empty(), flag) == crate::switches::shipped()[13]);
        },
        Flag::ShowTimeMarks => {
            assert(spec_legacy_flag(Seq::empty(), flag) == crate::switches::shipped()[14]);
        },
        Flag::ShowSemitones => {
            assert(spec_legacy_flag(Seq::empty(), flag) == crate::switches::shipped()[15]);
        },
        Flag::ShowOuterLabels => {
            assert(spec_legacy_flag(Seq::empty(), flag) == crate::switches::shipped()[16]);
        },
        Flag::ShowAxisLabels => {
            assert(spec_legacy_flag(Seq::empty(), flag) == crate::switches::shipped()[17]);
        },
        Flag::SyncHover => {
            assert(spec_legacy_flag(Seq::empty(), flag) == crate::switches::shipped()[18]);
        },
        Flag::ShowHoverPin => {
            assert(spec_legacy_flag(Seq::empty(), flag) == crate::switches::shipped()[19]);
        },
        Flag::ShowHarmonics => {
            assert(spec_legacy_flag(Seq::empty(), flag) == crate::switches::shipped()[20]);
        },
        Flag::SeekOnImageClick => {
            assert(spec_legacy_flag(Seq::empty(), flag) == crate::switches::shipped()[21]);
        },
    }
}

/// A file from before a switch lost its `Fs` prefix still sets it: a file that sets
/// only the older key to `on` gives the switch `on`.
pub proof fn lemma_an_older_key_is_still_honoured(flag: Flag, on: bool)
    requires
        older_key(flag) is Some,
    ensures
        spec_legacy_flag(only_entry(older_key(flag)->0, on), flag) == on,
{
    lemma_only_entry_reads(older_key(flag)->0, on);
    match flag {
        Flag::ShowOsd => {
            reveal_strlit("ShowOsd");
            reveal_strlit("FsShowOsd");
            lemma_only_entry_silent("FsShowOsd"@, on, "ShowOsd"@);
        },
        Flag::ShowWaveform => {
            reveal_strlit("ShowWaveform");
            reveal_strlit("FsShowWaveform");
            lemma_only_entry_silent("FsShowWaveform"@, on, "ShowWaveform"@);
        },
        Flag::Immersive => {
            reveal_strlit("Immersive");
            reveal_strlit("FsImmersive");
            lemma_only_entry_silent("FsImmersive"@, on, "Immersive"@);
        },
        Flag::Glow => {
            reveal_strlit("Glow");
            reveal_strlit("FsGlow");
            lemma_only_entry_silent("FsGlow"@, on, "Glow"@);
        },
        Flag::AutoHide => {
            reveal_strlit("AutoHide");
            reveal_strlit("FsAutoHide");
            lemma_only_entry_silent("FsAutoHide"@, on, "AutoHide"@);
        },
        _ => {},
    }
}

/// The old `DeckShowMeters` sets both meters where a file holds nothing newer.
pub proof fn lemma_the_old_meters_key_sets_both(on: bool)
    ensures
        spec_legacy_flag(only_entry("DeckShowMeters"@, on), Flag::DeckCorrelation) == on,
        spec_legacy_flag(only_entry("DeckShowMeters"@, on), Flag::DeckBalance) == on,
{
    lemma_only_entry_reads("DeckShowMeters"@, on);
    reveal_strlit("DeckShowMeters");
    reveal_strlit("DeckShowCorrelation");
    reveal_strlit("DeckShowBalance");
    lemma_only_entry_silent("DeckShowMeters"@, on, "DeckShowCorrelation"@);
    lemma_only_entry_silent("DeckShowMeters"@, on, "DeckShowBalance"@);
}

} // verus!
