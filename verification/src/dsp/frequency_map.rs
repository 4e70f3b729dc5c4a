//! How frequency is laid out along the axis, and musical note names.
//!
//! The map from columns to frequency bands is floating-point work and stays with the
//! renderer; what the library holds is the choice of scale and the naming of notes.

use vstd::prelude::*;
use crate::text;

verus! {

/// How frequency is laid out along the axis.
#[derive(Clone, Copy, Debug, PartialEq, Eq, Hash, Structural)]
pub enum FreqScale {
    Linear,
    Log,
    /// Logarithmic, with gridlines on notes rather than decades.
    Note,
}

impl Default for FreqScale {
    fn default() -> (r: FreqScale)
        ensures
            r == FreqScale::Note,
    {
        FreqScale::Note
    }
}

impl FreqScale {
    /// Every value, in declaration order.
    pub const ALL: [FreqScale; 3] = [
        FreqScale::Linear,
        FreqScale::Log,
        FreqScale::Note,
    ];

    /// The name used in settings files.
    pub open spec fn spec_name(self) -> Seq<char> {
        match self {
            FreqScale::Linear => "Linear"@,
            FreqScale::Log => "Log"@,
            FreqScale::Note => "Note"@,
        }
    }

    /// The value whose name `written` is, ignoring ASCII case.
    pub open spec fn spec_from_name(written: Seq<char>) -> Option<FreqScale> {
        if exists|v: FreqScale| text::eq_ignore_ascii_case(written, #[trigger] v.spec_name()) {
            Some(choose|v: FreqScale| text::eq_ignore_ascii_case(written, #[trigger] v.spec_name()))
        } else {
            None
        }
    }

    /// The name used in settings files.
    pub fn name(self) -> (r: &'static str)
        ensures
            r@ == self.spec_name(),
    {
        match self {
            FreqScale::Linear => "Linear",
            FreqScale::Log => "Log",
            FreqScale::Note => "Note",
        }
    }

    /// Parses a name, ignoring ASCII case.
    pub fn from_name(name: &str) -> (r: Option<FreqScale>)
        ensures
            r == FreqScale::spec_from_name(name@),
    {
        let all = FreqScale::ALL;
        let mut i: usize = 0;
        while i < 3
            invariant
                all@ == seq![FreqScale::Linear, FreqScale::Log, FreqScale::Note],
                i <= 3,
                forall|j: int| 0 <= j < i ==> !text::eq_ignore_ascii_case(name@, #[trigger] all@[j].spec_name()),
            decreases 3 - i,
        {
            let v = all[i];
            if text::same_ignoring_ascii_case(name, v.name()) {
                proof {
                    let c = choose|u: FreqScale| text::eq_ignore_ascii_case(name@, #[trigger] u.spec_name());
                    text::lemma_eq_ignore_ascii_case_shared(name@, v.spec_name(), c.spec_name());
                    FreqScale::lemma_names_distinct();
                }
                return Some(v);
            }
            i = i + 1;
        }
        proof {
            assert forall|v: FreqScale| !text::eq_ignore_ascii_case(name@, #[trigger] v.spec_name()) by {
                match v {
                    FreqScale::Linear => assert(all@[0] == v),
                    FreqScale::Log => assert(all@[1] == v),
                    FreqScale::Note => assert(all@[2] == v),
                }
            }
        }
        None
    }

    /// No two values share a name, even ignoring case.
    pub proof fn lemma_names_distinct()
        ensures
            forall|a: FreqScale, b: FreqScale|
                text::eq_ignore_ascii_case(#[trigger] a.spec_name(), #[trigger] b.spec_name()) ==> a == b,
    {
        reveal_strlit("Linear");
        reveal_strlit("Log");
        reveal_strlit("Note");
        assert forall|a: FreqScale, b: FreqScale|
            text::eq_ignore_ascii_case(#[trigger] a.spec_name(), #[trigger] b.spec_name()) implies a == b by {
            if a != b {
                let (x, y) = (a.spec_name(), b.spec_name());
                if x.len() == y.len() {
                    assert(text::ascii_lower(x[0]) != text::ascii_lower(y[0]));
                }
            }
        }
    }

    /// A value's own name, in any ASCII case, reads back as that value.
    pub proof fn lemma_name_round_trip(v: FreqScale, written: Seq<char>)
        requires
            text::eq_ignore_ascii_case(written, v.spec_name()),
        ensures
            FreqScale::spec_from_name(written) == Some(v),
    {
        let c = choose|u: FreqScale| text::eq_ignore_ascii_case(written, #[trigger] u.spec_name());
        text::lemma_eq_ignore_ascii_case_shared(written, v.spec_name(), c.spec_name());
        FreqScale::lemma_names_distinct();
    }
}

/// The twelve pitch classes, C first, as scientific pitch notation writes them.
pub open spec fn note_name(pitch_class: int) -> Seq<char> {
    if pitch_class == 0 { "C"@ }
    else if pitch_class == 1 { "C#"@ }
    else if pitch_class == 2 { "D"@ }
    else if pitch_class == 3 { "D#"@ }
    else if pitch_class == 4 { "E"@ }
    else if pitch_class == 5 { "F"@ }
    else if pitch_class == 6 { "F#"@ }
    else if pitch_class == 7 { "G"@ }
    else if pitch_class == 8 { "G#"@ }
    else if pitch_class == 9 { "A"@ }
    else if pitch_class == 10 { "A#"@ }
    else { "B"@ }
}

/// A note in scientific pitch notation: A4 is 440 Hz, C4 is middle C.
#[derive(Clone, Copy, Debug, PartialEq, Eq, Hash, Structural)]
pub struct Note {
    /// 0 for C up to 11 for B.
    pub pitch_class: u8,
    pub octave: i32,
}

/// `a / b` rounded towards zero, as Rust's integer division rounds.
pub open spec fn div_toward_zero(a: int, b: int) -> int {
    if a >= 0 {
        a / b
    } else {
        -((-a) / b)
    }
}

impl Note {
    /// The note a MIDI note number names, with MIDI 60 as C4: its pitch class counted up
    /// from C, and its octave. The octave divides rounding towards zero, which only
    /// differs from rounding down below MIDI 0, far under 20 Hz.
    pub fn from_midi(midi: i32) -> (n: Note)
        ensures
            n.pitch_class == midi as int % 12,
            n.octave == div_toward_zero(midi as int, 12) - 1,
            n.pitch_class < 12,
            midi >= 0 ==> 12 * (n.octave + 1) + n.pitch_class == midi,
    {
        let m = midi as i64;
        let (class, whole) = if m >= 0 {
            (m % 12, m / 12)
        } else {
            let r = (-m) % 12;
            (if r == 0 { 0 } else { 12 - r }, -((-m) / 12))
        };
        proof {
            if m < 0 {
                let r = (-m) % 12;
                assert(m as int % 12 == if r == 0 { 0 } else { 12 - r }) by (nonlinear_arith)
                    requires
                        m < 0,
                        r == (-m) % 12,
                ;
            }
        }
        Note { pitch_class: class as u8, octave: (whole - 1) as i32 }
    }

    /// The note's letter and accidental, without the octave.
    pub fn name(self) -> (r: &'static str)
        requires
            self.pitch_class < 12,
        ensures
            r@ == note_name(self.pitch_class as int),
    {
        match self.pitch_class {
            0 => "C",
            1 => "C#",
            2 => "D",
            3 => "D#",
            4 => "E",
            5 => "F",
            6 => "F#",
            7 => "G",
            8 => "G#",
            9 => "A",
            10 => "A#",
            _ => "B",
        }
    }
}

} // verus!
