//! The spectrum analyser's options: the FFT profile, how bins inside a column combine,
//! and which signals the panes show.
//!
//! The analyser itself is floating-point work and stays with the renderer.

use vstd::prelude::*;
use crate::text;

verus! {

/// FFT profiles. Their order is pinned, as Nostalgia+'s settings files number them.
#[derive(Clone, Copy, Debug, PartialEq, Eq, Hash, Structural)]
pub enum AnalysisQuality {
    /// One 4096-point transform.
    Fast,
    /// 16384, 4096 and 1024 points, crossing at 300 Hz and 3 kHz.
    Balanced,
    /// 32768, 8192, 2048 and 512 points, crossing at 250 Hz, 2 kHz and 8 kHz.
    High,
    /// 4096, 1024 and 256 points, crossing at 600 Hz and 4 kHz.
    LowLatency,
}

impl Default for AnalysisQuality {
    fn default() -> (r: AnalysisQuality)
        ensures
            r == AnalysisQuality::Balanced,
    {
        AnalysisQuality::Balanced
    }
}

impl AnalysisQuality {
    /// Every value, in declaration order.
    pub const ALL: [AnalysisQuality; 4] = [
        AnalysisQuality::Fast,
        AnalysisQuality::Balanced,
        AnalysisQuality::High,
        AnalysisQuality::LowLatency,
    ];

    /// The name used in settings files.
    pub open spec fn spec_name(self) -> Seq<char> {
        match self {
            AnalysisQuality::Fast => "Fast"@,
            AnalysisQuality::Balanced => "Balanced"@,
            AnalysisQuality::High => "High"@,
            AnalysisQuality::LowLatency => "LowLatency"@,
        }
    }

    /// The value whose name `written` is, ignoring ASCII case.
    pub open spec fn spec_from_name(written: Seq<char>) -> Option<AnalysisQuality> {
        if exists|v: AnalysisQuality| text::eq_ignore_ascii_case(written, #[trigger] v.spec_name()) {
            Some(choose|v: AnalysisQuality| text::eq_ignore_ascii_case(written, #[trigger] v.spec_name()))
        } else {
            None
        }
    }

    /// The name used in settings files.
    pub fn name(self) -> (r: &'static str)
        ensures
            r@ == self.spec_name(),
    {
        match self {
            AnalysisQuality::Fast => "Fast",
            AnalysisQuality::Balanced => "Balanced",
            AnalysisQuality::High => "High",
            AnalysisQuality::LowLatency => "LowLatency",
        }
    }

    /// Parses a name, ignoring ASCII case.
    pub fn from_name(name: &str) -> (r: Option<AnalysisQuality>)
        ensures
            r == AnalysisQuality::spec_from_name(name@),
    {
        let all = AnalysisQuality::ALL;
        let mut i: usize = 0;
        while i < 4
            invariant
                all@ == seq![AnalysisQuality::Fast, AnalysisQuality::Balanced, AnalysisQuality::High, AnalysisQuality::LowLatency],
                i <= 4,
                forall|j: int| 0 <= j < i ==> !text::eq_ignore_ascii_case(name@, #[trigger] all@[j].spec_name()),
            decreases 4 - i,
        {
            let v = all[i];
            if text::same_ignoring_ascii_case(name, v.name()) {
                proof {
                    let c = choose|u: AnalysisQuality| text::eq_ignore_ascii_case(name@, #[trigger] u.spec_name());
                    text::lemma_eq_ignore_ascii_case_shared(name@, v.spec_name(), c.spec_name());
                    AnalysisQuality::lemma_names_distinct();
                }
                return Some(v);
            }
            i = i + 1;
        }
        proof {
            assert forall|v: AnalysisQuality| !text::eq_ignore_ascii_case(name@, #[trigger] v.spec_name()) by {
                match v {
                    AnalysisQuality::Fast => assert(all@[0] == v),
                    AnalysisQuality::Balanced => assert(all@[1] == v),
                    AnalysisQuality::High => assert(all@[2] == v),
                    AnalysisQuality::LowLatency => assert(all@[3] == v),
                }
            }
        }
        None
    }

    /// No two values share a name, even ignoring case.
    pub proof fn lemma_names_distinct()
        ensures
            forall|a: AnalysisQuality, b: AnalysisQuality|
                text::eq_ignore_ascii_case(#[trigger] a.spec_name(), #[trigger] b.spec_name()) ==> a == b,
    {
        reveal_strlit("Balanced");
        reveal_strlit("Fast");
        reveal_strlit("High");
        reveal_strlit("LowLatency");
        assert forall|a: AnalysisQuality, b: AnalysisQuality|
            text::eq_ignore_ascii_case(#[trigger] a.spec_name(), #[trigger] b.spec_name()) implies a == b by {
            if a != b {
                let (x, y) = (a.spec_name(), b.spec_name());
                if x.len() == y.len() {
                    assert(text::ascii_lower(x[0]) != text::ascii_lower(y[0]));
                }
            }
        }
    }

    /// A value's own name, in any ASCII case, reads back as that value.
    pub proof fn lemma_name_round_trip(v: AnalysisQuality, written: Seq<char>)
        requires
            text::eq_ignore_ascii_case(written, v.spec_name()),
        ensures
            AnalysisQuality::spec_from_name(written) == Some(v),
    {
        let c = choose|u: AnalysisQuality| text::eq_ignore_ascii_case(written, #[trigger] u.spec_name());
        text::lemma_eq_ignore_ascii_case_shared(written, v.spec_name(), c.spec_name());
        AnalysisQuality::lemma_names_distinct();
    }
}

/// How the bins inside one display column combine.
#[derive(Clone, Copy, Debug, PartialEq, Eq, Hash, Structural)]
pub enum BandAggregate {
    /// The loudest bin: tones keep their true height.
    Peak,
    /// The summed energy: noise reads at its true level.
    Energy,
}

impl Default for BandAggregate {
    fn default() -> (r: BandAggregate)
        ensures
            r == BandAggregate::Peak,
    {
        BandAggregate::Peak
    }
}

impl BandAggregate {
    /// Every value, in declaration order.
    pub const ALL: [BandAggregate; 2] = [
        BandAggregate::Peak,
        BandAggregate::Energy,
    ];

    /// The name used in settings files.
    pub open spec fn spec_name(self) -> Seq<char> {
        match self {
            BandAggregate::Peak => "Peak"@,
            BandAggregate::Energy => "Energy"@,
        }
    }

    /// The value whose name `written` is, ignoring ASCII case.
    pub open spec fn spec_from_name(written: Seq<char>) -> Option<BandAggregate> {
        if exists|v: BandAggregate| text::eq_ignore_ascii_case(written, #[trigger] v.spec_name()) {
            Some(choose|v: BandAggregate| text::eq_ignore_ascii_case(written, #[trigger] v.spec_name()))
        } else {
            None
        }
    }

    /// The name used in settings files.
    pub fn name(self) -> (r: &'static str)
        ensures
            r@ == self.spec_name(),
    {
        match self {
            BandAggregate::Peak => "Peak",
            BandAggregate::Energy => "Energy",
        }
    }

    /// Parses a name, ignoring ASCII case.
    pub fn from_name(name: &str) -> (r: Option<BandAggregate>)
        ensures
            r == BandAggregate::spec_from_name(name@),
    {
        let all = BandAggregate::ALL;
        let mut i: usize = 0;
        while i < 2
            invariant
                all@ == seq![BandAggregate::Peak, BandAggregate::Energy],
                i <= 2,
                forall|j: int| 0 <= j < i ==> !text::eq_ignore_ascii_case(name@, #[trigger] all@[j].spec_name()),
            decreases 2 - i,
        {
            let v = all[i];
            if text::same_ignoring_ascii_case(name, v.name()) {
                proof {
                    let c = choose|u: BandAggregate| text::eq_ignore_ascii_case(name@, #[trigger] u.spec_name());
                    text::lemma_eq_ignore_ascii_case_shared(name@, v.spec_name(), c.spec_name());
                    BandAggregate::lemma_names_distinct();
                }
                return Some(v);
            }
            i = i + 1;
        }
        proof {
            assert forall|v: BandAggregate| !text::eq_ignore_ascii_case(name@, #[trigger] v.spec_name()) by {
                match v {
                    BandAggregate::Peak => assert(all@[0] == v),
                    BandAggregate::Energy => assert(all@[1] == v),
                }
            }
        }
        None
    }

    /// No two values share a name, even ignoring case.
    pub proof fn lemma_names_distinct()
        ensures
            forall|a: BandAggregate, b: BandAggregate|
                text::eq_ignore_ascii_case(#[trigger] a.spec_name(), #[trigger] b.spec_name()) ==> a == b,
    {
        reveal_strlit("Energy");
        reveal_strlit("Peak");
        assert forall|a: BandAggregate, b: BandAggregate|
            text::eq_ignore_ascii_case(#[trigger] a.spec_name(), #[trigger] b.spec_name()) implies a == b by {
            if a != b {
                let (x, y) = (a.spec_name(), b.spec_name());
                if x.len() == y.len() {
                    assert(text::ascii_lower(x[0]) != text::ascii_lower(y[0]));
                }
            }
        }
    }

    /// A value's own name, in any ASCII case, reads back as that value.
    pub proof fn lemma_name_round_trip(v: BandAggregate, written: Seq<char>)
        requires
            text::eq_ignore_ascii_case(written, v.spec_name()),
        ensures
            BandAggregate::spec_from_name(written) == Some(v),
    {
        let c = choose|u: BandAggregate| text::eq_ignore_ascii_case(written, #[trigger] u.spec_name());
        text::lemma_eq_ignore_ascii_case_shared(written, v.spec_name(), c.spec_name());
        BandAggregate::lemma_names_distinct();
    }
}

/// One signal made from the two channels, for single-channel analysis.
#[derive(Clone, Copy, Debug, PartialEq, Eq, Hash, Structural)]
pub enum ChannelMode {
    Mid,
    Left,
    Right,
    Side,
}

impl Default for ChannelMode {
    fn default() -> (r: ChannelMode)
        ensures
            r == ChannelMode::Mid,
    {
        ChannelMode::Mid
    }
}

impl ChannelMode {
    /// Every value, in declaration order.
    pub const ALL: [ChannelMode; 4] = [
        ChannelMode::Mid,
        ChannelMode::Left,
        ChannelMode::Right,
        ChannelMode::Side,
    ];

    /// The name used in settings files.
    pub open spec fn spec_name(self) -> Seq<char> {
        match self {
            ChannelMode::Mid => "Mid"@,
            ChannelMode::Left => "Left"@,
            ChannelMode::Right => "Right"@,
            ChannelMode::Side => "Side"@,
        }
    }

    /// The value whose name `written` is, ignoring ASCII case.
    pub open spec fn spec_from_name(written: Seq<char>) -> Option<ChannelMode> {
        if exists|v: ChannelMode| text::eq_ignore_ascii_case(written, #[trigger] v.spec_name()) {
            Some(choose|v: ChannelMode| text::eq_ignore_ascii_case(written, #[trigger] v.spec_name()))
        } else {
            None
        }
    }

    /// The name used in settings files.
    pub fn name(self) -> (r: &'static str)
        ensures
            r@ == self.spec_name(),
    {
        match self {
            ChannelMode::Mid => "Mid",
            ChannelMode::Left => "Left",
            ChannelMode::Right => "Right",
            ChannelMode::Side => "Side",
        }
    }

    /// Parses a name, ignoring ASCII case.
    pub fn from_name(name: &str) -> (r: Option<ChannelMode>)
        ensures
            r == ChannelMode::spec_from_name(name@),
    {
        let all = ChannelMode::ALL;
        let mut i: usize = 0;
        while i < 4
            invariant
                all@ == seq![ChannelMode::Mid, ChannelMode::Left, ChannelMode::Right, ChannelMode::Side],
                i <= 4,
                forall|j: int| 0 <= j < i ==> !text::eq_ignore_ascii_case(name@, #[trigger] all@[j].spec_name()),
            decreases 4 - i,
        {
            let v = all[i];
            if text::same_ignoring_ascii_case(name, v.name()) {
                proof {
                    let c = choose|u: ChannelMode| text::eq_ignore_ascii_case(name@, #[trigger] u.spec_name());
                    text::lemma_eq_ignore_ascii_case_shared(name@, v.spec_name(), c.spec_name());
                    ChannelMode::lemma_names_distinct();
                }
                return Some(v);
            }
            i = i + 1;
        }
        proof {
            assert forall|v: ChannelMode| !text::eq_ignore_ascii_case(name@, #[trigger] v.spec_name()) by {
                match v {
                    ChannelMode::Mid => assert(all@[0] == v),
                    ChannelMode::Left => assert(all@[1] == v),
                    ChannelMode::Right => assert(all@[2] == v),
                    ChannelMode::Side => assert(all@[3] == v),
                }
            }
        }
        None
    }

    /// No two values share a name, even ignoring case.
    pub proof fn lemma_names_distinct()
        ensures
            forall|a: ChannelMode, b: ChannelMode|
                text::eq_ignore_ascii_case(#[trigger] a.spec_name(), #[trigger] b.spec_name()) ==> a == b,
    {
        reveal_strlit("Left");
        reveal_strlit("Mid");
        reveal_strlit("Right");
        reveal_strlit("Side");
        assert forall|a: ChannelMode, b: ChannelMode|
            text::eq_ignore_ascii_case(#[trigger] a.spec_name(), #[trigger] b.spec_name()) implies a == b by {
            if a != b {
                let (x, y) = (a.spec_name(), b.spec_name());
                if x.len() == y.len() {
                    assert(text::ascii_lower(x[0]) != text::ascii_lower(y[0]));
                }
            }
        }
    }

    /// A value's own name, in any ASCII case, reads back as that value.
    pub proof fn lemma_name_round_trip(v: ChannelMode, written: Seq<char>)
        requires
            text::eq_ignore_ascii_case(written, v.spec_name()),
        ensures
            ChannelMode::spec_from_name(written) == Some(v),
    {
        let c = choose|u: ChannelMode| text::eq_ignore_ascii_case(written, #[trigger] u.spec_name());
        text::lemma_eq_ignore_ascii_case_shared(written, v.spec_name(), c.spec_name());
        ChannelMode::lemma_names_distinct();
    }
}

/// Which two signals the two panes show.
#[derive(Clone, Copy, Debug, PartialEq, Eq, Hash, Structural)]
pub enum ChannelPairMode {
    LeftRight,
    MidSide,
    LeftOnly,
    RightOnly,
}

impl Default for ChannelPairMode {
    fn default() -> (r: ChannelPairMode)
        ensures
            r == ChannelPairMode::LeftRight,
    {
        ChannelPairMode::LeftRight
    }
}

impl ChannelPairMode {
    /// Every value, in declaration order.
    pub const ALL: [ChannelPairMode; 4] = [
        ChannelPairMode::LeftRight,
        ChannelPairMode::MidSide,
        ChannelPairMode::LeftOnly,
        ChannelPairMode::RightOnly,
    ];

    /// The name used in settings files.
    pub open spec fn spec_name(self) -> Seq<char> {
        match self {
            ChannelPairMode::LeftRight => "LeftRight"@,
            ChannelPairMode::MidSide => "MidSide"@,
            ChannelPairMode::LeftOnly => "LeftOnly"@,
            ChannelPairMode::RightOnly => "RightOnly"@,
        }
    }

    /// The value whose name `written` is, ignoring ASCII case.
    pub open spec fn spec_from_name(written: Seq<char>) -> Option<ChannelPairMode> {
        if exists|v: ChannelPairMode| text::eq_ignore_ascii_case(written, #[trigger] v.spec_name()) {
            Some(choose|v: ChannelPairMode| text::eq_ignore_ascii_case(written, #[trigger] v.spec_name()))
        } else {
            None
        }
    }

    /// The name used in settings files.
    pub fn name(self) -> (r: &'static str)
        ensures
            r@ == self.spec_name(),
    {
        match self {
            ChannelPairMode::LeftRight => "LeftRight",
            ChannelPairMode::MidSide => "MidSide",
            ChannelPairMode::LeftOnly => "LeftOnly",
            ChannelPairMode::RightOnly => "RightOnly",
        }
    }

    /// Parses a name, ignoring ASCII case.
    pub fn from_name(name: &str) -> (r: Option<ChannelPairMode>)
        ensures
            r == ChannelPairMode::spec_from_name(name@),
    {
        let all = ChannelPairMode::ALL;
        let mut i: usize = 0;
        while i < 4
            invariant
                all@ == seq![ChannelPairMode::LeftRight, ChannelPairMode::MidSide, ChannelPairMode::LeftOnly, ChannelPairMode::RightOnly],
                i <= 4,
                forall|j: int| 0 <= j < i ==> !text::eq_ignore_ascii_case(name@, #[trigger] all@[j].spec_name()),
            decreases 4 - i,
        {
            let v = all[i];
            if text::same_ignoring_ascii_case(name, v.name()) {
                proof {
                    let c = choose|u: ChannelPairMode| text::eq_ignore_ascii_case(name@, #[trigger] u.spec_name());
                    text::lemma_eq_ignore_ascii_case_shared(name@, v.spec_name(), c.spec_name());
                    ChannelPairMode::lemma_names_distinct();
                }
                return Some(v);
            }
            i = i + 1;
        }
        proof {
            assert forall|v: ChannelPairMode| !text::eq_ignore_ascii_case(name@, #[trigger] v.spec_name()) by {
                match v {
                    ChannelPairMode::LeftRight => assert(all@[0] == v),
                    ChannelPairMode::MidSide => assert(all@[1] == v),
                    ChannelPairMode::LeftOnly => assert(all@[2] == v),
                    ChannelPairMode::RightOnly => assert(all@[3] == v),
                }
            }
        }
        None
    }

    /// No two values share a name, even ignoring case.
    pub proof fn lemma_names_distinct()
        ensures
            forall|a: ChannelPairMode, b: ChannelPairMode|
                text::eq_ignore_ascii_case(#[trigger] a.spec_name(), #[trigger] b.spec_name()) ==> a == b,
    {
        reveal_strlit("LeftOnly");
        reveal_strlit("LeftRight");
        reveal_strlit("MidSide");
        reveal_strlit("RightOnly");
        assert forall|a: ChannelPairMode, b: ChannelPairMode|
            text::eq_ignore_ascii_case(#[trigger] a.spec_name(), #[trigger] b.spec_name()) implies a == b by {
            if a != b {
                let (x, y) = (a.spec_name(), b.spec_name());
                if x.len() == y.len() {
                    assert(text::ascii_lower(x[0]) != text::ascii_lower(y[0]));
                }
            }
        }
    }

    /// A value's own name, in any ASCII case, reads back as that value.
    pub proof fn lemma_name_round_trip(v: ChannelPairMode, written: Seq<char>)
        requires
            text::eq_ignore_ascii_case(written, v.spec_name()),
        ensures
            ChannelPairMode::spec_from_name(written) == Some(v),
    {
        let c = choose|u: ChannelPairMode| text::eq_ignore_ascii_case(written, #[trigger] u.spec_name());
        text::lemma_eq_ignore_ascii_case_shared(written, v.spec_name(), c.spec_name());
        ChannelPairMode::lemma_names_distinct();
    }
}

/// The labels of the two panes, outer pane first.
pub open spec fn spec_pane_labels(mode: ChannelPairMode) -> (Seq<char>, Seq<char>) {
    match mode {
        ChannelPairMode::MidSide => ("MID"@, "SIDE"@),
        ChannelPairMode::LeftOnly => ("LEFT"@, "LEFT"@),
        ChannelPairMode::RightOnly => ("RIGHT"@, "RIGHT"@),
        ChannelPairMode::LeftRight => ("L"@, "R"@),
    }
}

impl ChannelPairMode {
    /// Pane labels, outer pane first.
    pub fn pane_labels(self) -> (r: [&'static str; 2])
        ensures
            r[0]@ == spec_pane_labels(self).0,
            r[1]@ == spec_pane_labels(self).1,
    {
        match self {
            ChannelPairMode::MidSide => ["MID", "SIDE"],
            ChannelPairMode::LeftOnly => ["LEFT", "LEFT"],
            ChannelPairMode::RightOnly => ["RIGHT", "RIGHT"],
            ChannelPairMode::LeftRight => ["L", "R"],
        }
    }

    /// Single-channel modes show one full-width pane instead of two.
    pub fn pane_count(self) -> (r: usize)
        ensures
            r == (if self == ChannelPairMode::LeftOnly || self == ChannelPairMode::RightOnly { 1usize } else { 2usize }),
    {
        match self {
            ChannelPairMode::LeftOnly | ChannelPairMode::RightOnly => 1,
            _ => 2,
        }
    }
}

} // verus!
