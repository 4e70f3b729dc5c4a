//! The settings' fixed choices, colours and themes, and the names of saved things.
//!
//! The settings themselves hold floating-point numbers and stay with the app; what the
//! library holds is every value a choice can take and the name it is written under, the
//! `#AARRGGBB` colours, the hand-set theme slots, and the rule that turns what someone
//! typed into a name that can be a file.

use vstd::prelude::*;
use crate::text;

verus! {

/// The built-in starting points. `Custom` means "changed since a preset".
#[derive(Clone, Copy, Debug, PartialEq, Eq, Hash, Structural)]
pub enum Preset {
    Nostalgia,
    Studio,
    QC,
    Immersive,
    Custom,
    Vocal,
    Bass,
    Percussion,
    Mastering,
}

impl Default for Preset {
    fn default() -> (r: Preset)
        ensures
            r == Preset::Studio,
    {
        Preset::Studio
    }
}

impl Preset {
    /// Every value, in declaration order.
    pub const ALL: [Preset; 9] = [
        Preset::Nostalgia,
        Preset::Studio,
        Preset::QC,
        Preset::Immersive,
        Preset::Custom,
        Preset::Vocal,
        Preset::Bass,
        Preset::Percussion,
        Preset::Mastering,
    ];

    /// The name used in settings files.
    pub open spec fn spec_name(self) -> Seq<char> {
        match self {
            Preset::Nostalgia => "Nostalgia"@,
            Preset::Studio => "Studio"@,
            Preset::QC => "QC"@,
            Preset::Immersive => "Immersive"@,
            Preset::Custom => "Custom"@,
            Preset::Vocal => "Vocal"@,
            Preset::Bass => "Bass"@,
            Preset::Percussion => "Percussion"@,
            Preset::Mastering => "Mastering"@,
        }
    }

    /// The value whose name `written` is, ignoring ASCII case.
    pub open spec fn spec_from_name(written: Seq<char>) -> Option<Preset> {
        if exists|v: Preset| text::eq_ignore_ascii_case(written, #[trigger] v.spec_name()) {
            Some(choose|v: Preset| text::eq_ignore_ascii_case(written, #[trigger] v.spec_name()))
        } else {
            None
        }
    }

    /// The name used in settings files.
    pub fn name(self) -> (r: &'static str)
        ensures
            r@ == self.spec_name(),
    {
        match self {
            Preset::Nostalgia => "Nostalgia",
            Preset::Studio => "Studio",
            Preset::QC => "QC",
            Preset::Immersive => "Immersive",
            Preset::Custom => "Custom",
            Preset::Vocal => "Vocal",
            Preset::Bass => "Bass",
            Preset::Percussion => "Percussion",
            Preset::Mastering => "Mastering",
        }
    }

    /// Parses a name, ignoring ASCII case.
    pub fn from_name(name: &str) -> (r: Option<Preset>)
        ensures
            r == Preset::spec_from_name(name@),
    {
        let all = Preset::ALL;
        let mut i: usize = 0;
        while i < 9
            invariant
                all@ == seq![Preset::Nostalgia, Preset::Studio, Preset::QC, Preset::Immersive, Preset::Custom, Preset::Vocal, Preset::Bass, Preset::Percussion, Preset::Mastering],
                i <= 9,
                forall|j: int| 0 <= j < i ==> !text::eq_ignore_ascii_case(name@, #[trigger] all@[j].spec_name()),
            decreases 9 - i,
        {
            let v = all[i];
            if text::same_ignoring_ascii_case(name, v.name()) {
                proof {
                    let c = choose|u: Preset| text::eq_ignore_ascii_case(name@, #[trigger] u.spec_name());
                    text::lemma_eq_ignore_ascii_case_shared(name@, v.spec_name(), c.spec_name());
                    Preset::lemma_names_distinct();
                }
                return Some(v);
            }
            i = i + 1;
        }
        proof {
            assert forall|v: Preset| !text::eq_ignore_ascii_case(name@, #[trigger] v.spec_name()) by {
                match v {
                    Preset::Nostalgia => assert(all@[0] == v),
                    Preset::Studio => assert(all@[1] == v),
                    Preset::QC => assert(all@[2] == v),
                    Preset::Immersive => assert(all@[3] == v),
                    Preset::Custom => assert(all@[4] == v),
                    Preset::Vocal => assert(all@[5] == v),
                    Preset::Bass => assert(all@[6] == v),
                    Preset::Percussion => assert(all@[7] == v),
                    Preset::Mastering => assert(all@[8] == v),
                }
            }
        }
        None
    }

    /// No two values share a name, even ignoring case.
    pub proof fn lemma_names_distinct()
        ensures
            forall|a: Preset, b: Preset|
                text::eq_ignore_ascii_case(#[trigger] a.spec_name(), #[trigger] b.spec_name()) ==> a == b,
    {
        reveal_strlit("Bass");
        reveal_strlit("Custom");
        reveal_strlit("Immersive");
        reveal_strlit("Mastering");
        reveal_strlit("Nostalgia");
        reveal_strlit("Percussion");
        reveal_strlit("QC");
        reveal_strlit("Studio");
        reveal_strlit("Vocal");
        assert forall|a: Preset, b: Preset|
            text::eq_ignore_ascii_case(#[trigger] a.spec_name(), #[trigger] b.spec_name()) implies a == b by {
            if a != b {
                let (x, y) = (a.spec_name(), b.spec_name());
                if x.len() == y.len() {
                    assert(text::ascii_lower(x[0]) != text::ascii_lower(y[0]));
                }
            }
        }
    }

    /// A value's own name, in any ASCII case, reads back as that value.
    pub proof fn lemma_name_round_trip(v: Preset, written: Seq<char>)
        requires
            text::eq_ignore_ascii_case(written, v.spec_name()),
        ensures
            Preset::spec_from_name(written) == Some(v),
    {
        let c = choose|u: Preset| text::eq_ignore_ascii_case(written, #[trigger] u.spec_name());
        text::lemma_eq_ignore_ascii_case_shared(written, v.spec_name(), c.spec_name());
        Preset::lemma_names_distinct();
    }
}

/// How the spectrum curve is drawn.
#[derive(Clone, Copy, Debug, PartialEq, Eq, Hash, Structural)]
pub enum CurveStyle {
    Line,
    Bars,
    Led,
}

impl Default for CurveStyle {
    fn default() -> (r: CurveStyle)
        ensures
            r == CurveStyle::Line,
    {
        CurveStyle::Line
    }
}

impl CurveStyle {
    /// Every value, in declaration order.
    pub const ALL: [CurveStyle; 3] = [
        CurveStyle::Line,
        CurveStyle::Bars,
        CurveStyle::Led,
    ];

    /// The name used in settings files.
    pub open spec fn spec_name(self) -> Seq<char> {
        match self {
            CurveStyle::Line => "Line"@,
            CurveStyle::Bars => "Bars"@,
            CurveStyle::Led => "Led"@,
        }
    }

    /// The value whose name `written` is, ignoring ASCII case.
    pub open spec fn spec_from_name(written: Seq<char>) -> Option<CurveStyle> {
        if exists|v: CurveStyle| text::eq_ignore_ascii_case(written, #[trigger] v.spec_name()) {
            Some(choose|v: CurveStyle| text::eq_ignore_ascii_case(written, #[trigger] v.spec_name()))
        } else {
            None
        }
    }

    /// The name used in settings files.
    pub fn name(self) -> (r: &'static str)
        ensures
            r@ == self.spec_name(),
    {
        match self {
            CurveStyle::Line => "Line",
            CurveStyle::Bars => "Bars",
            CurveStyle::Led => "Led",
        }
    }

    /// Parses a name, ignoring ASCII case.
    pub fn from_name(name: &str) -> (r: Option<CurveStyle>)
        ensures
            r == CurveStyle::spec_from_name(name@),
    {
        let all = CurveStyle::ALL;
        let mut i: usize = 0;
        while i < 3
            invariant
                all@ == seq![CurveStyle::Line, CurveStyle::Bars, CurveStyle::Led],
                i <= 3,
                forall|j: int| 0 <= j < i ==> !text::eq_ignore_ascii_case(name@, #[trigger] all@[j].spec_name()),
            decreases 3 - i,
        {
            let v = all[i];
            if text::same_ignoring_ascii_case(name, v.name()) {
                proof {
                    let c = choose|u: CurveStyle| text::eq_ignore_ascii_case(name@, #[trigger] u.spec_name());
                    text::lemma_eq_ignore_ascii_case_shared(name@, v.spec_name(), c.spec_name());
                    CurveStyle::lemma_names_distinct();
                }
                return Some(v);
            }
            i = i + 1;
        }
        proof {
            assert forall|v: CurveStyle| !text::eq_ignore_ascii_case(name@, #[trigger] v.spec_name()) by {
                match v {
                    CurveStyle::Line => assert(all@[0] == v),
                    CurveStyle::Bars => assert(all@[1] == v),
                    CurveStyle::Led => assert(all@[2] == v),
                }
            }
        }
        None
    }

    /// No two values share a name, even ignoring case.
    pub proof fn lemma_names_distinct()
        ensures
            forall|a: CurveStyle, b: CurveStyle|
                text::eq_ignore_ascii_case(#[trigger] a.spec_name(), #[trigger] b.spec_name()) ==> a == b,
    {
        reveal_strlit("Bars");
        reveal_strlit("Led");
        reveal_strlit("Line");
        assert forall|a: CurveStyle, b: CurveStyle|
            text::eq_ignore_ascii_case(#[trigger] a.spec_name(), #[trigger] b.spec_name()) implies a == b by {
            if a != b {
                let (x, y) = (a.spec_name(), b.spec_name());
                if x.len() == y.len() {
                    assert(text::ascii_lower(x[0]) != text::ascii_lower(y[0]));
                }
            }
        }
    }

    /// A value's own name, in any ASCII case, reads back as that value.
    pub proof fn lemma_name_round_trip(v: CurveStyle, written: Seq<char>)
        requires
            text::eq_ignore_ascii_case(written, v.spec_name()),
        ensures
            CurveStyle::spec_from_name(written) == Some(v),
    {
        let c = choose|u: CurveStyle| text::eq_ignore_ascii_case(written, #[trigger] u.spec_name());
        text::lemma_eq_ignore_ascii_case_shared(written, v.spec_name(), c.spec_name());
        CurveStyle::lemma_names_distinct();
    }
}

/// The pattern behind the curve.
#[derive(Clone, Copy, Debug, PartialEq, Eq, Hash, Structural)]
pub enum GraphBackground {
    Plain,
    Lines,
    Grid,
    Chessboard,
}

impl Default for GraphBackground {
    fn default() -> (r: GraphBackground)
        ensures
            r == GraphBackground::Lines,
    {
        GraphBackground::Lines
    }
}

impl GraphBackground {
    /// Every value, in declaration order.
    pub const ALL: [GraphBackground; 4] = [
        GraphBackground::Plain,
        GraphBackground::Lines,
        GraphBackground::Grid,
        GraphBackground::Chessboard,
    ];

    /// The name used in settings files.
    pub open spec fn spec_name(self) -> Seq<char> {
        match self {
            GraphBackground::Plain => "Plain"@,
            GraphBackground::Lines => "Lines"@,
            GraphBackground::Grid => "Grid"@,
            GraphBackground::Chessboard => "Chessboard"@,
        }
    }

    /// The value whose name `written` is, ignoring ASCII case.
    pub open spec fn spec_from_name(written: Seq<char>) -> Option<GraphBackground> {
        if exists|v: GraphBackground| text::eq_ignore_ascii_case(written, #[trigger] v.spec_name()) {
            Some(choose|v: GraphBackground| text::eq_ignore_ascii_case(written, #[trigger] v.spec_name()))
        } else {
            None
        }
    }

    /// The name used in settings files.
    pub fn name(self) -> (r: &'static str)
        ensures
            r@ == self.spec_name(),
    {
        match self {
            GraphBackground::Plain => "Plain",
            GraphBackground::Lines => "Lines",
            GraphBackground::Grid => "Grid",
            GraphBackground::Chessboard => "Chessboard",
        }
    }

    /// Parses a name, ignoring ASCII case.
    pub fn from_name(name: &str) -> (r: Option<GraphBackground>)
        ensures
            r == GraphBackground::spec_from_name(name@),
    {
        let all = GraphBackground::ALL;
        let mut i: usize = 0;
        while i < 4
            invariant
                all@ == seq![GraphBackground::Plain, GraphBackground::Lines, GraphBackground::Grid, GraphBackground::Chessboard],
                i <= 4,
                forall|j: int| 0 <= j < i ==> !text::eq_ignore_ascii_case(name@, #[trigger] all@[j].spec_name()),
            decreases 4 - i,
        {
            let v = all[i];
            if text::same_ignoring_ascii_case(name, v.name()) {
                proof {
                    let c = choose|u: GraphBackground| text::eq_ignore_ascii_case(name@, #[trigger] u.spec_name());
                    text::lemma_eq_ignore_ascii_case_shared(name@, v.spec_name(), c.spec_name());
                    GraphBackground::lemma_names_distinct();
                }
                return Some(v);
            }
            i = i + 1;
        }
        proof {
            assert forall|v: GraphBackground| !text::eq_ignore_ascii_case(name@, #[trigger] v.spec_name()) by {
                match v {
                    GraphBackground::Plain => assert(all@[0] == v),
                    GraphBackground::Lines => assert(all@[1] == v),
                    GraphBackground::Grid => assert(all@[2] == v),
                    GraphBackground::Chessboard => assert(all@[3] == v),
                }
            }
        }
        None
    }

    /// No two values share a name, even ignoring case.
    pub proof fn lemma_names_distinct()
        ensures
            forall|a: GraphBackground, b: GraphBackground|
                text::eq_ignore_ascii_case(#[trigger] a.spec_name(), #[trigger] b.spec_name()) ==> a == b,
    {
        reveal_strlit("Chessboard");
        reveal_strlit("Grid");
        reveal_strlit("Lines");
        reveal_strlit("Plain");
        assert forall|a: GraphBackground, b: GraphBackground|
            text::eq_ignore_ascii_case(#[trigger] a.spec_name(), #[trigger] b.spec_name()) implies a == b by {
            if a != b {
                let (x, y) = (a.spec_name(), b.spec_name());
                if x.len() == y.len() {
                    assert(text::ascii_lower(x[0]) != text::ascii_lower(y[0]));
                }
            }
        }
    }

    /// A value's own name, in any ASCII case, reads back as that value.
    pub proof fn lemma_name_round_trip(v: GraphBackground, written: Seq<char>)
        requires
            text::eq_ignore_ascii_case(written, v.spec_name()),
        ensures
            GraphBackground::spec_from_name(written) == Some(v),
    {
        let c = choose|u: GraphBackground| text::eq_ignore_ascii_case(written, #[trigger] u.spec_name());
        text::lemma_eq_ignore_ascii_case_shared(written, v.spec_name(), c.spec_name());
        GraphBackground::lemma_names_distinct();
    }
}

/// What the frequency axis prints at each gridline.
#[derive(Clone, Copy, Debug, PartialEq, Eq, Hash, Structural)]
pub enum AxisLabelMode {
    Notes,
    Frequency,
    Both,
}

impl Default for AxisLabelMode {
    fn default() -> (r: AxisLabelMode)
        ensures
            r == AxisLabelMode::Notes,
    {
        AxisLabelMode::Notes
    }
}

impl AxisLabelMode {
    /// Every value, in declaration order.
    pub const ALL: [AxisLabelMode; 3] = [
        AxisLabelMode::Notes,
        AxisLabelMode::Frequency,
        AxisLabelMode::Both,
    ];

    /// The name used in settings files.
    pub open spec fn spec_name(self) -> Seq<char> {
        match self {
            AxisLabelMode::Notes => "Notes"@,
            AxisLabelMode::Frequency => "Frequency"@,
            AxisLabelMode::Both => "Both"@,
        }
    }

    /// The value whose name `written` is, ignoring ASCII case.
    pub open spec fn spec_from_name(written: Seq<char>) -> Option<AxisLabelMode> {
        if exists|v: AxisLabelMode| text::eq_ignore_ascii_case(written, #[trigger] v.spec_name()) {
            Some(choose|v: AxisLabelMode| text::eq_ignore_ascii_case(written, #[trigger] v.spec_name()))
        } else {
            None
        }
    }

    /// The name used in settings files.
    pub fn name(self) -> (r: &'static str)
        ensures
            r@ == self.spec_name(),
    {
        match self {
            AxisLabelMode::Notes => "Notes",
            AxisLabelMode::Frequency => "Frequency",
            AxisLabelMode::Both => "Both",
        }
    }

    /// Parses a name, ignoring ASCII case.
    pub fn from_name(name: &str) -> (r: Option<AxisLabelMode>)
        ensures
            r == AxisLabelMode::spec_from_name(name@),
    {
        let all = AxisLabelMode::ALL;
        let mut i: usize = 0;
        while i < 3
            invariant
                all@ == seq![AxisLabelMode::Notes, AxisLabelMode::Frequency, AxisLabelMode::Both],
                i <= 3,
                forall|j: int| 0 <= j < i ==> !text::eq_ignore_ascii_case(name@, #[trigger] all@[j].spec_name()),
            decreases 3 - i,
        {
            let v = all[i];
            if text::same_ignoring_ascii_case(name, v.name()) {
                proof {
                    let c = choose|u: AxisLabelMode| text::eq_ignore_ascii_case(name@, #[trigger] u.spec_name());
                    text::lemma_eq_ignore_ascii_case_shared(name@, v.spec_name(), c.spec_name());
                    AxisLabelMode::lemma_names_distinct();
                }
                return Some(v);
            }
            i = i + 1;
        }
        proof {
            assert forall|v: AxisLabelMode| !text::eq_ignore_ascii_case(name@, #[trigger] v.spec_name()) by {
                match v {
                    AxisLabelMode::Notes => assert(all@[0] == v),
                    AxisLabelMode::Frequency => assert(all@[1] == v),
                    AxisLabelMode::Both => assert(all@[2] == v),
                }
            }
        }
        None
    }

    /// No two values share a name, even ignoring case.
    pub proof fn lemma_names_distinct()
        ensures
            forall|a: AxisLabelMode, b: AxisLabelMode|
                text::eq_ignore_ascii_case(#[trigger] a.spec_name(), #[trigger] b.spec_name()) ==> a == b,
    {
        reveal_strlit("Both");
        reveal_strlit("Frequency");
        reveal_strlit("Notes");
        assert forall|a: AxisLabelMode, b: AxisLabelMode|
            text::eq_ignore_ascii_case(#[trigger] a.spec_name(), #[trigger] b.spec_name()) implies a == b by {
            if a != b {
                let (x, y) = (a.spec_name(), b.spec_name());
                if x.len() == y.len() {
                    assert(text::ascii_lower(x[0]) != text::ascii_lower(y[0]));
                }
            }
        }
    }

    /// A value's own name, in any ASCII case, reads back as that value.
    pub proof fn lemma_name_round_trip(v: AxisLabelMode, written: Seq<char>)
        requires
            text::eq_ignore_ascii_case(written, v.spec_name()),
        ensures
            AxisLabelMode::spec_from_name(written) == Some(v),
    {
        let c = choose|u: AxisLabelMode| text::eq_ignore_ascii_case(written, #[trigger] u.spec_name());
        text::lemma_eq_ignore_ascii_case_shared(written, v.spec_name(), c.spec_name());
        AxisLabelMode::lemma_names_distinct();
    }
}

/// Which end of the panes the scale strip sits at.
#[derive(Clone, Copy, Debug, PartialEq, Eq, Hash, Structural)]
pub enum ScaleLanePosition {
    Top,
    Bottom,
}

impl Default for ScaleLanePosition {
    fn default() -> (r: ScaleLanePosition)
        ensures
            r == ScaleLanePosition::Top,
    {
        ScaleLanePosition::Top
    }
}

impl ScaleLanePosition {
    /// Every value, in declaration order.
    pub const ALL: [ScaleLanePosition; 2] = [
        ScaleLanePosition::Top,
        ScaleLanePosition::Bottom,
    ];

    /// The name used in settings files.
    pub open spec fn spec_name(self) -> Seq<char> {
        match self {
            ScaleLanePosition::Top => "Top"@,
            ScaleLanePosition::Bottom => "Bottom"@,
        }
    }

    /// The value whose name `written` is, ignoring ASCII case.
    pub open spec fn spec_from_name(written: Seq<char>) -> Option<ScaleLanePosition> {
        if exists|v: ScaleLanePosition| text::eq_ignore_ascii_case(written, #[trigger] v.spec_name()) {
            Some(choose|v: ScaleLanePosition| text::eq_ignore_ascii_case(written, #[trigger] v.spec_name()))
        } else {
            None
        }
    }

    /// The name used in settings files.
    pub fn name(self) -> (r: &'static str)
        ensures
            r@ == self.spec_name(),
    {
        match self {
            ScaleLanePosition::Top => "Top",
            ScaleLanePosition::Bottom => "Bottom",
        }
    }

    /// Parses a name, ignoring ASCII case.
    pub fn from_name(name: &str) -> (r: Option<ScaleLanePosition>)
        ensures
            r == ScaleLanePosition::spec_from_name(name@),
    {
        let all = ScaleLanePosition::ALL;
        let mut i: usize = 0;
        while i < 2
            invariant
                all@ == seq![ScaleLanePosition::Top, ScaleLanePosition::Bottom],
                i <= 2,
                forall|j: int| 0 <= j < i ==> !text::eq_ignore_ascii_case(name@, #[trigger] all@[j].spec_name()),
            decreases 2 - i,
        {
            let v = all[i];
            if text::same_ignoring_ascii_case(name, v.name()) {
                proof {
                    let c = choose|u: ScaleLanePosition| text::eq_ignore_ascii_case(name@, #[trigger] u.spec_name());
                    text::lemma_eq_ignore_ascii_case_shared(name@, v.spec_name(), c.spec_name());
                    ScaleLanePosition::lemma_names_distinct();
                }
                return Some(v);
            }
            i = i + 1;
        }
        proof {
            assert forall|v: ScaleLanePosition| !text::eq_ignore_ascii_case(name@, #[trigger] v.spec_name()) by {
                match v {
                    ScaleLanePosition::Top => assert(all@[0] == v),
                    ScaleLanePosition::Bottom => assert(all@[1] == v),
                }
            }
        }
        None
    }

    /// No two values share a name, even ignoring case.
    pub proof fn lemma_names_distinct()
        ensures
            forall|a: ScaleLanePosition, b: ScaleLanePosition|
                text::eq_ignore_ascii_case(#[trigger] a.spec_name(), #[trigger] b.spec_name()) ==> a == b,
    {
        reveal_strlit("Bottom");
        reveal_strlit("Top");
        assert forall|a: ScaleLanePosition, b: ScaleLanePosition|
            text::eq_ignore_ascii_case(#[trigger] a.spec_name(), #[trigger] b.spec_name()) implies a == b by {
            if a != b {
                let (x, y) = (a.spec_name(), b.spec_name());
                if x.len() == y.len() {
                    assert(text::ascii_lower(x[0]) != text::ascii_lower(y[0]));
                }
            }
        }
    }

    /// A value's own name, in any ASCII case, reads back as that value.
    pub proof fn lemma_name_round_trip(v: ScaleLanePosition, written: Seq<char>)
        requires
            text::eq_ignore_ascii_case(written, v.spec_name()),
        ensures
            ScaleLanePosition::spec_from_name(written) == Some(v),
    {
        let c = choose|u: ScaleLanePosition| text::eq_ignore_ascii_case(written, #[trigger] u.spec_name());
        text::lemma_eq_ignore_ascii_case_shared(written, v.spec_name(), c.spec_name());
        ScaleLanePosition::lemma_names_distinct();
    }
}

/// How often the screen is redrawn. Scrolling follows audio time whatever this is.
#[derive(Clone, Copy, Debug, PartialEq, Eq, Hash, Structural)]
pub enum FrameCap {
    /// Every refresh of the display.
    Display,
    Fps60,
    Fps30,
}

impl Default for FrameCap {
    fn default() -> (r: FrameCap)
        ensures
            r == FrameCap::Display,
    {
        FrameCap::Display
    }
}

impl FrameCap {
    /// Every value, in declaration order.
    pub const ALL: [FrameCap; 3] = [
        FrameCap::Display,
        FrameCap::Fps60,
        FrameCap::Fps30,
    ];

    /// The name used in settings files.
    pub open spec fn spec_name(self) -> Seq<char> {
        match self {
            FrameCap::Display => "Display"@,
            FrameCap::Fps60 => "60"@,
            FrameCap::Fps30 => "30"@,
        }
    }

    /// The value whose name `written` is, ignoring ASCII case.
    pub open spec fn spec_from_name(written: Seq<char>) -> Option<FrameCap> {
        if exists|v: FrameCap| text::eq_ignore_ascii_case(written, #[trigger] v.spec_name()) {
            Some(choose|v: FrameCap| text::eq_ignore_ascii_case(written, #[trigger] v.spec_name()))
        } else {
            None
        }
    }

    /// The name used in settings files.
    pub fn name(self) -> (r: &'static str)
        ensures
            r@ == self.spec_name(),
    {
        match self {
            FrameCap::Display => "Display",
            FrameCap::Fps60 => "60",
            FrameCap::Fps30 => "30",
        }
    }

    /// Parses a name, ignoring ASCII case.
    pub fn from_name(name: &str) -> (r: Option<FrameCap>)
        ensures
            r == FrameCap::spec_from_name(name@),
    {
        let all = FrameCap::ALL;
        let mut i: usize = 0;
        while i < 3
            invariant
                all@ == seq![FrameCap::Display, FrameCap::Fps60, FrameCap::Fps30],
                i <= 3,
                forall|j: int| 0 <= j < i ==> !text::eq_ignore_ascii_case(name@, #[trigger] all@[j].spec_name()),
            decreases 3 - i,
        {
            let v = all[i];
            if text::same_ignoring_ascii_case(name, v.name()) {
                proof {
                    let c = choose|u: FrameCap| text::eq_ignore_ascii_case(name@, #[trigger] u.spec_name());
                    text::lemma_eq_ignore_ascii_case_shared(name@, v.spec_name(), c.spec_name());
                    FrameCap::lemma_names_distinct();
                }
                return Some(v);
            }
            i = i + 1;
        }
        proof {
            assert forall|v: FrameCap| !text::eq_ignore_ascii_case(name@, #[trigger] v.spec_name()) by {
                match v {
                    FrameCap::Display => assert(all@[0] == v),
                    FrameCap::Fps60 => assert(all@[1] == v),
                    FrameCap::Fps30 => assert(all@[2] == v),
                }
            }
        }
        None
    }

    /// No two values share a name, even ignoring case.
    pub proof fn lemma_names_distinct()
        ensures
            forall|a: FrameCap, b: FrameCap|
                text::eq_ignore_ascii_case(#[trigger] a.spec_name(), #[trigger] b.spec_name()) ==> a == b,
    {
        reveal_strlit("30");
        reveal_strlit("60");
        reveal_strlit("Display");
        assert forall|a: FrameCap, b: FrameCap|
            text::eq_ignore_ascii_case(#[trigger] a.spec_name(), #[trigger] b.spec_name()) implies a == b by {
            if a != b {
                let (x, y) = (a.spec_name(), b.spec_name());
                if x.len() == y.len() {
                    assert(text::ascii_lower(x[0]) != text::ascii_lower(y[0]));
                }
            }
        }
    }

    /// A value's own name, in any ASCII case, reads back as that value.
    pub proof fn lemma_name_round_trip(v: FrameCap, written: Seq<char>)
        requires
            text::eq_ignore_ascii_case(written, v.spec_name()),
        ensures
            FrameCap::spec_from_name(written) == Some(v),
    {
        let c = choose|u: FrameCap| text::eq_ignore_ascii_case(written, #[trigger] u.spec_name());
        text::lemma_eq_ignore_ascii_case_shared(written, v.spec_name(), c.spec_name());
        FrameCap::lemma_names_distinct();
    }
}

/// The parts of the display whose colour can be set by hand.
///
/// Every one defaults to unset, meaning "follow the palette", so colours stay coherent
/// when the palette changes. Setting a slot opts that one element out of all that.
#[derive(Clone, Copy, Debug, PartialEq, Eq, Hash, Structural)]
pub enum ThemeSlot {
    Background,
    Panel,
    GridMajor,
    GridMinor,
    AxisText,
    Units,
    Curve,
    PeakTrace,
    AverageTrace,
    MinimumTrace,
    Hover,
    Waveform,
    Snapshot,
}

impl Default for ThemeSlot {
    fn default() -> (r: ThemeSlot)
        ensures
            r == ThemeSlot::Background,
    {
        ThemeSlot::Background
    }
}

impl ThemeSlot {
    /// Every value, in declaration order.
    pub const ALL: [ThemeSlot; 13] = [
        ThemeSlot::Background,
        ThemeSlot::Panel,
        ThemeSlot::GridMajor,
        ThemeSlot::GridMinor,
        ThemeSlot::AxisText,
        ThemeSlot::Units,
        ThemeSlot::Curve,
        ThemeSlot::PeakTrace,
        ThemeSlot::AverageTrace,
        ThemeSlot::MinimumTrace,
        ThemeSlot::Hover,
        ThemeSlot::Waveform,
        ThemeSlot::Snapshot,
    ];

    /// The name used in settings files.
    pub open spec fn spec_name(self) -> Seq<char> {
        match self {
            ThemeSlot::Background => "Background"@,
            ThemeSlot::Panel => "Panel"@,
            ThemeSlot::GridMajor => "GridMajor"@,
            ThemeSlot::GridMinor => "GridMinor"@,
            ThemeSlot::AxisText => "AxisText"@,
            ThemeSlot::Units => "Units"@,
            ThemeSlot::Curve => "Curve"@,
            ThemeSlot::PeakTrace => "PeakTrace"@,
            ThemeSlot::AverageTrace => "AverageTrace"@,
            ThemeSlot::MinimumTrace => "MinimumTrace"@,
            ThemeSlot::Hover => "Hover"@,
            ThemeSlot::Waveform => "Waveform"@,
            ThemeSlot::Snapshot => "Snapshot"@,
        }
    }

    /// The value whose name `written` is, ignoring ASCII case.
    pub open spec fn spec_from_name(written: Seq<char>) -> Option<ThemeSlot> {
        if exists|v: ThemeSlot| text::eq_ignore_ascii_case(written, #[trigger] v.spec_name()) {
            Some(choose|v: ThemeSlot| text::eq_ignore_ascii_case(written, #[trigger] v.spec_name()))
        } else {
            None
        }
    }

    /// The name used in settings files.
    pub fn name(self) -> (r: &'static str)
        ensures
            r@ == self.spec_name(),
    {
        match self {
            ThemeSlot::Background => "Background",
            ThemeSlot::Panel => "Panel",
            ThemeSlot::GridMajor => "GridMajor",
            ThemeSlot::GridMinor => "GridMinor",
            ThemeSlot::AxisText => "AxisText",
            ThemeSlot::Units => "Units",
            ThemeSlot::Curve => "Curve",
            ThemeSlot::PeakTrace => "PeakTrace",
            ThemeSlot::AverageTrace => "AverageTrace",
            ThemeSlot::MinimumTrace => "MinimumTrace",
            ThemeSlot::Hover => "Hover",
            ThemeSlot::Waveform => "Waveform",
            ThemeSlot::Snapshot => "Snapshot",
        }
    }

    /// Parses a name, ignoring ASCII case.
    pub fn from_name(name: &str) -> (r: Option<ThemeSlot>)
        ensures
            r == ThemeSlot::spec_from_name(name@),
    {
        let all = ThemeSlot::ALL;
        let mut i: usize = 0;
        while i < 13
            invariant
                all@ == seq![ThemeSlot::Background, ThemeSlot::Panel, ThemeSlot::GridMajor, ThemeSlot::GridMinor, ThemeSlot::AxisText, ThemeSlot::Units, ThemeSlot::Curve, ThemeSlot::PeakTrace, ThemeSlot::AverageTrace, ThemeSlot::MinimumTrace, ThemeSlot::Hover, ThemeSlot::Waveform, ThemeSlot::Snapshot],
                i <= 13,
                forall|j: int| 0 <= j < i ==> !text::eq_ignore_ascii_case(name@, #[trigger] all@[j].spec_name()),
            decreases 13 - i,
        {
            let v = all[i];
            if text::same_ignoring_ascii_case(name, v.name()) {
                proof {
                    let c = choose|u: ThemeSlot| text::eq_ignore_ascii_case(name@, #[trigger] u.spec_name());
                    text::lemma_eq_ignore_ascii_case_shared(name@, v.spec_name(), c.spec_name());
                    ThemeSlot::lemma_names_distinct();
                }
                return Some(v);
            }
            i = i + 1;
        }
        proof {
            assert forall|v: ThemeSlot| !text::eq_ignore_ascii_case(name@, #[trigger] v.spec_name()) by {
                match v {
                    ThemeSlot::Background => assert(all@[0] == v),
                    ThemeSlot::Panel => assert(all@[1] == v),
                    ThemeSlot::GridMajor => assert(all@[2] == v),
                    ThemeSlot::GridMinor => assert(all@[3] == v),
                    ThemeSlot::AxisText => assert(all@[4] == v),
                    ThemeSlot::Units => assert(all@[5] == v),
                    ThemeSlot::Curve => assert(all@[6] == v),
                    ThemeSlot::PeakTrace => assert(all@[7] == v),
                    ThemeSlot::AverageTrace => assert(all@[8] == v),
                    ThemeSlot::MinimumTrace => assert(all@[9] == v),
                    ThemeSlot::Hover => assert(all@[10] == v),
                    ThemeSlot::Waveform => assert(all@[11] == v),
                    ThemeSlot::Snapshot => assert(all@[12] == v),
                }
            }
        }
        None
    }

    /// No two values share a name, even ignoring case.
    pub proof fn lemma_names_distinct()
        ensures
            forall|a: ThemeSlot, b: ThemeSlot|
                text::eq_ignore_ascii_case(#[trigger] a.spec_name(), #[trigger] b.spec_name()) ==> a == b,
    {
        reveal_strlit("AverageTrace");
        reveal_strlit("AxisText");
        reveal_strlit("Background");
        reveal_strlit("Curve");
        reveal_strlit("GridMajor");
        reveal_strlit("GridMinor");
        reveal_strlit("Hover");
        reveal_strlit("MinimumTrace");
        reveal_strlit("Panel");
        reveal_strlit("PeakTrace");
        reveal_strlit("Snapshot");
        reveal_strlit("Units");
        reveal_strlit("Waveform");
        assert forall|a: ThemeSlot, b: ThemeSlot|
            text::eq_ignore_ascii_case(#[trigger] a.spec_name(), #[trigger] b.spec_name()) implies a == b by {
            if a != b {
                let (x, y) = (a.spec_name(), b.spec_name());
                if x.len() == y.len() {
                    assert(text::ascii_lower(x[0]) != text::ascii_lower(y[0]) || text::ascii_lower(x[1]) != text::ascii_lower(y[1]) || text::ascii_lower(x[2]) != text::ascii_lower(y[2]) || text::ascii_lower(x[3]) != text::ascii_lower(y[3]) || text::ascii_lower(x[4]) != text::ascii_lower(y[4]) || text::ascii_lower(x[5]) != text::ascii_lower(y[5]));
                }
            }
        }
    }

    /// A value's own name, in any ASCII case, reads back as that value.
    pub proof fn lemma_name_round_trip(v: ThemeSlot, written: Seq<char>)
        requires
            text::eq_ignore_ascii_case(written, v.spec_name()),
        ensures
            ThemeSlot::spec_from_name(written) == Some(v),
    {
        let c = choose|u: ThemeSlot| text::eq_ignore_ascii_case(written, #[trigger] u.spec_name());
        text::lemma_eq_ignore_ascii_case_shared(written, v.spec_name(), c.spec_name());
        ThemeSlot::lemma_names_distinct();
    }
}

/// An ASCII hexadecimal digit.
pub open spec fn is_hex_digit(c: char) -> bool {
    ('0' <= c && c <= '9') || ('a' <= c && c <= 'f') || ('A' <= c && c <= 'F')
}

pub open spec fn hex_digit_value(c: char) -> nat {
    if '0' <= c && c <= '9' {
        (c as u32 - '0' as u32) as nat
    } else if 'a' <= c && c <= 'f' {
        (c as u32 - 'a' as u32 + 10) as nat
    } else {
        (c as u32 - 'A' as u32 + 10) as nat
    }
}

/// The number a run of hexadecimal digits writes, most significant first.
pub open spec fn hex_value(s: Seq<char>) -> nat
    decreases s.len(),
{
    if s.len() == 0 {
        0
    } else {
        hex_value(s.drop_last()) * 16 + hex_digit_value(s.last())
    }
}

pub open spec fn pow16(n: nat) -> nat
    decreases n,
{
    if n == 0 { 1 } else { 16 * pow16((n - 1) as nat) }
}

/// What is left of a colour as written once the white space and the `#` are off.
pub open spec fn colour_digits(written: Seq<char>) -> Seq<char> {
    let t = text::trim(written);
    let h = if t.len() > 0 && t[0] == '#' { t.drop_first() } else { t };
    text::trim(h)
}

/// A colour with alpha, packed `0xAARRGGBB` as Nostalgia+ stored it. Written as
/// `#AARRGGBB`.
#[derive(Clone, Copy, Debug, PartialEq, Eq, Hash, Structural)]
pub struct Argb(pub u32);

/// The colour `written` holds: one to eight hexadecimal digits, with a `#` in front or
/// not, and white space around either.
pub open spec fn spec_parse_argb(written: Seq<char>) -> Option<Argb> {
    let h = colour_digits(written);
    if 1 <= h.len() <= 8 && forall|i: int| 0 <= i < h.len() ==> is_hex_digit(#[trigger] h[i]) {
        Some(Argb(hex_value(h) as u32))
    } else {
        None
    }
}

proof fn lemma_pow16_bound(n: nat)
    requires
        n <= 8,
    ensures
        pow16(n) <= 0x1_0000_0000,
{
    reveal_with_fuel(pow16, 9);
}

fn hex_digit(c: char) -> (r: u32)
    requires
        is_hex_digit(c),
    ensures
        r == hex_digit_value(c),
        r < 16,
{
    if '0' <= c && c <= '9' {
        (c as u32) - ('0' as u32)
    } else if 'a' <= c && c <= 'f' {
        (c as u32) - ('a' as u32) + 10
    } else {
        (c as u32) - ('A' as u32) + 10
    }
}

fn hex_digit_check(c: char) -> (r: bool)
    ensures
        r == is_hex_digit(c),
{
    ('0' <= c && c <= '9') || ('a' <= c && c <= 'f') || ('A' <= c && c <= 'F')
}

impl Argb {
    pub fn a(self) -> (r: u8)
        ensures
            r == self.0 / 0x100_0000,
    {
        let v = self.0;
        let r = (v >> 24u32) as u8;
        assert(r == v / 0x100_0000) by (bit_vector)
            requires
                r == (v >> 24u32) as u8;
        r
    }

    pub fn r(self) -> (r: u8)
        ensures
            r == (self.0 / 0x1_0000) % 0x100,
    {
        let v = self.0;
        let r = (v >> 16u32) as u8;
        assert(r == (v / 0x1_0000) % 0x100) by (bit_vector)
            requires
                r == (v >> 16u32) as u8;
        r
    }

    pub fn g(self) -> (r: u8)
        ensures
            r == (self.0 / 0x100) % 0x100,
    {
        let v = self.0;
        let r = (v >> 8u32) as u8;
        assert(r == (v / 0x100) % 0x100) by (bit_vector)
            requires
                r == (v >> 8u32) as u8;
        r
    }

    pub fn b(self) -> (r: u8)
        ensures
            r == self.0 % 0x100,
    {
        let v = self.0;
        let r = v as u8;
        assert(r == v % 0x100) by (bit_vector)
            requires
                r == v as u8;
        r
    }

    /// Parses `#AARRGGBB` or `AARRGGBB`, as Nostalgia+'s files hold them.
    pub fn parse(written: &str) -> (r: Option<Argb>)
        ensures
            r == spec_parse_argb(written@),
    {
        let t = text::trimmed_chars(written);
        let h0 = if t.len() > 0 && t[0] == '#' {
            text::slice_chars(&t, 1, t.len())
        } else {
            text::slice_chars(&t, 0, t.len())
        };
        proof {
            if t@.len() > 0 && t@[0] == '#' {
                assert(h0@ =~= t@.drop_first());
            } else {
                assert(h0@ =~= t@);
            }
        }
        let (start, end) = text::trimmed_bounds(&h0);
        let h = text::slice_chars(&h0, start, end);
        assert(h@ == colour_digits(written@));
        if h.len() == 0 || h.len() > 8 {
            return None;
        }
        let mut value: u64 = 0;
        let mut i: usize = 0;
        while i < h.len()
            invariant
                h@ == colour_digits(written@),
                1 <= h.len() <= 8,
                i <= h.len(),
                forall|j: int| 0 <= j < i ==> is_hex_digit(#[trigger] h@[j]),
                value == hex_value(h@.subrange(0, i as int)),
                value < pow16(i as nat),
            decreases h.len() - i,
        {
            if !hex_digit_check(h[i]) {
                assert(!is_hex_digit(h@[i as int]));
                return None;
            }
            let d = hex_digit(h[i]);
            proof {
                lemma_pow16_bound(i as nat);
                assert(h@.subrange(0, i + 1).drop_last() =~= h@.subrange(0, i as int));
                assert(value * 16 + d < pow16(i as nat) * 16) by (nonlinear_arith)
                    requires
                        value < pow16(i as nat),
                        d < 16;
            }
            value = value * 16 + d as u64;
            i = i + 1;
        }
        proof {
            lemma_pow16_bound(h.len() as nat);
            assert(h@.subrange(0, h.len() as int) =~= h@);
        }
        Some(Argb(value as u32))
    }
}

/// Hand-set colours, one optional colour per [`ThemeSlot`]. Unset slots follow the
/// palette.
#[derive(Clone, Debug, PartialEq, Eq, Structural)]
pub struct Theme {
    pub background: Option<Argb>,
    pub panel: Option<Argb>,
    pub grid_major: Option<Argb>,
    pub grid_minor: Option<Argb>,
    pub axis_text: Option<Argb>,
    pub units: Option<Argb>,
    pub curve: Option<Argb>,
    pub peak_trace: Option<Argb>,
    pub average_trace: Option<Argb>,
    pub minimum_trace: Option<Argb>,
    pub hover: Option<Argb>,
    pub waveform: Option<Argb>,
    pub snapshot: Option<Argb>,
}

impl Default for Theme {
    /// Every slot unset.
    fn default() -> (t: Theme)
        ensures
            t == Theme::unset(),
    {
        Theme {
            background: None,
            panel: None,
            grid_major: None,
            grid_minor: None,
            axis_text: None,
            units: None,
            curve: None,
            peak_trace: None,
            average_trace: None,
            minimum_trace: None,
            hover: None,
            waveform: None,
            snapshot: None,
        }
    }
}

impl Theme {
    /// The theme with every slot unset.
    pub open spec fn unset() -> Theme {
        Theme {
            background: None,
            panel: None,
            grid_major: None,
            grid_minor: None,
            axis_text: None,
            units: None,
            curve: None,
            peak_trace: None,
            average_trace: None,
            minimum_trace: None,
            hover: None,
            waveform: None,
            snapshot: None,
        }
    }

    /// The colour held for `slot`.
    pub open spec fn slot_value(self, slot: ThemeSlot) -> Option<Argb> {
        match slot {
            ThemeSlot::Background => self.background,
            ThemeSlot::Panel => self.panel,
            ThemeSlot::GridMajor => self.grid_major,
            ThemeSlot::GridMinor => self.grid_minor,
            ThemeSlot::AxisText => self.axis_text,
            ThemeSlot::Units => self.units,
            ThemeSlot::Curve => self.curve,
            ThemeSlot::PeakTrace => self.peak_trace,
            ThemeSlot::AverageTrace => self.average_trace,
            ThemeSlot::MinimumTrace => self.minimum_trace,
            ThemeSlot::Hover => self.hover,
            ThemeSlot::Waveform => self.waveform,
            ThemeSlot::Snapshot => self.snapshot,
        }
    }

    /// This theme with `slot` holding `colour` and nothing else changed.
    pub open spec fn with_slot(self, slot: ThemeSlot, colour: Option<Argb>) -> Theme {
        match slot {
            ThemeSlot::Background => Theme { background: colour, ..self },
            ThemeSlot::Panel => Theme { panel: colour, ..self },
            ThemeSlot::GridMajor => Theme { grid_major: colour, ..self },
            ThemeSlot::GridMinor => Theme { grid_minor: colour, ..self },
            ThemeSlot::AxisText => Theme { axis_text: colour, ..self },
            ThemeSlot::Units => Theme { units: colour, ..self },
            ThemeSlot::Curve => Theme { curve: colour, ..self },
            ThemeSlot::PeakTrace => Theme { peak_trace: colour, ..self },
            ThemeSlot::AverageTrace => Theme { average_trace: colour, ..self },
            ThemeSlot::MinimumTrace => Theme { minimum_trace: colour, ..self },
            ThemeSlot::Hover => Theme { hover: colour, ..self },
            ThemeSlot::Waveform => Theme { waveform: colour, ..self },
            ThemeSlot::Snapshot => Theme { snapshot: colour, ..self },
        }
    }

    pub fn get(&self, slot: ThemeSlot) -> (r: Option<Argb>)
        ensures
            r == self.slot_value(slot),
    {
        match slot {
            ThemeSlot::Background => self.background,
            ThemeSlot::Panel => self.panel,
            ThemeSlot::GridMajor => self.grid_major,
            ThemeSlot::GridMinor => self.grid_minor,
            ThemeSlot::AxisText => self.axis_text,
            ThemeSlot::Units => self.units,
            ThemeSlot::Curve => self.curve,
            ThemeSlot::PeakTrace => self.peak_trace,
            ThemeSlot::AverageTrace => self.average_trace,
            ThemeSlot::MinimumTrace => self.minimum_trace,
            ThemeSlot::Hover => self.hover,
            ThemeSlot::Waveform => self.waveform,
            ThemeSlot::Snapshot => self.snapshot,
        }
    }

    pub fn set(&mut self, slot: ThemeSlot, colour: Option<Argb>)
        ensures
            *final(self) == old(self).with_slot(slot, colour),
    {
        match slot {
            ThemeSlot::Background => self.background = colour,
            ThemeSlot::Panel => self.panel = colour,
            ThemeSlot::GridMajor => self.grid_major = colour,
            ThemeSlot::GridMinor => self.grid_minor = colour,
            ThemeSlot::AxisText => self.axis_text = colour,
            ThemeSlot::Units => self.units = colour,
            ThemeSlot::Curve => self.curve = colour,
            ThemeSlot::PeakTrace => self.peak_trace = colour,
            ThemeSlot::AverageTrace => self.average_trace = colour,
            ThemeSlot::MinimumTrace => self.minimum_trace = colour,
            ThemeSlot::Hover => self.hover = colour,
            ThemeSlot::Waveform => self.waveform = colour,
            ThemeSlot::Snapshot => self.snapshot = colour,
        }
    }

    /// Unsets every slot.
    pub fn clear(&mut self)
        ensures
            *final(self) == Theme::unset(),
    {
        *self = Theme::default();
    }
}

/// A slot reads back what was last set in it, and setting one slot leaves every other
/// slot as it was.
pub proof fn lemma_theme_slots_independent(t: Theme, slot: ThemeSlot, colour: Option<Argb>, other: ThemeSlot)
    ensures
        t.with_slot(slot, colour).slot_value(slot) == colour,
        other != slot ==> t.with_slot(slot, colour).slot_value(other) == t.slot_value(other),
{
}

/// A cleared theme has nothing set in any slot.
pub proof fn lemma_cleared_theme_is_unset(slot: ThemeSlot)
    ensures
        Theme::unset().slot_value(slot) is None,
{
}

/// Whether `c` may stay in a saved name: a letter or digit, a space, a hyphen or an
/// underscore.
pub open spec fn name_char(c: char) -> bool {
    text::unicode_alphanumeric(c) || c == ' ' || c == '-' || c == '_'
}

/// The characters of `s` that may stay in a saved name, in order.
pub open spec fn name_chars(s: Seq<char>) -> Seq<char>
    decreases s.len(),
{
    if s.len() == 0 {
        s
    } else if name_char(s.last()) {
        name_chars(s.drop_last()).push(s.last())
    } else {
        name_chars(s.drop_last())
    }
}

/// What [`sanitise_name`] makes of `written`.
pub open spec fn sanitised(written: Seq<char>) -> Seq<char> {
    text::trim(name_chars(text::trim(written)))
}

/// Keeps a name to letters, digits, spaces, hyphens and underscores, so it can be a
/// file name on any system. Trimmed at both ends.
pub fn sanitise_name(name: &str) -> (r: String)
    ensures
        r@ == sanitised(name@),
{
    let t = text::trimmed_chars(name);
    let mut kept: Vec<char> = Vec::new();
    let mut i: usize = 0;
    while i < t.len()
        invariant
            i <= t.len(),
            kept@ == name_chars(t@.subrange(0, i as int)),
        decreases t.len() - i,
    {
        let c = t[i];
        proof {
            assert(t@.subrange(0, i + 1).drop_last() =~= t@.subrange(0, i as int));
        }
        if text::alphanumeric(c) || c == ' ' || c == '-' || c == '_' {
            kept.push(c);
        }
        i = i + 1;
    }
    proof {
        assert(t@.subrange(0, t.len() as int) =~= t@);
    }
    let (start, end) = text::trimmed_bounds(&kept);
    let out = text::slice_chars(&kept, start, end);
    text::string_of(&out)
}

} // verus!

verus! {

/// `#AARRGGBB` with capital hexadecimal digits, as settings files write a colour.
pub open spec fn argb_text(c: Argb) -> Seq<char> {
    seq!['#'] + text::hex_digits(c.0 as nat, 8, true)
}

impl Argb {
    /// The colour as `#AARRGGBB`, the way it is written in a settings file.
    pub fn to_text(&self) -> (r: String)
        ensures
            r@ == argb_text(*self),
    {
        let mut s = String::new();
        text::push_char(&mut s, '#');
        text::push_hex(&mut s, self.0 as u64, 8, true);
        s
    }
}

} // verus!

verus! {

proof fn lemma_hex_digits_are_hex(v: nat, n: nat)
    ensures
        text::hex_digits(v, n, true).len() == n,
        forall|i: int| 0 <= i < n ==> is_hex_digit(#[trigger] text::hex_digits(v, n, true)[i])
            && !text::is_white_space(text::hex_digits(v, n, true)[i])
            && text::hex_digits(v, n, true)[i] != '#',
    decreases n,
{
    if n > 0 {
        lemma_hex_digits_are_hex(v / 16, (n - 1) as nat);
    }
}

proof fn lemma_hex_value_of_digits(v: nat, n: nat)
    ensures
        hex_value(text::hex_digits(v, n, true)) == v % pow16(n),
    decreases n,
{
    if n > 0 {
        lemma_hex_value_of_digits(v / 16, (n - 1) as nat);
        let s = text::hex_digits(v, n, true);
        assert(s.drop_last() == text::hex_digits(v / 16, (n - 1) as nat, true));
        let d = v % 16;
        assert(hex_digit_value(s.last()) == d);
        let p = pow16((n - 1) as nat);
        assert(p > 0) by {
            lemma_pow16_positive((n - 1) as nat);
        }
        vstd::arithmetic::div_mod::lemma_mod_breakdown(v as int, 16, p as int);
        assert((v / 16) % p * 16 + v % 16 == v % (16 * p));
    } else {
        assert(v % 1 == 0);
    }
}

proof fn lemma_pow16_positive(n: nat)
    ensures
        pow16(n) > 0,
    decreases n,
{
    if n > 0 {
        lemma_pow16_positive((n - 1) as nat);
    }
}

proof fn lemma_trim_keeps(s: Seq<char>)
    requires
        forall|i: int| 0 <= i < s.len() ==> !text::is_white_space(#[trigger] s[i]),
    ensures
        text::trim(s) == s,
{
    assert(text::trim_start(s) == s);
    assert(text::trim_end(s) == s);
}

/// A colour written out as `#AARRGGBB` reads back as the same colour.
pub proof fn lemma_colour_text_round_trip(c: Argb)
    ensures
        spec_parse_argb(argb_text(c)) == Some(c),
{
    let digits = text::hex_digits(c.0 as nat, 8, true);
    lemma_hex_digits_are_hex(c.0 as nat, 8);
    let t = argb_text(c);
    assert(t[0] == '#');
    assert forall|i: int| 0 <= i < t.len() implies !text::is_white_space(#[trigger] t[i]) by {
        if i > 0 {
            assert(t[i] == digits[i - 1]);
        }
    }
    lemma_trim_keeps(t);
    assert(t.drop_first() =~= digits);
    lemma_trim_keeps(digits);
    assert(colour_digits(t) == digits);
    lemma_hex_value_of_digits(c.0 as nat, 8);
    reveal_with_fuel(pow16, 9);
    assert(pow16(8) == 0x1_0000_0000);
}

/// Everything a sanitised name holds is a letter, a digit, a space, a hyphen or an
/// underscore, and it neither starts nor ends with white space.
pub proof fn lemma_sanitised_name_is_clean(written: Seq<char>)
    ensures
        forall|i: int| 0 <= i < sanitised(written).len() ==> name_char(#[trigger] sanitised(written)[i]),
{
    let kept = name_chars(text::trim(written));
    lemma_name_chars_clean(text::trim(written));
    text::lemma_trim_is_slice(kept);
}

proof fn lemma_name_chars_clean(s: Seq<char>)
    ensures
        forall|i: int| 0 <= i < name_chars(s).len() ==> name_char(#[trigger] name_chars(s)[i]),
    decreases s.len(),
{
    if s.len() > 0 {
        lemma_name_chars_clean(s.drop_last());
        let prev = name_chars(s.drop_last());
        if name_char(s.last()) {
            assert forall|i: int| 0 <= i < name_chars(s).len() implies name_char(#[trigger] name_chars(s)[i]) by {
                if i < prev.len() {
                    assert(name_chars(s)[i] == prev[i]);
                }
            }
        }
    }
}

} // verus!

verus! {

proof fn lemma_clean_names_are_kept(s: Seq<char>)
    requires
        forall|i: int| 0 <= i < s.len() ==> name_char(#[trigger] s[i]),
    ensures
        name_chars(s) == s,
    decreases s.len(),
{
    if s.len() > 0 {
        lemma_clean_names_are_kept(s.drop_last());
        assert(s.drop_last().push(s.last()) =~= s);
    }
}

/// A sanitised name is already trimmed, and sanitising it again changes nothing.
pub proof fn lemma_sanitising_twice_changes_nothing(written: Seq<char>)
    ensures
        text::trim(sanitised(written)) == sanitised(written),
        sanitised(sanitised(written)) == sanitised(written),
{
    let r = sanitised(written);
    text::lemma_trim_is_idempotent(name_chars(text::trim(written)));
    lemma_sanitised_name_is_clean(written);
    lemma_clean_names_are_kept(r);
}

} // verus!
