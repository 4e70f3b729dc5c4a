//! The settings' switches and numbers, by name, and the switches themselves.
//!
//! The numbers are floating-point and stay with the app; the library names them, and
//! holds the switches so that the menu, the keys and the quick bar flip the same ones.

use vstd::prelude::*;
use crate::text;

verus! {

/// Every switch in the settings, so the menu, the keys and the quick bar can name one
/// without a field of their own for each.
#[derive(Clone, Copy, Debug, PartialEq, Eq, Hash, Structural)]
pub enum Flag {
    ShowGrid,
    ShowLabels,
    ShowColourBar,
    ShowHud,
    ShowStatus,
    AdaptiveRange,
    SmoothTime,
    ShowMax,
    ShowMin,
    ShowAvg,
    SolidFill,
    CurveOnLeft,
    MirrorLeftPane,
    ShowDbScale,
    ShowTimeMarks,
    ShowSemitones,
    ShowOuterLabels,
    ShowAxisLabels,
    SyncHover,
    ShowHoverPin,
    ShowHarmonics,
    SeekOnImageClick,
    ShowOsd,
    ShowQuickButtons,
    QuickBarCompact,
    QuickBarSplit,
    ReserveScaleSpace,
    ShowScaleUnits,
    ShowCentreDeck,
    DeckGoniometer,
    DeckTransport,
    DeckArtwork,
    DeckTrackInfo,
    DeckCorrelation,
    DeckBalance,
    DeckLufsM,
    DeckLufsS,
    DeckTruePeak,
    DeckCrest,
    DeckLufsI,
    DeckLra,
    DeckOvers,
    DeckBpm,
    DeckBrightness,
    ShowWaveform,
    Immersive,
    Glow,
    AutoHide,
    Backdrop,
    BeatReactive,
    ColourFollows,
    Cinematic,
}

impl Default for Flag {
    fn default() -> (r: Flag)
        ensures
            r == Flag::ShowGrid,
    {
        Flag::ShowGrid
    }
}

impl Flag {
    /// Every value, in declaration order.
    pub const ALL: [Flag; 52] = [
        Flag::ShowGrid,
        Flag::ShowLabels,
        Flag::ShowColourBar,
        Flag::ShowHud,
        Flag::ShowStatus,
        Flag::AdaptiveRange,
        Flag::SmoothTime,
        Flag::ShowMax,
        Flag::ShowMin,
        Flag::ShowAvg,
        Flag::SolidFill,
        Flag::CurveOnLeft,
        Flag::MirrorLeftPane,
        Flag::ShowDbScale,
        Flag::ShowTimeMarks,
        Flag::ShowSemitones,
        Flag::ShowOuterLabels,
        Flag::ShowAxisLabels,
        Flag::SyncHover,
        Flag::ShowHoverPin,
        Flag::ShowHarmonics,
        Flag::SeekOnImageClick,
        Flag::ShowOsd,
        Flag::ShowQuickButtons,
        Flag::QuickBarCompact,
        Flag::QuickBarSplit,
        Flag::ReserveScaleSpace,
        Flag::ShowScaleUnits,
        Flag::ShowCentreDeck,
        Flag::DeckGoniometer,
        Flag::DeckTransport,
        Flag::DeckArtwork,
        Flag::DeckTrackInfo,
        Flag::DeckCorrelation,
        Flag::DeckBalance,
        Flag::DeckLufsM,
        Flag::DeckLufsS,
        Flag::DeckTruePeak,
        Flag::DeckCrest,
        Flag::DeckLufsI,
        Flag::DeckLra,
        Flag::DeckOvers,
        Flag::DeckBpm,
        Flag::DeckBrightness,
        Flag::ShowWaveform,
        Flag::Immersive,
        Flag::Glow,
        Flag::AutoHide,
        Flag::Backdrop,
        Flag::BeatReactive,
        Flag::ColourFollows,
        Flag::Cinematic,
    ];

    /// The name used in settings files.
    pub open spec fn spec_name(self) -> Seq<char> {
        match self {
            Flag::ShowGrid => "ShowGrid"@,
            Flag::ShowLabels => "ShowLabels"@,
            Flag::ShowColourBar => "ShowColourBar"@,
            Flag::ShowHud => "ShowHud"@,
            Flag::ShowStatus => "ShowStatus"@,
            Flag::AdaptiveRange => "AdaptiveRange"@,
            Flag::SmoothTime => "SmoothTime"@,
            Flag::ShowMax => "ShowMax"@,
            Flag::ShowMin => "ShowMin"@,
            Flag::ShowAvg => "ShowAvg"@,
            Flag::SolidFill => "SolidFill"@,
            Flag::CurveOnLeft => "CurveOnLeft"@,
            Flag::MirrorLeftPane => "MirrorLeftPane"@,
            Flag::ShowDbScale => "ShowDbScale"@,
            Flag::ShowTimeMarks => "ShowTimeMarks"@,
            Flag::ShowSemitones => "ShowSemitones"@,
            Flag::ShowOuterLabels => "ShowOuterLabels"@,
            Flag::ShowAxisLabels => "ShowAxisLabels"@,
            Flag::SyncHover => "SyncHover"@,
            Flag::ShowHoverPin => "ShowHoverPin"@,
            Flag::ShowHarmonics => "ShowHarmonics"@,
            Flag::SeekOnImageClick => "SeekOnImageClick"@,
            Flag::ShowOsd => "ShowOsd"@,
            Flag::ShowQuickButtons => "ShowQuickButtons"@,
            Flag::QuickBarCompact => "QuickBarCompact"@,
            Flag::QuickBarSplit => "QuickBarSplit"@,
            Flag::ReserveScaleSpace => "ReserveScaleSpace"@,
            Flag::ShowScaleUnits => "ShowScaleUnits"@,
            Flag::ShowCentreDeck => "ShowCentreDeck"@,
            Flag::DeckGoniometer => "DeckGoniometer"@,
            Flag::DeckTransport => "DeckTransport"@,
            Flag::DeckArtwork => "DeckArtwork"@,
            Flag::DeckTrackInfo => "DeckTrackInfo"@,
            Flag::DeckCorrelation => "DeckCorrelation"@,
            Flag::DeckBalance => "DeckBalance"@,
            Flag::DeckLufsM => "DeckLufsM"@,
            Flag::DeckLufsS => "DeckLufsS"@,
            Flag::DeckTruePeak => "DeckTruePeak"@,
            Flag::DeckCrest => "DeckCrest"@,
            Flag::DeckLufsI => "DeckLufsI"@,
            Flag::DeckLra => "DeckLra"@,
            Flag::DeckOvers => "DeckOvers"@,
            Flag::DeckBpm => "DeckBpm"@,
            Flag::DeckBrightness => "DeckBrightness"@,
            Flag::ShowWaveform => "ShowWaveform"@,
            Flag::Immersive => "Immersive"@,
            Flag::Glow => "Glow"@,
            Flag::AutoHide => "AutoHide"@,
            Flag::Backdrop => "Backdrop"@,
            Flag::BeatReactive => "BeatReactive"@,
            Flag::ColourFollows => "ColourFollows"@,
            Flag::Cinematic => "Cinematic"@,
        }
    }

    /// The value whose name `written` is, ignoring ASCII case.
    pub open spec fn spec_from_name(written: Seq<char>) -> Option<Flag> {
        if exists|v: Flag| text::eq_ignore_ascii_case(written, #[trigger] v.spec_name()) {
            Some(choose|v: Flag| text::eq_ignore_ascii_case(written, #[trigger] v.spec_name()))
        } else {
            None
        }
    }

    /// The name used in settings files.
    pub fn name(self) -> (r: &'static str)
        ensures
            r@ == self.spec_name(),
    {
        match self {
            Flag::ShowGrid => "ShowGrid",
            Flag::ShowLabels => "ShowLabels",
            Flag::ShowColourBar => "ShowColourBar",
            Flag::ShowHud => "ShowHud",
            Flag::ShowStatus => "ShowStatus",
            Flag::AdaptiveRange => "AdaptiveRange",
            Flag::SmoothTime => "SmoothTime",
            Flag::ShowMax => "ShowMax",
            Flag::ShowMin => "ShowMin",
            Flag::ShowAvg => "ShowAvg",
            Flag::SolidFill => "SolidFill",
            Flag::CurveOnLeft => "CurveOnLeft",
            Flag::MirrorLeftPane => "MirrorLeftPane",
            Flag::ShowDbScale => "ShowDbScale",
            Flag::ShowTimeMarks => "ShowTimeMarks",
            Flag::ShowSemitones => "ShowSemitones",
            Flag::ShowOuterLabels => "ShowOuterLabels",
            Flag::ShowAxisLabels => "ShowAxisLabels",
            Flag::SyncHover => "SyncHover",
            Flag::ShowHoverPin => "ShowHoverPin",
            Flag::ShowHarmonics => "ShowHarmonics",
            Flag::SeekOnImageClick => "SeekOnImageClick",
            Flag::ShowOsd => "ShowOsd",
            Flag::ShowQuickButtons => "ShowQuickButtons",
            Flag::QuickBarCompact => "QuickBarCompact",
            Flag::QuickBarSplit => "QuickBarSplit",
            Flag::ReserveScaleSpace => "ReserveScaleSpace",
            Flag::ShowScaleUnits => "ShowScaleUnits",
            Flag::ShowCentreDeck => "ShowCentreDeck",
            Flag::DeckGoniometer => "DeckGoniometer",
            Flag::DeckTransport => "DeckTransport",
            Flag::DeckArtwork => "DeckArtwork",
            Flag::DeckTrackInfo => "DeckTrackInfo",
            Flag::DeckCorrelation => "DeckCorrelation",
            Flag::DeckBalance => "DeckBalance",
            Flag::DeckLufsM => "DeckLufsM",
            Flag::DeckLufsS => "DeckLufsS",
            Flag::DeckTruePeak => "DeckTruePeak",
            Flag::DeckCrest => "DeckCrest",
            Flag::DeckLufsI => "DeckLufsI",
            Flag::DeckLra => "DeckLra",
            Flag::DeckOvers => "DeckOvers",
            Flag::DeckBpm => "DeckBpm",
            Flag::DeckBrightness => "DeckBrightness",
            Flag::ShowWaveform => "ShowWaveform",
            Flag::Immersive => "Immersive",
            Flag::Glow => "Glow",
            Flag::AutoHide => "AutoHide",
            Flag::Backdrop => "Backdrop",
            Flag::BeatReactive => "BeatReactive",
            Flag::ColourFollows => "ColourFollows",
            Flag::Cinematic => "Cinematic",
        }
    }

    /// Parses a name, ignoring ASCII case.
    pub fn from_name(name: &str) -> (r: Option<Flag>)
        ensures
            r == Flag::spec_from_name(name@),
    {
        let all = Flag::ALL;
        let mut i: usize = 0;
        while i < 52
            invariant
                all@ == seq![Flag::ShowGrid, Flag::ShowLabels, Flag::ShowColourBar, Flag::ShowHud, Flag::ShowStatus, Flag::AdaptiveRange, Flag::SmoothTime, Flag::ShowMax, Flag::ShowMin, Flag::ShowAvg, Flag::SolidFill, Flag::CurveOnLeft, Flag::MirrorLeftPane, Flag::ShowDbScale, Flag::ShowTimeMarks, Flag::ShowSemitones, Flag::ShowOuterLabels, Flag::ShowAxisLabels, Flag::SyncHover, Flag::ShowHoverPin, Flag::ShowHarmonics, Flag::SeekOnImageClick, Flag::ShowOsd, Flag::ShowQuickButtons, Flag::QuickBarCompact, Flag::QuickBarSplit, Flag::ReserveScaleSpace, Flag::ShowScaleUnits, Flag::ShowCentreDeck, Flag::DeckGoniometer, Flag::DeckTransport, Flag::DeckArtwork, Flag::DeckTrackInfo, Flag::DeckCorrelation, Flag::DeckBalance, Flag::DeckLufsM, Flag::DeckLufsS, Flag::DeckTruePeak, Flag::DeckCrest, Flag::DeckLufsI, Flag::DeckLra, Flag::DeckOvers, Flag::DeckBpm, Flag::DeckBrightness, Flag::ShowWaveform, Flag::Immersive, Flag::Glow, Flag::AutoHide, Flag::Backdrop, Flag::BeatReactive, Flag::ColourFollows, Flag::Cinematic],
                i <= 52,
                forall|j: int| 0 <= j < i ==> !text::eq_ignore_ascii_case(name@, #[trigger] all@[j].spec_name()),
            decreases 52 - i,
        {
            let v = all[i];
            if text::same_ignoring_ascii_case(name, v.name()) {
                proof {
                    let c = choose|u: Flag| text::eq_ignore_ascii_case(name@, #[trigger] u.spec_name());
                    text::lemma_eq_ignore_ascii_case_shared(name@, v.spec_name(), c.spec_name());
                    Flag::lemma_names_distinct();
                }
                return Some(v);
            }
            i = i + 1;
        }
        proof {
            assert forall|v: Flag| !text::eq_ignore_ascii_case(name@, #[trigger] v.spec_name()) by {
                match v {
                    Flag::ShowGrid => assert(all@[0] == v),
                    Flag::ShowLabels => assert(all@[1] == v),
                    Flag::ShowColourBar => assert(all@[2] == v),
                    Flag::ShowHud => assert(all@[3] == v),
                    Flag::ShowStatus => assert(all@[4] == v),
                    Flag::AdaptiveRange => assert(all@[5] == v),
                    Flag::SmoothTime => assert(all@[6] == v),
                    Flag::ShowMax => assert(all@[7] == v),
                    Flag::ShowMin => assert(all@[8] == v),
                    Flag::ShowAvg => assert(all@[9] == v),
                    Flag::SolidFill => assert(all@[10] == v),
                    Flag::CurveOnLeft => assert(all@[11] == v),
                    Flag::MirrorLeftPane => assert(all@[12] == v),
                    Flag::ShowDbScale => assert(all@[13] == v),
                    Flag::ShowTimeMarks => assert(all@[14] == v),
                    Flag::ShowSemitones => assert(all@[15] == v),
                    Flag::ShowOuterLabels => assert(all@[16] == v),
                    Flag::ShowAxisLabels => assert(all@[17] == v),
                    Flag::SyncHover => assert(all@[18] == v),
                    Flag::ShowHoverPin => assert(all@[19] == v),
                    Flag::ShowHarmonics => assert(all@[20] == v),
                    Flag::SeekOnImageClick => assert(all@[21] == v),
                    Flag::ShowOsd => assert(all@[22] == v),
                    Flag::ShowQuickButtons => assert(all@[23] == v),
                    Flag::QuickBarCompact => assert(all@[24] == v),
                    Flag::QuickBarSplit => assert(all@[25] == v),
                    Flag::ReserveScaleSpace => assert(all@[26] == v),
                    Flag::ShowScaleUnits => assert(all@[27] == v),
                    Flag::ShowCentreDeck => assert(all@[28] == v),
                    Flag::DeckGoniometer => assert(all@[29] == v),
                    Flag::DeckTransport => assert(all@[30] == v),
                    Flag::DeckArtwork => assert(all@[31] == v),
                    Flag::DeckTrackInfo => assert(all@[32] == v),
                    Flag::DeckCorrelation => assert(all@[33] == v),
                    Flag::DeckBalance => assert(all@[34] == v),
                    Flag::DeckLufsM => assert(all@[35] == v),
                    Flag::DeckLufsS => assert(all@[36] == v),
                    Flag::DeckTruePeak => assert(all@[37] == v),
                    Flag::DeckCrest => assert(all@[38] == v),
                    Flag::DeckLufsI => assert(all@[39] == v),
                    Flag::DeckLra => assert(all@[40] == v),
                    Flag::DeckOvers => assert(all@[41] == v),
                    Flag::DeckBpm => assert(all@[42] == v),
                    Flag::DeckBrightness => assert(all@[43] == v),
                    Flag::ShowWaveform => assert(all@[44] == v),
                    Flag::Immersive => assert(all@[45] == v),
                    Flag::Glow => assert(all@[46] == v),
                    Flag::AutoHide => assert(all@[47] == v),
                    Flag::Backdrop => assert(all@[48] == v),
                    Flag::BeatReactive => assert(all@[49] == v),
                    Flag::ColourFollows => assert(all@[50] == v),
                    Flag::Cinematic => assert(all@[51] == v),
                }
            }
        }
        None
    }

    /// No two values share a name, even ignoring case.
    #[verifier::rlimit(100)]
    #[verifier::spinoff_prover]
    pub proof fn lemma_names_distinct()
        ensures
            forall|a: Flag, b: Flag|
                text::eq_ignore_ascii_case(#[trigger] a.spec_name(), #[trigger] b.spec_name()) ==> a == b,
    {
        reveal_strlit("AdaptiveRange");
        reveal_strlit("AutoHide");
        reveal_strlit("Backdrop");
        reveal_strlit("BeatReactive");
        reveal_strlit("Cinematic");
        reveal_strlit("ColourFollows");
        reveal_strlit("CurveOnLeft");
        reveal_strlit("DeckArtwork");
        reveal_strlit("DeckBalance");
        reveal_strlit("DeckBpm");
        reveal_strlit("DeckBrightness");
        reveal_strlit("DeckCorrelation");
        reveal_strlit("DeckCrest");
        reveal_strlit("DeckGoniometer");
        reveal_strlit("DeckLra");
        reveal_strlit("DeckLufsI");
        reveal_strlit("DeckLufsM");
        reveal_strlit("DeckLufsS");
        reveal_strlit("DeckOvers");
        reveal_strlit("DeckTrackInfo");
        reveal_strlit("DeckTransport");
        reveal_strlit("DeckTruePeak");
        reveal_strlit("Glow");
        reveal_strlit("Immersive");
        reveal_strlit("MirrorLeftPane");
        reveal_strlit("QuickBarCompact");
        reveal_strlit("QuickBarSplit");
        reveal_strlit("ReserveScaleSpace");
        reveal_strlit("SeekOnImageClick");
        reveal_strlit("ShowAvg");
        reveal_strlit("ShowAxisLabels");
        reveal_strlit("ShowCentreDeck");
        reveal_strlit("ShowColourBar");
        reveal_strlit("ShowDbScale");
        reveal_strlit("ShowGrid");
        reveal_strlit("ShowHarmonics");
        reveal_strlit("ShowHoverPin");
        reveal_strlit("ShowHud");
        reveal_strlit("ShowLabels");
        reveal_strlit("ShowMax");
        reveal_strlit("ShowMin");
        reveal_strlit("ShowOsd");
        reveal_strlit("ShowOuterLabels");
        reveal_strlit("ShowQuickButtons");
        reveal_strlit("ShowScaleUnits");
        reveal_strlit("ShowSemitones");
        reveal_strlit("ShowStatus");
        reveal_strlit("ShowTimeMarks");
        reveal_strlit("ShowWaveform");
        reveal_strlit("SmoothTime");
        reveal_strlit("SolidFill");
        reveal_strlit("SyncHover");
        assert forall|a: Flag, b: Flag|
            text::eq_ignore_ascii_case(#[trigger] a.spec_name(), #[trigger] b.spec_name()) implies a == b by {
            if a != b {
                let (x, y) = (a.spec_name(), b.spec_name());
                if x.len() == y.len() {
                    assert(text::ascii_lower(x[0]) != text::ascii_lower(y[0]) || text::ascii_lower(x[1]) != text::ascii_lower(y[1]) || text::ascii_lower(x[2]) != text::ascii_lower(y[2]) || text::ascii_lower(x[3]) != text::ascii_lower(y[3]) || text::ascii_lower(x[4]) != text::ascii_lower(y[4]) || text::ascii_lower(x[5]) != text::ascii_lower(y[5]) || text::ascii_lower(x[6]) != text::ascii_lower(y[6]) || text::ascii_lower(x[7]) != text::ascii_lower(y[7]) || text::ascii_lower(x[8]) != text::ascii_lower(y[8]));
                }
            }
        }
    }

    /// A value's own name, in any ASCII case, reads back as that value.
    pub proof fn lemma_name_round_trip(v: Flag, written: Seq<char>)
        requires
            text::eq_ignore_ascii_case(written, v.spec_name()),
        ensures
            Flag::spec_from_name(written) == Some(v),
    {
        let c = choose|u: Flag| text::eq_ignore_ascii_case(written, #[trigger] u.spec_name());
        text::lemma_eq_ignore_ascii_case_shared(written, v.spec_name(), c.spec_name());
        Flag::lemma_names_distinct();
    }
}

/// Every setting that is a number rather than a switch or a choice.
#[derive(Clone, Copy, Debug, PartialEq, Eq, Hash, Structural)]
pub enum Number {
    Fmin,
    Fmax,
    Tilt,
    FloorDb,
    CeilingDb,
    Contrast,
    AttackMs,
    ReleaseMs,
    PeakDecay,
    AverageSeconds,
    RowsPerSecond,
    PxPerRow,
    CurveWidthPct,
    WaveHeightPct,
    DeckHeightPx,
    GutterWidth,
    BarSize,
    LedSegment,
    LabelFontSize,
    BackdropPct,
    ColourFollowDegrees,
}

impl Default for Number {
    fn default() -> (r: Number)
        ensures
            r == Number::RowsPerSecond,
    {
        Number::RowsPerSecond
    }
}

impl Number {
    /// Every value, in declaration order.
    pub const ALL: [Number; 21] = [
        Number::Fmin,
        Number::Fmax,
        Number::Tilt,
        Number::FloorDb,
        Number::CeilingDb,
        Number::Contrast,
        Number::AttackMs,
        Number::ReleaseMs,
        Number::PeakDecay,
        Number::AverageSeconds,
        Number::RowsPerSecond,
        Number::PxPerRow,
        Number::CurveWidthPct,
        Number::WaveHeightPct,
        Number::DeckHeightPx,
        Number::GutterWidth,
        Number::BarSize,
        Number::LedSegment,
        Number::LabelFontSize,
        Number::BackdropPct,
        Number::ColourFollowDegrees,
    ];

    /// The name used in settings files.
    pub open spec fn spec_name(self) -> Seq<char> {
        match self {
            Number::Fmin => "Fmin"@,
            Number::Fmax => "Fmax"@,
            Number::Tilt => "Tilt"@,
            Number::FloorDb => "FloorDb"@,
            Number::CeilingDb => "CeilingDb"@,
            Number::Contrast => "Contrast"@,
            Number::AttackMs => "AttackMs"@,
            Number::ReleaseMs => "ReleaseMs"@,
            Number::PeakDecay => "PeakDecay"@,
            Number::AverageSeconds => "AverageSeconds"@,
            Number::RowsPerSecond => "RowsPerSecond"@,
            Number::PxPerRow => "PxPerRow"@,
            Number::CurveWidthPct => "CurveWidthPct"@,
            Number::WaveHeightPct => "WaveHeightPct"@,
            Number::DeckHeightPx => "DeckHeightPx"@,
            Number::GutterWidth => "GutterWidth"@,
            Number::BarSize => "BarSize"@,
            Number::LedSegment => "LedSegment"@,
            Number::LabelFontSize => "LabelFontSize"@,
            Number::BackdropPct => "BackdropPct"@,
            Number::ColourFollowDegrees => "ColourFollowDegrees"@,
        }
    }

    /// The value whose name `written` is, ignoring ASCII case.
    pub open spec fn spec_from_name(written: Seq<char>) -> Option<Number> {
        if exists|v: Number| text::eq_ignore_ascii_case(written, #[trigger] v.spec_name()) {
            Some(choose|v: Number| text::eq_ignore_ascii_case(written, #[trigger] v.spec_name()))
        } else {
            None
        }
    }

    /// The name used in settings files.
    pub fn name(self) -> (r: &'static str)
        ensures
            r@ == self.spec_name(),
    {
        match self {
            Number::Fmin => "Fmin",
            Number::Fmax => "Fmax",
            Number::Tilt => "Tilt",
            Number::FloorDb => "FloorDb",
            Number::CeilingDb => "CeilingDb",
            Number::Contrast => "Contrast",
            Number::AttackMs => "AttackMs",
            Number::ReleaseMs => "ReleaseMs",
            Number::PeakDecay => "PeakDecay",
            Number::AverageSeconds => "AverageSeconds",
            Number::RowsPerSecond => "RowsPerSecond",
            Number::PxPerRow => "PxPerRow",
            Number::CurveWidthPct => "CurveWidthPct",
            Number::WaveHeightPct => "WaveHeightPct",
            Number::DeckHeightPx => "DeckHeightPx",
            Number::GutterWidth => "GutterWidth",
            Number::BarSize => "BarSize",
            Number::LedSegment => "LedSegment",
            Number::LabelFontSize => "LabelFontSize",
            Number::BackdropPct => "BackdropPct",
            Number::ColourFollowDegrees => "ColourFollowDegrees",
        }
    }

    /// Parses a name, ignoring ASCII case.
    pub fn from_name(name: &str) -> (r: Option<Number>)
        ensures
            r == Number::spec_from_name(name@),
    {
        let all = Number::ALL;
        let mut i: usize = 0;
        while i < 21
            invariant
                all@ == seq![Number::Fmin, Number::Fmax, Number::Tilt, Number::FloorDb, Number::CeilingDb, Number::Contrast, Number::AttackMs, Number::ReleaseMs, Number::PeakDecay, Number::AverageSeconds, Number::RowsPerSecond, Number::PxPerRow, Number::CurveWidthPct, Number::WaveHeightPct, Number::DeckHeightPx, Number::GutterWidth, Number::BarSize, Number::LedSegment, Number::LabelFontSize, Number::BackdropPct, Number::ColourFollowDegrees],
                i <= 21,
                forall|j: int| 0 <= j < i ==> !text::eq_ignore_ascii_case(name@, #[trigger] all@[j].spec_name()),
            decreases 21 - i,
        {
            let v = all[i];
            if text::same_ignoring_ascii_case(name, v.name()) {
                proof {
                    let c = choose|u: Number| text::eq_ignore_ascii_case(name@, #[trigger] u.spec_name());
                    text::lemma_eq_ignore_ascii_case_shared(name@, v.spec_name(), c.spec_name());
                    Number::lemma_names_distinct();
                }
                return Some(v);
            }
            i = i + 1;
        }
        proof {
            assert forall|v: Number| !text::eq_ignore_ascii_case(name@, #[trigger] v.spec_name()) by {
                match v {
                    Number::Fmin => assert(all@[0] == v),
                    Number::Fmax => assert(all@[1] == v),
                    Number::Tilt => assert(all@[2] == v),
                    Number::FloorDb => assert(all@[3] == v),
                    Number::CeilingDb => assert(all@[4] == v),
                    Number::Contrast => assert(all@[5] == v),
                    Number::AttackMs => assert(all@[6] == v),
                    Number::ReleaseMs => assert(all@[7] == v),
                    Number::PeakDecay => assert(all@[8] == v),
                    Number::AverageSeconds => assert(all@[9] == v),
                    Number::RowsPerSecond => assert(all@[10] == v),
                    Number::PxPerRow => assert(all@[11] == v),
                    Number::CurveWidthPct => assert(all@[12] == v),
                    Number::WaveHeightPct => assert(all@[13] == v),
                    Number::DeckHeightPx => assert(all@[14] == v),
                    Number::GutterWidth => assert(all@[15] == v),
                    Number::BarSize => assert(all@[16] == v),
                    Number::LedSegment => assert(all@[17] == v),
                    Number::LabelFontSize => assert(all@[18] == v),
                    Number::BackdropPct => assert(all@[19] == v),
                    Number::ColourFollowDegrees => assert(all@[20] == v),
                }
            }
        }
        None
    }

    /// No two values share a name, even ignoring case.
    #[verifier::rlimit(100)]
    #[verifier::spinoff_prover]
    pub proof fn lemma_names_distinct()
        ensures
            forall|a: Number, b: Number|
                text::eq_ignore_ascii_case(#[trigger] a.spec_name(), #[trigger] b.spec_name()) ==> a == b,
    {
        reveal_strlit("AttackMs");
        reveal_strlit("AverageSeconds");
        reveal_strlit("BackdropPct");
        reveal_strlit("BarSize");
        reveal_strlit("CeilingDb");
        reveal_strlit("ColourFollowDegrees");
        reveal_strlit("Contrast");
        reveal_strlit("CurveWidthPct");
        reveal_strlit("DeckHeightPx");
        reveal_strlit("FloorDb");
        reveal_strlit("Fmax");
        reveal_strlit("Fmin");
        reveal_strlit("GutterWidth");
        reveal_strlit("LabelFontSize");
        reveal_strlit("LedSegment");
        reveal_strlit("PeakDecay");
        reveal_strlit("PxPerRow");
        reveal_strlit("ReleaseMs");
        reveal_strlit("RowsPerSecond");
        reveal_strlit("Tilt");
        reveal_strlit("WaveHeightPct");
        assert forall|a: Number, b: Number|
            text::eq_ignore_ascii_case(#[trigger] a.spec_name(), #[trigger] b.spec_name()) implies a == b by {
            if a != b {
                let (x, y) = (a.spec_name(), b.spec_name());
                if x.len() == y.len() {
                    assert(text::ascii_lower(x[0]) != text::ascii_lower(y[0]) || text::ascii_lower(x[1]) != text::ascii_lower(y[1]) || text::ascii_lower(x[2]) != text::ascii_lower(y[2]));
                }
            }
        }
    }

    /// A value's own name, in any ASCII case, reads back as that value.
    pub proof fn lemma_name_round_trip(v: Number, written: Seq<char>)
        requires
            text::eq_ignore_ascii_case(written, v.spec_name()),
        ensures
            Number::spec_from_name(written) == Some(v),
    {
        let c = choose|u: Number| text::eq_ignore_ascii_case(written, #[trigger] u.spec_name());
        text::lemma_eq_ignore_ascii_case_shared(written, v.spec_name(), c.spec_name());
        Number::lemma_names_distinct();
    }
}

} // verus!
verus! {

impl Flag {
    /// Where the switch sits among [`Flag::ALL`].
    pub open spec fn spec_index(self) -> int {
        match self {
            Flag::ShowGrid => 0,
            Flag::ShowLabels => 1,
            Flag::ShowColourBar => 2,
            Flag::ShowHud => 3,
            Flag::ShowStatus => 4,
            Flag::AdaptiveRange => 5,
            Flag::SmoothTime => 6,
            Flag::ShowMax => 7,
            Flag::ShowMin => 8,
            Flag::ShowAvg => 9,
            Flag::SolidFill => 10,
            Flag::CurveOnLeft => 11,
            Flag::MirrorLeftPane => 12,
            Flag::ShowDbScale => 13,
            Flag::ShowTimeMarks => 14,
            Flag::ShowSemitones => 15,
            Flag::ShowOuterLabels => 16,
            Flag::ShowAxisLabels => 17,
            Flag::SyncHover => 18,
            Flag::ShowHoverPin => 19,
            Flag::ShowHarmonics => 20,
            Flag::SeekOnImageClick => 21,
            Flag::ShowOsd => 22,
            Flag::ShowQuickButtons => 23,
            Flag::QuickBarCompact => 24,
            Flag::QuickBarSplit => 25,
            Flag::ReserveScaleSpace => 26,
            Flag::ShowScaleUnits => 27,
            Flag::ShowCentreDeck => 28,
            Flag::DeckGoniometer => 29,
            Flag::DeckTransport => 30,
            Flag::DeckArtwork => 31,
            Flag::DeckTrackInfo => 32,
            Flag::DeckCorrelation => 33,
            Flag::DeckBalance => 34,
            Flag::DeckLufsM => 35,
            Flag::DeckLufsS => 36,
            Flag::DeckTruePeak => 37,
            Flag::DeckCrest => 38,
            Flag::DeckLufsI => 39,
            Flag::DeckLra => 40,
            Flag::DeckOvers => 41,
            Flag::DeckBpm => 42,
            Flag::DeckBrightness => 43,
            Flag::ShowWaveform => 44,
            Flag::Immersive => 45,
            Flag::Glow => 46,
            Flag::AutoHide => 47,
            Flag::Backdrop => 48,
            Flag::BeatReactive => 49,
            Flag::ColourFollows => 50,
            Flag::Cinematic => 51,
        }
    }

    /// Where the switch sits among [`Flag::ALL`].
    pub fn index(self) -> (r: usize)
        ensures
            r == self.spec_index(),
    {
        match self {
            Flag::ShowGrid => 0,
            Flag::ShowLabels => 1,
            Flag::ShowColourBar => 2,
            Flag::ShowHud => 3,
            Flag::ShowStatus => 4,
            Flag::AdaptiveRange => 5,
            Flag::SmoothTime => 6,
            Flag::ShowMax => 7,
            Flag::ShowMin => 8,
            Flag::ShowAvg => 9,
            Flag::SolidFill => 10,
            Flag::CurveOnLeft => 11,
            Flag::MirrorLeftPane => 12,
            Flag::ShowDbScale => 13,
            Flag::ShowTimeMarks => 14,
            Flag::ShowSemitones => 15,
            Flag::ShowOuterLabels => 16,
            Flag::ShowAxisLabels => 17,
            Flag::SyncHover => 18,
            Flag::ShowHoverPin => 19,
            Flag::ShowHarmonics => 20,
            Flag::SeekOnImageClick => 21,
            Flag::ShowOsd => 22,
            Flag::ShowQuickButtons => 23,
            Flag::QuickBarCompact => 24,
            Flag::QuickBarSplit => 25,
            Flag::ReserveScaleSpace => 26,
            Flag::ShowScaleUnits => 27,
            Flag::ShowCentreDeck => 28,
            Flag::DeckGoniometer => 29,
            Flag::DeckTransport => 30,
            Flag::DeckArtwork => 31,
            Flag::DeckTrackInfo => 32,
            Flag::DeckCorrelation => 33,
            Flag::DeckBalance => 34,
            Flag::DeckLufsM => 35,
            Flag::DeckLufsS => 36,
            Flag::DeckTruePeak => 37,
            Flag::DeckCrest => 38,
            Flag::DeckLufsI => 39,
            Flag::DeckLra => 40,
            Flag::DeckOvers => 41,
            Flag::DeckBpm => 42,
            Flag::DeckBrightness => 43,
            Flag::ShowWaveform => 44,
            Flag::Immersive => 45,
            Flag::Glow => 46,
            Flag::AutoHide => 47,
            Flag::Backdrop => 48,
            Flag::BeatReactive => 49,
            Flag::ColourFollows => 50,
            Flag::Cinematic => 51,
        }
    }

    /// Each switch is found at its own index, so no two switches share one.
    pub proof fn lemma_index_finds_the_flag(f: Flag)
        ensures
            0 <= f.spec_index() < 52,
            Flag::ALL@[f.spec_index()] == f,
    {
        assert(Flag::ALL@ == seq![Flag::ShowGrid, Flag::ShowLabels, Flag::ShowColourBar, Flag::ShowHud, Flag::ShowStatus, Flag::AdaptiveRange, Flag::SmoothTime, Flag::ShowMax, Flag::ShowMin, Flag::ShowAvg, Flag::SolidFill, Flag::CurveOnLeft, Flag::MirrorLeftPane, Flag::ShowDbScale, Flag::ShowTimeMarks, Flag::ShowSemitones, Flag::ShowOuterLabels, Flag::ShowAxisLabels, Flag::SyncHover, Flag::ShowHoverPin, Flag::ShowHarmonics, Flag::SeekOnImageClick, Flag::ShowOsd, Flag::ShowQuickButtons, Flag::QuickBarCompact, Flag::QuickBarSplit, Flag::ReserveScaleSpace, Flag::ShowScaleUnits, Flag::ShowCentreDeck, Flag::DeckGoniometer, Flag::DeckTransport, Flag::DeckArtwork, Flag::DeckTrackInfo, Flag::DeckCorrelation, Flag::DeckBalance, Flag::DeckLufsM, Flag::DeckLufsS, Flag::DeckTruePeak, Flag::DeckCrest, Flag::DeckLufsI, Flag::DeckLra, Flag::DeckOvers, Flag::DeckBpm, Flag::DeckBrightness, Flag::ShowWaveform, Flag::Immersive, Flag::Glow, Flag::AutoHide, Flag::Backdrop, Flag::BeatReactive, Flag::ColourFollows, Flag::Cinematic]);
    }
}

/// Each switch as the app ships it, in the order of [`Flag::ALL`].
pub open spec fn shipped() -> Seq<bool> {
    seq![true, true, true, true, true, true, false, true, false, false, true, true, false, true, true, true, true, true, true, true, false, true, true, true, false, true, true, true, true, true, true, true, true, true, true, true, true, true, true, true, true, true, true, true, true, false, true, true, true, true, true, false]
}

/// The settings' switches, one for each [`Flag`].
pub struct Switches {
    on: Vec<bool>,
}

impl View for Switches {
    /// Each switch, in the order of [`Flag::ALL`].
    type V = Seq<bool>;

    closed spec fn view(&self) -> Seq<bool> {
        self.on@
    }
}

impl Default for Switches {
    /// Each switch as the app ships it.
    fn default() -> (r: Switches)
        ensures
            r@ == shipped(),
            r@.len() == 52,
    {
        Switches { on: vec![true, true, true, true, true, true, false, true, false, false, true, true, false, true, true, true, true, true, true, true, false, true, true, true, false, true, true, true, true, true, true, true, true, true, true, true, true, true, true, true, true, true, true, true, true, false, true, true, true, true, true, false] }
    }
}

impl Switches {
    #[verifier::type_invariant]
    spec fn one_per_flag(self) -> bool {
        self.on.len() == 52
    }

    /// Switches holding `on`, in the order of [`Flag::ALL`].
    pub(crate) fn from_values(on: Vec<bool>) -> (r: Switches)
        requires
            on@.len() == 52,
        ensures
            r@ == on@,
    {
        Switches { on }
    }

    /// Whether `flag` is on.
    pub open spec fn is_on(self, flag: Flag) -> bool {
        self@[flag.spec_index()]
    }

    pub fn flag(&self, flag: Flag) -> (r: bool)
        ensures
            r == self.is_on(flag),
            self@.len() == 52,
    {
        proof {
            use_type_invariant(self);
            Flag::lemma_index_finds_the_flag(flag);
        }
        self.on[flag.index()]
    }

    pub fn set_flag(&mut self, flag: Flag, on: bool)
        ensures
            final(self)@ == old(self)@.update(flag.spec_index(), on),
            old(self)@.len() == 52,
            final(self)@.len() == 52,
            final(self).is_on(flag) == on,
            forall|g: Flag| g != flag ==> #[trigger] final(self).is_on(g) == old(self).is_on(g),
    {
        proof {
            use_type_invariant(&*self);
            Flag::lemma_index_finds_the_flag(flag);
        }
        let i = flag.index();
        let mut v = self.on.clone();
        v.set(i, on);
        self.on = v;
        proof {
            assert forall|g: Flag| g != flag implies #[trigger] self.is_on(g) == old(self).is_on(g) by {
                Flag::lemma_index_finds_the_flag(g);
            }
        }
    }

    /// Flips `flag` and says what it is now.
    pub fn toggle(&mut self, flag: Flag) -> (r: bool)
        ensures
            r == !old(self).is_on(flag),
            final(self)@ == old(self)@.update(flag.spec_index(), r),
            old(self)@.len() == 52,
            final(self)@.len() == 52,
            final(self).is_on(flag) == r,
            forall|g: Flag| g != flag ==> #[trigger] final(self).is_on(g) == old(self).is_on(g),
    {
        let on = !self.flag(flag);
        self.set_flag(flag, on);
        on
    }
}

/// Whether `flag` is on as the app ships it.
pub open spec fn shipped_on(flag: Flag) -> bool {
    shipped()[flag.spec_index()]
}

/// Setting a switch changes that switch, to what it was set to, and no other.
pub proof fn lemma_set_flag_touches_only_its_switch(s: Seq<bool>, flag: Flag, on: bool, other: Flag)
    requires
        s.len() == 52,
    ensures
        s.update(flag.spec_index(), on)[flag.spec_index()] == on,
        other != flag ==> s.update(flag.spec_index(), on)[other.spec_index()] == s[other.spec_index()],
{
    Flag::lemma_index_finds_the_flag(flag);
    Flag::lemma_index_finds_the_flag(other);
}

/// Toggling a switch twice leaves every switch as it was.
pub proof fn lemma_toggle_twice(s: Seq<bool>, flag: Flag)
    requires
        s.len() == 52,
    ensures
        s.update(flag.spec_index(), !s[flag.spec_index()]).update(flag.spec_index(), s[flag.spec_index()]) == s,
{
    Flag::lemma_index_finds_the_flag(flag);
    assert(s.update(flag.spec_index(), !s[flag.spec_index()]).update(flag.spec_index(), s[flag.spec_index()]) =~= s);
}

} // verus!
