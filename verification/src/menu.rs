//! The menu model: what capture listens to, how frames reach the screen, the choices a
//! radio item offers and what each reads as, the effects the app carries out, the
//! session state the menu reads and writes, and what a preset sets.
//!
//! The menu is one tree of [`Item`]s that the menu, the keyboard and the help search
//! all read: [`tree`] builds it from the state in a [`Context`], [`action_for_key`]
//! looks a keypress up in it, and [`search`] flattens it for the help window, so a
//! shortcut or a help line cannot drift away from its item. The values of a number
//! are floating point, so a number item names its [`Number`] and the app draws its
//! slider and its named values.

use vstd::prelude::*;
use crate::dsp::analyzer::{AnalysisQuality, BandAggregate, ChannelPairMode};
use crate::dsp::curve::{CurveInterpolation, FilteringAmount};
use crate::dsp::frequency_map::FreqScale;
use crate::dsp::window::WindowType;
use crate::media::{Follow, Transport};
use crate::palette::PaletteKind;
use crate::text;
use crate::settings::{AxisLabelMode, CurveStyle, FrameCap, GraphBackground, Preset, ScaleLanePosition};
use crate::switches::{Flag, Number, Switches};
use crate::media::{Controls, Player};

verus! {

/// What capture listens to.
#[derive(Clone, Copy, Debug, PartialEq, Eq, Structural)]
pub enum Capture {
    /// Whatever the followed player is playing through, falling back to the whole mix
    /// when there is no player to follow.
    FollowPlayer,
    /// Everything the machine is playing, whoever is playing it.
    WholeSystem,
}

impl Default for Capture {
    fn default() -> (c: Capture)
        ensures
            c == Capture::FollowPlayer,
    {
        Capture::FollowPlayer
    }
}

impl Capture {
    pub const ALL: [Capture; 2] = [Capture::FollowPlayer, Capture::WholeSystem];

    pub open spec fn spec_label(self) -> Seq<char> {
        match self {
            Capture::FollowPlayer => "Following the player"@,
            Capture::WholeSystem => "Everything the system plays"@,
        }
    }

    pub fn label(self) -> (r: &'static str)
        ensures
            r@ == self.spec_label(),
    {
        match self {
            Capture::FollowPlayer => "Following the player",
            Capture::WholeSystem => "Everything the system plays",
        }
    }
}

/// How finished frames reach the screen. The app maps these onto the backend's own
/// present modes; the model only needs to name them.
#[derive(Clone, Copy, Debug, PartialEq, Eq, Structural)]
pub enum Presentation {
    /// Queue every frame for the next refresh. No tearing, and the frame rate is the
    /// refresh rate.
    EveryRefresh,
    /// Keep only the newest frame in the queue: no tearing, and the latest picture.
    Newest,
    /// Present immediately, tearing included.
    Immediate,
}

impl Default for Presentation {
    fn default() -> (p: Presentation)
        ensures
            p == Presentation::EveryRefresh,
    {
        Presentation::EveryRefresh
    }
}

impl Presentation {
    pub const ALL: [Presentation; 3] = [
        Presentation::EveryRefresh,
        Presentation::Newest,
        Presentation::Immediate,
    ];

    pub open spec fn spec_label(self) -> Seq<char> {
        match self {
            Presentation::EveryRefresh => "Every refresh"@,
            Presentation::Newest => "Newest frame"@,
            Presentation::Immediate => "Immediate"@,
        }
    }

    pub fn label(self) -> (r: &'static str)
        ensures
            r@ == self.spec_label(),
    {
        match self {
            Presentation::EveryRefresh => "Every refresh",
            Presentation::Newest => "Newest frame",
            Presentation::Immediate => "Immediate",
        }
    }
}

/// One of the settings that takes a value from a fixed list.
///
/// Every variant holds the value it would set, so a radio item is one `Choice` and the
/// model can both apply it and say whether it is the current one.
#[derive(Clone, Copy, Debug, PartialEq, Eq, Structural)]
pub enum Choice {
    Palette(PaletteKind),
    Scale(FreqScale),
    Pair(ChannelPairMode),
    Style(CurveStyle),
    Interp(CurveInterpolation),
    Filter(FilteringAmount),
    Quality(AnalysisQuality),
    Window(WindowType),
    Aggregate(BandAggregate),
    Background(GraphBackground),
    Labels(AxisLabelMode),
    ScaleLane(ScaleLanePosition),
    Cap(FrameCap),
}

/// What a choice reads as in a menu.
pub open spec fn choice_label(c: Choice) -> Seq<char> {
    match c {
        Choice::Palette(p) => p.spec_display_name(),
        Choice::Scale(x) => match x {
            FreqScale::Note => "Notes"@,
            FreqScale::Log => "Logarithmic"@,
            FreqScale::Linear => "Linear"@,
        },
        Choice::Pair(x) => match x {
            ChannelPairMode::LeftRight => "Left and right"@,
            ChannelPairMode::MidSide => "Mid and side"@,
            ChannelPairMode::LeftOnly => "Left only"@,
            ChannelPairMode::RightOnly => "Right only"@,
        },
        Choice::Style(x) => match x {
            CurveStyle::Line => "Line"@,
            CurveStyle::Bars => "Bars"@,
            CurveStyle::Led => "LED"@,
        },
        Choice::Interp(x) => match x {
            CurveInterpolation::PeakFlat => "Flat peaks"@,
            CurveInterpolation::LinearSmooth => "Linear smooth"@,
            CurveInterpolation::CubicSpline => "Cubic spline"@,
        },
        Choice::Filter(x) => match x {
            FilteringAmount::Off => "None"@,
            FilteringAmount::Light => "Light"@,
            FilteringAmount::Medium => "Medium"@,
            FilteringAmount::Strong => "Strong"@,
        },
        Choice::Quality(x) => match x {
            AnalysisQuality::Fast => "Fast"@,
            AnalysisQuality::Balanced => "Balanced"@,
            AnalysisQuality::High => "High"@,
            AnalysisQuality::LowLatency => "Low latency"@,
        },
        Choice::Window(x) => match x {
            WindowType::Hann => "Hann"@,
            WindowType::Hamming => "Hamming"@,
            WindowType::BlackmanHarris => "Blackman-Harris"@,
            WindowType::Nuttall => "Nuttall"@,
            WindowType::Gaussian => "Gaussian"@,
            WindowType::Rectangular => "Rectangular"@,
        },
        Choice::Aggregate(x) => match x {
            BandAggregate::Peak => "Peak"@,
            BandAggregate::Energy => "Energy"@,
        },
        Choice::Background(x) => match x {
            GraphBackground::Plain => "Plain"@,
            GraphBackground::Lines => "Lines"@,
            GraphBackground::Grid => "Grid"@,
            GraphBackground::Chessboard => "Chessboard"@,
        },
        Choice::Labels(x) => match x {
            AxisLabelMode::Notes => "Notes"@,
            AxisLabelMode::Frequency => "Frequency"@,
            AxisLabelMode::Both => "Both"@,
        },
        Choice::ScaleLane(x) => match x {
            ScaleLanePosition::Top => "Top"@,
            ScaleLanePosition::Bottom => "Bottom"@,
        },
        Choice::Cap(x) => match x {
            FrameCap::Display => "Every refresh"@,
            FrameCap::Fps60 => "60 a second"@,
            FrameCap::Fps30 => "30 a second"@,
        },
    }
}

impl Choice {
    /// What this reads as in a menu.
    pub fn label(self) -> (r: &'static str)
        ensures
            r@ == choice_label(self),
    {
        match self {
            Choice::Palette(p) => p.display_name(),
            Choice::Scale(x) => match x {
                FreqScale::Note => "Notes",
                FreqScale::Log => "Logarithmic",
                FreqScale::Linear => "Linear",
            },
            Choice::Pair(x) => match x {
                ChannelPairMode::LeftRight => "Left and right",
                ChannelPairMode::MidSide => "Mid and side",
                ChannelPairMode::LeftOnly => "Left only",
                ChannelPairMode::RightOnly => "Right only",
            },
            Choice::Style(x) => match x {
                CurveStyle::Line => "Line",
                CurveStyle::Bars => "Bars",
                CurveStyle::Led => "LED",
            },
            Choice::Interp(x) => match x {
                CurveInterpolation::PeakFlat => "Flat peaks",
                CurveInterpolation::LinearSmooth => "Linear smooth",
                CurveInterpolation::CubicSpline => "Cubic spline",
            },
            Choice::Filter(x) => match x {
                FilteringAmount::Off => "None",
                FilteringAmount::Light => "Light",
                FilteringAmount::Medium => "Medium",
                FilteringAmount::Strong => "Strong",
            },
            Choice::Quality(x) => match x {
                AnalysisQuality::Fast => "Fast",
                AnalysisQuality::Balanced => "Balanced",
                AnalysisQuality::High => "High",
                AnalysisQuality::LowLatency => "Low latency",
            },
            Choice::Window(x) => match x {
                WindowType::Hann => "Hann",
                WindowType::Hamming => "Hamming",
                WindowType::BlackmanHarris => "Blackman-Harris",
                WindowType::Nuttall => "Nuttall",
                WindowType::Gaussian => "Gaussian",
                WindowType::Rectangular => "Rectangular",
            },
            Choice::Aggregate(x) => match x {
                BandAggregate::Peak => "Peak",
                BandAggregate::Energy => "Energy",
            },
            Choice::Background(x) => match x {
                GraphBackground::Plain => "Plain",
                GraphBackground::Lines => "Lines",
                GraphBackground::Grid => "Grid",
                GraphBackground::Chessboard => "Chessboard",
            },
            Choice::Labels(x) => match x {
                AxisLabelMode::Notes => "Notes",
                AxisLabelMode::Frequency => "Frequency",
                AxisLabelMode::Both => "Both",
            },
            Choice::ScaleLane(x) => match x {
                ScaleLanePosition::Top => "Top",
                ScaleLanePosition::Bottom => "Bottom",
            },
            Choice::Cap(x) => match x {
                FrameCap::Display => "Every refresh",
                FrameCap::Fps60 => "60 a second",
                FrameCap::Fps30 => "30 a second",
            },
        }
    }
}

/// Something the app has to carry out, because the model cannot reach the settings
/// folder itself.
#[derive(Clone, Debug, PartialEq, Eq)]
pub enum Effect {
    LoadPreset(String),
    /// Open the name dialog; the app saves once it is answered.
    SavePreset,
    DeletePreset(String),
}

/// The state the menu reads and writes that isn't a saved setting.
#[derive(Clone, Debug, PartialEq)]
pub struct Session {
    pub frozen: bool,
    /// Whether the image is parked somewhere in the history rather than on now, so the
    /// menu and the quick bar can offer the way back. The app owns where it is looking
    /// and sets this; nothing in here writes it.
    pub parked: bool,
    /// Set when the image should go back to now. The app takes it each frame, the way
    /// it takes `command`, and puts the view and the zoom back itself.
    pub go_live: bool,
    pub fullscreen: bool,
    /// Whether an amber reference spectrum is being held.
    pub reference: bool,
    pub help: bool,
    pub quit: bool,
    pub capture: Capture,
    pub follow: Follow,
    pub presentation: Presentation,
    /// What the menu or a deck button asked the player to do, taken by the app each
    /// frame.
    pub command: Option<Transport>,
}

impl Default for Session {
    /// Nothing frozen, parked, asked for or open; capture following the player.
    fn default() -> (s: Session)
        ensures
            !s.frozen && !s.parked && !s.go_live && !s.fullscreen && !s.reference && !s.help && !s.quit,
            s.capture == Capture::FollowPlayer,
            s.follow == Follow::Whichever,
            s.presentation == Presentation::EveryRefresh,
            s.command is None,
    {
        Session {
            frozen: false,
            parked: false,
            go_live: false,
            fullscreen: false,
            reference: false,
            help: false,
            quit: false,
            capture: Capture::default(),
            follow: Follow::default(),
            presentation: Presentation::default(),
            command: None,
        }
    }
}

} // verus!

verus! {

/// The settings a [`Choice`] reads and writes: the value each kind of choice holds now.
#[derive(Clone, Copy, Debug, PartialEq, Eq, Structural)]
pub struct Chosen {
    pub palette: PaletteKind,
    pub scale: FreqScale,
    pub pair_mode: ChannelPairMode,
    pub style: CurveStyle,
    pub interp: CurveInterpolation,
    pub filter: FilteringAmount,
    pub quality: AnalysisQuality,
    pub window: WindowType,
    pub aggregate: BandAggregate,
    pub background: GraphBackground,
    pub label_mode: AxisLabelMode,
    pub scale_lane_pos: ScaleLanePosition,
    pub frame_cap: FrameCap,
}

impl Choice {
    /// Whether `chosen` already holds this choice's value.
    pub open spec fn holds(self, chosen: Chosen) -> bool {
        match self {
            Choice::Palette(v) => chosen.palette == v,
            Choice::Scale(v) => chosen.scale == v,
            Choice::Pair(v) => chosen.pair_mode == v,
            Choice::Style(v) => chosen.style == v,
            Choice::Interp(v) => chosen.interp == v,
            Choice::Filter(v) => chosen.filter == v,
            Choice::Quality(v) => chosen.quality == v,
            Choice::Window(v) => chosen.window == v,
            Choice::Aggregate(v) => chosen.aggregate == v,
            Choice::Background(v) => chosen.background == v,
            Choice::Labels(v) => chosen.label_mode == v,
            Choice::ScaleLane(v) => chosen.scale_lane_pos == v,
            Choice::Cap(v) => chosen.frame_cap == v,
        }
    }

    /// `chosen` with this choice's value put in and nothing else changed.
    pub open spec fn put(self, chosen: Chosen) -> Chosen {
        match self {
            Choice::Palette(v) => Chosen { palette: v, ..chosen },
            Choice::Scale(v) => Chosen { scale: v, ..chosen },
            Choice::Pair(v) => Chosen { pair_mode: v, ..chosen },
            Choice::Style(v) => Chosen { style: v, ..chosen },
            Choice::Interp(v) => Chosen { interp: v, ..chosen },
            Choice::Filter(v) => Chosen { filter: v, ..chosen },
            Choice::Quality(v) => Chosen { quality: v, ..chosen },
            Choice::Window(v) => Chosen { window: v, ..chosen },
            Choice::Aggregate(v) => Chosen { aggregate: v, ..chosen },
            Choice::Background(v) => Chosen { background: v, ..chosen },
            Choice::Labels(v) => Chosen { label_mode: v, ..chosen },
            Choice::ScaleLane(v) => Chosen { scale_lane_pos: v, ..chosen },
            Choice::Cap(v) => Chosen { frame_cap: v, ..chosen },
        }
    }

    /// Whether this is what the settings already hold.
    pub fn is_current(self, s: &Chosen) -> (r: bool)
        ensures
            r == self.holds(*s),
    {
        match self {
            Choice::Palette(v) => s.palette == v,
            Choice::Scale(v) => s.scale == v,
            Choice::Pair(v) => s.pair_mode == v,
            Choice::Style(v) => s.style == v,
            Choice::Interp(v) => s.interp == v,
            Choice::Filter(v) => s.filter == v,
            Choice::Quality(v) => s.quality == v,
            Choice::Window(v) => s.window == v,
            Choice::Aggregate(v) => s.aggregate == v,
            Choice::Background(v) => s.background == v,
            Choice::Labels(v) => s.label_mode == v,
            Choice::ScaleLane(v) => s.scale_lane_pos == v,
            Choice::Cap(v) => s.frame_cap == v,
        }
    }

    /// Puts this choice's value into the settings.
    pub fn apply(self, s: &mut Chosen)
        ensures
            *final(s) == self.put(*old(s)),
    {
        match self {
            Choice::Palette(v) => s.palette = v,
            Choice::Scale(v) => s.scale = v,
            Choice::Pair(v) => s.pair_mode = v,
            Choice::Style(v) => s.style = v,
            Choice::Interp(v) => s.interp = v,
            Choice::Filter(v) => s.filter = v,
            Choice::Quality(v) => s.quality = v,
            Choice::Window(v) => s.window = v,
            Choice::Aggregate(v) => s.aggregate = v,
            Choice::Background(v) => s.background = v,
            Choice::Labels(v) => s.label_mode = v,
            Choice::ScaleLane(v) => s.scale_lane_pos = v,
            Choice::Cap(v) => s.frame_cap = v,
        }
    }
}

/// A choice that has been applied is the current one.
pub proof fn lemma_applied_choice_is_current(c: Choice, chosen: Chosen)
    ensures
        c.holds(c.put(chosen)),
{
}

/// Applying a choice that is already current changes nothing.
pub proof fn lemma_current_choice_changes_nothing(c: Choice, chosen: Chosen)
    requires
        c.holds(chosen),
    ensures
        c.put(chosen) == chosen,
{
}

/// The palette after `p` in [`PaletteKind::ALL`], the first after the last.
pub open spec fn palette_after(p: PaletteKind) -> PaletteKind {
    match p {
        PaletteKind::Magma => PaletteKind::Inferno,
        PaletteKind::Inferno => PaletteKind::Viridis,
        PaletteKind::Viridis => PaletteKind::Turbo,
        PaletteKind::Turbo => PaletteKind::NostalgiaRed,
        PaletteKind::NostalgiaRed => PaletteKind::Ice,
        PaletteKind::Ice => PaletteKind::Grey,
        PaletteKind::Grey => PaletteKind::Plasma,
        PaletteKind::Plasma => PaletteKind::Cividis,
        PaletteKind::Cividis => PaletteKind::Twilight,
        PaletteKind::Twilight => PaletteKind::Ocean,
        PaletteKind::Ocean => PaletteKind::Phosphor,
        PaletteKind::Phosphor => PaletteKind::Ember,
        PaletteKind::Ember => PaletteKind::Magma,
    }
}

/// The curve style after `s` in [`CurveStyle::ALL`], the first after the last.
pub open spec fn style_after(s: CurveStyle) -> CurveStyle {
    match s {
        CurveStyle::Line => CurveStyle::Bars,
        CurveStyle::Bars => CurveStyle::Led,
        CurveStyle::Led => CurveStyle::Line,
    }
}

/// The palette after `current` in [`PaletteKind::ALL`], the first after the last, so a
/// key can walk through them all.
pub fn next_palette(current: PaletteKind) -> (r: PaletteKind)
    ensures
        r == palette_after(current),
{
    match current {
        PaletteKind::Magma => PaletteKind::Inferno,
        PaletteKind::Inferno => PaletteKind::Viridis,
        PaletteKind::Viridis => PaletteKind::Turbo,
        PaletteKind::Turbo => PaletteKind::NostalgiaRed,
        PaletteKind::NostalgiaRed => PaletteKind::Ice,
        PaletteKind::Ice => PaletteKind::Grey,
        PaletteKind::Grey => PaletteKind::Plasma,
        PaletteKind::Plasma => PaletteKind::Cividis,
        PaletteKind::Cividis => PaletteKind::Twilight,
        PaletteKind::Twilight => PaletteKind::Ocean,
        PaletteKind::Ocean => PaletteKind::Phosphor,
        PaletteKind::Phosphor => PaletteKind::Ember,
        PaletteKind::Ember => PaletteKind::Magma,
    }
}

/// The curve style after `current` in [`CurveStyle::ALL`], the first after the last.
pub fn next_style(current: CurveStyle) -> (r: CurveStyle)
    ensures
        r == style_after(current),
        exists|i: int| 0 <= i < 3 && #[trigger] CurveStyle::ALL@[i] == current && r == CurveStyle::ALL@[(i + 1) % 3],
{
    let at: usize = match current {
        CurveStyle::Line => 0,
        CurveStyle::Bars => 1,
        CurveStyle::Led => 2,
    };
    proof {
        assert(CurveStyle::ALL@ == seq![CurveStyle::Line, CurveStyle::Bars, CurveStyle::Led]);
    }
    let all = CurveStyle::ALL;
    all[(at + 1) % 3]
}

} // verus!

verus! {

/// What stands between the steps of a help entry's path, as in "Graph > Peak trace".
pub open spec fn path_step() -> Seq<char> {
    seq![' ', '>', ' ']
}

/// The heading that the top-level items, which belong to no submenu, are grouped under.
pub open spec fn general() -> Seq<char> {
    seq!['G', 'e', 'n', 'e', 'r', 'a', 'l']
}

/// The submenu a help entry at `path` sits in: what comes before the first step, or
/// [`general`] for an item at the top of the menu.
pub open spec fn spec_section(path: Seq<char>) -> Seq<char> {
    match text::find_from(path, path_step(), 0) {
        Some(k) => path.subrange(0, k),
        None => general(),
    }
}

/// A help entry's own label: what comes after the last step of its path.
pub open spec fn spec_leaf(path: Seq<char>) -> Seq<char> {
    match text::rfind_from(path, path_step(), path.len() - path_step().len()) {
        Some(k) => path.subrange(k + path_step().len(), path.len() as int),
        None => path,
    }
}

fn path_step_chars() -> (r: Vec<char>)
    ensures
        r@ == path_step(),
{
    let r = vec![' ', '>', ' '];
    proof {
        assert(r@ =~= path_step());
    }
    r
}

/// The submenu a help entry at `path` sits in, as a heading: "Graph" for
/// "Graph > Peak trace", and "General" for an item at the top of the menu.
pub fn section(path: &str) -> (r: String)
    ensures
        r@ == spec_section(path@),
{
    let p = text::chars_of(path);
    match text::find_text(&p, &path_step_chars()) {
        Some(k) => {
            proof {
                text::lemma_find_in_range(p@, path_step(), 0);
            }
            text::string_of(&text::slice_chars(&p, 0, k))
        },
        None => {
            let g = vec!['G', 'e', 'n', 'e', 'r', 'a', 'l'];
            proof {
                assert(g@ =~= general());
            }
            text::string_of(&g)
        },
    }
}

/// A help entry's own label, without the path that leads to it.
pub fn leaf(path: &str) -> (r: String)
    ensures
        r@ == spec_leaf(path@),
{
    let p = text::chars_of(path);
    match text::rfind_text(&p, &path_step_chars()) {
        Some(k) => {
            proof {
                text::lemma_rfind_in_range(p@, path_step(), p@.len() - path_step().len());
                assert(text::occurs_at(p@, path_step(), k as int));
                assert(path_step().len() == 3);
                assert(k + 3 <= p@.len());
            }
            assert(k + 3 <= p.len());
            let start: usize = k + 3;
            text::string_of(&text::slice_chars(&p, start, p.len()))
        },
        None => text::string_of(&p),
    }
}

/// Whether `query`, already lowercased and trimmed, is anywhere in `text` read in
/// lower case: the test the help search puts each part of a row to.
pub fn mentions(text: &str, query: &str) -> (r: bool)
    ensures
        r == (text::find_from(text::unicode_lowercase(text@), query@, 0) is Some),
{
    let hay = text::chars_of(text::lowercase(text).as_str());
    let q = text::chars_of(query);
    text::find_text(&hay, &q).is_some()
}

} // verus!

verus! {

/// Everything a menu item or a key can do, in plain values.
///
/// A number is not among them: its values are floating point, so the slider and the
/// named values of a [`Kind::Number`] belong to the app.
#[derive(Clone, Debug, PartialEq, Eq)]
pub enum Command {
    /// Flip a switch.
    Toggle(Flag),
    /// Take one of a fixed set of values.
    Choose(Choice),
    /// Move to the next palette, so a key can walk through them.
    NextPalette,
    /// Move to the next curve style.
    NextStyle,
    /// Load a built-in preset.
    UsePreset(Preset),
    /// Load one of the user's saved presets, by name.
    LoadPreset(String),
    /// Open the name dialog and save the current settings under the name it takes.
    SavePreset,
    /// Delete one of the user's saved presets.
    DeletePreset(String),
    /// Put every setting back to its default.
    ResetSettings,
    /// Point capture at the player or at the whole mix.
    SetCapture(Capture),
    /// Choose which player the deck follows.
    SetFollow(Follow),
    /// Hold the picture still while analysis carries on.
    Freeze,
    /// Put the image back on now, at the plain zoom.
    GoLive,
    /// Hold the average spectrum as an amber reference, or drop the one held.
    Reference,
    Fullscreen,
    /// Leave fullscreen, and do nothing when already windowed.
    LeaveFullscreen,
    /// Show or hide the help window.
    Help,
    SetPresentation(Presentation),
    /// Ask the player to do something.
    Send(Transport),
    /// Put the right-click menu away.
    CloseMenu,
    Quit,
}

fn copy_follow(f: &Follow) -> (r: Follow)
    ensures
        r == *f,
{
    match f {
        Follow::Whichever => Follow::Whichever,
        Follow::Pinned(id) => Follow::Pinned(id.clone()),
    }
}

impl Command {
    /// The same command again.
    pub fn copy(&self) -> (r: Command)
        ensures
            r == *self,
    {
        match self {
            Command::Toggle(f) => Command::Toggle(*f),
            Command::Choose(c) => Command::Choose(*c),
            Command::NextPalette => Command::NextPalette,
            Command::NextStyle => Command::NextStyle,
            Command::UsePreset(p) => Command::UsePreset(*p),
            Command::LoadPreset(n) => Command::LoadPreset(n.clone()),
            Command::SavePreset => Command::SavePreset,
            Command::DeletePreset(n) => Command::DeletePreset(n.clone()),
            Command::ResetSettings => Command::ResetSettings,
            Command::SetCapture(c) => Command::SetCapture(*c),
            Command::SetFollow(f) => Command::SetFollow(copy_follow(f)),
            Command::Freeze => Command::Freeze,
            Command::GoLive => Command::GoLive,
            Command::Reference => Command::Reference,
            Command::Fullscreen => Command::Fullscreen,
            Command::LeaveFullscreen => Command::LeaveFullscreen,
            Command::Help => Command::Help,
            Command::SetPresentation(p) => Command::SetPresentation(*p),
            Command::Send(t) => Command::Send(*t),
            Command::CloseMenu => Command::CloseMenu,
            Command::Quit => Command::Quit,
        }
    }
}

/// One value a [`Kind::Choice`] offers.
#[derive(Clone, Debug, PartialEq, Eq)]
pub struct Pick {
    pub label: String,
    pub help: &'static str,
    pub command: Command,
    pub chosen: bool,
    pub enabled: bool,
}

/// What an item is.
#[derive(Debug)]
pub enum Kind {
    /// Does something and closes the menu.
    Command(Command),
    /// A switch, with what it is now.
    Check(Command, bool),
    /// One of a group, with whether it is the one chosen.
    Radio(Command, bool),
    /// A whole group of values, one of them chosen.
    Choice(Vec<Pick>),
    /// A number. Its value, the values worth coming back to and the slider are the
    /// app's, being floating point.
    Number(Number),
    Submenu(Vec<Item>),
    Separator,
}

/// One line of the menu.
#[derive(Debug)]
pub struct Item {
    pub label: String,
    /// One sentence for the help window, and for a tooltip.
    pub help: &'static str,
    /// The key that does this, written as [`action_for_key`] expects it.
    pub shortcut: Option<&'static str>,
    pub kind: Kind,
    pub enabled: bool,
}

/// The command an item performs, if any: a choice, a number, a submenu and a rule
/// have none of their own.
pub open spec fn item_command(i: Item) -> Option<Command> {
    match i.kind {
        Kind::Command(c) => Some(c),
        Kind::Check(c, _) => Some(c),
        Kind::Radio(c, _) => Some(c),
        _ => None,
    }
}

/// The key an item carries, as text.
pub open spec fn shortcut_of(i: Item) -> Option<Seq<char>> {
    match i.shortcut {
        Some(k) => Some(k@),
        None => None,
    }
}

/// Whether the item carries `key`, ignoring ASCII case.
pub open spec fn answers_to(i: Item, key: Seq<char>) -> bool {
    match i.shortcut {
        Some(k) => text::eq_ignore_ascii_case(k@, key),
        None => false,
    }
}

/// What `key` does in `items`: the command of the first enabled item, looking into
/// enabled submenus where they stand, that carries the key and performs a command.
pub open spec fn spec_key(items: Seq<Item>, key: Seq<char>) -> Option<Command>
    decreases items,
{
    if items.len() == 0 {
        None
    } else {
        let first = items[0];
        let rest = items.subrange(1, items.len() as int);
        if !first.enabled {
            spec_key(rest, key)
        } else {
            match first.kind {
                Kind::Submenu(children) => {
                    match spec_key(children@, key) {
                        Some(c) => Some(c),
                        None => spec_key(rest, key),
                    }
                },
                _ => {
                    if answers_to(first, key) && item_command(first) is Some {
                        item_command(first)
                    } else {
                        spec_key(rest, key)
                    }
                },
            }
        }
    }
}

impl Item {
    /// The command the item performs, if any.
    pub fn action(&self) -> (r: Option<Command>)
        ensures
            r == item_command(*self),
    {
        match &self.kind {
            Kind::Command(c) => Some(c.copy()),
            Kind::Check(c, _) => Some(c.copy()),
            Kind::Radio(c, _) => Some(c.copy()),
            _ => None,
        }
    }
}

/// The command a key performs, looked up in the menu itself so the two cannot
/// disagree.
///
/// `key` is a name as the items carry it: a single letter, or `Space`, `Esc`, `F1` or
/// `F11`, in any ASCII case. An item that is greyed out doesn't answer to its key, so
/// `Esc` does nothing in a window.
pub fn action_for_key(items: &Vec<Item>, key: &str) -> (r: Option<Command>)
    ensures
        r == spec_key(items@, key@),
    decreases items@,
{
    let mut i: usize = 0;
    proof {
        assert(items@.subrange(0, items@.len() as int) =~= items@);
    }
    while i < items.len()
        invariant
            0 <= i <= items@.len(),
            spec_key(items@, key@) == spec_key(items@.subrange(i as int, items@.len() as int), key@),
        decreases items@.len() - i,
    {
        let ghost suffix = items@.subrange(i as int, items@.len() as int);
        proof {
            assert(suffix[0] == items@[i as int]);
            assert(suffix.subrange(1, suffix.len() as int) =~= items@.subrange(i + 1, items@.len() as int));
        }
        let item = &items[i];
        if item.enabled {
            match &item.kind {
                Kind::Submenu(children) => {
                    proof {
                        assert(decreases_to!(items@ => items@[i as int]));
                        assert(decreases_to!(items@ => children@));
                    }
                    let found = action_for_key(children, key);
                    if found.is_some() {
                        return found;
                    }
                },
                _ => {
                    let carries = match item.shortcut {
                        Some(k) => text::same_ignoring_ascii_case(k, key),
                        None => false,
                    };
                    if carries {
                        let a = item.action();
                        if a.is_some() {
                            return a;
                        }
                    }
                },
            }
        }
        i = i + 1;
    }
    proof {
        assert(items@.subrange(i as int, items@.len() as int).len() == 0);
    }
    None
}

} // verus!

verus! {

/// What [`tree`] builds the menu from: the state it shows, and the lists that only
/// the running app knows.
pub struct Context {
    /// The switches as they are now.
    pub switches: Switches,
    /// The fixed choices as they are now.
    pub chosen: Chosen,
    /// The preset the settings hold.
    pub preset: Preset,
    pub session: Session,
    /// The players a session can see, for the follow list.
    pub players: Vec<Player>,
    /// The user's saved presets, by name.
    pub presets: Vec<String>,
    /// What the followed player says it can be asked to do.
    pub controls: Controls,
    /// The presentation modes this GPU and surface offer.
    pub presentations: Vec<Presentation>,
}

/// A key, as text.
pub open spec fn key_text(key: Option<&'static str>) -> Option<Seq<char>> {
    match key {
        Some(k) => Some(k@),
        None => None,
    }
}

/// `i` reads `label`, explains itself with `help`, carries `key` and is usable or not.
pub open spec fn is_plain(i: Item, label: Seq<char>, help: Seq<char>, key: Option<Seq<char>>, enabled: bool) -> bool {
    &&& i.label@ == label
    &&& i.help@ == help
    &&& shortcut_of(i) == key
    &&& i.enabled == enabled
}

/// `i` is a rule between groups.
pub open spec fn is_separator(i: Item) -> bool {
    is_plain(i, Seq::empty(), Seq::empty(), None, true) && i.kind is Separator
}

/// `i` is a command that performs `c`.
pub open spec fn is_command(i: Item, label: Seq<char>, help: Seq<char>, key: Option<Seq<char>>, c: Command, enabled: bool) -> bool {
    is_plain(i, label, help, key, enabled) && i.kind == Kind::Command(c)
}

/// `i` is a switch that performs `c` and reads `on`.
pub open spec fn is_check(i: Item, label: Seq<char>, help: Seq<char>, key: Option<Seq<char>>, c: Command, on: bool) -> bool {
    is_plain(i, label, help, key, true) && i.kind == Kind::Check(c, on)
}

/// `i` is the switch for `f`, showing what `w` holds.
pub open spec fn is_flag(i: Item, label: Seq<char>, help: Seq<char>, key: Option<Seq<char>>, f: Flag, w: Switches) -> bool {
    is_check(i, label, help, key, Command::Toggle(f), w.is_on(f))
}

/// `i` is one of a group, performing `c`.
pub open spec fn is_radio(i: Item, label: Seq<char>, help: Seq<char>, c: Command, chosen: bool) -> bool {
    is_plain(i, label, help, None, true) && i.kind == Kind::Radio(c, chosen)
}

/// `i` is the number `n`.
pub open spec fn is_number(i: Item, label: Seq<char>, help: Seq<char>, n: Number) -> bool {
    is_plain(i, label, help, None, true) && i.kind == Kind::Number(n)
}

/// `i` is a submenu whose items are as `body` says.
pub open spec fn is_submenu(i: Item, label: Seq<char>, help: Seq<char>, body: spec_fn(Seq<Item>) -> bool) -> bool {
    is_plain(i, label, help, None, true) && match i.kind {
        Kind::Submenu(children) => body(children@),
        _ => false,
    }
}

/// `i` is a group of values as `body` says.
pub open spec fn is_choice(i: Item, label: Seq<char>, help: Seq<char>, body: spec_fn(Seq<Pick>) -> bool) -> bool {
    is_plain(i, label, help, None, true) && match i.kind {
        Kind::Choice(picks) => body(picks@),
        _ => false,
    }
}

/// `p` reads `label`, explains itself with `help` and performs `c`.
pub open spec fn is_pick(p: Pick, label: Seq<char>, help: Seq<char>, c: Command, chosen: bool, enabled: bool) -> bool {
    &&& p.label@ == label
    &&& p.help@ == help
    &&& p.command == c
    &&& p.chosen == chosen
    &&& p.enabled == enabled
}

/// `picks` offer `choices` in order, each explained by the matching line of `helps`,
/// with the one `chosen` holds marked.
pub open spec fn are_choice_picks(picks: Seq<Pick>, choices: Seq<Choice>, helps: Seq<Seq<char>>, chosen: Chosen) -> bool {
    &&& picks.len() == choices.len()
    &&& forall|j: int| 0 <= j < picks.len() ==> #[trigger] is_pick(picks[j], choice_label(choices[j]), helps[j],
        Command::Choose(choices[j]), choices[j].holds(chosen), true)
}

/// `n` copies of the one help line.
pub open spec fn same_help(help: Seq<char>, n: nat) -> Seq<Seq<char>> {
    Seq::new(n, |_j: int| help)
}

fn owned(s: &str) -> (r: String)
    ensures
        r@ == s@,
{
    text::string_of(&text::chars_of(s))
}

fn separator() -> (r: Item)
    ensures
        is_separator(r),
{
    proof {
        reveal_strlit("");
    }
    let r = Item { label: owned(""), help: "", shortcut: None, kind: Kind::Separator, enabled: true };
    proof {
        assert(r.label@ =~= Seq::<char>::empty());
        assert(r.help@ =~= Seq::<char>::empty());
    }
    r
}

fn command_item(label: &str, help: &'static str, key: Option<&'static str>, c: Command, enabled: bool) -> (r: Item)
    ensures
        is_command(r, label@, help@, key_text(key), c, enabled),
{
    Item { label: owned(label), help, shortcut: key, kind: Kind::Command(c), enabled }
}

fn check_item(label: &str, help: &'static str, key: Option<&'static str>, c: Command, on: bool) -> (r: Item)
    ensures
        is_check(r, label@, help@, key_text(key), c, on),
{
    Item { label: owned(label), help, shortcut: key, kind: Kind::Check(c, on), enabled: true }
}

fn flag_item(label: &str, help: &'static str, key: Option<&'static str>, f: Flag, w: &Switches) -> (r: Item)
    ensures
        is_flag(r, label@, help@, key_text(key), f, *w),
{
    check_item(label, help, key, Command::Toggle(f), w.flag(f))
}

fn radio_item(label: &str, help: &'static str, c: Command, chosen: bool) -> (r: Item)
    ensures
        is_radio(r, label@, help@, c, chosen),
{
    Item { label: owned(label), help, shortcut: None, kind: Kind::Radio(c, chosen), enabled: true }
}

fn number_item(label: &str, help: &'static str, n: Number) -> (r: Item)
    ensures
        is_number(r, label@, help@, n),
{
    Item { label: owned(label), help, shortcut: None, kind: Kind::Number(n), enabled: true }
}

fn submenu_item(label: &str, help: &'static str, items: Vec<Item>) -> (r: Item)
    ensures
        is_plain(r, label@, help@, None, true),
        r.kind == Kind::Submenu(items),
{
    Item { label: owned(label), help, shortcut: None, kind: Kind::Submenu(items), enabled: true }
}

fn choice_item(label: &str, help: &'static str, picks: Vec<Pick>) -> (r: Item)
    ensures
        is_plain(r, label@, help@, None, true),
        r.kind == Kind::Choice(picks),
{
    Item { label: owned(label), help, shortcut: None, kind: Kind::Choice(picks), enabled: true }
}

fn pick(label: &str, help: &'static str, c: Command, chosen: bool, enabled: bool) -> (p: Pick)
    ensures
        is_pick(p, label@, help@, c, chosen, enabled),
{
    Pick { label: owned(label), help, command: c, chosen, enabled }
}

/// One pick for each of `choices`, each explained by the matching line of `helps`.
fn choice_picks(choices: &Vec<Choice>, helps: &Vec<&'static str>, chosen: &Chosen) -> (r: Vec<Pick>)
    requires
        helps@.len() == choices@.len(),
    ensures
        are_choice_picks(r@, choices@, helps@.map_values(|h: &'static str| h@), *chosen),
{
    let mut r: Vec<Pick> = Vec::new();
    let mut j: usize = 0;
    while j < choices.len()
        invariant
            j <= choices@.len(),
            helps@.len() == choices@.len(),
            r@.len() == j,
            forall|k: int| 0 <= k < j ==> #[trigger] is_pick(r@[k], choice_label(choices@[k]), helps@[k]@,
                Command::Choose(choices@[k]), choices@[k].holds(*chosen), true),
        decreases choices@.len() - j,
    {
        let c = choices[j];
        r.push(pick(c.label(), helps[j], Command::Choose(c), c.is_current(chosen), true));
        j = j + 1;
    }
    r
}

/// One pick for each of `choices`, all explained by `help`.
fn choice_picks_alike(choices: &Vec<Choice>, help: &'static str, chosen: &Chosen) -> (r: Vec<Pick>)
    ensures
        are_choice_picks(r@, choices@, same_help(help@, choices@.len()), *chosen),
{
    let mut r: Vec<Pick> = Vec::new();
    let mut j: usize = 0;
    while j < choices.len()
        invariant
            j <= choices@.len(),
            r@.len() == j,
            forall|k: int| 0 <= k < j ==> #[trigger] is_pick(r@[k], choice_label(choices@[k]), help@,
                Command::Choose(choices@[k]), choices@[k].holds(*chosen), true),
        decreases choices@.len() - j,
    {
        let c = choices[j];
        r.push(pick(c.label(), help, Command::Choose(c), c.is_current(chosen), true));
        j = j + 1;
    }
    r
}

/// Whether `list` offers `p`.
fn offers(list: &Vec<Presentation>, p: Presentation) -> (r: bool)
    ensures
        r == list@.contains(p),
{
    let mut j: usize = 0;
    while j < list.len()
        invariant
            j <= list@.len(),
            forall|k: int| 0 <= k < j ==> list@[k] != p,
        decreases list@.len() - j,
    {
        if list[j] == p {
            return true;
        }
        j = j + 1;
    }
    false
}

} // verus!

verus! {

/// The capture group: the followed player alone, or the whole mix.
pub open spec fn is_capture_item(i: Item, ctx: Context) -> bool {
    is_choice(i, "Capture"@, "Which sound is analysed"@, |p: Seq<Pick>| {
        &&& p.len() == 2
        &&& is_pick(p[0], Capture::FollowPlayer.spec_label(), "Analyse the followed player alone, or the whole mix"@,
            Command::SetCapture(Capture::FollowPlayer), ctx.session.capture == Capture::FollowPlayer, true)
        &&& is_pick(p[1], Capture::WholeSystem.spec_label(), "Analyse the followed player alone, or the whole mix"@,
            Command::SetCapture(Capture::WholeSystem), ctx.session.capture == Capture::WholeSystem, true)
    })
}

fn capture_item(ctx: &Context) -> (r: Item)
    ensures
        is_capture_item(r, *ctx),
{
    let help = "Analyse the followed player alone, or the whole mix";
    let picks = vec![
        pick(Capture::FollowPlayer.label(), help, Command::SetCapture(Capture::FollowPlayer),
            ctx.session.capture == Capture::FollowPlayer, true),
        pick(Capture::WholeSystem.label(), help, Command::SetCapture(Capture::WholeSystem),
            ctx.session.capture == Capture::WholeSystem, true),
    ];
    choice_item("Capture", "Which sound is analysed", picks)
}

/// The presentation group: each mode, offered where this GPU and surface offer it.
pub open spec fn is_presentation_item(i: Item, ctx: Context) -> bool {
    is_choice(i, "Presentation"@, "How finished frames reach the screen"@, |p: Seq<Pick>| {
        &&& p.len() == 3
        &&& is_pick(p[0], Presentation::EveryRefresh.spec_label(), "Queue every frame for the next refresh: no tearing"@,
            Command::SetPresentation(Presentation::EveryRefresh), ctx.session.presentation == Presentation::EveryRefresh,
            ctx.presentations@.contains(Presentation::EveryRefresh))
        &&& is_pick(p[1], Presentation::Newest.spec_label(), "Keep only the newest frame queued: no tearing, least delay"@,
            Command::SetPresentation(Presentation::Newest), ctx.session.presentation == Presentation::Newest,
            ctx.presentations@.contains(Presentation::Newest))
        &&& is_pick(p[2], Presentation::Immediate.spec_label(), "Show a frame the moment it is drawn, tearing included"@,
            Command::SetPresentation(Presentation::Immediate), ctx.session.presentation == Presentation::Immediate,
            ctx.presentations@.contains(Presentation::Immediate))
    })
}

fn presentation_item(ctx: &Context) -> (r: Item)
    ensures
        is_presentation_item(r, *ctx),
{
    let picks = vec![
        pick(Presentation::EveryRefresh.label(), "Queue every frame for the next refresh: no tearing",
            Command::SetPresentation(Presentation::EveryRefresh), ctx.session.presentation == Presentation::EveryRefresh,
            offers(&ctx.presentations, Presentation::EveryRefresh)),
        pick(Presentation::Newest.label(), "Keep only the newest frame queued: no tearing, least delay",
            Command::SetPresentation(Presentation::Newest), ctx.session.presentation == Presentation::Newest,
            offers(&ctx.presentations, Presentation::Newest)),
        pick(Presentation::Immediate.label(), "Show a frame the moment it is drawn, tearing included",
            Command::SetPresentation(Presentation::Immediate), ctx.session.presentation == Presentation::Immediate,
            offers(&ctx.presentations, Presentation::Immediate)),
    ];
    choice_item("Presentation", "How finished frames reach the screen", picks)
}

/// Whether `follow` pins the player whose id reads `id`.
pub open spec fn pins(follow: Follow, id: Seq<char>) -> bool {
    match follow {
        Follow::Pinned(p) => p@ == id,
        Follow::Whichever => false,
    }
}

fn pins_player(follow: &Follow, id: &String) -> (r: bool)
    ensures
        r == pins(*follow, id@),
{
    match follow {
        Follow::Pinned(p) => text::same_chars(p, id.as_str()),
        Follow::Whichever => false,
    }
}

/// The help line of the follow group: it says so when there is no player to pin.
pub open spec fn follow_help(ctx: Context) -> Seq<char> {
    if ctx.players@.len() == 0 {
        "Which player is followed. None is running, so there is only the one entry"@
    } else {
        "Which player the deck and capture follow"@
    }
}

/// The follow group: whichever is playing, then each player the session sees, pinned
/// by id because two windows of the same app share a name.
pub open spec fn is_follow_item(i: Item, ctx: Context) -> bool {
    is_choice(i, "Follow player"@, follow_help(ctx), |p: Seq<Pick>| {
        &&& p.len() == ctx.players@.len() + 1
        &&& is_pick(p[0], "Whichever is playing"@,
            "Follow whichever player is playing, preferring the one that started last"@,
            Command::SetFollow(Follow::Whichever), ctx.session.follow == Follow::Whichever, true)
        &&& forall|j: int| 0 <= j < ctx.players@.len() ==> #[trigger] is_pick(p[j + 1], ctx.players@[j].name@,
            "Follow this player, whatever else starts"@, Command::SetFollow(Follow::Pinned(ctx.players@[j].id)),
            pins(ctx.session.follow, ctx.players@[j].id@), true)
    })
}

fn follow_item(ctx: &Context) -> (r: Item)
    ensures
        is_follow_item(r, *ctx),
{
    let whichever = match ctx.session.follow {
        Follow::Whichever => true,
        Follow::Pinned(_) => false,
    };
    let mut picks = vec![pick("Whichever is playing",
        "Follow whichever player is playing, preferring the one that started last",
        Command::SetFollow(Follow::Whichever), whichever, true)];
    let mut j: usize = 0;
    while j < ctx.players.len()
        invariant
            j <= ctx.players@.len(),
            picks@.len() == j + 1,
            is_pick(picks@[0], "Whichever is playing"@,
                "Follow whichever player is playing, preferring the one that started last"@,
                Command::SetFollow(Follow::Whichever), ctx.session.follow == Follow::Whichever, true),
            forall|k: int| 0 <= k < j ==> #[trigger] is_pick(picks@[k + 1], ctx.players@[k].name@,
                "Follow this player, whatever else starts"@, Command::SetFollow(Follow::Pinned(ctx.players@[k].id)),
                pins(ctx.session.follow, ctx.players@[k].id@), true),
        decreases ctx.players@.len() - j,
    {
        let player = &ctx.players[j];
        let chosen = pins_player(&ctx.session.follow, &player.id);
        let p = Pick {
            label: player.name.clone(),
            help: "Follow this player, whatever else starts",
            command: Command::SetFollow(Follow::Pinned(player.id.clone())),
            chosen,
            enabled: true,
        };
        picks.push(p);
        j = j + 1;
    }
    let help = if ctx.players.len() == 0 {
        "Which player is followed. None is running, so there is only the one entry"
    } else {
        "Which player the deck and capture follow"
    };
    choice_item("Follow player", help, picks)
}

/// The built-in presets, grouped by what you would be doing: the everyday ones, the
/// ones for a kind of material, the ones for work, and the original look.
pub open spec fn built_in_items(s: Seq<Item>, ctx: Context) -> bool {
    &&& s.len() >= 11
    &&& is_radio(s[0], Preset::Studio.spec_name(), "A musical axis and a gentle tilt: the everyday view"@,
        Command::UsePreset(Preset::Studio), ctx.preset == Preset::Studio)
    &&& is_radio(s[1], Preset::Immersive.spec_name(), "For watching rather than measuring"@,
        Command::UsePreset(Preset::Immersive), ctx.preset == Preset::Immersive)
    &&& is_separator(s[2])
    &&& is_radio(s[3], Preset::Vocal.spec_name(), "Where voices live, with the detail to separate formants"@,
        Command::UsePreset(Preset::Vocal), ctx.preset == Preset::Vocal)
    &&& is_radio(s[4], Preset::Bass.spec_name(), "A narrow low range, with the largest transforms"@,
        Command::UsePreset(Preset::Bass), ctx.preset == Preset::Bass)
    &&& is_radio(s[5], Preset::Percussion.spec_name(), "Short windows, so transients land where they are heard"@,
        Command::UsePreset(Preset::Percussion), ctx.preset == Preset::Percussion)
    &&& is_separator(s[6])
    &&& is_radio(s[7], Preset::QC.spec_name(), "Flat, wide and linear, for spotting a lossy source"@,
        Command::UsePreset(Preset::QC), ctx.preset == Preset::QC)
    &&& is_radio(s[8], Preset::Mastering.spec_name(), "Nothing tilted or adaptive: measurement"@,
        Command::UsePreset(Preset::Mastering), ctx.preset == Preset::Mastering)
    &&& is_separator(s[9])
    &&& is_radio(s[10], Preset::Nostalgia.spec_name(), "The original plugin's look, without its mapping bugs"@,
        Command::UsePreset(Preset::Nostalgia), ctx.preset == Preset::Nostalgia)
}

/// How many lines the saved presets take: one each, or the one that says there are none.
pub open spec fn saved_lines(ctx: Context) -> int {
    if ctx.presets@.len() == 0 { 1 } else { ctx.presets@.len() as int }
}

/// The delete submenu: one line per saved preset, or a greyed line saying there are none.
pub open spec fn delete_items(s: Seq<Item>, ctx: Context) -> bool {
    if ctx.presets@.len() == 0 {
        s.len() == 1 && is_command(s[0], "Nothing saved"@, ""@, None, Command::SavePreset, false)
    } else {
        &&& s.len() == ctx.presets@.len()
        &&& forall|j: int| 0 <= j < s.len() ==> #[trigger] is_command(s[j], ctx.presets@[j]@,
            "Remove this saved preset"@, None, Command::DeletePreset(ctx.presets@[j]), true)
    }
}

/// The presets submenu: the built-in ones, the user's saved ones, saving, and deleting.
pub open spec fn preset_items(s: Seq<Item>, ctx: Context) -> bool {
    let n = saved_lines(ctx);
    &&& s.len() == 15 + n
    &&& built_in_items(s, ctx)
    &&& is_separator(s[11])
    &&& (ctx.presets@.len() == 0 ==> is_command(s[12], "No saved presets"@, "Presets you save appear here"@, None,
        Command::SavePreset, false))
    &&& forall|j: int| 0 <= j < ctx.presets@.len() ==> #[trigger] is_command(s[12 + j], ctx.presets@[j]@,
        "One of your saved presets"@, None, Command::LoadPreset(ctx.presets@[j]), true)
    &&& is_separator(s[12 + n])
    &&& is_command(s[13 + n], "Save these settings..."@, "Save everything as it is now under a name of your own"@,
        None, Command::SavePreset, true)
    &&& is_submenu(s[14 + n], "Delete"@, "Remove one of your saved presets"@, |d: Seq<Item>| delete_items(d, ctx))
}

fn delete_menu(ctx: &Context) -> (r: Vec<Item>)
    ensures
        delete_items(r@, *ctx),
{
    if ctx.presets.len() == 0 {
        return vec![command_item("Nothing saved", "", None, Command::SavePreset, false)];
    }
    let mut r: Vec<Item> = Vec::new();
    let mut j: usize = 0;
    while j < ctx.presets.len()
        invariant
            j <= ctx.presets@.len(),
            r@.len() == j,
            forall|k: int| 0 <= k < j ==> #[trigger] is_command(r@[k], ctx.presets@[k]@,
                "Remove this saved preset"@, None, Command::DeletePreset(ctx.presets@[k]), true),
        decreases ctx.presets@.len() - j,
    {
        let name = &ctx.presets[j];
        r.push(Item {
            label: name.clone(),
            help: "Remove this saved preset",
            shortcut: None,
            kind: Kind::Command(Command::DeletePreset(name.clone())),
            enabled: true,
        });
        j = j + 1;
    }
    r
}

fn presets(ctx: &Context) -> (r: Vec<Item>)
    ensures
        preset_items(r@, *ctx),
{
    let mut r = vec![
        radio_item(Preset::Studio.name(), "A musical axis and a gentle tilt: the everyday view",
            Command::UsePreset(Preset::Studio), ctx.preset == Preset::Studio),
        radio_item(Preset::Immersive.name(), "For watching rather than measuring",
            Command::UsePreset(Preset::Immersive), ctx.preset == Preset::Immersive),
        separator(),
        radio_item(Preset::Vocal.name(), "Where voices live, with the detail to separate formants",
            Command::UsePreset(Preset::Vocal), ctx.preset == Preset::Vocal),
        radio_item(Preset::Bass.name(), "A narrow low range, with the largest transforms",
            Command::UsePreset(Preset::Bass), ctx.preset == Preset::Bass),
        radio_item(Preset::Percussion.name(), "Short windows, so transients land where they are heard",
            Command::UsePreset(Preset::Percussion), ctx.preset == Preset::Percussion),
        separator(),
        radio_item(Preset::QC.name(), "Flat, wide and linear, for spotting a lossy source",
            Command::UsePreset(Preset::QC), ctx.preset == Preset::QC),
        radio_item(Preset::Mastering.name(), "Nothing tilted or adaptive: measurement",
            Command::UsePreset(Preset::Mastering), ctx.preset == Preset::Mastering),
        separator(),
        radio_item(Preset::Nostalgia.name(), "The original plugin's look, without its mapping bugs",
            Command::UsePreset(Preset::Nostalgia), ctx.preset == Preset::Nostalgia),
        separator(),
    ];
    if ctx.presets.len() == 0 {
        r.push(command_item("No saved presets", "Presets you save appear here", None, Command::SavePreset, false));
    }
    let mut j: usize = 0;
    while j < ctx.presets.len()
        invariant
            j <= ctx.presets@.len(),
            r@.len() == 12 + (if ctx.presets@.len() == 0 { 1int } else { j as int }),
            built_in_items(r@, *ctx),
            is_separator(r@[11]),
            ctx.presets@.len() == 0 ==> is_command(r@[12], "No saved presets"@, "Presets you save appear here"@,
                None, Command::SavePreset, false),
            forall|k: int| 0 <= k < j ==> #[trigger] is_command(r@[12 + k], ctx.presets@[k]@,
                "One of your saved presets"@, None, Command::LoadPreset(ctx.presets@[k]), true),
        decreases ctx.presets@.len() - j,
    {
        let name = &ctx.presets[j];
        r.push(Item {
            label: name.clone(),
            help: "One of your saved presets",
            shortcut: None,
            kind: Kind::Command(Command::LoadPreset(name.clone())),
            enabled: true,
        });
        j = j + 1;
    }
    r.push(separator());
    r.push(command_item("Save these settings...", "Save everything as it is now under a name of your own",
        None, Command::SavePreset, true));
    r.push(submenu_item("Delete", "Remove one of your saved presets", delete_menu(ctx)));
    r
}

} // verus!

verus! {
/// What the pointer reads out.
pub open spec fn hover_items(s: Seq<Item>, ctx: Context) -> bool {
    &&& s.len() == 5
    &&& is_flag(s[0], "Readout box"@, "The panel of figures beside the pointer. The crosshair and the pin stay"@, None, Flag::ShowHud, ctx.switches)
    &&& is_flag(s[1], "Read out both panes"@, "Draw the hover line across both panes and read out both channels"@, None, Flag::SyncHover, ctx.switches)
    &&& is_flag(s[2], "Pin to the axis"@, "Stamp the hovered frequency onto the axis itself"@, None, Flag::ShowHoverPin, ctx.switches)
    &&& is_flag(s[3], "Harmonic ruler"@, "Ghost lines at whole multiples of the frequency under the pointer"@, None, Flag::ShowHarmonics, ctx.switches)
    &&& is_flag(s[4], "Double-click to seek"@, "Double-click a column of the image to send the player to that moment"@, None, Flag::SeekOnImageClick, ctx.switches)
}

fn hover(ctx: &Context) -> (r: Vec<Item>)
    ensures
        hover_items(r@, *ctx),
{
    let r = vec![
        flag_item("Readout box", "The panel of figures beside the pointer. The crosshair and the pin stay", None, Flag::ShowHud, &ctx.switches),
        flag_item("Read out both panes", "Draw the hover line across both panes and read out both channels", None, Flag::SyncHover, &ctx.switches),
        flag_item("Pin to the axis", "Stamp the hovered frequency onto the axis itself", None, Flag::ShowHoverPin, &ctx.switches),
        flag_item("Harmonic ruler", "Ghost lines at whole multiples of the frequency under the pointer", None, Flag::ShowHarmonics, &ctx.switches),
        flag_item("Double-click to seek", "Double-click a column of the image to send the player to that moment", None, Flag::SeekOnImageClick, &ctx.switches),
    ];
    r
}

/// The waveform lanes.
pub open spec fn waveform_items(s: Seq<Item>, ctx: Context) -> bool {
    &&& s.len() == 2
    &&& is_flag(s[0], "Show the lanes"@, "The level against time along the bottom"@, Some("W"@), Flag::ShowWaveform, ctx.switches)
    &&& is_number(s[1], "Height"@, "How much of the view the lanes take"@, Number::WaveHeightPct)
}

fn waveform(ctx: &Context) -> (r: Vec<Item>)
    ensures
        waveform_items(r@, *ctx),
{
    let r = vec![
        flag_item("Show the lanes", "The level against time along the bottom", Some("W"), Flag::ShowWaveform, &ctx.switches),
        number_item("Height", "How much of the view the lanes take", Number::WaveHeightPct),
    ];
    r
}

/// The centre deck and what it shows.
pub open spec fn deck_items(s: Seq<Item>, ctx: Context) -> bool {
    &&& s.len() == 19
    &&& is_flag(s[0], "Show the deck"@, "The panel of figures between the panes"@, None, Flag::ShowCentreDeck, ctx.switches)
    &&& is_number(s[1], "Height"@, "How tall the deck and the lanes beside it are"@, Number::DeckHeightPx)
    &&& is_separator(s[2])
    &&& is_flag(s[3], "Artwork"@, "The album cover"@, None, Flag::DeckArtwork, ctx.switches)
    &&& is_flag(s[4], "Track details"@, "Title, artists, album and year"@, None, Flag::DeckTrackInfo, ctx.switches)
    &&& is_flag(s[5], "Transport"@, "The play button, the seek bar and the clock"@, None, Flag::DeckTransport, ctx.switches)
    &&& is_flag(s[6], "Goniometer"@, "The stereo field as a figure"@, None, Flag::DeckGoniometer, ctx.switches)
    &&& is_flag(s[7], "Correlation"@, "How alike the two channels are"@, None, Flag::DeckCorrelation, ctx.switches)
    &&& is_flag(s[8], "Balance"@, "Which side is louder"@, None, Flag::DeckBalance, ctx.switches)
    &&& is_separator(s[9])
    &&& is_flag(s[10], "Momentary loudness"@, "LUFS over the last 400 ms"@, None, Flag::DeckLufsM, ctx.switches)
    &&& is_flag(s[11], "Short-term loudness"@, "LUFS over the last three seconds"@, None, Flag::DeckLufsS, ctx.switches)
    &&& is_flag(s[12], "Integrated loudness"@, "LUFS over the track so far"@, None, Flag::DeckLufsI, ctx.switches)
    &&& is_flag(s[13], "Loudness range"@, "How far the loudness moves over the track"@, None, Flag::DeckLra, ctx.switches)
    &&& is_flag(s[14], "True peak"@, "The highest level between samples, in dBTP"@, None, Flag::DeckTruePeak, ctx.switches)
    &&& is_flag(s[15], "Crest factor"@, "How far the peaks stand above the average"@, None, Flag::DeckCrest, ctx.switches)
    &&& is_flag(s[16], "Overs"@, "How many samples went past full scale"@, None, Flag::DeckOvers, ctx.switches)
    &&& is_flag(s[17], "Tempo"@, "The beats a minute the music is running at"@, None, Flag::DeckBpm, ctx.switches)
    &&& is_flag(s[18], "Brightness"@, "Where the spectrum's weight sits"@, None, Flag::DeckBrightness, ctx.switches)
}

fn deck(ctx: &Context) -> (r: Vec<Item>)
    ensures
        deck_items(r@, *ctx),
{
    let r = vec![
        flag_item("Show the deck", "The panel of figures between the panes", None, Flag::ShowCentreDeck, &ctx.switches),
        number_item("Height", "How tall the deck and the lanes beside it are", Number::DeckHeightPx),
        separator(),
        flag_item("Artwork", "The album cover", None, Flag::DeckArtwork, &ctx.switches),
        flag_item("Track details", "Title, artists, album and year", None, Flag::DeckTrackInfo, &ctx.switches),
        flag_item("Transport", "The play button, the seek bar and the clock", None, Flag::DeckTransport, &ctx.switches),
        flag_item("Goniometer", "The stereo field as a figure", None, Flag::DeckGoniometer, &ctx.switches),
        flag_item("Correlation", "How alike the two channels are", None, Flag::DeckCorrelation, &ctx.switches),
        flag_item("Balance", "Which side is louder", None, Flag::DeckBalance, &ctx.switches),
        separator(),
        flag_item("Momentary loudness", "LUFS over the last 400 ms", None, Flag::DeckLufsM, &ctx.switches),
        flag_item("Short-term loudness", "LUFS over the last three seconds", None, Flag::DeckLufsS, &ctx.switches),
        flag_item("Integrated loudness", "LUFS over the track so far", None, Flag::DeckLufsI, &ctx.switches),
        flag_item("Loudness range", "How far the loudness moves over the track", None, Flag::DeckLra, &ctx.switches),
        flag_item("True peak", "The highest level between samples, in dBTP", None, Flag::DeckTruePeak, &ctx.switches),
        flag_item("Crest factor", "How far the peaks stand above the average", None, Flag::DeckCrest, &ctx.switches),
        flag_item("Overs", "How many samples went past full scale", None, Flag::DeckOvers, &ctx.switches),
        flag_item("Tempo", "The beats a minute the music is running at", None, Flag::DeckBpm, &ctx.switches),
        flag_item("Brightness", "Where the spectrum's weight sits", None, Flag::DeckBrightness, &ctx.switches),
    ];
    r
}

/// The quick bar.
pub open spec fn quick_bar_items(s: Seq<Item>, ctx: Context) -> bool {
    &&& s.len() == 3
    &&& is_flag(s[0], "Show the bar"@, "A row of buttons for the things changed most often"@, None, Flag::ShowQuickButtons, ctx.switches)
    &&& is_flag(s[1], "Compact"@, "Icons alone, without their words"@, None, Flag::QuickBarCompact, ctx.switches)
    &&& is_flag(s[2], "Split around the gutter"@, "Leave the centre strip clear so the axis runs unbroken"@, None, Flag::QuickBarSplit, ctx.switches)
}

fn quick_bar(ctx: &Context) -> (r: Vec<Item>)
    ensures
        quick_bar_items(r@, *ctx),
{
    let r = vec![
        flag_item("Show the bar", "A row of buttons for the things changed most often", None, Flag::ShowQuickButtons, &ctx.switches),
        flag_item("Compact", "Icons alone, without their words", None, Flag::QuickBarCompact, &ctx.switches),
        flag_item("Split around the gutter", "Leave the centre strip clear so the axis runs unbroken", None, Flag::QuickBarSplit, &ctx.switches),
    ];
    r
}

/// The furniture around the picture: the master switch, then one submenu per panel.
pub open spec fn panel_items(s: Seq<Item>, ctx: Context) -> bool {
    &&& s.len() == 8
    &&& is_flag(s[0], "On-screen readouts"@, "Everything drawn over the image: the hover readout, the quick bar and the status line"@, Some("O"@), Flag::ShowOsd, ctx.switches)
    &&& is_separator(s[1])
    &&& is_submenu(s[2], "Centre deck"@, "The panel of figures between the panes"@, |s: Seq<Item>| deck_items(s, ctx))
    &&& is_submenu(s[3], "Waveform lanes"@, "The level against time along the bottom"@, |s: Seq<Item>| waveform_items(s, ctx))
    &&& is_submenu(s[4], "Quick bar"@, "The row of buttons over the image"@, |s: Seq<Item>| quick_bar_items(s, ctx))
    &&& is_separator(s[5])
    &&& is_flag(s[6], "Colour bar"@, "The level-to-colour key down the right edge"@, None, Flag::ShowColourBar, ctx.switches)
    &&& is_flag(s[7], "Status line"@, "The line of figures over the image: capture, loudness, frame rate and lag"@, None, Flag::ShowStatus, ctx.switches)
}

fn panels(ctx: &Context) -> (r: Vec<Item>)
    ensures
        panel_items(r@, *ctx),
{
    let r = vec![
        flag_item("On-screen readouts", "Everything drawn over the image: the hover readout, the quick bar and the status line", Some("O"), Flag::ShowOsd, &ctx.switches),
        separator(),
        submenu_item("Centre deck", "The panel of figures between the panes", deck(ctx)),
        submenu_item("Waveform lanes", "The level against time along the bottom", waveform(ctx)),
        submenu_item("Quick bar", "The row of buttons over the image", quick_bar(ctx)),
        separator(),
        flag_item("Colour bar", "The level-to-colour key down the right edge", None, Flag::ShowColourBar, &ctx.switches),
        flag_item("Status line", "The line of figures over the image: capture, loudness, frame rate and lag", None, Flag::ShowStatus, &ctx.switches),
    ];
    r
}

/// The analysis submenu: the channels, the transforms, the level range and the curves' speed.
pub open spec fn analysis_items(s: Seq<Item>, ctx: Context) -> bool {
    &&& s.len() == 13
    &&& is_choice(s[0], "Channels"@, "Which pair of channels the panes show"@, |p: Seq<Pick>| are_choice_picks(p, seq![Choice::Pair(ChannelPairMode::LeftRight), Choice::Pair(ChannelPairMode::MidSide), Choice::Pair(ChannelPairMode::LeftOnly), Choice::Pair(ChannelPairMode::RightOnly)], same_help("Which pair of channels the panes show"@, 4), ctx.chosen))
    &&& is_choice(s[1], "Resolution"@, "How large the transforms are: detail against delay"@, |p: Seq<Pick>| are_choice_picks(p, seq![Choice::Quality(AnalysisQuality::Fast), Choice::Quality(AnalysisQuality::Balanced), Choice::Quality(AnalysisQuality::High), Choice::Quality(AnalysisQuality::LowLatency)], same_help("How large the transforms are"@, 4), ctx.chosen))
    &&& is_choice(s[2], "Window"@, "The window each transform is taken through"@, |p: Seq<Pick>| are_choice_picks(p, seq![Choice::Window(WindowType::Hann), Choice::Window(WindowType::Hamming), Choice::Window(WindowType::BlackmanHarris), Choice::Window(WindowType::Nuttall), Choice::Window(WindowType::Gaussian), Choice::Window(WindowType::Rectangular)], same_help("The window each transform is taken through"@, 6), ctx.chosen))
    &&& is_choice(s[3], "Band aggregate"@, "Whether a band takes the loudest bin in it or sums their energy"@, |p: Seq<Pick>| are_choice_picks(p, seq![Choice::Aggregate(BandAggregate::Peak), Choice::Aggregate(BandAggregate::Energy)], same_help("Whether a band takes its loudest bin or sums their energy"@, 2), ctx.chosen))
    &&& is_separator(s[4])
    &&& is_number(s[5], "Tilt"@, "Lift the top end so the treble isn't a thin line under the bass"@, Number::Tilt)
    &&& is_flag(s[6], "Follow the material"@, "Move the level range with the music rather than holding it fixed"@, None, Flag::AdaptiveRange, ctx.switches)
    &&& is_number(s[7], "Contrast"@, "How much of the quiet end is pushed to black"@, Number::Contrast)
    &&& is_number(s[8], "Floor"@, "The level the darkest colour means, when the range is fixed"@, Number::FloorDb)
    &&& is_number(s[9], "Ceiling"@, "The level the brightest colour means, when the range is fixed"@, Number::CeilingDb)
    &&& is_separator(s[10])
    &&& is_number(s[11], "Attack"@, "How fast a curve rises to a new level"@, Number::AttackMs)
    &&& is_number(s[12], "Release"@, "How fast a curve falls away from one"@, Number::ReleaseMs)
}

fn analysis(ctx: &Context) -> (r: Vec<Item>)
    ensures
        analysis_items(r@, *ctx),
{
    let r = vec![
        choice_item("Channels", "Which pair of channels the panes show", choice_picks_alike(&pair_choices(), "Which pair of channels the panes show", &ctx.chosen)),
        choice_item("Resolution", "How large the transforms are: detail against delay", choice_picks_alike(&quality_choices(), "How large the transforms are", &ctx.chosen)),
        choice_item("Window", "The window each transform is taken through", choice_picks_alike(&window_choices(), "The window each transform is taken through", &ctx.chosen)),
        choice_item("Band aggregate", "Whether a band takes the loudest bin in it or sums their energy", choice_picks_alike(&aggregate_choices(), "Whether a band takes its loudest bin or sums their energy", &ctx.chosen)),
        separator(),
        number_item("Tilt", "Lift the top end so the treble isn't a thin line under the bass", Number::Tilt),
        flag_item("Follow the material", "Move the level range with the music rather than holding it fixed", None, Flag::AdaptiveRange, &ctx.switches),
        number_item("Contrast", "How much of the quiet end is pushed to black", Number::Contrast),
        number_item("Floor", "The level the darkest colour means, when the range is fixed", Number::FloorDb),
        number_item("Ceiling", "The level the brightest colour means, when the range is fixed", Number::CeilingDb),
        separator(),
        number_item("Attack", "How fast a curve rises to a new level", Number::AttackMs),
        number_item("Release", "How fast a curve falls away from one", Number::ReleaseMs),
    ];
    r
}

/// The spectrum submenu: the curve strip and its traces.
pub open spec fn spectrum_items(s: Seq<Item>, ctx: Context) -> bool {
    &&& s.len() == 18
    &&& is_number(s[0], "Width"@, "How much of each pane the curve strip takes"@, Number::CurveWidthPct)
    &&& is_choice(s[1], "Style"@, "Whether the curve is a line, bars or an LED ladder"@, |p: Seq<Pick>| are_choice_picks(p, seq![Choice::Style(CurveStyle::Line), Choice::Style(CurveStyle::Bars), Choice::Style(CurveStyle::Led)], same_help("How the curve is drawn"@, 3), ctx.chosen))
    &&& is_command(s[2], "Next style"@, "Move on to the next curve style"@, Some("B"@), Command::NextStyle, true)
    &&& is_choice(s[3], "Interpolation"@, "How the curve runs between the bands it is made of"@, |p: Seq<Pick>| are_choice_picks(p, seq![Choice::Interp(CurveInterpolation::PeakFlat), Choice::Interp(CurveInterpolation::LinearSmooth), Choice::Interp(CurveInterpolation::CubicSpline)], same_help("How the curve runs between its bands"@, 3), ctx.chosen))
    &&& is_choice(s[4], "Smoothing"@, "How hard neighbouring bands are averaged together"@, |p: Seq<Pick>| are_choice_picks(p, seq![Choice::Filter(FilteringAmount::Off), Choice::Filter(FilteringAmount::Light), Choice::Filter(FilteringAmount::Medium), Choice::Filter(FilteringAmount::Strong)], same_help("How hard neighbouring bands are averaged"@, 4), ctx.chosen))
    &&& is_choice(s[5], "Background"@, "The pattern behind the curve"@, |p: Seq<Pick>| are_choice_picks(p, seq![Choice::Background(GraphBackground::Plain), Choice::Background(GraphBackground::Lines), Choice::Background(GraphBackground::Grid), Choice::Background(GraphBackground::Chessboard)], same_help("The pattern behind the curve"@, 4), ctx.chosen))
    &&& is_separator(s[6])
    &&& is_flag(s[7], "Peak trace"@, "A held maximum that decays slowly"@, Some("P"@), Flag::ShowMax, ctx.switches)
    &&& is_number(s[8], "Peak decay"@, "How fast the held maximum lets go of a peak"@, Number::PeakDecay)
    &&& is_flag(s[9], "Average trace"@, "The running average of the spectrum"@, None, Flag::ShowAvg, ctx.switches)
    &&& is_number(s[10], "Average window"@, "How long the average trace takes to follow a change"@, Number::AverageSeconds)
    &&& is_flag(s[11], "Minimum trace"@, "The quietest level each band has reached"@, None, Flag::ShowMin, ctx.switches)
    &&& is_flag(s[12], "Fill under the curve"@, "Shade the area beneath the line"@, None, Flag::SolidFill, ctx.switches)
    &&& is_separator(s[13])
    &&& is_flag(s[14], "Curve beside the gutter"@, "Put the curve strip on the inner edge of each pane"@, None, Flag::CurveOnLeft, ctx.switches)
    &&& is_flag(s[15], "Mirror the left pane"@, "Both newest columns meet in the middle, so history flows outward"@, None, Flag::MirrorLeftPane, ctx.switches)
    &&& is_number(s[16], "Bar width"@, "How wide one bar is, in the bar and LED styles"@, Number::BarSize)
    &&& is_number(s[17], "LED segment"@, "How tall one lit segment is in the LED style"@, Number::LedSegment)
}

fn spectrum(ctx: &Context) -> (r: Vec<Item>)
    ensures
        spectrum_items(r@, *ctx),
{
    let r = vec![
        number_item("Width", "How much of each pane the curve strip takes", Number::CurveWidthPct),
        choice_item("Style", "Whether the curve is a line, bars or an LED ladder", choice_picks_alike(&style_choices(), "How the curve is drawn", &ctx.chosen)),
        command_item("Next style", "Move on to the next curve style", Some("B"), Command::NextStyle, true),
        choice_item("Interpolation", "How the curve runs between the bands it is made of", choice_picks_alike(&interp_choices(), "How the curve runs between its bands", &ctx.chosen)),
        choice_item("Smoothing", "How hard neighbouring bands are averaged together", choice_picks_alike(&filter_choices(), "How hard neighbouring bands are averaged", &ctx.chosen)),
        choice_item("Background", "The pattern behind the curve", choice_picks_alike(&background_choices(), "The pattern behind the curve", &ctx.chosen)),
        separator(),
        flag_item("Peak trace", "A held maximum that decays slowly", Some("P"), Flag::ShowMax, &ctx.switches),
        number_item("Peak decay", "How fast the held maximum lets go of a peak", Number::PeakDecay),
        flag_item("Average trace", "The running average of the spectrum", None, Flag::ShowAvg, &ctx.switches),
        number_item("Average window", "How long the average trace takes to follow a change", Number::AverageSeconds),
        flag_item("Minimum trace", "The quietest level each band has reached", None, Flag::ShowMin, &ctx.switches),
        flag_item("Fill under the curve", "Shade the area beneath the line", None, Flag::SolidFill, &ctx.switches),
        separator(),
        flag_item("Curve beside the gutter", "Put the curve strip on the inner edge of each pane", None, Flag::CurveOnLeft, &ctx.switches),
        flag_item("Mirror the left pane", "Both newest columns meet in the middle, so history flows outward", None, Flag::MirrorLeftPane, &ctx.switches),
        number_item("Bar width", "How wide one bar is, in the bar and LED styles", Number::BarSize),
        number_item("LED segment", "How tall one lit segment is in the LED style", Number::LedSegment),
    ];
    r
}

/// The spectrogram submenu: colours, the frequency axis and the scroll.
pub open spec fn spectrogram_items(s: Seq<Item>, ctx: Context) -> bool {
    &&& s.len() == 10
    &&& is_choice(s[0], "Palette"@, "The colours levels are drawn in"@, |p: Seq<Pick>| are_choice_picks(p, seq![Choice::Palette(PaletteKind::Magma), Choice::Palette(PaletteKind::Inferno), Choice::Palette(PaletteKind::Viridis), Choice::Palette(PaletteKind::Turbo), Choice::Palette(PaletteKind::NostalgiaRed), Choice::Palette(PaletteKind::Ice), Choice::Palette(PaletteKind::Grey), Choice::Palette(PaletteKind::Plasma), Choice::Palette(PaletteKind::Cividis), Choice::Palette(PaletteKind::Twilight), Choice::Palette(PaletteKind::Ocean), Choice::Palette(PaletteKind::Phosphor), Choice::Palette(PaletteKind::Ember)], seq![PaletteKind::Magma.spec_about(), PaletteKind::Inferno.spec_about(), PaletteKind::Viridis.spec_about(), PaletteKind::Turbo.spec_about(), PaletteKind::NostalgiaRed.spec_about(), PaletteKind::Ice.spec_about(), PaletteKind::Grey.spec_about(), PaletteKind::Plasma.spec_about(), PaletteKind::Cividis.spec_about(), PaletteKind::Twilight.spec_about(), PaletteKind::Ocean.spec_about(), PaletteKind::Phosphor.spec_about(), PaletteKind::Ember.spec_about()], ctx.chosen))
    &&& is_command(s[1], "Next palette"@, "Move on to the next palette"@, Some("C"@), Command::NextPalette, true)
    &&& is_separator(s[2])
    &&& is_choice(s[3], "Frequency axis"@, "How frequency is spread across the axis"@, |p: Seq<Pick>| are_choice_picks(p, seq![Choice::Scale(FreqScale::Linear), Choice::Scale(FreqScale::Log), Choice::Scale(FreqScale::Note)], same_help("How frequency is spread across the axis"@, 3), ctx.chosen))
    &&& is_number(s[4], "Lowest frequency"@, "Where the axis starts"@, Number::Fmin)
    &&& is_number(s[5], "Highest frequency"@, "Where the axis ends"@, Number::Fmax)
    &&& is_separator(s[6])
    &&& is_number(s[7], "Scroll speed"@, "How many rows of history a second of sound becomes"@, Number::RowsPerSecond)
    &&& is_number(s[8], "Zoom"@, "How many screen pixels one row is drawn across"@, Number::PxPerRow)
    &&& is_flag(s[9], "Blend between rows"@, "Fade between rows rather than stepping, so slow scrolling stays smooth"@, None, Flag::SmoothTime, ctx.switches)
}

fn spectrogram(ctx: &Context) -> (r: Vec<Item>)
    ensures
        spectrogram_items(r@, *ctx),
{
    let r = vec![
        choice_item("Palette", "The colours levels are drawn in", choice_picks(&palette_choices(), &palette_helps(), &ctx.chosen)),
        command_item("Next palette", "Move on to the next palette", Some("C"), Command::NextPalette, true),
        separator(),
        choice_item("Frequency axis", "How frequency is spread across the axis", choice_picks_alike(&scale_choices(), "How frequency is spread across the axis", &ctx.chosen)),
        number_item("Lowest frequency", "Where the axis starts", Number::Fmin),
        number_item("Highest frequency", "Where the axis ends", Number::Fmax),
        separator(),
        number_item("Scroll speed", "How many rows of history a second of sound becomes", Number::RowsPerSecond),
        number_item("Zoom", "How many screen pixels one row is drawn across", Number::PxPerRow),
        flag_item("Blend between rows", "Fade between rows rather than stepping, so slow scrolling stays smooth", None, Flag::SmoothTime, &ctx.switches),
    ];
    r
}

/// The scales and labels submenu, with the hover readout inside it.
pub open spec fn axes_items(s: Seq<Item>, ctx: Context) -> bool {
    &&& s.len() == 17
    &&& is_flag(s[0], "Grid"@, "Lines across the image at the frequencies labelled"@, Some("G"@), Flag::ShowGrid, ctx.switches)
    &&& is_flag(s[1], "Axis labels"@, "The frequencies written along the gutter"@, None, Flag::ShowAxisLabels, ctx.switches)
    &&& is_choice(s[2], "Labels read as"@, "Whether the axis is labelled in notes, hertz or both"@, |p: Seq<Pick>| are_choice_picks(p, seq![Choice::Labels(AxisLabelMode::Notes), Choice::Labels(AxisLabelMode::Frequency), Choice::Labels(AxisLabelMode::Both)], same_help("Whether the axis is labelled in notes, hertz or both"@, 3), ctx.chosen))
    &&& is_flag(s[3], "Repeat at the edges"@, "Label columns at both outer edges as well"@, None, Flag::ShowOuterLabels, ctx.switches)
    &&& is_flag(s[4], "Semitone lines"@, "A faint line at every semitone, where there is room"@, None, Flag::ShowSemitones, ctx.switches)
    &&& is_flag(s[5], "Channel names"@, "The L and R written in the corner of each pane"@, None, Flag::ShowLabels, ctx.switches)
    &&& is_flag(s[6], "Level scale"@, "The dB scale along the curve strip"@, None, Flag::ShowDbScale, ctx.switches)
    &&& is_flag(s[7], "Time marks"@, "Seconds marked along the image"@, None, Flag::ShowTimeMarks, ctx.switches)
    &&& is_separator(s[8])
    &&& is_flag(s[9], "Scale strip"@, "Keep a strip at one end for the scales"@, None, Flag::ReserveScaleSpace, ctx.switches)
    &&& is_choice(s[10], "Strip at"@, "Which end of the panes the scale strip sits at, or both"@, |p: Seq<Pick>| are_choice_picks(p, seq![Choice::ScaleLane(ScaleLanePosition::Top), Choice::ScaleLane(ScaleLanePosition::Bottom)], seq!["Over the image"@, "Under the image"@], ctx.chosen))
    &&& is_flag(s[11], "Unit captions"@, "The words under the scales saying what they measure"@, None, Flag::ShowScaleUnits, ctx.switches)
    &&& is_separator(s[12])
    &&& is_number(s[13], "Text size"@, "How large the axis, scale and readout text is"@, Number::LabelFontSize)
    &&& is_number(s[14], "Centre gutter"@, "How wide the labelled strip between the panes is"@, Number::GutterWidth)
    &&& is_separator(s[15])
    &&& is_submenu(s[16], "Hover readout"@, "What the pointer reads out of the picture"@, |s: Seq<Item>| hover_items(s, ctx))
}

fn axes(ctx: &Context) -> (r: Vec<Item>)
    ensures
        axes_items(r@, *ctx),
{
    let r = vec![
        flag_item("Grid", "Lines across the image at the frequencies labelled", Some("G"), Flag::ShowGrid, &ctx.switches),
        flag_item("Axis labels", "The frequencies written along the gutter", None, Flag::ShowAxisLabels, &ctx.switches),
        choice_item("Labels read as", "Whether the axis is labelled in notes, hertz or both", choice_picks_alike(&labels_choices(), "Whether the axis is labelled in notes, hertz or both", &ctx.chosen)),
        flag_item("Repeat at the edges", "Label columns at both outer edges as well", None, Flag::ShowOuterLabels, &ctx.switches),
        flag_item("Semitone lines", "A faint line at every semitone, where there is room", None, Flag::ShowSemitones, &ctx.switches),
        flag_item("Channel names", "The L and R written in the corner of each pane", None, Flag::ShowLabels, &ctx.switches),
        flag_item("Level scale", "The dB scale along the curve strip", None, Flag::ShowDbScale, &ctx.switches),
        flag_item("Time marks", "Seconds marked along the image", None, Flag::ShowTimeMarks, &ctx.switches),
        separator(),
        flag_item("Scale strip", "Keep a strip at one end for the scales", None, Flag::ReserveScaleSpace, &ctx.switches),
        choice_item("Strip at", "Which end of the panes the scale strip sits at, or both", choice_picks(&scalelane_choices(), &scalelane_helps(), &ctx.chosen)),
        flag_item("Unit captions", "The words under the scales saying what they measure", None, Flag::ShowScaleUnits, &ctx.switches),
        separator(),
        number_item("Text size", "How large the axis, scale and readout text is", Number::LabelFontSize),
        number_item("Centre gutter", "How wide the labelled strip between the panes is", Number::GutterWidth),
        separator(),
        submenu_item("Hover readout", "What the pointer reads out of the picture", hover(ctx)),
    ];
    r
}

/// The full-screen treatment.
pub open spec fn immersive_items(s: Seq<Item>, ctx: Context) -> bool {
    &&& s.len() == 10
    &&& is_flag(s[0], "Immersive mode"@, "The full-screen treatment: glow, fading chrome and a backdrop"@, Some("I"@), Flag::Immersive, ctx.switches)
    &&& is_flag(s[1], "Glow"@, "Bright parts of the image bleed light into what is around them"@, None, Flag::Glow, ctx.switches)
    &&& is_flag(s[2], "Hide the chrome"@, "Fade the furniture and the pointer away while nothing moves"@, None, Flag::AutoHide, ctx.switches)
    &&& is_flag(s[3], "Cinematic"@, "Quarter the scroll speed, for watching rather than reading"@, None, Flag::Cinematic, ctx.switches)
    &&& is_separator(s[4])
    &&& is_flag(s[5], "Artwork backdrop"@, "The album cover, blurred, behind the analysis"@, None, Flag::Backdrop, ctx.switches)
    &&& is_number(s[6], "Backdrop strength"@, "How far forward the backdrop comes"@, Number::BackdropPct)
    &&& is_flag(s[7], "Beat flare"@, "A pulse of light at each beat"@, None, Flag::BeatReactive, ctx.switches)
    &&& is_flag(s[8], "Colour follows the music"@, "Drift the palette with the spectrum's brightness"@, None, Flag::ColourFollows, ctx.switches)
    &&& is_number(s[9], "Colour drift"@, "How far the palette is allowed to drift"@, Number::ColourFollowDegrees)
}

fn immersive(ctx: &Context) -> (r: Vec<Item>)
    ensures
        immersive_items(r@, *ctx),
{
    let r = vec![
        flag_item("Immersive mode", "The full-screen treatment: glow, fading chrome and a backdrop", Some("I"), Flag::Immersive, &ctx.switches),
        flag_item("Glow", "Bright parts of the image bleed light into what is around them", None, Flag::Glow, &ctx.switches),
        flag_item("Hide the chrome", "Fade the furniture and the pointer away while nothing moves", None, Flag::AutoHide, &ctx.switches),
        flag_item("Cinematic", "Quarter the scroll speed, for watching rather than reading", None, Flag::Cinematic, &ctx.switches),
        separator(),
        flag_item("Artwork backdrop", "The album cover, blurred, behind the analysis", None, Flag::Backdrop, &ctx.switches),
        number_item("Backdrop strength", "How far forward the backdrop comes", Number::BackdropPct),
        flag_item("Beat flare", "A pulse of light at each beat", None, Flag::BeatReactive, &ctx.switches),
        flag_item("Colour follows the music", "Drift the palette with the spectrum's brightness", None, Flag::ColourFollows, &ctx.switches),
        number_item("Colour drift", "How far the palette is allowed to drift", Number::ColourFollowDegrees),
    ];
    r
}

/// Frame rate and how frames reach the screen.
pub open spec fn performance_items(s: Seq<Item>, ctx: Context) -> bool {
    &&& s.len() == 2
    &&& is_choice(s[0], "Redraw"@, "How often the screen is redrawn; scrolling follows audio time either way"@, |p: Seq<Pick>| are_choice_picks(p, seq![Choice::Cap(FrameCap::Display), Choice::Cap(FrameCap::Fps60), Choice::Cap(FrameCap::Fps30)], same_help("How often the screen is redrawn"@, 3), ctx.chosen))
    &&& is_presentation_item(s[1], ctx)
}

fn performance(ctx: &Context) -> (r: Vec<Item>)
    ensures
        performance_items(r@, *ctx),
{
    let r = vec![
        choice_item("Redraw", "How often the screen is redrawn; scrolling follows audio time either way", choice_picks_alike(&cap_choices(), "How often the screen is redrawn", &ctx.chosen)),
        presentation_item(ctx),
    ];
    r
}

/// The player: which one is followed, and the three things it can be asked.
pub open spec fn playback_items(s: Seq<Item>, ctx: Context) -> bool {
    &&& s.len() == 5
    &&& is_follow_item(s[0], ctx)
    &&& is_separator(s[1])
    &&& is_command(s[2], "Play or pause"@, "Ask the player to play or pause"@, None, Command::Send(Transport::PlayPause), ctx.controls.play_pause)
    &&& is_command(s[3], "Next track"@, "Ask the player for the next track"@, None, Command::Send(Transport::Next), ctx.controls.next)
    &&& is_command(s[4], "Previous track"@, "Ask the player for the previous track"@, None, Command::Send(Transport::Previous), ctx.controls.previous)
}

fn playback(ctx: &Context) -> (r: Vec<Item>)
    ensures
        playback_items(r@, *ctx),
{
    let r = vec![
        follow_item(ctx),
        separator(),
        command_item("Play or pause", "Ask the player to play or pause", None, Command::Send(Transport::PlayPause), ctx.controls.play_pause),
        command_item("Next track", "Ask the player for the next track", None, Command::Send(Transport::Next), ctx.controls.next),
        command_item("Previous track", "Ask the player for the previous track", None, Command::Send(Transport::Previous), ctx.controls.previous),
    ];
    r
}

/// The whole menu for the state in `ctx`, item by item: the presets first, then what is
/// being listened to, the groups that are the picture itself, the things done to a
/// running picture, which carry the keys, the app's own three, and `Close menu` last
/// and alone.
pub open spec fn menu_tree(s: Seq<Item>, ctx: Context) -> bool {
    &&& s.len() == 24
    &&& is_submenu(s[0], "Presets"@, "Whole sets of settings for a way of listening"@, |s: Seq<Item>| preset_items(s, ctx))
    &&& is_separator(s[1])
    &&& is_capture_item(s[2], ctx)
    &&& is_submenu(s[3], "Playback"@, "Which player is followed, and what to ask it to do"@, |s: Seq<Item>| playback_items(s, ctx))
    &&& is_separator(s[4])
    &&& is_submenu(s[5], "Analysis"@, "How the sound is measured"@, |s: Seq<Item>| analysis_items(s, ctx))
    &&& is_submenu(s[6], "Spectrogram"@, "The scrolling image: its colours, its axis and how fast it runs"@, |s: Seq<Item>| spectrogram_items(s, ctx))
    &&& is_submenu(s[7], "Spectrum"@, "The curve strip beside each image"@, |s: Seq<Item>| spectrum_items(s, ctx))
    &&& is_submenu(s[8], "Scales and labels"@, "The grid, the scales, their text and what the pointer reads out"@, |s: Seq<Item>| axes_items(s, ctx))
    &&& is_submenu(s[9], "Panels"@, "The deck, the lanes, the quick bar and the other furniture"@, |s: Seq<Item>| panel_items(s, ctx))
    &&& is_submenu(s[10], "Look and immersion"@, "The full-screen treatment: glow, backdrop and the beat"@, |s: Seq<Item>| immersive_items(s, ctx))
    &&& is_submenu(s[11], "Performance"@, "Frame rate, and how finished frames reach the screen"@, |s: Seq<Item>| performance_items(s, ctx))
    &&& is_separator(s[12])
    &&& is_check(s[13], "Freeze"@, "Hold the picture still; analysis carries on"@, Some("Space"@), Command::Freeze, ctx.session.frozen)
    &&& is_command(s[14], "Live"@, "Put the image back on now, at the plain zoom"@, Some("End"@), Command::GoLive, true)
    &&& is_check(s[15], "Reference curve"@, "Hold the average spectrum in amber to compare against, or drop it"@, Some("A"@), Command::Reference, ctx.session.reference)
    &&& is_check(s[16], "Fullscreen"@, "Fill the monitor the window is on"@, Some("F11"@), Command::Fullscreen, ctx.session.fullscreen)
    &&& is_command(s[17], "Leave fullscreen"@, "Go back to a window"@, Some("Esc"@), Command::LeaveFullscreen, ctx.session.fullscreen)
    &&& is_separator(s[18])
    &&& is_check(s[19], "Help"@, "Every command, with its key and what it does"@, Some("F1"@), Command::Help, ctx.session.help)
    &&& is_command(s[20], "Reset every setting"@, "Put everything back to its default"@, None, Command::ResetSettings, true)
    &&& is_command(s[21], "Quit Sonorant"@, "Stop the program"@, None, Command::Quit, true)
    &&& is_separator(s[22])
    &&& is_command(s[23], "Close menu"@, "Put the menu away. Esc does the same, as does clicking outside it"@, None, Command::CloseMenu, true)
}

/// Builds the whole menu for the state in `ctx`.
///
/// The order is what you reach for, not what the settings happen to list: the presets,
/// because one of them is often the whole answer; then what is being listened to; then
/// the groups that are the picture itself; then the things done to a running picture,
/// which carry the keys; then the app's own three. `Close menu` is last and alone,
/// because it is the way out rather than another thing the menu does.
pub fn tree(ctx: &Context) -> (items: Vec<Item>)
    ensures
        menu_tree(items@, *ctx),
{
    let r = vec![
        submenu_item("Presets", "Whole sets of settings for a way of listening", presets(ctx)),
        separator(),
        capture_item(ctx),
        submenu_item("Playback", "Which player is followed, and what to ask it to do", playback(ctx)),
        separator(),
        submenu_item("Analysis", "How the sound is measured", analysis(ctx)),
        submenu_item("Spectrogram", "The scrolling image: its colours, its axis and how fast it runs", spectrogram(ctx)),
        submenu_item("Spectrum", "The curve strip beside each image", spectrum(ctx)),
        submenu_item("Scales and labels", "The grid, the scales, their text and what the pointer reads out", axes(ctx)),
        submenu_item("Panels", "The deck, the lanes, the quick bar and the other furniture", panels(ctx)),
        submenu_item("Look and immersion", "The full-screen treatment: glow, backdrop and the beat", immersive(ctx)),
        submenu_item("Performance", "Frame rate, and how finished frames reach the screen", performance(ctx)),
        separator(),
        check_item("Freeze", "Hold the picture still; analysis carries on", Some("Space"), Command::Freeze, ctx.session.frozen),
        command_item("Live", "Put the image back on now, at the plain zoom", Some("End"), Command::GoLive, true),
        check_item("Reference curve", "Hold the average spectrum in amber to compare against, or drop it", Some("A"), Command::Reference, ctx.session.reference),
        check_item("Fullscreen", "Fill the monitor the window is on", Some("F11"), Command::Fullscreen, ctx.session.fullscreen),
        command_item("Leave fullscreen", "Go back to a window", Some("Esc"), Command::LeaveFullscreen, ctx.session.fullscreen),
        separator(),
        check_item("Help", "Every command, with its key and what it does", Some("F1"), Command::Help, ctx.session.help),
        command_item("Reset every setting", "Put everything back to its default", None, Command::ResetSettings, true),
        command_item("Quit Sonorant", "Stop the program", None, Command::Quit, true),
        separator(),
        command_item("Close menu", "Put the menu away. Esc does the same, as does clicking outside it", None, Command::CloseMenu, true),
    ];
    r
}

fn aggregate_choices() -> (r: Vec<Choice>)
    ensures
        r@ == seq![Choice::Aggregate(BandAggregate::Peak), Choice::Aggregate(BandAggregate::Energy)],
{
    let r = vec![Choice::Aggregate(BandAggregate::Peak), Choice::Aggregate(BandAggregate::Energy)];
    proof {
        assert(r@ =~= seq![Choice::Aggregate(BandAggregate::Peak), Choice::Aggregate(BandAggregate::Energy)]);
    }
    r
}

fn background_choices() -> (r: Vec<Choice>)
    ensures
        r@ == seq![Choice::Background(GraphBackground::Plain), Choice::Background(GraphBackground::Lines), Choice::Background(GraphBackground::Grid), Choice::Background(GraphBackground::Chessboard)],
{
    let r = vec![Choice::Background(GraphBackground::Plain), Choice::Background(GraphBackground::Lines), Choice::Background(GraphBackground::Grid), Choice::Background(GraphBackground::Chessboard)];
    proof {
        assert(r@ =~= seq![Choice::Background(GraphBackground::Plain), Choice::Background(GraphBackground::Lines), Choice::Background(GraphBackground::Grid), Choice::Background(GraphBackground::Chessboard)]);
    }
    r
}

fn cap_choices() -> (r: Vec<Choice>)
    ensures
        r@ == seq![Choice::Cap(FrameCap::Display), Choice::Cap(FrameCap::Fps60), Choice::Cap(FrameCap::Fps30)],
{
    let r = vec![Choice::Cap(FrameCap::Display), Choice::Cap(FrameCap::Fps60), Choice::Cap(FrameCap::Fps30)];
    proof {
        assert(r@ =~= seq![Choice::Cap(FrameCap::Display), Choice::Cap(FrameCap::Fps60), Choice::Cap(FrameCap::Fps30)]);
    }
    r
}

fn filter_choices() -> (r: Vec<Choice>)
    ensures
        r@ == seq![Choice::Filter(FilteringAmount::Off), Choice::Filter(FilteringAmount::Light), Choice::Filter(FilteringAmount::Medium), Choice::Filter(FilteringAmount::Strong)],
{
    let r = vec![Choice::Filter(FilteringAmount::Off), Choice::Filter(FilteringAmount::Light), Choice::Filter(FilteringAmount::Medium), Choice::Filter(FilteringAmount::Strong)];
    proof {
        assert(r@ =~= seq![Choice::Filter(FilteringAmount::Off), Choice::Filter(FilteringAmount::Light), Choice::Filter(FilteringAmount::Medium), Choice::Filter(FilteringAmount::Strong)]);
    }
    r
}

fn interp_choices() -> (r: Vec<Choice>)
    ensures
        r@ == seq![Choice::Interp(CurveInterpolation::PeakFlat), Choice::Interp(CurveInterpolation::LinearSmooth), Choice::Interp(CurveInterpolation::CubicSpline)],
{
    let r = vec![Choice::Interp(CurveInterpolation::PeakFlat), Choice::Interp(CurveInterpolation::LinearSmooth), Choice::Interp(CurveInterpolation::CubicSpline)];
    proof {
        assert(r@ =~= seq![Choice::Interp(CurveInterpolation::PeakFlat), Choice::Interp(CurveInterpolation::LinearSmooth), Choice::Interp(CurveInterpolation::CubicSpline)]);
    }
    r
}

fn labels_choices() -> (r: Vec<Choice>)
    ensures
        r@ == seq![Choice::Labels(AxisLabelMode::Notes), Choice::Labels(AxisLabelMode::Frequency), Choice::Labels(AxisLabelMode::Both)],
{
    let r = vec![Choice::Labels(AxisLabelMode::Notes), Choice::Labels(AxisLabelMode::Frequency), Choice::Labels(AxisLabelMode::Both)];
    proof {
        assert(r@ =~= seq![Choice::Labels(AxisLabelMode::Notes), Choice::Labels(AxisLabelMode::Frequency), Choice::Labels(AxisLabelMode::Both)]);
    }
    r
}

fn pair_choices() -> (r: Vec<Choice>)
    ensures
        r@ == seq![Choice::Pair(ChannelPairMode::LeftRight), Choice::Pair(ChannelPairMode::MidSide), Choice::Pair(ChannelPairMode::LeftOnly), Choice::Pair(ChannelPairMode::RightOnly)],
{
    let r = vec![Choice::Pair(ChannelPairMode::LeftRight), Choice::Pair(ChannelPairMode::MidSide), Choice::Pair(ChannelPairMode::LeftOnly), Choice::Pair(ChannelPairMode::RightOnly)];
    proof {
        assert(r@ =~= seq![Choice::Pair(ChannelPairMode::LeftRight), Choice::Pair(ChannelPairMode::MidSide), Choice::Pair(ChannelPairMode::LeftOnly), Choice::Pair(ChannelPairMode::RightOnly)]);
    }
    r
}

fn palette_choices() -> (r: Vec<Choice>)
    ensures
        r@ == seq![Choice::Palette(PaletteKind::Magma), Choice::Palette(PaletteKind::Inferno), Choice::Palette(PaletteKind::Viridis), Choice::Palette(PaletteKind::Turbo), Choice::Palette(PaletteKind::NostalgiaRed), Choice::Palette(PaletteKind::Ice), Choice::Palette(PaletteKind::Grey), Choice::Palette(PaletteKind::Plasma), Choice::Palette(PaletteKind::Cividis), Choice::Palette(PaletteKind::Twilight), Choice::Palette(PaletteKind::Ocean), Choice::Palette(PaletteKind::Phosphor), Choice::Palette(PaletteKind::Ember)],
{
    let r = vec![Choice::Palette(PaletteKind::Magma), Choice::Palette(PaletteKind::Inferno), Choice::Palette(PaletteKind::Viridis), Choice::Palette(PaletteKind::Turbo), Choice::Palette(PaletteKind::NostalgiaRed), Choice::Palette(PaletteKind::Ice), Choice::Palette(PaletteKind::Grey), Choice::Palette(PaletteKind::Plasma), Choice::Palette(PaletteKind::Cividis), Choice::Palette(PaletteKind::Twilight), Choice::Palette(PaletteKind::Ocean), Choice::Palette(PaletteKind::Phosphor), Choice::Palette(PaletteKind::Ember)];
    proof {
        assert(r@ =~= seq![Choice::Palette(PaletteKind::Magma), Choice::Palette(PaletteKind::Inferno), Choice::Palette(PaletteKind::Viridis), Choice::Palette(PaletteKind::Turbo), Choice::Palette(PaletteKind::NostalgiaRed), Choice::Palette(PaletteKind::Ice), Choice::Palette(PaletteKind::Grey), Choice::Palette(PaletteKind::Plasma), Choice::Palette(PaletteKind::Cividis), Choice::Palette(PaletteKind::Twilight), Choice::Palette(PaletteKind::Ocean), Choice::Palette(PaletteKind::Phosphor), Choice::Palette(PaletteKind::Ember)]);
    }
    r
}

fn quality_choices() -> (r: Vec<Choice>)
    ensures
        r@ == seq![Choice::Quality(AnalysisQuality::Fast), Choice::Quality(AnalysisQuality::Balanced), Choice::Quality(AnalysisQuality::High), Choice::Quality(AnalysisQuality::LowLatency)],
{
    let r = vec![Choice::Quality(AnalysisQuality::Fast), Choice::Quality(AnalysisQuality::Balanced), Choice::Quality(AnalysisQuality::High), Choice::Quality(AnalysisQuality::LowLatency)];
    proof {
        assert(r@ =~= seq![Choice::Quality(AnalysisQuality::Fast), Choice::Quality(AnalysisQuality::Balanced), Choice::Quality(AnalysisQuality::High), Choice::Quality(AnalysisQuality::LowLatency)]);
    }
    r
}

fn scale_choices() -> (r: Vec<Choice>)
    ensures
        r@ == seq![Choice::Scale(FreqScale::Linear), Choice::Scale(FreqScale::Log), Choice::Scale(FreqScale::Note)],
{
    let r = vec![Choice::Scale(FreqScale::Linear), Choice::Scale(FreqScale::Log), Choice::Scale(FreqScale::Note)];
    proof {
        assert(r@ =~= seq![Choice::Scale(FreqScale::Linear), Choice::Scale(FreqScale::Log), Choice::Scale(FreqScale::Note)]);
    }
    r
}

fn scalelane_choices() -> (r: Vec<Choice>)
    ensures
        r@ == seq![Choice::ScaleLane(ScaleLanePosition::Top), Choice::ScaleLane(ScaleLanePosition::Bottom)],
{
    let r = vec![Choice::ScaleLane(ScaleLanePosition::Top), Choice::ScaleLane(ScaleLanePosition::Bottom)];
    proof {
        assert(r@ =~= seq![Choice::ScaleLane(ScaleLanePosition::Top), Choice::ScaleLane(ScaleLanePosition::Bottom)]);
    }
    r
}

fn style_choices() -> (r: Vec<Choice>)
    ensures
        r@ == seq![Choice::Style(CurveStyle::Line), Choice::Style(CurveStyle::Bars), Choice::Style(CurveStyle::Led)],
{
    let r = vec![Choice::Style(CurveStyle::Line), Choice::Style(CurveStyle::Bars), Choice::Style(CurveStyle::Led)];
    proof {
        assert(r@ =~= seq![Choice::Style(CurveStyle::Line), Choice::Style(CurveStyle::Bars), Choice::Style(CurveStyle::Led)]);
    }
    r
}

fn window_choices() -> (r: Vec<Choice>)
    ensures
        r@ == seq![Choice::Window(WindowType::Hann), Choice::Window(WindowType::Hamming), Choice::Window(WindowType::BlackmanHarris), Choice::Window(WindowType::Nuttall), Choice::Window(WindowType::Gaussian), Choice::Window(WindowType::Rectangular)],
{
    let r = vec![Choice::Window(WindowType::Hann), Choice::Window(WindowType::Hamming), Choice::Window(WindowType::BlackmanHarris), Choice::Window(WindowType::Nuttall), Choice::Window(WindowType::Gaussian), Choice::Window(WindowType::Rectangular)];
    proof {
        assert(r@ =~= seq![Choice::Window(WindowType::Hann), Choice::Window(WindowType::Hamming), Choice::Window(WindowType::BlackmanHarris), Choice::Window(WindowType::Nuttall), Choice::Window(WindowType::Gaussian), Choice::Window(WindowType::Rectangular)]);
    }
    r
}

fn palette_helps() -> (r: Vec<&'static str>)
    ensures
        r@.len() == 13,
        r@.map_values(|h: &'static str| h@) == seq![PaletteKind::Magma.spec_about(), PaletteKind::Inferno.spec_about(), PaletteKind::Viridis.spec_about(), PaletteKind::Turbo.spec_about(), PaletteKind::NostalgiaRed.spec_about(), PaletteKind::Ice.spec_about(), PaletteKind::Grey.spec_about(), PaletteKind::Plasma.spec_about(), PaletteKind::Cividis.spec_about(), PaletteKind::Twilight.spec_about(), PaletteKind::Ocean.spec_about(), PaletteKind::Phosphor.spec_about(), PaletteKind::Ember.spec_about()],
{
    let r = vec![PaletteKind::Magma.about(), PaletteKind::Inferno.about(), PaletteKind::Viridis.about(), PaletteKind::Turbo.about(), PaletteKind::NostalgiaRed.about(), PaletteKind::Ice.about(), PaletteKind::Grey.about(), PaletteKind::Plasma.about(), PaletteKind::Cividis.about(), PaletteKind::Twilight.about(), PaletteKind::Ocean.about(), PaletteKind::Phosphor.about(), PaletteKind::Ember.about()];
    proof {
        assert(r@.map_values(|h: &'static str| h@) =~= seq![PaletteKind::Magma.spec_about(), PaletteKind::Inferno.spec_about(), PaletteKind::Viridis.spec_about(), PaletteKind::Turbo.spec_about(), PaletteKind::NostalgiaRed.spec_about(), PaletteKind::Ice.spec_about(), PaletteKind::Grey.spec_about(), PaletteKind::Plasma.spec_about(), PaletteKind::Cividis.spec_about(), PaletteKind::Twilight.spec_about(), PaletteKind::Ocean.spec_about(), PaletteKind::Phosphor.spec_about(), PaletteKind::Ember.spec_about()]);
    }
    r
}

fn scalelane_helps() -> (r: Vec<&'static str>)
    ensures
        r@.len() == 2,
        r@.map_values(|h: &'static str| h@) == seq!["Over the image"@, "Under the image"@],
{
    let r = vec!["Over the image", "Under the image"];
    proof {
        assert(r@.map_values(|h: &'static str| h@) =~= seq!["Over the image"@, "Under the image"@]);
    }
    r
}

} // verus!

verus! {

/// The keys an item carries itself, and in its submenu if it is one.
pub open spec fn keys(items: Seq<Item>) -> Seq<Seq<char>>
    decreases items,
{
    if items.len() == 0 {
        Seq::empty()
    } else {
        let first = items[0];
        let own = match first.shortcut {
            Some(k) => seq![k@],
            None => Seq::empty(),
        };
        let inner = match first.kind {
            Kind::Submenu(children) => keys(children@),
            _ => Seq::empty(),
        };
        own + inner + keys(items.subrange(1, items.len() as int))
    }
}

/// No key in `ks` is the same key as another, in any ASCII case.
pub open spec fn keys_distinct(ks: Seq<Seq<char>>) -> bool {
    forall|i: int, j: int| 0 <= i < j < ks.len() ==> !text::eq_ignore_ascii_case(#[trigger] ks[i], #[trigger] ks[j])
}

/// The items of `s` from `k` on.
pub open spec fn from(s: Seq<Item>, k: int) -> Seq<Item> {
    s.subrange(k, s.len() as int)
}

proof fn lemma_keys_skip(s: Seq<Item>, k: int)
    requires
        0 <= k < s.len(),
        s[k].shortcut is None,
        !(s[k].kind is Submenu),
    ensures
        keys(from(s, k)) == keys(from(s, k + 1)),
{
    let t = from(s, k);
    assert(t[0] == s[k]);
    assert(t.subrange(1, t.len() as int) =~= from(s, k + 1));
    assert(keys(t) =~= keys(from(s, k + 1)));
}

proof fn lemma_keys_key(s: Seq<Item>, k: int, key: Seq<char>)
    requires
        0 <= k < s.len(),
        shortcut_of(s[k]) == Some(key),
        !(s[k].kind is Submenu),
    ensures
        keys(from(s, k)) == seq![key] + keys(from(s, k + 1)),
{
    let t = from(s, k);
    assert(t[0] == s[k]);
    assert(t.subrange(1, t.len() as int) =~= from(s, k + 1));
    assert(keys(t) =~= seq![key] + keys(from(s, k + 1)));
}

proof fn lemma_keys_into(s: Seq<Item>, k: int) -> (children: Vec<Item>)
    requires
        0 <= k < s.len(),
        s[k].shortcut is None,
        s[k].kind is Submenu,
    ensures
        s[k].kind == Kind::Submenu(children),
        keys(from(s, k)) == keys(children@) + keys(from(s, k + 1)),
{
    let t = from(s, k);
    assert(t[0] == s[k]);
    assert(t.subrange(1, t.len() as int) =~= from(s, k + 1));
    let children = s[k].kind->Submenu_0;
    assert(keys(t) =~= keys(children@) + keys(from(s, k + 1)));
    children
}

proof fn lemma_keys_end(s: Seq<Item>)
    ensures
        keys(from(s, s.len() as int)) == Seq::<Seq<char>>::empty(),
        keys(s) == keys(from(s, 0)),
{
    assert(from(s, s.len() as int) =~= Seq::<Item>::empty());
    assert(from(s, 0) =~= s);
}

/// Items that carry no key and open no submenu carry no key at all.
proof fn lemma_keys_none(s: Seq<Item>)
    requires
        forall|i: int| 0 <= i < s.len() ==> #[trigger] s[i].shortcut is None && !(s[i].kind is Submenu),
    ensures
        keys(s) == Seq::<Seq<char>>::empty(),
    decreases s.len(),
{
    if s.len() > 0 {
        let rest = s.subrange(1, s.len() as int);
        assert forall|i: int| 0 <= i < rest.len() implies #[trigger] rest[i].shortcut is None && !(rest[i].kind is Submenu) by {
            assert(rest[i] == s[i + 1]);
        }
        lemma_keys_none(rest);
        assert(keys(s) =~= Seq::<Seq<char>>::empty());
    }
}

} // verus!

verus! {
proof fn lemma_hover_keys(s: Seq<Item>, ctx: Context)
    requires
        hover_items(s, ctx),
    ensures
        keys(s) == Seq::<Seq<char>>::empty(),
{
    lemma_keys_end(s);
    lemma_keys_skip(s, 0);
    lemma_keys_skip(s, 1);
    lemma_keys_skip(s, 2);
    lemma_keys_skip(s, 3);
    lemma_keys_skip(s, 4);
    assert(keys(s) =~= Seq::<Seq<char>>::empty());
}

proof fn lemma_waveform_keys(s: Seq<Item>, ctx: Context)
    requires
        waveform_items(s, ctx),
    ensures
        keys(s) == seq!["W"@],
{
    lemma_keys_end(s);
    lemma_keys_key(s, 0, "W"@);
    lemma_keys_skip(s, 1);
    assert(keys(s) =~= seq!["W"@]);
}

proof fn lemma_deck_keys(s: Seq<Item>, ctx: Context)
    requires
        deck_items(s, ctx),
    ensures
        keys(s) == Seq::<Seq<char>>::empty(),
{
    lemma_keys_end(s);
    lemma_keys_skip(s, 0);
    lemma_keys_skip(s, 1);
    lemma_keys_skip(s, 2);
    lemma_keys_skip(s, 3);
    lemma_keys_skip(s, 4);
    lemma_keys_skip(s, 5);
    lemma_keys_skip(s, 6);
    lemma_keys_skip(s, 7);
    lemma_keys_skip(s, 8);
    lemma_keys_skip(s, 9);
    lemma_keys_skip(s, 10);
    lemma_keys_skip(s, 11);
    lemma_keys_skip(s, 12);
    lemma_keys_skip(s, 13);
    lemma_keys_skip(s, 14);
    lemma_keys_skip(s, 15);
    lemma_keys_skip(s, 16);
    lemma_keys_skip(s, 17);
    lemma_keys_skip(s, 18);
    assert(keys(s) =~= Seq::<Seq<char>>::empty());
}

proof fn lemma_quick_bar_keys(s: Seq<Item>, ctx: Context)
    requires
        quick_bar_items(s, ctx),
    ensures
        keys(s) == Seq::<Seq<char>>::empty(),
{
    lemma_keys_end(s);
    lemma_keys_skip(s, 0);
    lemma_keys_skip(s, 1);
    lemma_keys_skip(s, 2);
    assert(keys(s) =~= Seq::<Seq<char>>::empty());
}

proof fn lemma_panels_keys(s: Seq<Item>, ctx: Context)
    requires
        panel_items(s, ctx),
    ensures
        keys(s) == seq!["O"@, "W"@],
{
    lemma_keys_end(s);
    lemma_keys_key(s, 0, "O"@);
    lemma_keys_skip(s, 1);
    let c2 = lemma_keys_into(s, 2);
    lemma_deck_keys(c2@, ctx);
    let c3 = lemma_keys_into(s, 3);
    lemma_waveform_keys(c3@, ctx);
    let c4 = lemma_keys_into(s, 4);
    lemma_quick_bar_keys(c4@, ctx);
    lemma_keys_skip(s, 5);
    lemma_keys_skip(s, 6);
    lemma_keys_skip(s, 7);
    assert(keys(s) =~= seq!["O"@, "W"@]);
}

proof fn lemma_analysis_keys(s: Seq<Item>, ctx: Context)
    requires
        analysis_items(s, ctx),
    ensures
        keys(s) == Seq::<Seq<char>>::empty(),
{
    lemma_keys_end(s);
    lemma_keys_skip(s, 0);
    lemma_keys_skip(s, 1);
    lemma_keys_skip(s, 2);
    lemma_keys_skip(s, 3);
    lemma_keys_skip(s, 4);
    lemma_keys_skip(s, 5);
    lemma_keys_skip(s, 6);
    lemma_keys_skip(s, 7);
    lemma_keys_skip(s, 8);
    lemma_keys_skip(s, 9);
    lemma_keys_skip(s, 10);
    lemma_keys_skip(s, 11);
    lemma_keys_skip(s, 12);
    assert(keys(s) =~= Seq::<Seq<char>>::empty());
}

proof fn lemma_spectrum_keys(s: Seq<Item>, ctx: Context)
    requires
        spectrum_items(s, ctx),
    ensures
        keys(s) == seq!["B"@, "P"@],
{
    lemma_keys_end(s);
    lemma_keys_skip(s, 0);
    lemma_keys_skip(s, 1);
    lemma_keys_key(s, 2, "B"@);
    lemma_keys_skip(s, 3);
    lemma_keys_skip(s, 4);
    lemma_keys_skip(s, 5);
    lemma_keys_skip(s, 6);
    lemma_keys_key(s, 7, "P"@);
    lemma_keys_skip(s, 8);
    lemma_keys_skip(s, 9);
    lemma_keys_skip(s, 10);
    lemma_keys_skip(s, 11);
    lemma_keys_skip(s, 12);
    lemma_keys_skip(s, 13);
    lemma_keys_skip(s, 14);
    lemma_keys_skip(s, 15);
    lemma_keys_skip(s, 16);
    lemma_keys_skip(s, 17);
    assert(keys(s) =~= seq!["B"@, "P"@]);
}

proof fn lemma_spectrogram_keys(s: Seq<Item>, ctx: Context)
    requires
        spectrogram_items(s, ctx),
    ensures
        keys(s) == seq!["C"@],
{
    lemma_keys_end(s);
    lemma_keys_skip(s, 0);
    lemma_keys_key(s, 1, "C"@);
    lemma_keys_skip(s, 2);
    lemma_keys_skip(s, 3);
    lemma_keys_skip(s, 4);
    lemma_keys_skip(s, 5);
    lemma_keys_skip(s, 6);
    lemma_keys_skip(s, 7);
    lemma_keys_skip(s, 8);
    lemma_keys_skip(s, 9);
    assert(keys(s) =~= seq!["C"@]);
}

proof fn lemma_axes_keys(s: Seq<Item>, ctx: Context)
    requires
        axes_items(s, ctx),
    ensures
        keys(s) == seq!["G"@],
{
    lemma_keys_end(s);
    lemma_keys_key(s, 0, "G"@);
    lemma_keys_skip(s, 1);
    lemma_keys_skip(s, 2);
    lemma_keys_skip(s, 3);
    lemma_keys_skip(s, 4);
    lemma_keys_skip(s, 5);
    lemma_keys_skip(s, 6);
    lemma_keys_skip(s, 7);
    lemma_keys_skip(s, 8);
    lemma_keys_skip(s, 9);
    lemma_keys_skip(s, 10);
    lemma_keys_skip(s, 11);
    lemma_keys_skip(s, 12);
    lemma_keys_skip(s, 13);
    lemma_keys_skip(s, 14);
    lemma_keys_skip(s, 15);
    let c16 = lemma_keys_into(s, 16);
    lemma_hover_keys(c16@, ctx);
    assert(keys(s) =~= seq!["G"@]);
}

proof fn lemma_immersive_keys(s: Seq<Item>, ctx: Context)
    requires
        immersive_items(s, ctx),
    ensures
        keys(s) == seq!["I"@],
{
    lemma_keys_end(s);
    lemma_keys_key(s, 0, "I"@);
    lemma_keys_skip(s, 1);
    lemma_keys_skip(s, 2);
    lemma_keys_skip(s, 3);
    lemma_keys_skip(s, 4);
    lemma_keys_skip(s, 5);
    lemma_keys_skip(s, 6);
    lemma_keys_skip(s, 7);
    lemma_keys_skip(s, 8);
    lemma_keys_skip(s, 9);
    assert(keys(s) =~= seq!["I"@]);
}

proof fn lemma_performance_keys(s: Seq<Item>, ctx: Context)
    requires
        performance_items(s, ctx),
    ensures
        keys(s) == Seq::<Seq<char>>::empty(),
{
    lemma_keys_end(s);
    lemma_keys_skip(s, 0);
    lemma_keys_skip(s, 1);
    assert(keys(s) =~= Seq::<Seq<char>>::empty());
}

proof fn lemma_playback_keys(s: Seq<Item>, ctx: Context)
    requires
        playback_items(s, ctx),
    ensures
        keys(s) == Seq::<Seq<char>>::empty(),
{
    lemma_keys_end(s);
    lemma_keys_skip(s, 0);
    lemma_keys_skip(s, 1);
    lemma_keys_skip(s, 2);
    lemma_keys_skip(s, 3);
    lemma_keys_skip(s, 4);
    assert(keys(s) =~= Seq::<Seq<char>>::empty());
}

} // verus!

verus! {

/// Items that carry no key, and whose submenus carry none either, carry no key at all.
proof fn lemma_keys_none_deep(s: Seq<Item>)
    requires
        forall|i: int| 0 <= i < s.len() ==> (#[trigger] s[i]).shortcut is None && match s[i].kind {
            Kind::Submenu(children) => keys(children@) == Seq::<Seq<char>>::empty(),
            _ => true,
        },
    ensures
        keys(s) == Seq::<Seq<char>>::empty(),
    decreases s.len(),
{
    if s.len() > 0 {
        let rest = s.subrange(1, s.len() as int);
        assert forall|i: int| 0 <= i < rest.len() implies (#[trigger] rest[i]).shortcut is None && match rest[i].kind {
            Kind::Submenu(children) => keys(children@) == Seq::<Seq<char>>::empty(),
            _ => true,
        } by {
            assert(rest[i] == s[i + 1]);
        }
        lemma_keys_none_deep(rest);
        let first = s[0];
        assert(first.shortcut is None);
        assert(keys(s) =~= Seq::<Seq<char>>::empty());
    }
}

proof fn lemma_delete_keys(s: Seq<Item>, ctx: Context)
    requires
        delete_items(s, ctx),
    ensures
        keys(s) == Seq::<Seq<char>>::empty(),
{
    assert forall|i: int| 0 <= i < s.len() implies #[trigger] s[i].shortcut is None && !(s[i].kind is Submenu) by {
        if ctx.presets@.len() != 0 {
            assert(is_command(s[i], ctx.presets@[i]@, "Remove this saved preset"@, None,
                Command::DeletePreset(ctx.presets@[i]), true));
        }
    }
    lemma_keys_none(s);
}

proof fn lemma_preset_keys(s: Seq<Item>, ctx: Context)
    requires
        preset_items(s, ctx),
    ensures
        keys(s) == Seq::<Seq<char>>::empty(),
{
    let n = saved_lines(ctx);
    let children = s[14 + n].kind->Submenu_0;
    lemma_delete_keys(children@, ctx);
    assert forall|i: int| 0 <= i < s.len() implies (#[trigger] s[i]).shortcut is None && match s[i].kind {
        Kind::Submenu(children) => keys(children@) == Seq::<Seq<char>>::empty(),
        _ => true,
    } by {
        if i < 11 {
            assert(i == 0 || i == 1 || i == 2 || i == 3 || i == 4 || i == 5 || i == 6 || i == 7 || i == 8
                || i == 9 || i == 10);
        } else if 12 <= i < 12 + ctx.presets@.len() {
            let j = i - 12;
            assert(is_command(s[12 + j], ctx.presets@[j]@, "One of your saved presets"@, None,
                Command::LoadPreset(ctx.presets@[j]), true));
        }
    }
    lemma_keys_none_deep(s);
}

/// The keys the menu answers to, in menu order.
pub open spec fn menu_keys() -> Seq<Seq<char>> {
    seq!["C"@, "B"@, "P"@, "G"@, "O"@, "W"@, "I"@, "Space"@, "End"@, "A"@, "F11"@, "Esc"@, "F1"@]
}

proof fn lemma_tree_keys(s: Seq<Item>, ctx: Context)
    requires
        menu_tree(s, ctx),
    ensures
        keys(s) == menu_keys(),
{
    lemma_keys_end(s);
    let c0 = lemma_keys_into(s, 0);
    lemma_preset_keys(c0@, ctx);
    lemma_keys_skip(s, 1);
    lemma_keys_skip(s, 2);
    let c3 = lemma_keys_into(s, 3);
    lemma_playback_keys(c3@, ctx);
    lemma_keys_skip(s, 4);
    let c5 = lemma_keys_into(s, 5);
    lemma_analysis_keys(c5@, ctx);
    let c6 = lemma_keys_into(s, 6);
    lemma_spectrogram_keys(c6@, ctx);
    let c7 = lemma_keys_into(s, 7);
    lemma_spectrum_keys(c7@, ctx);
    let c8 = lemma_keys_into(s, 8);
    lemma_axes_keys(c8@, ctx);
    let c9 = lemma_keys_into(s, 9);
    lemma_panels_keys(c9@, ctx);
    let c10 = lemma_keys_into(s, 10);
    lemma_immersive_keys(c10@, ctx);
    let c11 = lemma_keys_into(s, 11);
    lemma_performance_keys(c11@, ctx);
    lemma_keys_skip(s, 12);
    lemma_keys_key(s, 13, "Space"@);
    lemma_keys_key(s, 14, "End"@);
    lemma_keys_key(s, 15, "A"@);
    lemma_keys_key(s, 16, "F11"@);
    lemma_keys_key(s, 17, "Esc"@);
    lemma_keys_skip(s, 18);
    lemma_keys_key(s, 19, "F1"@);
    lemma_keys_skip(s, 20);
    lemma_keys_skip(s, 21);
    lemma_keys_skip(s, 22);
    lemma_keys_skip(s, 23);
    assert(keys(s) =~= menu_keys());
}

/// No key is bound to two items: the keys the menu carries, looking into every
/// submenu, are the ones in [`menu_keys`], and no two of them are the same key in any
/// ASCII case, so a key answers to one item only.
pub proof fn lemma_no_key_is_bound_twice(items: Seq<Item>, ctx: Context)
    requires
        menu_tree(items, ctx),
    ensures
        keys(items) == menu_keys(),
        keys_distinct(keys(items)),
{
    lemma_tree_keys(items, ctx);
    reveal_strlit("B");
    reveal_strlit("P");
    reveal_strlit("C");
    reveal_strlit("G");
    reveal_strlit("O");
    reveal_strlit("W");
    reveal_strlit("I");
    reveal_strlit("Space");
    reveal_strlit("End");
    reveal_strlit("A");
    reveal_strlit("F11");
    reveal_strlit("Esc");
    reveal_strlit("F1");
    let ks = menu_keys();
    assert forall|i: int, j: int| 0 <= i < j < ks.len() implies !text::eq_ignore_ascii_case(#[trigger] ks[i], #[trigger] ks[j]) by {
        assert(i == 0 || i == 1 || i == 2 || i == 3 || i == 4 || i == 5 || i == 6 || i == 7 || i == 8 || i == 9
            || i == 10 || i == 11 || i == 12);
        assert(j == 1 || j == 2 || j == 3 || j == 4 || j == 5 || j == 6 || j == 7 || j == 8 || j == 9
            || j == 10 || j == 11 || j == 12);
        if text::eq_ignore_ascii_case(ks[i], ks[j]) {
            assert(text::ascii_lower(ks[i][0]) == text::ascii_lower(ks[j][0]));
            if ks[i].len() > 1 {
                assert(text::ascii_lower(ks[i][1]) == text::ascii_lower(ks[j][1]));
            }
        }
    }
}

} // verus!

verus! {

impl Default for Chosen {
    /// What the app ships with.
    fn default() -> (c: Chosen)
        ensures
            c == shipped_chosen(),
    {
        Chosen {
            palette: PaletteKind::Magma,
            scale: FreqScale::Note,
            pair_mode: ChannelPairMode::LeftRight,
            style: CurveStyle::Line,
            interp: CurveInterpolation::LinearSmooth,
            filter: FilteringAmount::Light,
            quality: AnalysisQuality::Balanced,
            window: WindowType::Hann,
            aggregate: BandAggregate::Peak,
            background: GraphBackground::Lines,
            label_mode: AxisLabelMode::Notes,
            scale_lane_pos: ScaleLanePosition::Top,
            frame_cap: FrameCap::Display,
        }
    }
}

/// The choices the app ships with.
pub open spec fn shipped_chosen() -> Chosen {
    Chosen {
        palette: PaletteKind::Magma,
        scale: FreqScale::Note,
        pair_mode: ChannelPairMode::LeftRight,
        style: CurveStyle::Line,
        interp: CurveInterpolation::LinearSmooth,
        filter: FilteringAmount::Light,
        quality: AnalysisQuality::Balanced,
        window: WindowType::Hann,
        aggregate: BandAggregate::Peak,
        background: GraphBackground::Lines,
        label_mode: AxisLabelMode::Notes,
        scale_lane_pos: ScaleLanePosition::Top,
        frame_cap: FrameCap::Display,
    }
}

/// What a help row is, and the state it is in.
#[derive(Debug)]
pub enum EntryKind {
    /// Something that happens once.
    Command,
    /// A switch, and whether it is on.
    Check(bool),
    /// One of a set, and whether it is the one chosen.
    Radio(bool),
    /// A whole group, as one row, with its values.
    Choice(Vec<Pick>),
    /// A number; where it is and its slider are the app's.
    Number(Number),
}

/// One command as the help window lists it.
#[derive(Debug)]
pub struct Entry {
    /// Where it is, as "Spectrum > Peak trace".
    pub path: String,
    pub help: &'static str,
    pub shortcut: Option<&'static str>,
    /// What running the row does: a choice re-picks what is picked, or closes the menu
    /// where nothing is. A number has none here, being set by its slider.
    pub command: Option<Command>,
    pub kind: EntryKind,
    /// Greyed out in the menu, so greyed out here, and its key does nothing.
    pub enabled: bool,
    /// What would put a switch or a choice back to what the app ships with, or `None`
    /// where it is already there or is not such a setting.
    pub reset: Option<Command>,
}

/// The path of an item labelled `label` under `prefix`.
pub open spec fn under(prefix: Seq<char>, label: Seq<char>) -> Seq<char> {
    if prefix.len() == 0 { label } else { prefix + path_step() + label }
}

/// The command of the first chosen pick, or closing the menu where none is chosen.
pub open spec fn chosen_command(picks: Seq<Pick>) -> Command
    decreases picks.len(),
{
    if picks.len() == 0 {
        Command::CloseMenu
    } else if picks[0].chosen {
        picks[0].command
    } else {
        chosen_command(picks.subrange(1, picks.len() as int))
    }
}

/// The first pick that is what the app ships with, if any.
pub open spec fn shipped_pick(picks: Seq<Pick>) -> Option<Pick>
    decreases picks.len(),
{
    if picks.len() == 0 {
        None
    } else if (picks[0].command matches Command::Choose(c) && c.holds(shipped_chosen())) {
        Some(picks[0])
    } else {
        shipped_pick(picks.subrange(1, picks.len() as int))
    }
}

/// What puts a group back to what the app ships with: the shipped pick, where it is
/// not the one chosen.
pub open spec fn choice_reset(picks: Seq<Pick>) -> Option<Command> {
    match shipped_pick(picks) {
        Some(p) => if p.chosen { None } else { Some(p.command) },
        None => None,
    }
}

/// What puts a switch back to what the app ships with, where it is not there.
pub open spec fn check_reset(c: Command, on: bool) -> Option<Command> {
    match c {
        Command::Toggle(f) => if on != crate::switches::shipped_on(f) { Some(Command::Toggle(f)) } else { None },
        _ => None,
    }
}

/// `e` is the help row of the item `i` under `prefix`.
pub open spec fn is_entry_of(e: Entry, i: Item, prefix: Seq<char>) -> bool {
    &&& e.path@ == under(prefix, i.label@)
    &&& e.help == i.help
    &&& e.shortcut == i.shortcut
    &&& e.enabled == i.enabled
    &&& match i.kind {
        Kind::Command(c) => e.command == Some(c) && e.kind is Command && e.reset is None,
        Kind::Check(c, on) => e.command == Some(c) && e.kind == EntryKind::Check(on) && e.reset == check_reset(c, on),
        Kind::Radio(c, chosen) => e.command == Some(c) && e.kind == EntryKind::Radio(chosen) && e.reset is None,
        Kind::Choice(picks) => {
            &&& e.command == Some(chosen_command(picks@))
            &&& (match e.kind {
                EntryKind::Choice(q) => q@ == picks@,
                _ => false,
            })
            &&& e.reset == choice_reset(picks@)
        },
        Kind::Number(n) => e.command is None && e.kind == EntryKind::Number(n) && e.reset is None,
        _ => false,
    }
}

/// How many help rows `items` make: one per item, none for a rule, and a submenu's own.
pub open spec fn entry_count(items: Seq<Item>) -> nat
    decreases items,
{
    if items.len() == 0 {
        0
    } else {
        let first = items[0];
        let rest = items.subrange(1, items.len() as int);
        match first.kind {
            Kind::Separator => entry_count(rest),
            Kind::Submenu(children) => entry_count(children@) + entry_count(rest),
            _ => 1 + entry_count(rest),
        }
    }
}

/// `es` are the help rows of `items` under `prefix`, in menu order: a rule makes none,
/// a submenu makes its items' rows under its own label, and every other item makes one.
pub open spec fn are_entries(es: Seq<Entry>, items: Seq<Item>, prefix: Seq<char>) -> bool
    decreases items,
{
    if items.len() == 0 {
        es.len() == 0
    } else {
        let first = items[0];
        let rest = items.subrange(1, items.len() as int);
        match first.kind {
            Kind::Separator => are_entries(es, rest, prefix),
            Kind::Submenu(children) => {
                let k = entry_count(children@) as int;
                &&& k <= es.len()
                &&& are_entries(es.subrange(0, k), children@, under(prefix, first.label@))
                &&& are_entries(es.subrange(k, es.len() as int), rest, prefix)
            },
            _ => {
                &&& es.len() >= 1
                &&& is_entry_of(es[0], first, prefix)
                &&& are_entries(es.subrange(1, es.len() as int), rest, prefix)
            },
        }
    }
}

proof fn lemma_entries_count(es: Seq<Entry>, items: Seq<Item>, prefix: Seq<char>)
    requires
        are_entries(es, items, prefix),
    ensures
        es.len() == entry_count(items),
    decreases items,
{
    if items.len() > 0 {
        let first = items[0];
        let rest = items.subrange(1, items.len() as int);
        match first.kind {
            Kind::Separator => {
                lemma_entries_count(es, rest, prefix);
            },
            Kind::Submenu(children) => {
                let k = entry_count(children@) as int;
                lemma_entries_count(es.subrange(k, es.len() as int), rest, prefix);
            },
            _ => {
                lemma_entries_count(es.subrange(1, es.len() as int), rest, prefix);
            },
        }
    }
}

fn copy_pick(p: &Pick) -> (r: Pick)
    ensures
        r == *p,
{
    Pick { label: p.label.clone(), help: p.help, command: p.command.copy(), chosen: p.chosen, enabled: p.enabled }
}

fn copy_picks(ps: &Vec<Pick>) -> (r: Vec<Pick>)
    ensures
        r@ == ps@,
{
    let mut r: Vec<Pick> = Vec::new();
    let mut j: usize = 0;
    while j < ps.len()
        invariant
            j <= ps@.len(),
            r@ == ps@.subrange(0, j as int),
        decreases ps@.len() - j,
    {
        r.push(copy_pick(&ps[j]));
        j = j + 1;
        proof {
            assert(r@ =~= ps@.subrange(0, j as int));
        }
    }
    proof {
        assert(r@ =~= ps@);
    }
    r
}

fn chosen_command_of(ps: &Vec<Pick>) -> (r: Command)
    ensures
        r == chosen_command(ps@),
{
    let mut j: usize = 0;
    proof {
        assert(ps@.subrange(0, ps@.len() as int) =~= ps@);
    }
    while j < ps.len()
        invariant
            j <= ps@.len(),
            chosen_command(ps@) == chosen_command(ps@.subrange(j as int, ps@.len() as int)),
        decreases ps@.len() - j,
    {
        let ghost rest = ps@.subrange(j as int, ps@.len() as int);
        proof {
            assert(rest[0] == ps@[j as int]);
            assert(rest.subrange(1, rest.len() as int) =~= ps@.subrange(j + 1, ps@.len() as int));
        }
        if ps[j].chosen {
            return ps[j].command.copy();
        }
        j = j + 1;
    }
    proof {
        assert(ps@.subrange(j as int, ps@.len() as int).len() == 0);
    }
    Command::CloseMenu
}

fn choice_reset_of(ps: &Vec<Pick>) -> (r: Option<Command>)
    ensures
        r == choice_reset(ps@),
{
    let shipped = Chosen::default();
    let mut j: usize = 0;
    proof {
        assert(ps@.subrange(0, ps@.len() as int) =~= ps@);
    }
    while j < ps.len()
        invariant
            j <= ps@.len(),
            shipped == shipped_chosen(),
            shipped_pick(ps@) == shipped_pick(ps@.subrange(j as int, ps@.len() as int)),
        decreases ps@.len() - j,
    {
        let ghost rest = ps@.subrange(j as int, ps@.len() as int);
        proof {
            assert(rest[0] == ps@[j as int]);
            assert(rest.subrange(1, rest.len() as int) =~= ps@.subrange(j + 1, ps@.len() as int));
        }
        let p = &ps[j];
        let ships = match p.command {
            Command::Choose(c) => c.is_current(&shipped),
            _ => false,
        };
        if ships {
            if p.chosen {
                return None;
            }
            return Some(p.command.copy());
        }
        j = j + 1;
    }
    proof {
        assert(ps@.subrange(j as int, ps@.len() as int).len() == 0);
    }
    None
}

fn under_path(prefix: &Vec<char>, label: &String) -> (r: Vec<char>)
    ensures
        r@ == under(prefix@, label@),
{
    let l = text::chars_of(label.as_str());
    if prefix.len() == 0 {
        return l;
    }
    let mut r = prefix.clone();
    r.push(' ');
    r.push('>');
    r.push(' ');
    let mut j: usize = 0;
    while j < l.len()
        invariant
            j <= l@.len(),
            r@ == prefix@ + path_step() + l@.subrange(0, j as int),
        decreases l@.len() - j,
    {
        r.push(l[j]);
        j = j + 1;
        proof {
            assert(r@ =~= prefix@ + path_step() + l@.subrange(0, j as int));
        }
    }
    proof {
        assert(l@.subrange(0, l@.len() as int) =~= l@);
    }
    r
}

/// The help row of one item that makes one.
fn entry_of(item: &Item, prefix: &Vec<char>) -> (e: Entry)
    requires
        !(item.kind is Separator),
        !(item.kind is Submenu),
    ensures
        is_entry_of(e, *item, prefix@),
{
    let path = text::string_of(&under_path(prefix, &item.label));
    let shipped = Switches::default();
    match &item.kind {
        Kind::Command(c) => Entry { path, help: item.help, shortcut: item.shortcut, command: Some(c.copy()),
            kind: EntryKind::Command, enabled: item.enabled, reset: None },
        Kind::Check(c, on) => {
            let reset = match c {
                Command::Toggle(f) => if *on != shipped.flag(*f) { Some(Command::Toggle(*f)) } else { None },
                _ => None,
            };
            Entry { path, help: item.help, shortcut: item.shortcut, command: Some(c.copy()),
                kind: EntryKind::Check(*on), enabled: item.enabled, reset }
        },
        Kind::Radio(c, chosen) => Entry { path, help: item.help, shortcut: item.shortcut, command: Some(c.copy()),
            kind: EntryKind::Radio(*chosen), enabled: item.enabled, reset: None },
        Kind::Choice(picks) => Entry { path, help: item.help, shortcut: item.shortcut,
            command: Some(chosen_command_of(picks)), kind: EntryKind::Choice(copy_picks(picks)),
            enabled: item.enabled, reset: choice_reset_of(picks) },
        Kind::Number(n) => Entry { path, help: item.help, shortcut: item.shortcut, command: None,
            kind: EntryKind::Number(*n), enabled: item.enabled, reset: None },
        _ => Entry { path, help: item.help, shortcut: item.shortcut, command: None,
            kind: EntryKind::Command, enabled: item.enabled, reset: None },
    }
}

/// The help rows of `items` from `i` on, under `prefix`.
fn walk(items: &Vec<Item>, i: usize, prefix: &Vec<char>) -> (r: Vec<Entry>)
    requires
        i <= items@.len(),
    ensures
        are_entries(r@, items@.subrange(i as int, items@.len() as int), prefix@),
    decreases items@, items@.len() - i,
{
    let ghost here = items@.subrange(i as int, items@.len() as int);
    if i == items.len() {
        return Vec::new();
    }
    proof {
        assert(here[0] == items@[i as int]);
        assert(here.subrange(1, here.len() as int) =~= items@.subrange(i + 1, items@.len() as int));
    }
    let mut rest = walk(items, i + 1, prefix);
    let item = &items[i];
    match &item.kind {
        Kind::Separator => rest,
        Kind::Submenu(children) => {
            proof {
                assert(decreases_to!(items@ => items@[i as int]));
                assert(decreases_to!(items@ => children@));
            }
            let inner_prefix = under_path(prefix, &item.label);
            let mut inner = walk(children, 0, &inner_prefix);
            proof {
                assert(children@.subrange(0, children@.len() as int) =~= children@);
                lemma_entries_count(inner@, children@, inner_prefix@);
            }
            let ghost a = inner@;
            let ghost b = rest@;
            inner.append(&mut rest);
            proof {
                assert(inner@.subrange(0, a.len() as int) =~= a);
                assert(inner@.subrange(a.len() as int, inner@.len() as int) =~= b);
            }
            inner
        },
        _ => {
            let mut out = vec![entry_of(item, prefix)];
            let ghost b = rest@;
            out.append(&mut rest);
            proof {
                assert(out@.subrange(1, out@.len() as int) =~= b);
            }
            out
        },
    }
}

/// Every command in the tree, with the path that leads to it.
///
/// A choice or a number is one row, not one per value; the values ride along on the
/// row, so searching still finds them by name.
pub fn entries(items: &Vec<Item>) -> (r: Vec<Entry>)
    ensures
        are_entries(r@, items@, Seq::empty()),
{
    let none: Vec<char> = Vec::new();
    let r = walk(items, 0, &none);
    proof {
        assert(items@.subrange(0, items@.len() as int) =~= items@);
        assert(none@ =~= Seq::<char>::empty());
    }
    r
}

} // verus!

verus! {

/// Whether `text`, read in lower case, holds `query` anywhere.
pub open spec fn mentioned(text: Seq<char>, query: Seq<char>) -> bool {
    text::find_from(text::unicode_lowercase(text), query, 0) is Some
}

/// The values a help row offers, where it offers any.
pub open spec fn entry_picks(e: Entry) -> Seq<Pick> {
    match e.kind {
        EntryKind::Choice(picks) => picks@,
        _ => Seq::empty(),
    }
}

/// Whether `query`, already lowercased and trimmed, is anywhere in the row `e`: its
/// path, its help, its key, or the label or help of one of its values. An empty query
/// is in every row.
pub open spec fn row_matches(e: Entry, query: Seq<char>) -> bool {
    ||| query.len() == 0
    ||| mentioned(e.path@, query)
    ||| mentioned(e.help@, query)
    ||| (match e.shortcut {
        Some(k) => mentioned(k@, query),
        None => false,
    })
    ||| exists|j: int| 0 <= j < entry_picks(e).len()
        && (mentioned(#[trigger] entry_picks(e)[j].label@, query) || mentioned(entry_picks(e)[j].help@, query))
}

/// The rows of `es` that `query` matches, in their order.
pub open spec fn kept(es: Seq<Entry>, query: Seq<char>) -> Seq<Entry>
    decreases es.len(),
{
    if es.len() == 0 {
        es
    } else {
        let before = kept(es.drop_last(), query);
        if row_matches(es.last(), query) { before.push(es.last()) } else { before }
    }
}

/// What the help search looks for: the query trimmed, then lowercased.
pub open spec fn search_query(query: Seq<char>) -> Seq<char> {
    text::unicode_lowercase(text::trim(query))
}

impl Entry {
    /// Whether `query`, already lowercased and trimmed, is anywhere in this row.
    ///
    /// The values are searched as well as the row, because a choice is one row and
    /// "Viridis" has to find the palette. The key is matched by part rather than whole:
    /// "f1" finds help, and so does "f".
    pub fn matches(&self, query: &str) -> (r: bool)
        ensures
            r == row_matches(*self, query@),
    {
        if text::chars_of(query).len() == 0 {
            return true;
        }
        if mentions(self.path.as_str(), query) || mentions(self.help, query) {
            return true;
        }
        if let Some(k) = self.shortcut {
            if mentions(k, query) {
                return true;
            }
        }
        match &self.kind {
            EntryKind::Choice(picks) => {
                let mut j: usize = 0;
                while j < picks.len()
                    invariant
                        j <= picks@.len(),
                        entry_picks(*self) == picks@,
                        forall|k: int| 0 <= k < j ==> !mentioned(#[trigger] picks@[k].label@, query@)
                            && !mentioned(picks@[k].help@, query@),
                    decreases picks@.len() - j,
                {
                    if mentions(picks[j].label.as_str(), query) || mentions(picks[j].help, query) {
                        return true;
                    }
                    j = j + 1;
                }
                false
            },
            _ => false,
        }
    }
}

/// The rows whose path, help, key or values hold `query`, trimmed and read in lower
/// case, in the order they appear in the menu. An empty query is everything.
pub fn search(items: &Vec<Item>, query: &str) -> (r: Vec<Entry>)
    ensures
        exists|es: Seq<Entry>| #[trigger] are_entries(es, items@, Seq::empty()) && r@ == kept(es, search_query(query@)),
{
    let trimmed = text::string_of(&text::trimmed_chars(query));
    let q = text::lowercase(trimmed.as_str());
    let mut all = entries(items);
    let total = all.len();
    let ghost es = all@;
    let mut r: Vec<Entry> = Vec::new();
    let mut taken: usize = 0;
    proof {
        assert(es.subrange(0, 0) =~= Seq::<Entry>::empty());
        assert(es.subrange(0, es.len() as int) =~= es);
    }
    while all.len() > 0
        invariant
            es.len() <= usize::MAX,
            taken + all@.len() == es.len(),
            all@ == es.subrange(taken as int, es.len() as int),
            r@ == kept(es.subrange(0, taken as int), q@),
        decreases all@.len(),
    {
        let e = all.remove(0);
        proof {
            assert(e == es[taken as int]);
            let upto = es.subrange(0, taken + 1);
            assert(upto.drop_last() =~= es.subrange(0, taken as int));
            assert(upto.last() == e);
            assert(all@ =~= es.subrange(taken + 1, es.len() as int));
        }
        if e.matches(q.as_str()) {
            r.push(e);
        }
        taken = taken + 1;
    }
    proof {
        assert(es.subrange(0, taken as int) =~= es);
    }
    r
}

} // verus!

verus! {

impl Entry {
    /// The submenu the row sits in, as a heading: "Spectrum" for "Spectrum > Peak
    /// trace", and "General" for an item at the top of the menu.
    pub fn section(&self) -> (r: String)
        ensures
            r@ == spec_section(self.path@),
    {
        section(self.path.as_str())
    }

    /// Its own label, without the path that leads to it.
    pub fn leaf(&self) -> (r: String)
        ensures
            r@ == spec_leaf(self.path@),
    {
        leaf(self.path.as_str())
    }

    /// Whether this row differs from what the app ships with.
    pub fn changed(&self) -> (r: bool)
        ensures
            r == (self.reset is Some),
    {
        self.reset.is_some()
    }
}

} // verus!

verus! {

/// The fixed choices a built-in preset sets, over `c`: the palette, the frequency
/// axis, the resolution and the band aggregate. `Custom` loads as `Studio`.
pub open spec fn preset_chosen(p: Preset, c: Chosen) -> Chosen {
    match p {
        Preset::Nostalgia => Chosen { palette: PaletteKind::NostalgiaRed, scale: FreqScale::Linear,
            quality: AnalysisQuality::Balanced, aggregate: BandAggregate::Peak, ..c },
        Preset::QC => Chosen { palette: PaletteKind::Viridis, scale: FreqScale::Linear,
            quality: AnalysisQuality::High, aggregate: BandAggregate::Energy, ..c },
        Preset::Immersive => Chosen { palette: PaletteKind::Magma, scale: FreqScale::Note,
            quality: AnalysisQuality::High, aggregate: BandAggregate::Peak, ..c },
        Preset::Vocal => Chosen { palette: PaletteKind::Magma, scale: FreqScale::Note,
            quality: AnalysisQuality::Balanced, aggregate: BandAggregate::Peak, ..c },
        Preset::Bass => Chosen { palette: PaletteKind::Inferno, scale: FreqScale::Note,
            quality: AnalysisQuality::High, aggregate: BandAggregate::Peak, ..c },
        Preset::Percussion => Chosen { palette: PaletteKind::Turbo, scale: FreqScale::Note,
            quality: AnalysisQuality::LowLatency, aggregate: BandAggregate::Peak, ..c },
        Preset::Mastering => Chosen { palette: PaletteKind::Viridis, scale: FreqScale::Linear,
            quality: AnalysisQuality::High, aggregate: BandAggregate::Energy, ..c },
        Preset::Studio | Preset::Custom => Chosen { palette: PaletteKind::Magma, scale: FreqScale::Note,
            quality: AnalysisQuality::Balanced, aggregate: BandAggregate::Peak, ..c },
    }
}

/// What the switch `f` reads after the preset `p`, where it read `was`: every preset
/// sets whether the range follows the material and whether the view is immersive, and
/// the immersive one turns on the glow, the fading chrome and the lanes as well.
pub open spec fn preset_flag(p: Preset, f: Flag, was: bool) -> bool {
    match f {
        Flag::AdaptiveRange => !(p == Preset::QC || p == Preset::Mastering),
        Flag::Immersive => p == Preset::Immersive,
        Flag::Glow | Flag::AutoHide | Flag::ShowWaveform => p == Preset::Immersive || was,
        _ => was,
    }
}

fn preset_choices(p: Preset, chosen: &mut Chosen)
    ensures
        *final(chosen) == preset_chosen(p, *old(chosen)),
{
    let (palette, scale, quality, aggregate) = match p {
        Preset::Nostalgia => (PaletteKind::NostalgiaRed, FreqScale::Linear, AnalysisQuality::Balanced, BandAggregate::Peak),
        Preset::QC => (PaletteKind::Viridis, FreqScale::Linear, AnalysisQuality::High, BandAggregate::Energy),
        Preset::Immersive => (PaletteKind::Magma, FreqScale::Note, AnalysisQuality::High, BandAggregate::Peak),
        Preset::Vocal => (PaletteKind::Magma, FreqScale::Note, AnalysisQuality::Balanced, BandAggregate::Peak),
        Preset::Bass => (PaletteKind::Inferno, FreqScale::Note, AnalysisQuality::High, BandAggregate::Peak),
        Preset::Percussion => (PaletteKind::Turbo, FreqScale::Note, AnalysisQuality::LowLatency, BandAggregate::Peak),
        Preset::Mastering => (PaletteKind::Viridis, FreqScale::Linear, AnalysisQuality::High, BandAggregate::Energy),
        Preset::Studio | Preset::Custom => (PaletteKind::Magma, FreqScale::Note, AnalysisQuality::Balanced, BandAggregate::Peak),
    };
    chosen.palette = palette;
    chosen.scale = scale;
    chosen.quality = quality;
    chosen.aggregate = aggregate;
}

fn preset_switches(p: Preset, switches: &mut Switches)
    ensures
        final(switches)@.len() == old(switches)@.len(),
        forall|f: Flag| #[trigger] final(switches).is_on(f) == preset_flag(p, f, old(switches).is_on(f)),
{
    let adaptive = !(p == Preset::QC || p == Preset::Mastering);
    let immersive = p == Preset::Immersive;
    switches.set_flag(Flag::AdaptiveRange, adaptive);
    switches.set_flag(Flag::Immersive, immersive);
    if immersive {
        switches.set_flag(Flag::Glow, true);
        switches.set_flag(Flag::AutoHide, true);
        switches.set_flag(Flag::ShowWaveform, true);
    }
}

/// Loads the switches and choices of the preset `p`. Its numbers are floating point and
/// are the app's to set.
pub fn apply_preset(p: Preset, chosen: &mut Chosen, switches: &mut Switches)
    ensures
        *final(chosen) == preset_chosen(p, *old(chosen)),
        final(switches)@.len() == old(switches)@.len(),
        forall|f: Flag| #[trigger] final(switches).is_on(f) == preset_flag(p, f, old(switches).is_on(f)),
{
    preset_choices(p, chosen);
    preset_switches(p, switches);
}

} // verus!

verus! {

/// Whether none of `ks` is the key `key` in any ASCII case.
pub open spec fn none_is(ks: Seq<Seq<char>>, key: Seq<char>) -> bool {
    forall|i: int| 0 <= i < ks.len() ==> !text::eq_ignore_ascii_case(#[trigger] ks[i], key)
}

/// Items none of which carries `key` answer nothing to it.
proof fn lemma_silent(items: Seq<Item>, key: Seq<char>)
    requires
        none_is(keys(items), key),
    ensures
        spec_key(items, key) is None,
    decreases items,
{
    if items.len() > 0 {
        let first = items[0];
        let rest = items.subrange(1, items.len() as int);
        let own = match first.shortcut {
            Some(k) => seq![k@],
            None => Seq::<Seq<char>>::empty(),
        };
        let inner = match first.kind {
            Kind::Submenu(children) => keys(children@),
            _ => Seq::<Seq<char>>::empty(),
        };
        let all = keys(items);
        assert(all == own + inner + keys(rest));
        assert forall|i: int| 0 <= i < keys(rest).len() implies !text::eq_ignore_ascii_case(#[trigger] keys(rest)[i], key) by {
            assert(all[own.len() + inner.len() + i] == keys(rest)[i]);
        }
        lemma_silent(rest, key);
        if let Kind::Submenu(children) = first.kind {
            assert forall|i: int| 0 <= i < keys(children@).len() implies !text::eq_ignore_ascii_case(#[trigger] keys(children@)[i], key) by {
                assert(all[own.len() + i] == keys(children@)[i]);
            }
            lemma_silent(children@, key);
        }
        if let Some(k) = first.shortcut {
            assert(all[0] == k@);
        }
    }
}

/// Looking `key` up passes over item `i` of `s` when it neither opens a submenu that
/// answers to it nor answers to it itself.
proof fn lemma_key_passes(s: Seq<Item>, i: int, key: Seq<char>)
    requires
        0 <= i < s.len(),
        match s[i].kind {
            Kind::Submenu(children) => spec_key(children@, key) is None,
            _ => !answers_to(s[i], key) || !s[i].enabled,
        },
    ensures
        spec_key(from(s, i), key) == spec_key(from(s, i + 1), key),
{
    let t = from(s, i);
    assert(t[0] == s[i]);
    assert(t.subrange(1, t.len() as int) =~= from(s, i + 1));
}

/// Looking `key` up stops at item `i` of `s` when it is usable, answers to the key and
/// performs a command.
proof fn lemma_key_hits(s: Seq<Item>, i: int, key: Seq<char>)
    requires
        0 <= i < s.len(),
        s[i].enabled,
        !(s[i].kind is Submenu),
        answers_to(s[i], key),
        item_command(s[i]) is Some,
    ensures
        spec_key(from(s, i), key) == item_command(s[i]),
{
    let t = from(s, i);
    assert(t[0] == s[i]);
}

/// Looking `key` up in item `i` of `s`, a submenu, finds what the submenu finds.
proof fn lemma_key_enters(s: Seq<Item>, i: int, key: Seq<char>) -> (children: Vec<Item>)
    requires
        0 <= i < s.len(),
        s[i].enabled,
        s[i].kind is Submenu,
    ensures
        s[i].kind == Kind::Submenu(children),
        spec_key(children@, key) is Some ==> spec_key(from(s, i), key) == spec_key(children@, key),
{
    let t = from(s, i);
    assert(t[0] == s[i]);
    s[i].kind->Submenu_0
}

/// Past the last item nothing answers.
proof fn lemma_key_end(s: Seq<Item>, key: Seq<char>)
    ensures
        spec_key(from(s, s.len() as int), key) is None,
        spec_key(s, key) == spec_key(from(s, 0), key),
{
    assert(from(s, s.len() as int) =~= Seq::<Item>::empty());
    assert(from(s, 0) =~= s);
}

} // verus!

verus! {

/// A text that is the key `a` in some case is not the key `b` in any case, where `a`
/// and `b` differ in length or in one of their first two letters.
proof fn lemma_keys_differ(a: Seq<char>, b: Seq<char>, k: Seq<char>)
    requires
        text::eq_ignore_ascii_case(k, a),
        a.len() != b.len() || (a.len() > 0 && text::ascii_lower(a[0]) != text::ascii_lower(b[0]))
            || (a.len() > 1 && text::ascii_lower(a[1]) != text::ascii_lower(b[1])),
    ensures
        !text::eq_ignore_ascii_case(b, k),
{
    if text::eq_ignore_ascii_case(b, k) {
        if a.len() > 0 {
            assert(text::ascii_lower(k[0]) == text::ascii_lower(a[0]));
            assert(text::ascii_lower(b[0]) == text::ascii_lower(k[0]));
        }
        if a.len() > 1 {
            assert(text::ascii_lower(k[1]) == text::ascii_lower(a[1]));
            assert(text::ascii_lower(b[1]) == text::ascii_lower(k[1]));
        }
    }
}

} // verus!

verus! {
#[verifier::spinoff_prover]
proof fn lemma_spectrogram_finds_c(s: Seq<Item>, ctx: Context, k: Seq<char>)
    requires
        spectrogram_items(s, ctx),
        text::eq_ignore_ascii_case(k, "C"@),
    ensures
        spec_key(s, k) == Some(Command::NextPalette),
{
    lemma_key_end(s, k);
    lemma_key_passes(s, 0, k);
    lemma_key_hits(s, 1, k);
}

#[verifier::spinoff_prover]
proof fn lemma_top_finds_c(s: Seq<Item>, ctx: Context, k: Seq<char>)
    requires
        menu_tree(s, ctx),
        text::eq_ignore_ascii_case(k, "C"@),
    ensures
        spec_key(s, k) == Some(Command::NextPalette),
{
    lemma_key_end(s, k);
    let c0 = lemma_keys_into(s, 0);
    lemma_preset_keys(c0@, ctx);
    assert(keys(c0@) == Seq::<Seq<char>>::empty());
    assert forall|j: int| 0 <= j < keys(c0@).len() implies !text::eq_ignore_ascii_case(#[trigger] keys(c0@)[j], k) by {
        assert(false);
    }
    lemma_silent(c0@, k);
    lemma_key_passes(s, 0, k);
    lemma_key_passes(s, 1, k);
    lemma_key_passes(s, 2, k);
    let c3 = lemma_keys_into(s, 3);
    lemma_playback_keys(c3@, ctx);
    assert(keys(c3@) == Seq::<Seq<char>>::empty());
    assert forall|j: int| 0 <= j < keys(c3@).len() implies !text::eq_ignore_ascii_case(#[trigger] keys(c3@)[j], k) by {
        assert(false);
    }
    lemma_silent(c3@, k);
    lemma_key_passes(s, 3, k);
    lemma_key_passes(s, 4, k);
    let c5 = lemma_keys_into(s, 5);
    lemma_analysis_keys(c5@, ctx);
    assert(keys(c5@) == Seq::<Seq<char>>::empty());
    assert forall|j: int| 0 <= j < keys(c5@).len() implies !text::eq_ignore_ascii_case(#[trigger] keys(c5@)[j], k) by {
        assert(false);
    }
    lemma_silent(c5@, k);
    lemma_key_passes(s, 5, k);
    let c6 = lemma_key_enters(s, 6, k);
    lemma_spectrogram_finds_c(c6@, ctx, k);
}

#[verifier::spinoff_prover]
proof fn lemma_spectrum_finds_b(s: Seq<Item>, ctx: Context, k: Seq<char>)
    requires
        spectrum_items(s, ctx),
        text::eq_ignore_ascii_case(k, "B"@),
    ensures
        spec_key(s, k) == Some(Command::NextStyle),
{
    lemma_key_end(s, k);
    lemma_key_passes(s, 0, k);
    lemma_key_passes(s, 1, k);
    lemma_key_hits(s, 2, k);
}

#[verifier::spinoff_prover]
proof fn lemma_top_finds_b(s: Seq<Item>, ctx: Context, k: Seq<char>)
    requires
        menu_tree(s, ctx),
        text::eq_ignore_ascii_case(k, "B"@),
    ensures
        spec_key(s, k) == Some(Command::NextStyle),
{
    lemma_key_end(s, k);
    let c0 = lemma_keys_into(s, 0);
    lemma_preset_keys(c0@, ctx);
    assert(keys(c0@) == Seq::<Seq<char>>::empty());
    assert forall|j: int| 0 <= j < keys(c0@).len() implies !text::eq_ignore_ascii_case(#[trigger] keys(c0@)[j], k) by {
        assert(false);
    }
    lemma_silent(c0@, k);
    lemma_key_passes(s, 0, k);
    lemma_key_passes(s, 1, k);
    lemma_key_passes(s, 2, k);
    let c3 = lemma_keys_into(s, 3);
    lemma_playback_keys(c3@, ctx);
    assert(keys(c3@) == Seq::<Seq<char>>::empty());
    assert forall|j: int| 0 <= j < keys(c3@).len() implies !text::eq_ignore_ascii_case(#[trigger] keys(c3@)[j], k) by {
        assert(false);
    }
    lemma_silent(c3@, k);
    lemma_key_passes(s, 3, k);
    lemma_key_passes(s, 4, k);
    let c5 = lemma_keys_into(s, 5);
    lemma_analysis_keys(c5@, ctx);
    assert(keys(c5@) == Seq::<Seq<char>>::empty());
    assert forall|j: int| 0 <= j < keys(c5@).len() implies !text::eq_ignore_ascii_case(#[trigger] keys(c5@)[j], k) by {
        assert(false);
    }
    lemma_silent(c5@, k);
    lemma_key_passes(s, 5, k);
    let c6 = lemma_keys_into(s, 6);
    lemma_spectrogram_keys(c6@, ctx);
    assert(keys(c6@) == seq!["C"@]);
    assert forall|j: int| 0 <= j < keys(c6@).len() implies !text::eq_ignore_ascii_case(#[trigger] keys(c6@)[j], k) by {
        if j == 0 {
            reveal_strlit("B");
            reveal_strlit("C");
            lemma_keys_differ("B"@, "C"@, k);
        }
        assert(j == 0);
    }
    lemma_silent(c6@, k);
    lemma_key_passes(s, 6, k);
    let c7 = lemma_key_enters(s, 7, k);
    lemma_spectrum_finds_b(c7@, ctx, k);
}

#[verifier::spinoff_prover]
proof fn lemma_spectrum_finds_p(s: Seq<Item>, ctx: Context, k: Seq<char>)
    requires
        spectrum_items(s, ctx),
        text::eq_ignore_ascii_case(k, "P"@),
    ensures
        spec_key(s, k) == Some(Command::Toggle(Flag::ShowMax)),
{
    lemma_key_end(s, k);
    lemma_key_passes(s, 0, k);
    lemma_key_passes(s, 1, k);
    reveal_strlit("P");
    reveal_strlit("B");
    lemma_keys_differ("P"@, "B"@, k);
    lemma_key_passes(s, 2, k);
    lemma_key_passes(s, 3, k);
    lemma_key_passes(s, 4, k);
    lemma_key_passes(s, 5, k);
    lemma_key_passes(s, 6, k);
    lemma_key_hits(s, 7, k);
}

#[verifier::spinoff_prover]
proof fn lemma_top_finds_p(s: Seq<Item>, ctx: Context, k: Seq<char>)
    requires
        menu_tree(s, ctx),
        text::eq_ignore_ascii_case(k, "P"@),
    ensures
        spec_key(s, k) == Some(Command::Toggle(Flag::ShowMax)),
{
    lemma_key_end(s, k);
    let c0 = lemma_keys_into(s, 0);
    lemma_preset_keys(c0@, ctx);
    assert(keys(c0@) == Seq::<Seq<char>>::empty());
    assert forall|j: int| 0 <= j < keys(c0@).len() implies !text::eq_ignore_ascii_case(#[trigger] keys(c0@)[j], k) by {
        assert(false);
    }
    lemma_silent(c0@, k);
    lemma_key_passes(s, 0, k);
    lemma_key_passes(s, 1, k);
    lemma_key_passes(s, 2, k);
    let c3 = lemma_keys_into(s, 3);
    lemma_playback_keys(c3@, ctx);
    assert(keys(c3@) == Seq::<Seq<char>>::empty());
    assert forall|j: int| 0 <= j < keys(c3@).len() implies !text::eq_ignore_ascii_case(#[trigger] keys(c3@)[j], k) by {
        assert(false);
    }
    lemma_silent(c3@, k);
    lemma_key_passes(s, 3, k);
    lemma_key_passes(s, 4, k);
    let c5 = lemma_keys_into(s, 5);
    lemma_analysis_keys(c5@, ctx);
    assert(keys(c5@) == Seq::<Seq<char>>::empty());
    assert forall|j: int| 0 <= j < keys(c5@).len() implies !text::eq_ignore_ascii_case(#[trigger] keys(c5@)[j], k) by {
        assert(false);
    }
    lemma_silent(c5@, k);
    lemma_key_passes(s, 5, k);
    let c6 = lemma_keys_into(s, 6);
    lemma_spectrogram_keys(c6@, ctx);
    assert(keys(c6@) == seq!["C"@]);
    assert forall|j: int| 0 <= j < keys(c6@).len() implies !text::eq_ignore_ascii_case(#[trigger] keys(c6@)[j], k) by {
        if j == 0 {
            reveal_strlit("P");
            reveal_strlit("C");
            lemma_keys_differ("P"@, "C"@, k);
        }
        assert(j == 0);
    }
    lemma_silent(c6@, k);
    lemma_key_passes(s, 6, k);
    let c7 = lemma_key_enters(s, 7, k);
    lemma_spectrum_finds_p(c7@, ctx, k);
}

#[verifier::spinoff_prover]
proof fn lemma_axes_finds_g(s: Seq<Item>, ctx: Context, k: Seq<char>)
    requires
        axes_items(s, ctx),
        text::eq_ignore_ascii_case(k, "G"@),
    ensures
        spec_key(s, k) == Some(Command::Toggle(Flag::ShowGrid)),
{
    lemma_key_end(s, k);
    lemma_key_hits(s, 0, k);
}

#[verifier::spinoff_prover]
proof fn lemma_top_finds_g(s: Seq<Item>, ctx: Context, k: Seq<char>)
    requires
        menu_tree(s, ctx),
        text::eq_ignore_ascii_case(k, "G"@),
    ensures
        spec_key(s, k) == Some(Command::Toggle(Flag::ShowGrid)),
{
    lemma_key_end(s, k);
    let c0 = lemma_keys_into(s, 0);
    lemma_preset_keys(c0@, ctx);
    assert(keys(c0@) == Seq::<Seq<char>>::empty());
    assert forall|j: int| 0 <= j < keys(c0@).len() implies !text::eq_ignore_ascii_case(#[trigger] keys(c0@)[j], k) by {
        assert(false);
    }
    lemma_silent(c0@, k);
    lemma_key_passes(s, 0, k);
    lemma_key_passes(s, 1, k);
    lemma_key_passes(s, 2, k);
    let c3 = lemma_keys_into(s, 3);
    lemma_playback_keys(c3@, ctx);
    assert(keys(c3@) == Seq::<Seq<char>>::empty());
    assert forall|j: int| 0 <= j < keys(c3@).len() implies !text::eq_ignore_ascii_case(#[trigger] keys(c3@)[j], k) by {
        assert(false);
    }
    lemma_silent(c3@, k);
    lemma_key_passes(s, 3, k);
    lemma_key_passes(s, 4, k);
    let c5 = lemma_keys_into(s, 5);
    lemma_analysis_keys(c5@, ctx);
    assert(keys(c5@) == Seq::<Seq<char>>::empty());
    assert forall|j: int| 0 <= j < keys(c5@).len() implies !text::eq_ignore_ascii_case(#[trigger] keys(c5@)[j], k) by {
        assert(false);
    }
    lemma_silent(c5@, k);
    lemma_key_passes(s, 5, k);
    let c6 = lemma_keys_into(s, 6);
    lemma_spectrogram_keys(c6@, ctx);
    assert(keys(c6@) == seq!["C"@]);
    assert forall|j: int| 0 <= j < keys(c6@).len() implies !text::eq_ignore_ascii_case(#[trigger] keys(c6@)[j], k) by {
        if j == 0 {
            reveal_strlit("G");
            reveal_strlit("C");
            lemma_keys_differ("G"@, "C"@, k);
        }
        assert(j == 0);
    }
    lemma_silent(c6@, k);
    lemma_key_passes(s, 6, k);
    let c7 = lemma_keys_into(s, 7);
    lemma_spectrum_keys(c7@, ctx);
    assert(keys(c7@) == seq!["B"@, "P"@]);
    assert forall|j: int| 0 <= j < keys(c7@).len() implies !text::eq_ignore_ascii_case(#[trigger] keys(c7@)[j], k) by {
        if j == 0 {
            reveal_strlit("G");
            reveal_strlit("B");
            lemma_keys_differ("G"@, "B"@, k);
        }
        if j == 1 {
            reveal_strlit("G");
            reveal_strlit("P");
            lemma_keys_differ("G"@, "P"@, k);
        }
        assert(j == 0 || j == 1);
    }
    lemma_silent(c7@, k);
    lemma_key_passes(s, 7, k);
    let c8 = lemma_key_enters(s, 8, k);
    lemma_axes_finds_g(c8@, ctx, k);
}

#[verifier::spinoff_prover]
proof fn lemma_panels_finds_o(s: Seq<Item>, ctx: Context, k: Seq<char>)
    requires
        panel_items(s, ctx),
        text::eq_ignore_ascii_case(k, "O"@),
    ensures
        spec_key(s, k) == Some(Command::Toggle(Flag::ShowOsd)),
{
    lemma_key_end(s, k);
    lemma_key_hits(s, 0, k);
}

#[verifier::spinoff_prover]
proof fn lemma_top_finds_o(s: Seq<Item>, ctx: Context, k: Seq<char>)
    requires
        menu_tree(s, ctx),
        text::eq_ignore_ascii_case(k, "O"@),
    ensures
        spec_key(s, k) == Some(Command::Toggle(Flag::ShowOsd)),
{
    lemma_key_end(s, k);
    let c0 = lemma_keys_into(s, 0);
    lemma_preset_keys(c0@, ctx);
    assert(keys(c0@) == Seq::<Seq<char>>::empty());
    assert forall|j: int| 0 <= j < keys(c0@).len() implies !text::eq_ignore_ascii_case(#[trigger] keys(c0@)[j], k) by {
        assert(false);
    }
    lemma_silent(c0@, k);
    lemma_key_passes(s, 0, k);
    lemma_key_passes(s, 1, k);
    lemma_key_passes(s, 2, k);
    let c3 = lemma_keys_into(s, 3);
    lemma_playback_keys(c3@, ctx);
    assert(keys(c3@) == Seq::<Seq<char>>::empty());
    assert forall|j: int| 0 <= j < keys(c3@).len() implies !text::eq_ignore_ascii_case(#[trigger] keys(c3@)[j], k) by {
        assert(false);
    }
    lemma_silent(c3@, k);
    lemma_key_passes(s, 3, k);
    lemma_key_passes(s, 4, k);
    let c5 = lemma_keys_into(s, 5);
    lemma_analysis_keys(c5@, ctx);
    assert(keys(c5@) == Seq::<Seq<char>>::empty());
    assert forall|j: int| 0 <= j < keys(c5@).len() implies !text::eq_ignore_ascii_case(#[trigger] keys(c5@)[j], k) by {
        assert(false);
    }
    lemma_silent(c5@, k);
    lemma_key_passes(s, 5, k);
    let c6 = lemma_keys_into(s, 6);
    lemma_spectrogram_keys(c6@, ctx);
    assert(keys(c6@) == seq!["C"@]);
    assert forall|j: int| 0 <= j < keys(c6@).len() implies !text::eq_ignore_ascii_case(#[trigger] keys(c6@)[j], k) by {
        if j == 0 {
            reveal_strlit("O");
            reveal_strlit("C");
            lemma_keys_differ("O"@, "C"@, k);
        }
        assert(j == 0);
    }
    lemma_silent(c6@, k);
    lemma_key_passes(s, 6, k);
    let c7 = lemma_keys_into(s, 7);
    lemma_spectrum_keys(c7@, ctx);
    assert(keys(c7@) == seq!["B"@, "P"@]);
    assert forall|j: int| 0 <= j < keys(c7@).len() implies !text::eq_ignore_ascii_case(#[trigger] keys(c7@)[j], k) by {
        if j == 0 {
            reveal_strlit("O");
            reveal_strlit("B");
            lemma_keys_differ("O"@, "B"@, k);
        }
        if j == 1 {
            reveal_strlit("O");
            reveal_strlit("P");
            lemma_keys_differ("O"@, "P"@, k);
        }
        assert(j == 0 || j == 1);
    }
    lemma_silent(c7@, k);
    lemma_key_passes(s, 7, k);
    let c8 = lemma_keys_into(s, 8);
    lemma_axes_keys(c8@, ctx);
    assert(keys(c8@) == seq!["G"@]);
    assert forall|j: int| 0 <= j < keys(c8@).len() implies !text::eq_ignore_ascii_case(#[trigger] keys(c8@)[j], k) by {
        if j == 0 {
            reveal_strlit("O");
            reveal_strlit("G");
            lemma_keys_differ("O"@, "G"@, k);
        }
        assert(j == 0);
    }
    lemma_silent(c8@, k);
    lemma_key_passes(s, 8, k);
    let c9 = lemma_key_enters(s, 9, k);
    lemma_panels_finds_o(c9@, ctx, k);
}

#[verifier::spinoff_prover]
proof fn lemma_waveform_finds_w(s: Seq<Item>, ctx: Context, k: Seq<char>)
    requires
        waveform_items(s, ctx),
        text::eq_ignore_ascii_case(k, "W"@),
    ensures
        spec_key(s, k) == Some(Command::Toggle(Flag::ShowWaveform)),
{
    lemma_key_end(s, k);
    lemma_key_hits(s, 0, k);
}

#[verifier::spinoff_prover]
proof fn lemma_panels_finds_w(s: Seq<Item>, ctx: Context, k: Seq<char>)
    requires
        panel_items(s, ctx),
        text::eq_ignore_ascii_case(k, "W"@),
    ensures
        spec_key(s, k) == Some(Command::Toggle(Flag::ShowWaveform)),
{
    lemma_key_end(s, k);
    reveal_strlit("W");
    reveal_strlit("O");
    lemma_keys_differ("W"@, "O"@, k);
    lemma_key_passes(s, 0, k);
    lemma_key_passes(s, 1, k);
    let c2 = lemma_keys_into(s, 2);
    lemma_deck_keys(c2@, ctx);
    assert(keys(c2@) == Seq::<Seq<char>>::empty());
    assert forall|j: int| 0 <= j < keys(c2@).len() implies !text::eq_ignore_ascii_case(#[trigger] keys(c2@)[j], k) by {
        assert(false);
    }
    lemma_silent(c2@, k);
    lemma_key_passes(s, 2, k);
    let c3 = lemma_key_enters(s, 3, k);
    lemma_waveform_finds_w(c3@, ctx, k);
}

#[verifier::spinoff_prover]
proof fn lemma_top_finds_w(s: Seq<Item>, ctx: Context, k: Seq<char>)
    requires
        menu_tree(s, ctx),
        text::eq_ignore_ascii_case(k, "W"@),
    ensures
        spec_key(s, k) == Some(Command::Toggle(Flag::ShowWaveform)),
{
    lemma_key_end(s, k);
    let c0 = lemma_keys_into(s, 0);
    lemma_preset_keys(c0@, ctx);
    assert(keys(c0@) == Seq::<Seq<char>>::empty());
    assert forall|j: int| 0 <= j < keys(c0@).len() implies !text::eq_ignore_ascii_case(#[trigger] keys(c0@)[j], k) by {
        assert(false);
    }
    lemma_silent(c0@, k);
    lemma_key_passes(s, 0, k);
    lemma_key_passes(s, 1, k);
    lemma_key_passes(s, 2, k);
    let c3 = lemma_keys_into(s, 3);
    lemma_playback_keys(c3@, ctx);
    assert(keys(c3@) == Seq::<Seq<char>>::empty());
    assert forall|j: int| 0 <= j < keys(c3@).len() implies !text::eq_ignore_ascii_case(#[trigger] keys(c3@)[j], k) by {
        assert(false);
    }
    lemma_silent(c3@, k);
    lemma_key_passes(s, 3, k);
    lemma_key_passes(s, 4, k);
    let c5 = lemma_keys_into(s, 5);
    lemma_analysis_keys(c5@, ctx);
    assert(keys(c5@) == Seq::<Seq<char>>::empty());
    assert forall|j: int| 0 <= j < keys(c5@).len() implies !text::eq_ignore_ascii_case(#[trigger] keys(c5@)[j], k) by {
        assert(false);
    }
    lemma_silent(c5@, k);
    lemma_key_passes(s, 5, k);
    let c6 = lemma_keys_into(s, 6);
    lemma_spectrogram_keys(c6@, ctx);
    assert(keys(c6@) == seq!["C"@]);
    assert forall|j: int| 0 <= j < keys(c6@).len() implies !text::eq_ignore_ascii_case(#[trigger] keys(c6@)[j], k) by {
        if j == 0 {
            reveal_strlit("W");
            reveal_strlit("C");
            lemma_keys_differ("W"@, "C"@, k);
        }
        assert(j == 0);
    }
    lemma_silent(c6@, k);
    lemma_key_passes(s, 6, k);
    let c7 = lemma_keys_into(s, 7);
    lemma_spectrum_keys(c7@, ctx);
    assert(keys(c7@) == seq!["B"@, "P"@]);
    assert forall|j: int| 0 <= j < keys(c7@).len() implies !text::eq_ignore_ascii_case(#[trigger] keys(c7@)[j], k) by {
        if j == 0 {
            reveal_strlit("W");
            reveal_strlit("B");
            lemma_keys_differ("W"@, "B"@, k);
        }
        if j == 1 {
            reveal_strlit("W");
            reveal_strlit("P");
            lemma_keys_differ("W"@, "P"@, k);
        }
        assert(j == 0 || j == 1);
    }
    lemma_silent(c7@, k);
    lemma_key_passes(s, 7, k);
    let c8 = lemma_keys_into(s, 8);
    lemma_axes_keys(c8@, ctx);
    assert(keys(c8@) == seq!["G"@]);
    assert forall|j: int| 0 <= j < keys(c8@).len() implies !text::eq_ignore_ascii_case(#[trigger] keys(c8@)[j], k) by {
        if j == 0 {
            reveal_strlit("W");
            reveal_strlit("G");
            lemma_keys_differ("W"@, "G"@, k);
        }
        assert(j == 0);
    }
    lemma_silent(c8@, k);
    lemma_key_passes(s, 8, k);
    let c9 = lemma_key_enters(s, 9, k);
    lemma_panels_finds_w(c9@, ctx, k);
}

#[verifier::spinoff_prover]
proof fn lemma_immersive_finds_i(s: Seq<Item>, ctx: Context, k: Seq<char>)
    requires
        immersive_items(s, ctx),
        text::eq_ignore_ascii_case(k, "I"@),
    ensures
        spec_key(s, k) == Some(Command::Toggle(Flag::Immersive)),
{
    lemma_key_end(s, k);
    lemma_key_hits(s, 0, k);
}

#[verifier::spinoff_prover]
proof fn lemma_top_finds_i(s: Seq<Item>, ctx: Context, k: Seq<char>)
    requires
        menu_tree(s, ctx),
        text::eq_ignore_ascii_case(k, "I"@),
    ensures
        spec_key(s, k) == Some(Command::Toggle(Flag::Immersive)),
{
    lemma_key_end(s, k);
    let c0 = lemma_keys_into(s, 0);
    lemma_preset_keys(c0@, ctx);
    assert(keys(c0@) == Seq::<Seq<char>>::empty());
    assert forall|j: int| 0 <= j < keys(c0@).len() implies !text::eq_ignore_ascii_case(#[trigger] keys(c0@)[j], k) by {
        assert(false);
    }
    lemma_silent(c0@, k);
    lemma_key_passes(s, 0, k);
    lemma_key_passes(s, 1, k);
    lemma_key_passes(s, 2, k);
    let c3 = lemma_keys_into(s, 3);
    lemma_playback_keys(c3@, ctx);
    assert(keys(c3@) == Seq::<Seq<char>>::empty());
    assert forall|j: int| 0 <= j < keys(c3@).len() implies !text::eq_ignore_ascii_case(#[trigger] keys(c3@)[j], k) by {
        assert(false);
    }
    lemma_silent(c3@, k);
    lemma_key_passes(s, 3, k);
    lemma_key_passes(s, 4, k);
    let c5 = lemma_keys_into(s, 5);
    lemma_analysis_keys(c5@, ctx);
    assert(keys(c5@) == Seq::<Seq<char>>::empty());
    assert forall|j: int| 0 <= j < keys(c5@).len() implies !text::eq_ignore_ascii_case(#[trigger] keys(c5@)[j], k) by {
        assert(false);
    }
    lemma_silent(c5@, k);
    lemma_key_passes(s, 5, k);
    let c6 = lemma_keys_into(s, 6);
    lemma_spectrogram_keys(c6@, ctx);
    assert(keys(c6@) == seq!["C"@]);
    assert forall|j: int| 0 <= j < keys(c6@).len() implies !text::eq_ignore_ascii_case(#[trigger] keys(c6@)[j], k) by {
        if j == 0 {
            reveal_strlit("I");
            reveal_strlit("C");
            lemma_keys_differ("I"@, "C"@, k);
        }
        assert(j == 0);
    }
    lemma_silent(c6@, k);
    lemma_key_passes(s, 6, k);
    let c7 = lemma_keys_into(s, 7);
    lemma_spectrum_keys(c7@, ctx);
    assert(keys(c7@) == seq!["B"@, "P"@]);
    assert forall|j: int| 0 <= j < keys(c7@).len() implies !text::eq_ignore_ascii_case(#[trigger] keys(c7@)[j], k) by {
        if j == 0 {
            reveal_strlit("I");
            reveal_strlit("B");
            lemma_keys_differ("I"@, "B"@, k);
        }
        if j == 1 {
            reveal_strlit("I");
            reveal_strlit("P");
            lemma_keys_differ("I"@, "P"@, k);
        }
        assert(j == 0 || j == 1);
    }
    lemma_silent(c7@, k);
    lemma_key_passes(s, 7, k);
    let c8 = lemma_keys_into(s, 8);
    lemma_axes_keys(c8@, ctx);
    assert(keys(c8@) == seq!["G"@]);
    assert forall|j: int| 0 <= j < keys(c8@).len() implies !text::eq_ignore_ascii_case(#[trigger] keys(c8@)[j], k) by {
        if j == 0 {
            reveal_strlit("I");
            reveal_strlit("G");
            lemma_keys_differ("I"@, "G"@, k);
        }
        assert(j == 0);
    }
    lemma_silent(c8@, k);
    lemma_key_passes(s, 8, k);
    let c9 = lemma_keys_into(s, 9);
    lemma_panels_keys(c9@, ctx);
    assert(keys(c9@) == seq!["O"@, "W"@]);
    assert forall|j: int| 0 <= j < keys(c9@).len() implies !text::eq_ignore_ascii_case(#[trigger] keys(c9@)[j], k) by {
        if j == 0 {
            reveal_strlit("I");
            reveal_strlit("O");
            lemma_keys_differ("I"@, "O"@, k);
        }
        if j == 1 {
            reveal_strlit("I");
            reveal_strlit("W");
            lemma_keys_differ("I"@, "W"@, k);
        }
        assert(j == 0 || j == 1);
    }
    lemma_silent(c9@, k);
    lemma_key_passes(s, 9, k);
    let c10 = lemma_key_enters(s, 10, k);
    lemma_immersive_finds_i(c10@, ctx, k);
}

#[verifier::spinoff_prover]
proof fn lemma_top_finds_space(s: Seq<Item>, ctx: Context, k: Seq<char>)
    requires
        menu_tree(s, ctx),
        text::eq_ignore_ascii_case(k, "Space"@),
    ensures
        spec_key(s, k) == Some(Command::Freeze),
{
    lemma_key_end(s, k);
    let c0 = lemma_keys_into(s, 0);
    lemma_preset_keys(c0@, ctx);
    assert(keys(c0@) == Seq::<Seq<char>>::empty());
    assert forall|j: int| 0 <= j < keys(c0@).len() implies !text::eq_ignore_ascii_case(#[trigger] keys(c0@)[j], k) by {
        assert(false);
    }
    lemma_silent(c0@, k);
    lemma_key_passes(s, 0, k);
    lemma_key_passes(s, 1, k);
    lemma_key_passes(s, 2, k);
    let c3 = lemma_keys_into(s, 3);
    lemma_playback_keys(c3@, ctx);
    assert(keys(c3@) == Seq::<Seq<char>>::empty());
    assert forall|j: int| 0 <= j < keys(c3@).len() implies !text::eq_ignore_ascii_case(#[trigger] keys(c3@)[j], k) by {
        assert(false);
    }
    lemma_silent(c3@, k);
    lemma_key_passes(s, 3, k);
    lemma_key_passes(s, 4, k);
    let c5 = lemma_keys_into(s, 5);
    lemma_analysis_keys(c5@, ctx);
    assert(keys(c5@) == Seq::<Seq<char>>::empty());
    assert forall|j: int| 0 <= j < keys(c5@).len() implies !text::eq_ignore_ascii_case(#[trigger] keys(c5@)[j], k) by {
        assert(false);
    }
    lemma_silent(c5@, k);
    lemma_key_passes(s, 5, k);
    let c6 = lemma_keys_into(s, 6);
    lemma_spectrogram_keys(c6@, ctx);
    assert(keys(c6@) == seq!["C"@]);
    assert forall|j: int| 0 <= j < keys(c6@).len() implies !text::eq_ignore_ascii_case(#[trigger] keys(c6@)[j], k) by {
        if j == 0 {
            reveal_strlit("Space");
            reveal_strlit("C");
            lemma_keys_differ("Space"@, "C"@, k);
        }
        assert(j == 0);
    }
    lemma_silent(c6@, k);
    lemma_key_passes(s, 6, k);
    let c7 = lemma_keys_into(s, 7);
    lemma_spectrum_keys(c7@, ctx);
    assert(keys(c7@) == seq!["B"@, "P"@]);
    assert forall|j: int| 0 <= j < keys(c7@).len() implies !text::eq_ignore_ascii_case(#[trigger] keys(c7@)[j], k) by {
        if j == 0 {
            reveal_strlit("Space");
            reveal_strlit("B");
            lemma_keys_differ("Space"@, "B"@, k);
        }
        if j == 1 {
            reveal_strlit("Space");
            reveal_strlit("P");
            lemma_keys_differ("Space"@, "P"@, k);
        }
        assert(j == 0 || j == 1);
    }
    lemma_silent(c7@, k);
    lemma_key_passes(s, 7, k);
    let c8 = lemma_keys_into(s, 8);
    lemma_axes_keys(c8@, ctx);
    assert(keys(c8@) == seq!["G"@]);
    assert forall|j: int| 0 <= j < keys(c8@).len() implies !text::eq_ignore_ascii_case(#[trigger] keys(c8@)[j], k) by {
        if j == 0 {
            reveal_strlit("Space");
            reveal_strlit("G");
            lemma_keys_differ("Space"@, "G"@, k);
        }
        assert(j == 0);
    }
    lemma_silent(c8@, k);
    lemma_key_passes(s, 8, k);
    let c9 = lemma_keys_into(s, 9);
    lemma_panels_keys(c9@, ctx);
    assert(keys(c9@) == seq!["O"@, "W"@]);
    assert forall|j: int| 0 <= j < keys(c9@).len() implies !text::eq_ignore_ascii_case(#[trigger] keys(c9@)[j], k) by {
        if j == 0 {
            reveal_strlit("Space");
            reveal_strlit("O");
            lemma_keys_differ("Space"@, "O"@, k);
        }
        if j == 1 {
            reveal_strlit("Space");
            reveal_strlit("W");
            lemma_keys_differ("Space"@, "W"@, k);
        }
        assert(j == 0 || j == 1);
    }
    lemma_silent(c9@, k);
    lemma_key_passes(s, 9, k);
    let c10 = lemma_keys_into(s, 10);
    lemma_immersive_keys(c10@, ctx);
    assert(keys(c10@) == seq!["I"@]);
    assert forall|j: int| 0 <= j < keys(c10@).len() implies !text::eq_ignore_ascii_case(#[trigger] keys(c10@)[j], k) by {
        if j == 0 {
            reveal_strlit("Space");
            reveal_strlit("I");
            lemma_keys_differ("Space"@, "I"@, k);
        }
        assert(j == 0);
    }
    lemma_silent(c10@, k);
    lemma_key_passes(s, 10, k);
    let c11 = lemma_keys_into(s, 11);
    lemma_performance_keys(c11@, ctx);
    assert(keys(c11@) == Seq::<Seq<char>>::empty());
    assert forall|j: int| 0 <= j < keys(c11@).len() implies !text::eq_ignore_ascii_case(#[trigger] keys(c11@)[j], k) by {
        assert(false);
    }
    lemma_silent(c11@, k);
    lemma_key_passes(s, 11, k);
    lemma_key_passes(s, 12, k);
    lemma_key_hits(s, 13, k);
}

#[verifier::spinoff_prover]
proof fn lemma_top_finds_end(s: Seq<Item>, ctx: Context, k: Seq<char>)
    requires
        menu_tree(s, ctx),
        text::eq_ignore_ascii_case(k, "End"@),
    ensures
        spec_key(s, k) == Some(Command::GoLive),
{
    lemma_key_end(s, k);
    let c0 = lemma_keys_into(s, 0);
    lemma_preset_keys(c0@, ctx);
    assert(keys(c0@) == Seq::<Seq<char>>::empty());
    assert forall|j: int| 0 <= j < keys(c0@).len() implies !text::eq_ignore_ascii_case(#[trigger] keys(c0@)[j], k) by {
        assert(false);
    }
    lemma_silent(c0@, k);
    lemma_key_passes(s, 0, k);
    lemma_key_passes(s, 1, k);
    lemma_key_passes(s, 2, k);
    let c3 = lemma_keys_into(s, 3);
    lemma_playback_keys(c3@, ctx);
    assert(keys(c3@) == Seq::<Seq<char>>::empty());
    assert forall|j: int| 0 <= j < keys(c3@).len() implies !text::eq_ignore_ascii_case(#[trigger] keys(c3@)[j], k) by {
        assert(false);
    }
    lemma_silent(c3@, k);
    lemma_key_passes(s, 3, k);
    lemma_key_passes(s, 4, k);
    let c5 = lemma_keys_into(s, 5);
    lemma_analysis_keys(c5@, ctx);
    assert(keys(c5@) == Seq::<Seq<char>>::empty());
    assert forall|j: int| 0 <= j < keys(c5@).len() implies !text::eq_ignore_ascii_case(#[trigger] keys(c5@)[j], k) by {
        assert(false);
    }
    lemma_silent(c5@, k);
    lemma_key_passes(s, 5, k);
    let c6 = lemma_keys_into(s, 6);
    lemma_spectrogram_keys(c6@, ctx);
    assert(keys(c6@) == seq!["C"@]);
    assert forall|j: int| 0 <= j < keys(c6@).len() implies !text::eq_ignore_ascii_case(#[trigger] keys(c6@)[j], k) by {
        if j == 0 {
            reveal_strlit("End");
            reveal_strlit("C");
            lemma_keys_differ("End"@, "C"@, k);
        }
        assert(j == 0);
    }
    lemma_silent(c6@, k);
    lemma_key_passes(s, 6, k);
    let c7 = lemma_keys_into(s, 7);
    lemma_spectrum_keys(c7@, ctx);
    assert(keys(c7@) == seq!["B"@, "P"@]);
    assert forall|j: int| 0 <= j < keys(c7@).len() implies !text::eq_ignore_ascii_case(#[trigger] keys(c7@)[j], k) by {
        if j == 0 {
            reveal_strlit("End");
            reveal_strlit("B");
            lemma_keys_differ("End"@, "B"@, k);
        }
        if j == 1 {
            reveal_strlit("End");
            reveal_strlit("P");
            lemma_keys_differ("End"@, "P"@, k);
        }
        assert(j == 0 || j == 1);
    }
    lemma_silent(c7@, k);
    lemma_key_passes(s, 7, k);
    let c8 = lemma_keys_into(s, 8);
    lemma_axes_keys(c8@, ctx);
    assert(keys(c8@) == seq!["G"@]);
    assert forall|j: int| 0 <= j < keys(c8@).len() implies !text::eq_ignore_ascii_case(#[trigger] keys(c8@)[j], k) by {
        if j == 0 {
            reveal_strlit("End");
            reveal_strlit("G");
            lemma_keys_differ("End"@, "G"@, k);
        }
        assert(j == 0);
    }
    lemma_silent(c8@, k);
    lemma_key_passes(s, 8, k);
    let c9 = lemma_keys_into(s, 9);
    lemma_panels_keys(c9@, ctx);
    assert(keys(c9@) == seq!["O"@, "W"@]);
    assert forall|j: int| 0 <= j < keys(c9@).len() implies !text::eq_ignore_ascii_case(#[trigger] keys(c9@)[j], k) by {
        if j == 0 {
            reveal_strlit("End");
            reveal_strlit("O");
            lemma_keys_differ("End"@, "O"@, k);
        }
        if j == 1 {
            reveal_strlit("End");
            reveal_strlit("W");
            lemma_keys_differ("End"@, "W"@, k);
        }
        assert(j == 0 || j == 1);
    }
    lemma_silent(c9@, k);
    lemma_key_passes(s, 9, k);
    let c10 = lemma_keys_into(s, 10);
    lemma_immersive_keys(c10@, ctx);
    assert(keys(c10@) == seq!["I"@]);
    assert forall|j: int| 0 <= j < keys(c10@).len() implies !text::eq_ignore_ascii_case(#[trigger] keys(c10@)[j], k) by {
        if j == 0 {
            reveal_strlit("End");
            reveal_strlit("I");
            lemma_keys_differ("End"@, "I"@, k);
        }
        assert(j == 0);
    }
    lemma_silent(c10@, k);
    lemma_key_passes(s, 10, k);
    let c11 = lemma_keys_into(s, 11);
    lemma_performance_keys(c11@, ctx);
    assert(keys(c11@) == Seq::<Seq<char>>::empty());
    assert forall|j: int| 0 <= j < keys(c11@).len() implies !text::eq_ignore_ascii_case(#[trigger] keys(c11@)[j], k) by {
        assert(false);
    }
    lemma_silent(c11@, k);
    lemma_key_passes(s, 11, k);
    lemma_key_passes(s, 12, k);
    reveal_strlit("End");
    reveal_strlit("Space");
    lemma_keys_differ("End"@, "Space"@, k);
    lemma_key_passes(s, 13, k);
    lemma_key_hits(s, 14, k);
}

#[verifier::spinoff_prover]
proof fn lemma_top_finds_a(s: Seq<Item>, ctx: Context, k: Seq<char>)
    requires
        menu_tree(s, ctx),
        text::eq_ignore_ascii_case(k, "A"@),
    ensures
        spec_key(s, k) == Some(Command::Reference),
{
    lemma_key_end(s, k);
    let c0 = lemma_keys_into(s, 0);
    lemma_preset_keys(c0@, ctx);
    assert(keys(c0@) == Seq::<Seq<char>>::empty());
    assert forall|j: int| 0 <= j < keys(c0@).len() implies !text::eq_ignore_ascii_case(#[trigger] keys(c0@)[j], k) by {
        assert(false);
    }
    lemma_silent(c0@, k);
    lemma_key_passes(s, 0, k);
    lemma_key_passes(s, 1, k);
    lemma_key_passes(s, 2, k);
    let c3 = lemma_keys_into(s, 3);
    lemma_playback_keys(c3@, ctx);
    assert(keys(c3@) == Seq::<Seq<char>>::empty());
    assert forall|j: int| 0 <= j < keys(c3@).len() implies !text::eq_ignore_ascii_case(#[trigger] keys(c3@)[j], k) by {
        assert(false);
    }
    lemma_silent(c3@, k);
    lemma_key_passes(s, 3, k);
    lemma_key_passes(s, 4, k);
    let c5 = lemma_keys_into(s, 5);
    lemma_analysis_keys(c5@, ctx);
    assert(keys(c5@) == Seq::<Seq<char>>::empty());
    assert forall|j: int| 0 <= j < keys(c5@).len() implies !text::eq_ignore_ascii_case(#[trigger] keys(c5@)[j], k) by {
        assert(false);
    }
    lemma_silent(c5@, k);
    lemma_key_passes(s, 5, k);
    let c6 = lemma_keys_into(s, 6);
    lemma_spectrogram_keys(c6@, ctx);
    assert(keys(c6@) == seq!["C"@]);
    assert forall|j: int| 0 <= j < keys(c6@).len() implies !text::eq_ignore_ascii_case(#[trigger] keys(c6@)[j], k) by {
        if j == 0 {
            reveal_strlit("A");
            reveal_strlit("C");
            lemma_keys_differ("A"@, "C"@, k);
        }
        assert(j == 0);
    }
    lemma_silent(c6@, k);
    lemma_key_passes(s, 6, k);
    let c7 = lemma_keys_into(s, 7);
    lemma_spectrum_keys(c7@, ctx);
    assert(keys(c7@) == seq!["B"@, "P"@]);
    assert forall|j: int| 0 <= j < keys(c7@).len() implies !text::eq_ignore_ascii_case(#[trigger] keys(c7@)[j], k) by {
        if j == 0 {
            reveal_strlit("A");
            reveal_strlit("B");
            lemma_keys_differ("A"@, "B"@, k);
        }
        if j == 1 {
            reveal_strlit("A");
            reveal_strlit("P");
            lemma_keys_differ("A"@, "P"@, k);
        }
        assert(j == 0 || j == 1);
    }
    lemma_silent(c7@, k);
    lemma_key_passes(s, 7, k);
    let c8 = lemma_keys_into(s, 8);
    lemma_axes_keys(c8@, ctx);
    assert(keys(c8@) == seq!["G"@]);
    assert forall|j: int| 0 <= j < keys(c8@).len() implies !text::eq_ignore_ascii_case(#[trigger] keys(c8@)[j], k) by {
        if j == 0 {
            reveal_strlit("A");
            reveal_strlit("G");
            lemma_keys_differ("A"@, "G"@, k);
        }
        assert(j == 0);
    }
    lemma_silent(c8@, k);
    lemma_key_passes(s, 8, k);
    let c9 = lemma_keys_into(s, 9);
    lemma_panels_keys(c9@, ctx);
    assert(keys(c9@) == seq!["O"@, "W"@]);
    assert forall|j: int| 0 <= j < keys(c9@).len() implies !text::eq_ignore_ascii_case(#[trigger] keys(c9@)[j], k) by {
        if j == 0 {
            reveal_strlit("A");
            reveal_strlit("O");
            lemma_keys_differ("A"@, "O"@, k);
        }
        if j == 1 {
            reveal_strlit("A");
            reveal_strlit("W");
            lemma_keys_differ("A"@, "W"@, k);
        }
        assert(j == 0 || j == 1);
    }
    lemma_silent(c9@, k);
    lemma_key_passes(s, 9, k);
    let c10 = lemma_keys_into(s, 10);
    lemma_immersive_keys(c10@, ctx);
    assert(keys(c10@) == seq!["I"@]);
    assert forall|j: int| 0 <= j < keys(c10@).len() implies !text::eq_ignore_ascii_case(#[trigger] keys(c10@)[j], k) by {
        if j == 0 {
            reveal_strlit("A");
            reveal_strlit("I");
            lemma_keys_differ("A"@, "I"@, k);
        }
        assert(j == 0);
    }
    lemma_silent(c10@, k);
    lemma_key_passes(s, 10, k);
    let c11 = lemma_keys_into(s, 11);
    lemma_performance_keys(c11@, ctx);
    assert(keys(c11@) == Seq::<Seq<char>>::empty());
    assert forall|j: int| 0 <= j < keys(c11@).len() implies !text::eq_ignore_ascii_case(#[trigger] keys(c11@)[j], k) by {
        assert(false);
    }
    lemma_silent(c11@, k);
    lemma_key_passes(s, 11, k);
    lemma_key_passes(s, 12, k);
    reveal_strlit("A");
    reveal_strlit("Space");
    lemma_keys_differ("A"@, "Space"@, k);
    lemma_key_passes(s, 13, k);
    reveal_strlit("A");
    reveal_strlit("End");
    lemma_keys_differ("A"@, "End"@, k);
    lemma_key_passes(s, 14, k);
    lemma_key_hits(s, 15, k);
}

#[verifier::spinoff_prover]
proof fn lemma_top_finds_f11(s: Seq<Item>, ctx: Context, k: Seq<char>)
    requires
        menu_tree(s, ctx),
        text::eq_ignore_ascii_case(k, "F11"@),
    ensures
        spec_key(s, k) == Some(Command::Fullscreen),
{
    lemma_key_end(s, k);
    let c0 = lemma_keys_into(s, 0);
    lemma_preset_keys(c0@, ctx);
    assert(keys(c0@) == Seq::<Seq<char>>::empty());
    assert forall|j: int| 0 <= j < keys(c0@).len() implies !text::eq_ignore_ascii_case(#[trigger] keys(c0@)[j], k) by {
        assert(false);
    }
    lemma_silent(c0@, k);
    lemma_key_passes(s, 0, k);
    lemma_key_passes(s, 1, k);
    lemma_key_passes(s, 2, k);
    let c3 = lemma_keys_into(s, 3);
    lemma_playback_keys(c3@, ctx);
    assert(keys(c3@) == Seq::<Seq<char>>::empty());
    assert forall|j: int| 0 <= j < keys(c3@).len() implies !text::eq_ignore_ascii_case(#[trigger] keys(c3@)[j], k) by {
        assert(false);
    }
    lemma_silent(c3@, k);
    lemma_key_passes(s, 3, k);
    lemma_key_passes(s, 4, k);
    let c5 = lemma_keys_into(s, 5);
    lemma_analysis_keys(c5@, ctx);
    assert(keys(c5@) == Seq::<Seq<char>>::empty());
    assert forall|j: int| 0 <= j < keys(c5@).len() implies !text::eq_ignore_ascii_case(#[trigger] keys(c5@)[j], k) by {
        assert(false);
    }
    lemma_silent(c5@, k);
    lemma_key_passes(s, 5, k);
    let c6 = lemma_keys_into(s, 6);
    lemma_spectrogram_keys(c6@, ctx);
    assert(keys(c6@) == seq!["C"@]);
    assert forall|j: int| 0 <= j < keys(c6@).len() implies !text::eq_ignore_ascii_case(#[trigger] keys(c6@)[j], k) by {
        if j == 0 {
            reveal_strlit("F11");
            reveal_strlit("C");
            lemma_keys_differ("F11"@, "C"@, k);
        }
        assert(j == 0);
    }
    lemma_silent(c6@, k);
    lemma_key_passes(s, 6, k);
    let c7 = lemma_keys_into(s, 7);
    lemma_spectrum_keys(c7@, ctx);
    assert(keys(c7@) == seq!["B"@, "P"@]);
    assert forall|j: int| 0 <= j < keys(c7@).len() implies !text::eq_ignore_ascii_case(#[trigger] keys(c7@)[j], k) by {
        if j == 0 {
            reveal_strlit("F11");
            reveal_strlit("B");
            lemma_keys_differ("F11"@, "B"@, k);
        }
        if j == 1 {
            reveal_strlit("F11");
            reveal_strlit("P");
            lemma_keys_differ("F11"@, "P"@, k);
        }
        assert(j == 0 || j == 1);
    }
    lemma_silent(c7@, k);
    lemma_key_passes(s, 7, k);
    let c8 = lemma_keys_into(s, 8);
    lemma_axes_keys(c8@, ctx);
    assert(keys(c8@) == seq!["G"@]);
    assert forall|j: int| 0 <= j < keys(c8@).len() implies !text::eq_ignore_ascii_case(#[trigger] keys(c8@)[j], k) by {
        if j == 0 {
            reveal_strlit("F11");
            reveal_strlit("G");
            lemma_keys_differ("F11"@, "G"@, k);
        }
        assert(j == 0);
    }
    lemma_silent(c8@, k);
    lemma_key_passes(s, 8, k);
    let c9 = lemma_keys_into(s, 9);
    lemma_panels_keys(c9@, ctx);
    assert(keys(c9@) == seq!["O"@, "W"@]);
    assert forall|j: int| 0 <= j < keys(c9@).len() implies !text::eq_ignore_ascii_case(#[trigger] keys(c9@)[j], k) by {
        if j == 0 {
            reveal_strlit("F11");
            reveal_strlit("O");
            lemma_keys_differ("F11"@, "O"@, k);
        }
        if j == 1 {
            reveal_strlit("F11");
            reveal_strlit("W");
            lemma_keys_differ("F11"@, "W"@, k);
        }
        assert(j == 0 || j == 1);
    }
    lemma_silent(c9@, k);
    lemma_key_passes(s, 9, k);
    let c10 = lemma_keys_into(s, 10);
    lemma_immersive_keys(c10@, ctx);
    assert(keys(c10@) == seq!["I"@]);
    assert forall|j: int| 0 <= j < keys(c10@).len() implies !text::eq_ignore_ascii_case(#[trigger] keys(c10@)[j], k) by {
        if j == 0 {
            reveal_strlit("F11");
            reveal_strlit("I");
            lemma_keys_differ("F11"@, "I"@, k);
        }
        assert(j == 0);
    }
    lemma_silent(c10@, k);
    lemma_key_passes(s, 10, k);
    let c11 = lemma_keys_into(s, 11);
    lemma_performance_keys(c11@, ctx);
    assert(keys(c11@) == Seq::<Seq<char>>::empty());
    assert forall|j: int| 0 <= j < keys(c11@).len() implies !text::eq_ignore_ascii_case(#[trigger] keys(c11@)[j], k) by {
        assert(false);
    }
    lemma_silent(c11@, k);
    lemma_key_passes(s, 11, k);
    lemma_key_passes(s, 12, k);
    reveal_strlit("F11");
    reveal_strlit("Space");
    lemma_keys_differ("F11"@, "Space"@, k);
    lemma_key_passes(s, 13, k);
    reveal_strlit("F11");
    reveal_strlit("End");
    lemma_keys_differ("F11"@, "End"@, k);
    lemma_key_passes(s, 14, k);
    reveal_strlit("F11");
    reveal_strlit("A");
    lemma_keys_differ("F11"@, "A"@, k);
    lemma_key_passes(s, 15, k);
    lemma_key_hits(s, 16, k);
}

#[verifier::spinoff_prover]
proof fn lemma_top_finds_f1(s: Seq<Item>, ctx: Context, k: Seq<char>)
    requires
        menu_tree(s, ctx),
        text::eq_ignore_ascii_case(k, "F1"@),
    ensures
        spec_key(s, k) == Some(Command::Help),
{
    lemma_key_end(s, k);
    let c0 = lemma_keys_into(s, 0);
    lemma_preset_keys(c0@, ctx);
    assert(keys(c0@) == Seq::<Seq<char>>::empty());
    assert forall|j: int| 0 <= j < keys(c0@).len() implies !text::eq_ignore_ascii_case(#[trigger] keys(c0@)[j], k) by {
        assert(false);
    }
    lemma_silent(c0@, k);
    lemma_key_passes(s, 0, k);
    lemma_key_passes(s, 1, k);
    lemma_key_passes(s, 2, k);
    let c3 = lemma_keys_into(s, 3);
    lemma_playback_keys(c3@, ctx);
    assert(keys(c3@) == Seq::<Seq<char>>::empty());
    assert forall|j: int| 0 <= j < keys(c3@).len() implies !text::eq_ignore_ascii_case(#[trigger] keys(c3@)[j], k) by {
        assert(false);
    }
    lemma_silent(c3@, k);
    lemma_key_passes(s, 3, k);
    lemma_key_passes(s, 4, k);
    let c5 = lemma_keys_into(s, 5);
    lemma_analysis_keys(c5@, ctx);
    assert(keys(c5@) == Seq::<Seq<char>>::empty());
    assert forall|j: int| 0 <= j < keys(c5@).len() implies !text::eq_ignore_ascii_case(#[trigger] keys(c5@)[j], k) by {
        assert(false);
    }
    lemma_silent(c5@, k);
    lemma_key_passes(s, 5, k);
    let c6 = lemma_keys_into(s, 6);
    lemma_spectrogram_keys(c6@, ctx);
    assert(keys(c6@) == seq!["C"@]);
    assert forall|j: int| 0 <= j < keys(c6@).len() implies !text::eq_ignore_ascii_case(#[trigger] keys(c6@)[j], k) by {
        if j == 0 {
            reveal_strlit("F1");
            reveal_strlit("C");
            lemma_keys_differ("F1"@, "C"@, k);
        }
        assert(j == 0);
    }
    lemma_silent(c6@, k);
    lemma_key_passes(s, 6, k);
    let c7 = lemma_keys_into(s, 7);
    lemma_spectrum_keys(c7@, ctx);
    assert(keys(c7@) == seq!["B"@, "P"@]);
    assert forall|j: int| 0 <= j < keys(c7@).len() implies !text::eq_ignore_ascii_case(#[trigger] keys(c7@)[j], k) by {
        if j == 0 {
            reveal_strlit("F1");
            reveal_strlit("B");
            lemma_keys_differ("F1"@, "B"@, k);
        }
        if j == 1 {
            reveal_strlit("F1");
            reveal_strlit("P");
            lemma_keys_differ("F1"@, "P"@, k);
        }
        assert(j == 0 || j == 1);
    }
    lemma_silent(c7@, k);
    lemma_key_passes(s, 7, k);
    let c8 = lemma_keys_into(s, 8);
    lemma_axes_keys(c8@, ctx);
    assert(keys(c8@) == seq!["G"@]);
    assert forall|j: int| 0 <= j < keys(c8@).len() implies !text::eq_ignore_ascii_case(#[trigger] keys(c8@)[j], k) by {
        if j == 0 {
            reveal_strlit("F1");
            reveal_strlit("G");
            lemma_keys_differ("F1"@, "G"@, k);
        }
        assert(j == 0);
    }
    lemma_silent(c8@, k);
    lemma_key_passes(s, 8, k);
    let c9 = lemma_keys_into(s, 9);
    lemma_panels_keys(c9@, ctx);
    assert(keys(c9@) == seq!["O"@, "W"@]);
    assert forall|j: int| 0 <= j < keys(c9@).len() implies !text::eq_ignore_ascii_case(#[trigger] keys(c9@)[j], k) by {
        if j == 0 {
            reveal_strlit("F1");
            reveal_strlit("O");
            lemma_keys_differ("F1"@, "O"@, k);
        }
        if j == 1 {
            reveal_strlit("F1");
            reveal_strlit("W");
            lemma_keys_differ("F1"@, "W"@, k);
        }
        assert(j == 0 || j == 1);
    }
    lemma_silent(c9@, k);
    lemma_key_passes(s, 9, k);
    let c10 = lemma_keys_into(s, 10);
    lemma_immersive_keys(c10@, ctx);
    assert(keys(c10@) == seq!["I"@]);
    assert forall|j: int| 0 <= j < keys(c10@).len() implies !text::eq_ignore_ascii_case(#[trigger] keys(c10@)[j], k) by {
        if j == 0 {
            reveal_strlit("F1");
            reveal_strlit("I");
            lemma_keys_differ("F1"@, "I"@, k);
        }
        assert(j == 0);
    }
    lemma_silent(c10@, k);
    lemma_key_passes(s, 10, k);
    let c11 = lemma_keys_into(s, 11);
    lemma_performance_keys(c11@, ctx);
    assert(keys(c11@) == Seq::<Seq<char>>::empty());
    assert forall|j: int| 0 <= j < keys(c11@).len() implies !text::eq_ignore_ascii_case(#[trigger] keys(c11@)[j], k) by {
        assert(false);
    }
    lemma_silent(c11@, k);
    lemma_key_passes(s, 11, k);
    lemma_key_passes(s, 12, k);
    reveal_strlit("F1");
    reveal_strlit("Space");
    lemma_keys_differ("F1"@, "Space"@, k);
    lemma_key_passes(s, 13, k);
    reveal_strlit("F1");
    reveal_strlit("End");
    lemma_keys_differ("F1"@, "End"@, k);
    lemma_key_passes(s, 14, k);
    reveal_strlit("F1");
    reveal_strlit("A");
    lemma_keys_differ("F1"@, "A"@, k);
    lemma_key_passes(s, 15, k);
    reveal_strlit("F1");
    reveal_strlit("F11");
    lemma_keys_differ("F1"@, "F11"@, k);
    lemma_key_passes(s, 16, k);
    reveal_strlit("F1");
    reveal_strlit("Esc");
    lemma_keys_differ("F1"@, "Esc"@, k);
    lemma_key_passes(s, 17, k);
    lemma_key_passes(s, 18, k);
    lemma_key_hits(s, 19, k);
}

#[verifier::spinoff_prover]
proof fn lemma_top_finds_esc(s: Seq<Item>, ctx: Context, k: Seq<char>)
    requires
        menu_tree(s, ctx),
        text::eq_ignore_ascii_case(k, "Esc"@),
    ensures
        spec_key(s, k) == (if ctx.session.fullscreen { Some(Command::LeaveFullscreen) } else { None }),
{
    lemma_key_end(s, k);
    let c0 = lemma_keys_into(s, 0);
    lemma_preset_keys(c0@, ctx);
    assert(keys(c0@) == Seq::<Seq<char>>::empty());
    assert forall|j: int| 0 <= j < keys(c0@).len() implies !text::eq_ignore_ascii_case(#[trigger] keys(c0@)[j], k) by {
        assert(false);
    }
    lemma_silent(c0@, k);
    lemma_key_passes(s, 0, k);
    lemma_key_passes(s, 1, k);
    lemma_key_passes(s, 2, k);
    let c3 = lemma_keys_into(s, 3);
    lemma_playback_keys(c3@, ctx);
    assert(keys(c3@) == Seq::<Seq<char>>::empty());
    assert forall|j: int| 0 <= j < keys(c3@).len() implies !text::eq_ignore_ascii_case(#[trigger] keys(c3@)[j], k) by {
        assert(false);
    }
    lemma_silent(c3@, k);
    lemma_key_passes(s, 3, k);
    lemma_key_passes(s, 4, k);
    let c5 = lemma_keys_into(s, 5);
    lemma_analysis_keys(c5@, ctx);
    assert(keys(c5@) == Seq::<Seq<char>>::empty());
    assert forall|j: int| 0 <= j < keys(c5@).len() implies !text::eq_ignore_ascii_case(#[trigger] keys(c5@)[j], k) by {
        assert(false);
    }
    lemma_silent(c5@, k);
    lemma_key_passes(s, 5, k);
    let c6 = lemma_keys_into(s, 6);
    lemma_spectrogram_keys(c6@, ctx);
    assert(keys(c6@) == seq!["C"@]);
    assert forall|j: int| 0 <= j < keys(c6@).len() implies !text::eq_ignore_ascii_case(#[trigger] keys(c6@)[j], k) by {
        if j == 0 {
            reveal_strlit("Esc");
            reveal_strlit("C");
            lemma_keys_differ("Esc"@, "C"@, k);
        }
        assert(j == 0);
    }
    lemma_silent(c6@, k);
    lemma_key_passes(s, 6, k);
    let c7 = lemma_keys_into(s, 7);
    lemma_spectrum_keys(c7@, ctx);
    assert(keys(c7@) == seq!["B"@, "P"@]);
    assert forall|j: int| 0 <= j < keys(c7@).len() implies !text::eq_ignore_ascii_case(#[trigger] keys(c7@)[j], k) by {
        if j == 0 {
            reveal_strlit("Esc");
            reveal_strlit("B");
            lemma_keys_differ("Esc"@, "B"@, k);
        }
        if j == 1 {
            reveal_strlit("Esc");
            reveal_strlit("P");
            lemma_keys_differ("Esc"@, "P"@, k);
        }
        assert(j == 0 || j == 1);
    }
    lemma_silent(c7@, k);
    lemma_key_passes(s, 7, k);
    let c8 = lemma_keys_into(s, 8);
    lemma_axes_keys(c8@, ctx);
    assert(keys(c8@) == seq!["G"@]);
    assert forall|j: int| 0 <= j < keys(c8@).len() implies !text::eq_ignore_ascii_case(#[trigger] keys(c8@)[j], k) by {
        if j == 0 {
            reveal_strlit("Esc");
            reveal_strlit("G");
            lemma_keys_differ("Esc"@, "G"@, k);
        }
        assert(j == 0);
    }
    lemma_silent(c8@, k);
    lemma_key_passes(s, 8, k);
    let c9 = lemma_keys_into(s, 9);
    lemma_panels_keys(c9@, ctx);
    assert(keys(c9@) == seq!["O"@, "W"@]);
    assert forall|j: int| 0 <= j < keys(c9@).len() implies !text::eq_ignore_ascii_case(#[trigger] keys(c9@)[j], k) by {
        if j == 0 {
            reveal_strlit("Esc");
            reveal_strlit("O");
            lemma_keys_differ("Esc"@, "O"@, k);
        }
        if j == 1 {
            reveal_strlit("Esc");
            reveal_strlit("W");
            lemma_keys_differ("Esc"@, "W"@, k);
        }
        assert(j == 0 || j == 1);
    }
    lemma_silent(c9@, k);
    lemma_key_passes(s, 9, k);
    let c10 = lemma_keys_into(s, 10);
    lemma_immersive_keys(c10@, ctx);
    assert(keys(c10@) == seq!["I"@]);
    assert forall|j: int| 0 <= j < keys(c10@).len() implies !text::eq_ignore_ascii_case(#[trigger] keys(c10@)[j], k) by {
        if j == 0 {
            reveal_strlit("Esc");
            reveal_strlit("I");
            lemma_keys_differ("Esc"@, "I"@, k);
        }
        assert(j == 0);
    }
    lemma_silent(c10@, k);
    lemma_key_passes(s, 10, k);
    let c11 = lemma_keys_into(s, 11);
    lemma_performance_keys(c11@, ctx);
    assert(keys(c11@) == Seq::<Seq<char>>::empty());
    assert forall|j: int| 0 <= j < keys(c11@).len() implies !text::eq_ignore_ascii_case(#[trigger] keys(c11@)[j], k) by {
        assert(false);
    }
    lemma_silent(c11@, k);
    lemma_key_passes(s, 11, k);
    lemma_key_passes(s, 12, k);
    reveal_strlit("Esc");
    reveal_strlit("Space");
    lemma_keys_differ("Esc"@, "Space"@, k);
    lemma_key_passes(s, 13, k);
    reveal_strlit("Esc");
    reveal_strlit("End");
    lemma_keys_differ("Esc"@, "End"@, k);
    lemma_key_passes(s, 14, k);
    reveal_strlit("Esc");
    reveal_strlit("A");
    lemma_keys_differ("Esc"@, "A"@, k);
    lemma_key_passes(s, 15, k);
    reveal_strlit("Esc");
    reveal_strlit("F11");
    lemma_keys_differ("Esc"@, "F11"@, k);
    lemma_key_passes(s, 16, k);
    if ctx.session.fullscreen {
        lemma_key_hits(s, 17, k);
    } else {
        lemma_key_passes(s, 17, k);
        lemma_key_passes(s, 18, k);
        reveal_strlit("F1");
        lemma_keys_differ("Esc"@, "F1"@, k);
        lemma_key_passes(s, 19, k);
        lemma_key_passes(s, 20, k);
        lemma_key_passes(s, 21, k);
        lemma_key_passes(s, 22, k);
        lemma_key_passes(s, 23, k);
    }
}

/// A key does what its menu item does: looked up in the menu, in any ASCII case, each
/// key performs the command of the item that carries it, and `Esc` leaves fullscreen
/// only where the item that carries it is usable, which is in fullscreen.
pub proof fn lemma_keys_do_what_their_items_do(items: Seq<Item>, ctx: Context, k: Seq<char>)
    requires
        menu_tree(items, ctx),
    ensures
        text::eq_ignore_ascii_case(k, "Space"@) ==> spec_key(items, k) == Some(Command::Freeze),
        text::eq_ignore_ascii_case(k, "End"@) ==> spec_key(items, k) == Some(Command::GoLive),
        text::eq_ignore_ascii_case(k, "A"@) ==> spec_key(items, k) == Some(Command::Reference),
        text::eq_ignore_ascii_case(k, "F11"@) ==> spec_key(items, k) == Some(Command::Fullscreen),
        text::eq_ignore_ascii_case(k, "Esc"@) ==> spec_key(items, k) == (if ctx.session.fullscreen {
            Some(Command::LeaveFullscreen)
        } else {
            None
        }),
        text::eq_ignore_ascii_case(k, "F1"@) ==> spec_key(items, k) == Some(Command::Help),
        text::eq_ignore_ascii_case(k, "B"@) ==> spec_key(items, k) == Some(Command::NextStyle),
        text::eq_ignore_ascii_case(k, "C"@) ==> spec_key(items, k) == Some(Command::NextPalette),
        text::eq_ignore_ascii_case(k, "P"@) ==> spec_key(items, k) == Some(Command::Toggle(Flag::ShowMax)),
        text::eq_ignore_ascii_case(k, "G"@) ==> spec_key(items, k) == Some(Command::Toggle(Flag::ShowGrid)),
        text::eq_ignore_ascii_case(k, "O"@) ==> spec_key(items, k) == Some(Command::Toggle(Flag::ShowOsd)),
        text::eq_ignore_ascii_case(k, "W"@) ==> spec_key(items, k) == Some(Command::Toggle(Flag::ShowWaveform)),
        text::eq_ignore_ascii_case(k, "I"@) ==> spec_key(items, k) == Some(Command::Toggle(Flag::Immersive)),
{
    if text::eq_ignore_ascii_case(k, "Space"@) {
        lemma_top_finds_space(items, ctx, k);
    }
    if text::eq_ignore_ascii_case(k, "End"@) {
        lemma_top_finds_end(items, ctx, k);
    }
    if text::eq_ignore_ascii_case(k, "A"@) {
        lemma_top_finds_a(items, ctx, k);
    }
    if text::eq_ignore_ascii_case(k, "F11"@) {
        lemma_top_finds_f11(items, ctx, k);
    }
    if text::eq_ignore_ascii_case(k, "Esc"@) {
        lemma_top_finds_esc(items, ctx, k);
    }
    if text::eq_ignore_ascii_case(k, "F1"@) {
        lemma_top_finds_f1(items, ctx, k);
    }
    if text::eq_ignore_ascii_case(k, "B"@) {
        lemma_top_finds_b(items, ctx, k);
    }
    if text::eq_ignore_ascii_case(k, "C"@) {
        lemma_top_finds_c(items, ctx, k);
    }
    if text::eq_ignore_ascii_case(k, "P"@) {
        lemma_top_finds_p(items, ctx, k);
    }
    if text::eq_ignore_ascii_case(k, "G"@) {
        lemma_top_finds_g(items, ctx, k);
    }
    if text::eq_ignore_ascii_case(k, "O"@) {
        lemma_top_finds_o(items, ctx, k);
    }
    if text::eq_ignore_ascii_case(k, "W"@) {
        lemma_top_finds_w(items, ctx, k);
    }
    if text::eq_ignore_ascii_case(k, "I"@) {
        lemma_top_finds_i(items, ctx, k);
    }
}

} // verus!

verus! {

/// The fixed choices after `c`.
pub open spec fn chosen_after(c: Command, was: Chosen) -> Chosen {
    match c {
        Command::Choose(x) => x.put(was),
        Command::NextPalette => Chosen { palette: palette_after(was.palette), ..was },
        Command::NextStyle => Chosen { style: style_after(was.style), ..was },
        Command::UsePreset(p) => preset_chosen(p, was),
        Command::ResetSettings => shipped_chosen(),
        _ => was,
    }
}

/// Whether `now` holds the switches after `c`, where they were `was`.
pub open spec fn switches_after(c: Command, was: Switches, now: Switches) -> bool {
    match c {
        Command::Toggle(f) => now@ == was@.update(f.spec_index(), !was.is_on(f)),
        Command::UsePreset(p) => {
            &&& now@.len() == was@.len()
            &&& forall|g: Flag| #[trigger] now.is_on(g) == preset_flag(p, g, was.is_on(g))
        },
        Command::ResetSettings => now@ == crate::switches::shipped(),
        _ => now@ == was@,
    }
}

/// The preset the settings hold after `c`: a change to a setting makes them `Custom`,
/// so the preset list stops claiming a preset the settings have moved away from.
pub open spec fn preset_after(c: Command, was: Preset) -> Preset {
    match c {
        Command::Toggle(_) | Command::Choose(_) | Command::NextPalette | Command::NextStyle => Preset::Custom,
        Command::UsePreset(p) => p,
        Command::ResetSettings => Preset::Studio,
        _ => was,
    }
}

/// The session after `c`.
pub open spec fn session_after(c: Command, s: Session) -> Session {
    match c {
        Command::SetCapture(x) => Session { capture: x, ..s },
        Command::SetFollow(f) => Session { follow: f, ..s },
        Command::Freeze => Session { frozen: !s.frozen, ..s },
        Command::GoLive => Session { frozen: false, go_live: true, ..s },
        Command::Reference => Session { reference: !s.reference, ..s },
        Command::Fullscreen => Session { fullscreen: !s.fullscreen, ..s },
        Command::LeaveFullscreen => Session { fullscreen: false, ..s },
        Command::Help => Session { help: !s.help, ..s },
        Command::SetPresentation(p) => Session { presentation: p, ..s },
        Command::Send(t) => Session { command: Some(t), ..s },
        Command::Quit => Session { quit: true, ..s },
        _ => s,
    }
}

/// What the app has to finish after `c`: the three things that need the settings folder.
pub open spec fn effect_of(c: Command) -> Option<Effect> {
    match c {
        Command::LoadPreset(name) => Some(Effect::LoadPreset(name)),
        Command::SavePreset => Some(Effect::SavePreset),
        Command::DeletePreset(name) => Some(Effect::DeletePreset(name)),
        _ => None,
    }
}

fn apply_to_settings(c: &Command, chosen: &mut Chosen, switches: &mut Switches, preset: &mut Preset)
    ensures
        *final(chosen) == chosen_after(*c, *old(chosen)),
        switches_after(*c, *old(switches), *final(switches)),
        *final(preset) == preset_after(*c, *old(preset)),
{
    match c {
        Command::Toggle(f) => {
            switches.toggle(*f);
            *preset = Preset::Custom;
        },
        Command::Choose(x) => {
            x.apply(chosen);
            *preset = Preset::Custom;
        },
        Command::NextPalette => {
            chosen.palette = next_palette(chosen.palette);
            *preset = Preset::Custom;
        },
        Command::NextStyle => {
            chosen.style = next_style(chosen.style);
            *preset = Preset::Custom;
        },
        Command::UsePreset(p) => {
            apply_preset(*p, chosen, switches);
            *preset = *p;
        },
        Command::ResetSettings => {
            *chosen = Chosen::default();
            *switches = Switches::default();
            *preset = Preset::Studio;
        },
        _ => {},
    }
}

fn apply_to_session(c: &Command, session: &mut Session)
    ensures
        *final(session) == session_after(*c, *old(session)),
{
    match c {
        Command::SetCapture(x) => session.capture = *x,
        Command::SetFollow(f) => session.follow = copy_follow(f),
        Command::Freeze => session.frozen = !session.frozen,
        Command::GoLive => {
            session.frozen = false;
            session.go_live = true;
        },
        Command::Reference => session.reference = !session.reference,
        Command::Fullscreen => session.fullscreen = !session.fullscreen,
        Command::LeaveFullscreen => session.fullscreen = false,
        Command::Help => session.help = !session.help,
        Command::SetPresentation(p) => session.presentation = *p,
        Command::Send(t) => session.command = Some(*t),
        Command::Quit => session.quit = true,
        _ => {},
    }
}

/// Performs `c` on the switches, the choices, the preset and the session, and says what
/// the app has to finish. A preset's numbers and the defaults' numbers are floating
/// point and are the app's to set.
pub fn apply_command(
    c: &Command,
    chosen: &mut Chosen,
    switches: &mut Switches,
    preset: &mut Preset,
    session: &mut Session,
) -> (e: Option<Effect>)
    ensures
        *final(chosen) == chosen_after(*c, *old(chosen)),
        switches_after(*c, *old(switches), *final(switches)),
        *final(preset) == preset_after(*c, *old(preset)),
        *final(session) == session_after(*c, *old(session)),
        e == effect_of(*c),
{
    match c {
        Command::LoadPreset(name) => return Some(Effect::LoadPreset(name.clone())),
        Command::SavePreset => return Some(Effect::SavePreset),
        Command::DeletePreset(name) => return Some(Effect::DeletePreset(name.clone())),
        _ => {},
    }
    apply_to_settings(c, chosen, switches, preset);
    apply_to_session(c, session);
    None
}

} // verus!

verus! {

/// A help row is found by anything it shows and by nothing else: an empty query finds
/// every row, and otherwise a query is found in the row's path, in its help line, in
/// its key, or in the label or help line of one of its values.
pub proof fn lemma_a_row_is_found_by_what_it_shows(e: Entry, query: Seq<char>)
    ensures
        query.len() == 0 ==> row_matches(e, query),
        mentioned(e.path@, query) ==> row_matches(e, query),
        mentioned(e.help@, query) ==> row_matches(e, query),
        (match e.shortcut {
            Some(k) => mentioned(k@, query),
            None => false,
        }) ==> row_matches(e, query),
        forall|j: int| 0 <= j < entry_picks(e).len() && (mentioned(#[trigger] entry_picks(e)[j].label@, query)
            || mentioned(entry_picks(e)[j].help@, query)) ==> row_matches(e, query),
        row_matches(e, query) ==> {
            ||| query.len() == 0
            ||| mentioned(e.path@, query)
            ||| mentioned(e.help@, query)
            ||| (match e.shortcut {
                Some(k) => mentioned(k@, query),
                None => false,
            })
            ||| exists|j: int| 0 <= j < entry_picks(e).len() && (mentioned(#[trigger] entry_picks(e)[j].label@, query)
                || mentioned(entry_picks(e)[j].help@, query))
        },
{
    assert forall|j: int| 0 <= j < entry_picks(e).len() && (mentioned(#[trigger] entry_picks(e)[j].label@, query)
        || mentioned(entry_picks(e)[j].help@, query)) implies row_matches(e, query) by {
        assert(entry_picks(e)[j].label@ == entry_picks(e)[j].label@);
    }
}

/// The search keeps exactly the rows the query matches, and in their order: a row that
/// matches is kept, and every row kept is one of the rows and matches.
pub proof fn lemma_kept_rows_are_the_matching_rows(es: Seq<Entry>, query: Seq<char>)
    ensures
        forall|i: int| 0 <= i < es.len() && row_matches(es[i], query) ==> kept(es, query).contains(#[trigger] es[i]),
        forall|j: int| 0 <= j < kept(es, query).len() ==> row_matches(#[trigger] kept(es, query)[j], query)
            && es.contains(kept(es, query)[j]),
        kept(es, query).len() <= es.len(),
    decreases es.len(),
{
    if es.len() > 0 {
        let init = es.drop_last();
        lemma_kept_rows_are_the_matching_rows(init, query);
        let before = kept(init, query);
        assert forall|i: int| 0 <= i < es.len() && row_matches(es[i], query) implies kept(es, query).contains(#[trigger] es[i]) by {
            if i < es.len() - 1 {
                assert(init[i] == es[i]);
                let k = choose|k: int| 0 <= k < before.len() && before[k] == init[i];
                if row_matches(es.last(), query) {
                    assert(kept(es, query)[k] == es[i]);
                } else {
                    assert(kept(es, query)[k] == es[i]);
                }
            } else {
                assert(kept(es, query)[kept(es, query).len() - 1] == es[i]);
            }
        }
        assert forall|j: int| 0 <= j < kept(es, query).len() implies row_matches(#[trigger] kept(es, query)[j], query)
            && es.contains(kept(es, query)[j]) by {
            if j < before.len() {
                assert(kept(es, query)[j] == before[j]);
                let k = choose|k: int| 0 <= k < init.len() && init[k] == before[j];
                assert(es[k] == init[k]);
            } else {
                assert(kept(es, query)[j] == es.last());
                assert(es[es.len() - 1] == es.last());
            }
        }
    }
}

/// The help search finds a row by its help line: whatever the trimmed, lower-cased query
/// is found in the lower-cased help line of a row, the rows `search` returns hold that
/// row.
pub proof fn lemma_search_finds_a_help_line(es: Seq<Entry>, query: Seq<char>, i: int)
    requires
        0 <= i < es.len(),
        mentioned(es[i].help@, search_query(query)),
    ensures
        kept(es, search_query(query)).contains(es[i]),
{
    lemma_a_row_is_found_by_what_it_shows(es[i], search_query(query));
    lemma_kept_rows_are_the_matching_rows(es, search_query(query));
}

} // verus!

verus! {

/// What each built-in preset sets among the fixed choices, whatever the settings held
/// before: the palette, the frequency axis, the transforms and how a band is summed.
pub proof fn lemma_preset_choices(c: Chosen)
    ensures
        // The original look, with the mapping bugs left out: its red palette on a linear axis.
        preset_chosen(Preset::Nostalgia, c).palette == PaletteKind::NostalgiaRed,
        preset_chosen(Preset::Nostalgia, c).scale == FreqScale::Linear,
        preset_chosen(Preset::Nostalgia, c).quality == AnalysisQuality::Balanced,
        preset_chosen(Preset::Nostalgia, c).aggregate == BandAggregate::Peak,
        // Reading masters and spotting lossy sources: a linear top end so a codec shelf shows, energy summed.
        preset_chosen(Preset::QC, c).palette == PaletteKind::Viridis,
        preset_chosen(Preset::QC, c).scale == FreqScale::Linear,
        preset_chosen(Preset::QC, c).quality == AnalysisQuality::High,
        preset_chosen(Preset::QC, c).aggregate == BandAggregate::Energy,
        // For watching: a musical axis, and resolution enough for harmonics to be lines.
        preset_chosen(Preset::Immersive, c).palette == PaletteKind::Magma,
        preset_chosen(Preset::Immersive, c).scale == FreqScale::Note,
        preset_chosen(Preset::Immersive, c).quality == AnalysisQuality::High,
        preset_chosen(Preset::Immersive, c).aggregate == BandAggregate::Peak,
        // Where voices live.
        preset_chosen(Preset::Vocal, c).palette == PaletteKind::Magma,
        preset_chosen(Preset::Vocal, c).scale == FreqScale::Note,
        preset_chosen(Preset::Vocal, c).quality == AnalysisQuality::Balanced,
        preset_chosen(Preset::Vocal, c).aggregate == BandAggregate::Peak,
        // A narrow low range needs the largest transforms.
        preset_chosen(Preset::Bass, c).palette == PaletteKind::Inferno,
        preset_chosen(Preset::Bass, c).scale == FreqScale::Note,
        preset_chosen(Preset::Bass, c).quality == AnalysisQuality::High,
        preset_chosen(Preset::Bass, c).aggregate == BandAggregate::Peak,
        // Transients are about timing, so latency matters more than frequency detail.
        preset_chosen(Preset::Percussion, c).palette == PaletteKind::Turbo,
        preset_chosen(Preset::Percussion, c).scale == FreqScale::Note,
        preset_chosen(Preset::Percussion, c).quality == AnalysisQuality::LowLatency,
        preset_chosen(Preset::Percussion, c).aggregate == BandAggregate::Peak,
        // Measurement: energy summed so noise floors read at their true level.
        preset_chosen(Preset::Mastering, c).palette == PaletteKind::Viridis,
        preset_chosen(Preset::Mastering, c).scale == FreqScale::Linear,
        preset_chosen(Preset::Mastering, c).quality == AnalysisQuality::High,
        preset_chosen(Preset::Mastering, c).aggregate == BandAggregate::Energy,
        // The everyday view.
        preset_chosen(Preset::Studio, c).palette == PaletteKind::Magma,
        preset_chosen(Preset::Studio, c).scale == FreqScale::Note,
        preset_chosen(Preset::Studio, c).quality == AnalysisQuality::Balanced,
        preset_chosen(Preset::Studio, c).aggregate == BandAggregate::Peak,
        // A custom set loads as the everyday view.
        preset_chosen(Preset::Custom, c).palette == PaletteKind::Magma,
        preset_chosen(Preset::Custom, c).scale == FreqScale::Note,
        preset_chosen(Preset::Custom, c).quality == AnalysisQuality::Balanced,
        preset_chosen(Preset::Custom, c).aggregate == BandAggregate::Peak,
{
}

/// A preset sets only its four choices: every other choice stays as it was.
pub proof fn lemma_a_preset_keeps_the_other_choices(p: Preset, c: Chosen)
    ensures
        preset_chosen(p, c).pair_mode == c.pair_mode,
        preset_chosen(p, c).style == c.style,
        preset_chosen(p, c).interp == c.interp,
        preset_chosen(p, c).filter == c.filter,
        preset_chosen(p, c).window == c.window,
        preset_chosen(p, c).background == c.background,
        preset_chosen(p, c).label_mode == c.label_mode,
        preset_chosen(p, c).scale_lane_pos == c.scale_lane_pos,
        preset_chosen(p, c).frame_cap == c.frame_cap,
{
}

/// What each built-in preset sets among the switches: the level range follows the
/// material except where the preset is for measuring (QC and Mastering); only the
/// immersive preset is immersive, and it turns the glow, the fading chrome and the
/// lanes on; every other switch stays as it was.
pub proof fn lemma_preset_switches(p: Preset, f: Flag, was: bool)
    ensures
        preset_flag(p, Flag::AdaptiveRange, was) == !(p == Preset::QC || p == Preset::Mastering),
        preset_flag(p, Flag::Immersive, was) == (p == Preset::Immersive),
        preset_flag(Preset::Immersive, Flag::Glow, was),
        preset_flag(Preset::Immersive, Flag::AutoHide, was),
        preset_flag(Preset::Immersive, Flag::ShowWaveform, was),
        p != Preset::Immersive ==> preset_flag(p, Flag::Glow, was) == was,
        p != Preset::Immersive ==> preset_flag(p, Flag::AutoHide, was) == was,
        p != Preset::Immersive ==> preset_flag(p, Flag::ShowWaveform, was) == was,
        f != Flag::AdaptiveRange && f != Flag::Immersive && f != Flag::Glow && f != Flag::AutoHide
            && f != Flag::ShowWaveform ==> preset_flag(p, f, was) == was,
{
}

/// The session switches flip, so a second press undoes the first: holding a reference
/// spectrum and dropping it, freezing and thawing, fullscreen and back, help shown and
/// hidden. Leaving fullscreen always ends up windowed, and going live always thaws.
pub proof fn lemma_session_toggles_undo_themselves(s: Session)
    ensures
        session_after(Command::Reference, s).reference == !s.reference,
        session_after(Command::Reference, session_after(Command::Reference, s)) == s,
        session_after(Command::Freeze, s).frozen == !s.frozen,
        session_after(Command::Freeze, session_after(Command::Freeze, s)) == s,
        session_after(Command::Fullscreen, s).fullscreen == !s.fullscreen,
        session_after(Command::Fullscreen, session_after(Command::Fullscreen, s)) == s,
        session_after(Command::Help, s).help == !s.help,
        session_after(Command::Help, session_after(Command::Help, s)) == s,
        !session_after(Command::LeaveFullscreen, s).fullscreen,
        !session_after(Command::GoLive, s).frozen && session_after(Command::GoLive, s).go_live,
{
}

} // verus!
