use sonorant::dsp::analyzer::{AnalysisQuality, BandAggregate, ChannelPairMode};
use sonorant::dsp::curve::{CurveInterpolation, FilteringAmount};
use sonorant::dsp::frequency_map::FreqScale;
use sonorant::dsp::window::WindowType;
use sonorant::menu::{leaf, mentions, next_palette, next_style, section, Choice, Chosen};
use sonorant::palette::PaletteKind;
use sonorant::settings::{AxisLabelMode, CurveStyle, FrameCap, GraphBackground, ScaleLanePosition};

fn shipped() -> Chosen {
    Chosen {
        palette: PaletteKind::default(),
        scale: FreqScale::default(),
        pair_mode: ChannelPairMode::default(),
        style: CurveStyle::default(),
        interp: CurveInterpolation::default(),
        filter: FilteringAmount::default(),
        quality: AnalysisQuality::default(),
        window: WindowType::default(),
        aggregate: BandAggregate::default(),
        background: GraphBackground::default(),
        label_mode: AxisLabelMode::default(),
        scale_lane_pos: ScaleLanePosition::default(),
        frame_cap: FrameCap::default(),
    }
}

#[test]
fn cycling_walks_every_palette_and_style() {
    let mut palette = PaletteKind::default();
    let mut seen = vec![palette];
    for _ in 1..PaletteKind::ALL.len() {
        palette = next_palette(palette);
        assert!(!seen.contains(&palette), "{:?} came round early", palette);
        seen.push(palette);
    }
    palette = next_palette(palette);
    assert_eq!(palette, seen[0]);

    let mut style = CurveStyle::default();
    for _ in 0..CurveStyle::ALL.len() {
        style = next_style(style);
    }
    assert_eq!(style, CurveStyle::default());
    assert_eq!(next_palette(PaletteKind::Ember), PaletteKind::Magma);
    assert_eq!(next_style(CurveStyle::Line), CurveStyle::Bars);
}

#[test]
fn a_chosen_value_is_the_current_one_and_nothing_else_moves() {
    let mut c = shipped();
    let before = c;
    let pick = Choice::Window(WindowType::Nuttall);
    assert!(!pick.is_current(&c));
    pick.apply(&mut c);
    assert!(pick.is_current(&c));
    assert_eq!(c.window, WindowType::Nuttall);
    assert_eq!(Chosen { window: before.window, ..c }, before);
    assert!(Choice::Palette(before.palette).is_current(&c));
    assert!(!Choice::Palette(PaletteKind::Ice).is_current(&c) || before.palette == PaletteKind::Ice);
    Choice::Cap(FrameCap::Fps30).apply(&mut c);
    assert_eq!(c.frame_cap, FrameCap::Fps30);
    assert!(Choice::Window(WindowType::Nuttall).is_current(&c));
}

#[test]
fn help_paths_split_into_section_and_leaf() {
    assert_eq!(section("Graph > Peak trace"), "Graph");
    assert_eq!(leaf("Graph > Peak trace"), "Peak trace");
    assert_eq!(section("Freeze"), "General");
    assert_eq!(leaf("Freeze"), "Freeze");
    assert_eq!(section("Display > Deck > Meters"), "Display");
    assert_eq!(leaf("Display > Deck > Meters"), "Meters");
    assert_eq!(leaf("a>b"), "a>b");
}

#[test]
fn a_row_mentions_a_query_in_any_case() {
    assert!(mentions("Show help", "help"));
    assert!(mentions("F1", "f1"));
    assert!(mentions("F1", "f"));
    assert!(mentions("Viridis", ""));
    assert!(!mentions("Leave fullscreen", "quit"));
    assert!(mentions("ÉCRAN", "écran"));
}
