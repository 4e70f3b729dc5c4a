use sonorant::dsp::analyzer::{AnalysisQuality, BandAggregate, ChannelPairMode};
use sonorant::dsp::curve::{CurveInterpolation, FilteringAmount};
use sonorant::dsp::frequency_map::FreqScale;
use sonorant::dsp::window::WindowType;
use sonorant::media::{Follow, Transport};
use sonorant::menu::{apply_command, Capture, Choice, Chosen, Command, Effect, Session};
use sonorant::palette::PaletteKind;
use sonorant::settings::{AxisLabelMode, CurveStyle, FrameCap, GraphBackground, Preset, ScaleLanePosition};
use sonorant::store::settings_folder;
use sonorant::switches::{Flag, Switches};

fn shipped() -> Chosen {
    Chosen {
        palette: PaletteKind::default(),
        scale: FreqScale::default(),
        pair_mode: ChannelPairMode::default(),
        style: CurveStyle::default(),
        interp: CurveInterpolation::default(),
        filter: FilteringAmount::default(),
        quality: AnalysisQuality::default(),
        window: WindowType::default(),
        aggregate: BandAggregate::default(),
        background: GraphBackground::default(),
        label_mode: AxisLabelMode::default(),
        scale_lane_pos: ScaleLanePosition::default(),
        frame_cap: FrameCap::default(),
    }
}

struct State {
    chosen: Chosen,
    switches: Switches,
    preset: Preset,
    session: Session,
}

impl State {
    fn new() -> State {
        State { chosen: shipped(), switches: Switches::default(), preset: Preset::Studio, session: Session::default() }
    }

    fn run(&mut self, c: Command) -> Option<Effect> {
        apply_command(&c, &mut self.chosen, &mut self.switches, &mut self.preset, &mut self.session)
    }
}

#[test]
fn actions_reach_the_settings_and_the_session() {
    let mut st = State::new();
    let was = st.switches.flag(Flag::ShowGrid);
    assert_eq!(st.run(Command::Toggle(Flag::ShowGrid)), None);
    assert_eq!(st.switches.flag(Flag::ShowGrid), !was);
    assert_eq!(st.preset, Preset::Custom);

    st.run(Command::Choose(Choice::Palette(PaletteKind::Viridis)));
    assert_eq!(st.chosen.palette, PaletteKind::Viridis);
    st.run(Command::NextPalette);
    assert_eq!(st.chosen.palette, PaletteKind::Turbo);
    st.run(Command::NextStyle);
    assert_eq!(st.chosen.style, CurveStyle::Bars);

    st.run(Command::Freeze);
    assert!(st.session.frozen);
    st.run(Command::GoLive);
    assert!(!st.session.frozen);
    assert!(st.session.go_live);
    st.run(Command::SetCapture(Capture::WholeSystem));
    assert_eq!(st.session.capture, Capture::WholeSystem);
    st.run(Command::SetFollow(Follow::Pinned("a".to_string())));
    assert_eq!(st.session.follow, Follow::Pinned("a".to_string()));
    st.run(Command::Send(Transport::Next));
    assert_eq!(st.session.command, Some(Transport::Next));
    st.run(Command::Quit);
    assert!(st.session.quit);
}

#[test]
fn a_preset_is_itself_until_a_setting_moves() {
    let mut st = State::new();
    st.run(Command::UsePreset(Preset::QC));
    assert_eq!(st.preset, Preset::QC);
    assert_eq!(st.chosen.palette, PaletteKind::Viridis);
    assert!(!st.switches.flag(Flag::AdaptiveRange));
    // Looking around doesn't move the settings away from the preset.
    st.run(Command::Freeze);
    st.run(Command::Help);
    assert_eq!(st.preset, Preset::QC);
    // Changing one does.
    st.run(Command::Toggle(Flag::ShowGrid));
    assert_eq!(st.preset, Preset::Custom);
    st.run(Command::ResetSettings);
    assert_eq!(st.preset, Preset::Studio);
    assert_eq!(st.chosen, shipped());
    assert!(st.switches.flag(Flag::AdaptiveRange));
}

#[test]
fn presets_come_back_as_effects() {
    let mut st = State::new();
    assert_eq!(st.run(Command::LoadPreset("Mine".to_string())), Some(Effect::LoadPreset("Mine".to_string())));
    assert_eq!(st.run(Command::SavePreset), Some(Effect::SavePreset));
    assert_eq!(st.run(Command::DeletePreset("Mine".to_string())), Some(Effect::DeletePreset("Mine".to_string())));
    // None of them changes anything itself.
    assert_eq!(st.preset, Preset::Studio);
    assert_eq!(st.session, Session::default());
    assert_eq!(st.run(Command::CloseMenu), None);
    assert_eq!(st.session, Session::default());
}

#[test]
fn the_settings_folder_follows_the_platform() {
    assert_eq!(
        settings_folder(true, Some("C:\\Users\\a\\AppData\\Roaming"), Some("/x"), false, Some("/home/a")),
        Some(("C:\\Users\\a\\AppData\\Roaming", vec!["Sonorant"]))
    );
    assert_eq!(settings_folder::<&str>(true, None, Some("/x"), false, Some("/home/a")), None);
    assert_eq!(settings_folder(false, Some("C:"), Some("/x"), false, Some("/home/a")), Some(("/x", vec!["sonorant"])));
    assert_eq!(
        settings_folder(false, None, Some(""), true, Some("/home/a")),
        Some(("/home/a", vec![".config", "sonorant"]))
    );
    assert_eq!(settings_folder::<&str>(false, None, None, false, None), None);
}
