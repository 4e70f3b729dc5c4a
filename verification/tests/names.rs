use sonorant::dsp::analyzer::{AnalysisQuality, BandAggregate, ChannelMode, ChannelPairMode};
use sonorant::dsp::curve::{CurveInterpolation, FilteringAmount};
use sonorant::dsp::frequency_map::{FreqScale, Note};
use sonorant::dsp::window::WindowType;
use sonorant::menu::{Capture, Choice, Presentation};
use sonorant::palette::PaletteKind;
use sonorant::settings::{
    AxisLabelMode, CurveStyle, FrameCap, GraphBackground, Preset, ScaleLanePosition, ThemeSlot,
};

#[test]
fn names_round_trip() {
    for w in WindowType::ALL {
        assert_eq!(WindowType::from_name(w.name()), Some(w));
        assert_eq!(WindowType::from_name(&w.name().to_lowercase()), Some(w));
    }
    assert_eq!(WindowType::from_name("Kaiser"), None);
}

#[test]
fn every_enum_reads_back_its_own_name_in_any_case() {
    for v in AnalysisQuality::ALL {
        assert_eq!(AnalysisQuality::from_name(&v.name().to_uppercase()), Some(v));
    }
    for v in BandAggregate::ALL {
        assert_eq!(BandAggregate::from_name(&v.name().to_lowercase()), Some(v));
    }
    for v in ChannelMode::ALL {
        assert_eq!(ChannelMode::from_name(v.name()), Some(v));
    }
    for v in ChannelPairMode::ALL {
        assert_eq!(ChannelPairMode::from_name(&v.name().to_uppercase()), Some(v));
    }
    for v in CurveInterpolation::ALL {
        assert_eq!(CurveInterpolation::from_name(v.name()), Some(v));
    }
    for v in FilteringAmount::ALL {
        assert_eq!(FilteringAmount::from_name(&v.name().to_lowercase()), Some(v));
    }
    for v in FreqScale::ALL {
        assert_eq!(FreqScale::from_name(v.name()), Some(v));
    }
    for v in PaletteKind::ALL {
        assert_eq!(PaletteKind::from_name(&v.name().to_lowercase()), Some(v));
    }
    for v in Preset::ALL {
        assert_eq!(Preset::from_name(&v.name().to_lowercase()), Some(v));
    }
    for v in CurveStyle::ALL {
        assert_eq!(CurveStyle::from_name(v.name()), Some(v));
    }
    for v in GraphBackground::ALL {
        assert_eq!(GraphBackground::from_name(v.name()), Some(v));
    }
    for v in AxisLabelMode::ALL {
        assert_eq!(AxisLabelMode::from_name(v.name()), Some(v));
    }
    for v in ScaleLanePosition::ALL {
        assert_eq!(ScaleLanePosition::from_name(v.name()), Some(v));
    }
    for v in FrameCap::ALL {
        assert_eq!(FrameCap::from_name(v.name()), Some(v));
    }
    for v in ThemeSlot::ALL {
        assert_eq!(ThemeSlot::from_name(&v.name().to_uppercase()), Some(v));
    }
}

#[test]
fn names_are_the_settings_file_spellings() {
    assert_eq!(AnalysisQuality::LowLatency.name(), "LowLatency");
    assert_eq!(FilteringAmount::Off.name(), "None");
    assert_eq!(FilteringAmount::from_name("none"), Some(FilteringAmount::Off));
    assert_eq!(FrameCap::Fps60.name(), "60");
    assert_eq!(FrameCap::from_name("30"), Some(FrameCap::Fps30));
    assert_eq!(PaletteKind::NostalgiaRed.name(), "NostalgiaRed");
    assert_eq!(Preset::from_name("qc"), Some(Preset::QC));
    assert_eq!(ThemeSlot::from_name("gridminor"), Some(ThemeSlot::GridMinor));
}

#[test]
fn unknown_and_near_names_are_refused() {
    assert_eq!(PaletteKind::from_name("Rainbow"), None);
    assert_eq!(PaletteKind::from_name(" Magma"), None);
    assert_eq!(PaletteKind::from_name(""), None);
    assert_eq!(FreqScale::from_name("Logarithmic"), None);
    assert_eq!(AnalysisQuality::from_name("Low Latency"), None);
    assert_eq!(ChannelPairMode::from_name("leftrightx"), None);
}

#[test]
fn defaults_are_the_shipped_choices() {
    assert_eq!(WindowType::default(), WindowType::Hann);
    assert_eq!(FreqScale::default(), FreqScale::Note);
    assert_eq!(AnalysisQuality::default(), AnalysisQuality::Balanced);
    assert_eq!(FilteringAmount::default(), FilteringAmount::Light);
    assert_eq!(CurveInterpolation::default(), CurveInterpolation::LinearSmooth);
    assert_eq!(PaletteKind::default(), PaletteKind::Magma);
    assert_eq!(Preset::default(), Preset::Studio);
    assert_eq!(GraphBackground::default(), GraphBackground::Lines);
}

#[test]
fn kernels_widen_with_the_amount() {
    assert_eq!(FilteringAmount::Off.kernel_radius(), 0);
    assert_eq!(FilteringAmount::Light.kernel_radius(), 1);
    assert_eq!(FilteringAmount::Medium.kernel_radius(), 3);
    assert_eq!(FilteringAmount::Strong.kernel_radius(), 6);
}

#[test]
fn panes_are_labelled_and_counted() {
    assert_eq!(ChannelPairMode::LeftRight.pane_labels(), ["L", "R"]);
    assert_eq!(ChannelPairMode::MidSide.pane_labels(), ["MID", "SIDE"]);
    assert_eq!(ChannelPairMode::LeftOnly.pane_labels(), ["LEFT", "LEFT"]);
    assert_eq!(ChannelPairMode::RightOnly.pane_count(), 1);
    assert_eq!(ChannelPairMode::MidSide.pane_count(), 2);
}

#[test]
fn notes_are_named_in_scientific_pitch() {
    assert_eq!(Note { pitch_class: 9, octave: 4 }.name(), "A");
    assert_eq!(Note { pitch_class: 1, octave: 4 }.name(), "C#");
    assert_eq!(Note { pitch_class: 11, octave: 0 }.name(), "B");
}

#[test]
fn palettes_have_menu_names_and_a_line_of_help() {
    assert_eq!(PaletteKind::NostalgiaRed.display_name(), "Nostalgia Red");
    assert_eq!(PaletteKind::Phosphor.display_name(), "Phosphor Green");
    assert_eq!(PaletteKind::Viridis.display_name(), "Viridis");
    assert!(PaletteKind::ALL.iter().all(|p| !p.about().is_empty()));
    assert_eq!(PaletteKind::Grey.about(), "Black to white, and nothing else");
}

#[test]
fn menu_choices_read_as_words() {
    assert_eq!(Choice::Palette(PaletteKind::NostalgiaRed).label(), "Nostalgia Red");
    assert_eq!(Choice::Scale(FreqScale::Log).label(), "Logarithmic");
    assert_eq!(Choice::Window(WindowType::BlackmanHarris).label(), "Blackman-Harris");
    assert_eq!(Choice::Style(CurveStyle::Led).label(), "LED");
    assert_eq!(Choice::Cap(FrameCap::Fps60).label(), "60 a second");
    assert_eq!(Choice::Filter(FilteringAmount::Off).label(), "None");
    assert_eq!(Capture::WholeSystem.label(), "Everything the system plays");
    assert_eq!(Presentation::Newest.label(), "Newest frame");
    assert_eq!(Capture::default(), Capture::FollowPlayer);
    assert_eq!(Presentation::default(), Presentation::EveryRefresh);
}

#[test]
fn midi_numbers_name_their_notes() {
    let a4 = Note::from_midi(69);
    assert_eq!((a4.pitch_class, a4.octave), (9, 4));
    assert_eq!(a4.name(), "A");
    let c4 = Note::from_midi(60);
    assert_eq!((c4.pitch_class, c4.octave), (0, 4));
    let c_minus_1 = Note::from_midi(0);
    assert_eq!((c_minus_1.pitch_class, c_minus_1.octave), (0, -1));
    // Below MIDI 0 the octave divides towards zero.
    let b = Note::from_midi(-1);
    assert_eq!((b.pitch_class, b.octave), (11, -1));
    let c = Note::from_midi(-12);
    assert_eq!((c.pitch_class, c.octave), (0, -2));
    let d = Note::from_midi(-13);
    assert_eq!((d.pitch_class, d.octave), (11, -2));
}
