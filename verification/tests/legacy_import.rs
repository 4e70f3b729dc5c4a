use sonorant::dsp::analyzer::AnalysisQuality;
use sonorant::legacy::{legacy_chosen, legacy_flag, legacy_preset, legacy_switches, Lines};
use sonorant::palette::PaletteKind;
use sonorant::settings::{sanitise_name, FrameCap, Preset};
use sonorant::switches::{Flag, Switches};

#[test]
fn the_old_fullscreen_keys_are_still_honoured() {
    let m = Lines::parse("FsShowOsd=false\nFsGlow=false\n");
    let w = legacy_switches(&m);
    assert!(!w.flag(Flag::ShowOsd));
    assert!(!w.flag(Flag::Glow));
    // The new key wins over the old one where a file carries both.
    let m = Lines::parse("FsShowOsd=false\nShowOsd=true\n");
    assert!(legacy_flag(&m, Flag::ShowOsd));
}

#[test]
fn deck_show_meters_sets_both_meters() {
    let m = Lines::parse("DeckShowMeters=false\n");
    let w = legacy_switches(&m);
    assert!(!w.flag(Flag::DeckCorrelation));
    assert!(!w.flag(Flag::DeckBalance));
    let m = Lines::parse("DeckShowMeters=false\nDeckShowBalance=true\n");
    let w = legacy_switches(&m);
    assert!(!w.flag(Flag::DeckCorrelation));
    assert!(w.flag(Flag::DeckBalance));
}

#[test]
fn an_empty_file_gives_the_shipped_switches() {
    let w = legacy_switches(&Lines::parse(""));
    let shipped = Switches::default();
    for &f in Flag::ALL.iter() {
        if f != Flag::SmoothTime {
            assert_eq!(w.flag(f), shipped.flag(f), "{f:?}");
        }
    }
    assert!(!w.flag(Flag::SmoothTime));
}

#[test]
fn choices_are_read_by_name_or_by_number() {
    let c = legacy_chosen(&Lines::parse("Quality=2\nPalette=Viridis\n"));
    assert_eq!(c.quality, AnalysisQuality::High);
    assert_eq!(c.palette, PaletteKind::Viridis);
    assert_eq!(c.frame_cap, FrameCap::Display);
    assert_eq!(legacy_preset(&Lines::parse("Preset=QC\n")), Preset::QC);
    assert_eq!(legacy_preset(&Lines::parse("Preset=nonsense\n")), Preset::Studio);
}

#[test]
fn sanitising_twice_changes_nothing() {
    for name in ["  a / b  ", "Café Ω-1_x", "*/?", " x\t", "Mine"] {
        let once = sanitise_name(name);
        assert_eq!(sanitise_name(&once), once);
        assert_eq!(once.trim(), once);
    }
}

#[test]
fn a_toggle_leaves_every_other_switch_alone() {
    for &f in Flag::ALL.iter() {
        let mut a = Switches::default();
        let was = a.flag(f);
        assert_eq!(a.toggle(f), !was);
        let shipped = Switches::default();
        for &g in Flag::ALL.iter() {
            if g != f {
                assert_eq!(a.flag(g), shipped.flag(g), "{f:?} moved {g:?}");
            }
        }
        a.set_flag(f, was);
        assert_eq!(a.flag(f), was);
    }
}
