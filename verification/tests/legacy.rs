use sonorant::dsp::analyzer::AnalysisQuality;
use sonorant::dsp::window::WindowType;
use sonorant::palette::PaletteKind;
use sonorant::legacy::{parse_theme, Lines};
use sonorant::settings::Argb;

#[test]
fn keys_ignore_case_and_last_one_wins() {
    let l = Lines::parse("fmin=35.5\nFMIN=40\n# FMin=1\n=orphan\nnoequals\n");
    assert_eq!(l.get("FMin").as_deref(), Some("40"));
    assert_eq!(l.get("orphan"), None);
    assert_eq!(l.get(""), None);
}

#[test]
fn lines_are_trimmed_around_the_key_and_the_value() {
    let l = Lines::parse("  Palette =  Viridis \r\nShowGrid=\tFALSE\r\nA=b=c\n");
    assert_eq!(l.get("palette").as_deref(), Some("Viridis"));
    assert!(!l.bool("ShowGrid", true));
    assert_eq!(l.get("a").as_deref(), Some("b=c"));
}

#[test]
fn switches_read_true_and_false_only() {
    let l = Lines::parse("A=True\nB= false \nC=yes\n");
    assert!(l.bool("a", false));
    assert!(!l.bool("b", true));
    assert!(l.bool("c", true));
    assert!(!l.bool("c", false));
    assert!(l.bool("missing", true));
}

#[test]
fn colours_follow_the_palette_when_auto_or_blank() {
    let l = Lines::parse("ColCurve=#FF102030\nColHover=auto\nColPanel=\nColUnits=zz\n");
    let fallback = Some(Argb(5));
    assert_eq!(l.colour("ColCurve", fallback), Some(Argb(0xFF10_2030)));
    assert_eq!(l.colour("colhover", fallback), None);
    assert_eq!(l.colour("ColPanel", fallback), None);
    assert_eq!(l.colour("ColUnits", fallback), fallback);
    assert_eq!(l.colour("ColWaveform", fallback), fallback);
}

#[test]
fn a_theme_file_sets_only_the_colours_it_names() {
    let t = parse_theme("ColBackground=#FF000000\ncolgridmajor=#80FFFFFF\nColCurve=AUTO\nFMin=20\n");
    assert_eq!(t.background, Some(Argb(0xFF00_0000)));
    assert_eq!(t.grid_major, Some(Argb(0x80FF_FFFF)));
    assert_eq!(t.curve, None);
    assert_eq!(t.panel, None);
}

#[test]
fn choices_read_by_name_in_any_case_or_by_number() {
    let l = Lines::parse("Quality=2\nWindow=blackmanharris\nScale= Mel \nBad=seven\nBig=99\n");
    let all = [10u8, 20, 30];
    let names = ["Hann", "BlackmanHarris", "Mel"];
    assert_eq!(l.en("Quality", &all, &names, 0), 30);
    assert_eq!(l.en("Window", &all, &names, 0), 20);
    assert_eq!(l.en("Scale", &all, &names, 0), 30);
    assert_eq!(l.en("Bad", &all, &names, 0), 0);
    assert_eq!(l.en("Big", &all, &names, 0), 0);
    assert_eq!(l.en("Missing", &all, &names, 7), 7);
}

#[test]
fn enums_accept_numbers_like_dotnet() {
    let l = Lines::parse("Quality=2\nWindow=blackmanharris");
    let quality_names: Vec<&str> = AnalysisQuality::ALL.iter().map(|q| q.name()).collect();
    let window_names: Vec<&str> = WindowType::ALL.iter().map(|w| w.name()).collect();
    let quality = l.en("Quality", &AnalysisQuality::ALL, &quality_names, AnalysisQuality::default());
    let window = l.en("Window", &WindowType::ALL, &window_names, WindowType::default());
    assert_eq!(quality, AnalysisQuality::High);
    assert_eq!(window, WindowType::BlackmanHarris);
}

#[test]
fn bad_values_keep_defaults() {
    let l = Lines::parse("FMax=not-a-number\nPalette=Rainbow\nColCurve=zz\nShowGrid=yes");
    let names: Vec<&str> = PaletteKind::ALL.iter().map(|p| p.name()).collect();
    let d = PaletteKind::default();
    assert_eq!(l.en("Palette", &PaletteKind::ALL, &names, d), d);
    assert_eq!(l.colour("ColCurve", None), None);
    assert!(l.bool("ShowGrid", true));
    assert!(!l.bool("ShowGrid", false));
}
