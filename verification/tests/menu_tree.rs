use sonorant::dsp::analyzer::{AnalysisQuality, BandAggregate, ChannelPairMode};
use sonorant::dsp::curve::{CurveInterpolation, FilteringAmount};
use sonorant::dsp::frequency_map::FreqScale;
use sonorant::dsp::window::WindowType;
use sonorant::media::{Controls, Player};
use sonorant::menu::{
    action_for_key, apply_preset, entries, search, tree, Choice, Chosen, Command, Context, Entry, EntryKind, Item,
    Kind, Presentation, Session,
};
use sonorant::palette::PaletteKind;
use sonorant::settings::{AxisLabelMode, CurveStyle, FrameCap, GraphBackground, Preset, ScaleLanePosition};
use sonorant::switches::{Flag, Switches};

fn shipped() -> Chosen {
    Chosen {
        palette: PaletteKind::default(),
        scale: FreqScale::default(),
        pair_mode: ChannelPairMode::default(),
        style: CurveStyle::default(),
        interp: CurveInterpolation::default(),
        filter: FilteringAmount::default(),
        quality: AnalysisQuality::default(),
        window: WindowType::default(),
        aggregate: BandAggregate::default(),
        background: GraphBackground::default(),
        label_mode: AxisLabelMode::default(),
        scale_lane_pos: ScaleLanePosition::default(),
        frame_cap: FrameCap::default(),
    }
}

fn context(session: Session) -> Context {
    Context {
        switches: Switches::default(),
        chosen: shipped(),
        preset: Preset::Studio,
        session,
        players: Vec::new(),
        presets: Vec::new(),
        controls: Controls { play_pause: true, next: true, previous: true, seek: true },
        presentations: Presentation::ALL.to_vec(),
    }
}

fn flatten(items: &[Item]) -> Vec<&Item> {
    let mut out = Vec::new();
    for item in items {
        out.push(item);
        if let Kind::Submenu(children) = &item.kind {
            out.extend(flatten(children));
        }
    }
    out
}

fn find<'a>(items: &'a [Item], label: &str) -> &'a Item {
    flatten(items).into_iter().find(|i| i.label == label).expect(label)
}

#[test]
fn keys_do_what_their_menu_item_does() {
    let ctx = context(Session::default());
    let items = tree(&ctx);
    for (key, want) in [
        ("Space", Command::Freeze),
        ("End", Command::GoLive),
        ("A", Command::Reference),
        ("F11", Command::Fullscreen),
        ("I", Command::Toggle(Flag::Immersive)),
        ("W", Command::Toggle(Flag::ShowWaveform)),
        ("O", Command::Toggle(Flag::ShowOsd)),
        ("G", Command::Toggle(Flag::ShowGrid)),
        ("P", Command::Toggle(Flag::ShowMax)),
        ("F1", Command::Help),
        ("B", Command::NextStyle),
        ("C", Command::NextPalette),
    ] {
        assert_eq!(action_for_key(&items, key), Some(want.clone()), "{key}");
        // Lower case is the same key.
        assert_eq!(action_for_key(&items, &key.to_lowercase()), Some(want), "{key}");
    }
    assert_eq!(action_for_key(&items, "Z"), None);

    // Esc answers only where it has something to do, so it doesn't swallow the key
    // in a window.
    assert_eq!(action_for_key(&items, "Esc"), None);
    let full = Session { fullscreen: true, ..Session::default() };
    assert_eq!(action_for_key(&tree(&context(full)), "Esc"), Some(Command::LeaveFullscreen));
}

#[test]
fn no_key_is_bound_twice() {
    let items = tree(&context(Session::default()));
    let mut seen: Vec<&str> = flatten(&items).iter().filter_map(|i| i.shortcut).collect();
    seen.sort_unstable();
    let count = seen.len();
    seen.dedup();
    assert_eq!(seen.len(), count, "a key appears on two items: {seen:?}");
}

#[test]
fn the_way_out_of_the_menu_is_its_own_item() {
    let items = tree(&context(Session::default()));
    let last = items.last().expect("a last item");
    assert_eq!(last.label, "Close menu");
    assert_eq!(last.action(), Some(Command::CloseMenu));
    let quit = items.iter().find(|i| i.action() == Some(Command::Quit)).expect("quit");
    assert_eq!(quit.label, "Quit Sonorant");
    assert!(!quit.help.contains("Close"), "{}", quit.help);
    assert_eq!(last.shortcut, None);
}

#[test]
fn a_player_that_cannot_be_asked_is_greyed_out() {
    let mut ctx = context(Session::default());
    ctx.controls = Controls::default();
    let items = tree(&ctx);
    assert!(!find(&items, "Next track").enabled);
    ctx.controls.next = true;
    assert!(find(&tree(&ctx), "Next track").enabled);
}

#[test]
fn menu_items_are_in_step_with_the_settings() {
    let mut ctx = context(Session::default());
    ctx.switches.set_flag(Flag::ShowGrid, false);
    ctx.chosen.palette = PaletteKind::Turbo;
    let items = tree(&ctx);
    let grid = find(&items, "Grid");
    assert!(matches!(&grid.kind, Kind::Check(Command::Toggle(Flag::ShowGrid), false)));
    assert_eq!(grid.shortcut, Some("G"));
    match &find(&items, "Palette").kind {
        Kind::Choice(picks) => {
            let chosen: Vec<_> = picks.iter().filter(|p| p.chosen).collect();
            assert_eq!(chosen.len(), 1);
            assert_eq!(chosen[0].label, PaletteKind::Turbo.display_name());
            assert_eq!(chosen[0].command, Command::Choose(Choice::Palette(PaletteKind::Turbo)));
            assert_eq!(picks.len(), 13);
        }
        _ => panic!("the palette choice"),
    }
}

#[test]
fn saved_presets_are_offered_and_can_be_deleted() {
    let mut ctx = context(Session::default());
    let empty = tree(&ctx);
    assert!(!find(&empty, "No saved presets").enabled);
    assert!(!find(&empty, "Nothing saved").enabled);
    ctx.presets = vec!["Mine".to_string()];
    let items = tree(&ctx);
    let presets = match &items[0].kind {
        Kind::Submenu(children) => children,
        _ => panic!("the presets submenu"),
    };
    assert!(presets.iter().any(|i| i.action() == Some(Command::LoadPreset("Mine".to_string()))));
    assert!(flatten(&items).iter().any(|i| i.action() == Some(Command::DeletePreset("Mine".to_string()))));
    assert!(!flatten(&items).iter().any(|i| i.label == "No saved presets"));
    let studio = find(&items, "Studio");
    assert!(matches!(&studio.kind, Kind::Radio(Command::UsePreset(Preset::Studio), true)));
}

#[test]
fn a_pinned_player_is_the_chosen_one() {
    let mut ctx = context(Session::default());
    ctx.players = vec![Player { id: "org.mpris.MediaPlayer2.a".to_string(), name: "A".to_string(), pid: None }];
    ctx.session.follow = sonorant::media::Follow::Pinned("org.mpris.MediaPlayer2.a".to_string());
    let items = tree(&ctx);
    match &find(&items, "Follow player").kind {
        Kind::Choice(picks) => {
            assert_eq!(picks.len(), 2);
            assert!(!picks[0].chosen);
            assert!(picks[1].chosen);
            assert_eq!(picks[1].label, "A");
        }
        _ => panic!("the follow choice"),
    }
}

#[test]
fn a_presentation_the_surface_lacks_is_greyed_out() {
    let mut ctx = context(Session::default());
    ctx.presentations = vec![Presentation::EveryRefresh];
    let items = tree(&ctx);
    match &find(&items, "Presentation").kind {
        Kind::Choice(picks) => {
            assert!(picks[0].enabled && picks[0].chosen);
            assert!(!picks[1].enabled);
            assert!(!picks[2].enabled);
        }
        _ => panic!("the presentation choice"),
    }
}

#[test]
fn help_entries_carry_their_state_and_where_they_live() {
    let mut ctx = context(Session::default());
    ctx.switches.set_flag(Flag::ShowGrid, true);
    ctx.chosen.palette = PaletteKind::Turbo;
    let items = tree(&ctx);
    let found = entries(&items);

    let grid = found.iter().find(|e| e.path == "Scales and labels > Grid").expect("the grid switch");
    assert!(matches!(grid.kind, EntryKind::Check(true)));
    assert_eq!(grid.section(), "Scales and labels");
    assert_eq!(grid.leaf(), "Grid");
    assert!(grid.enabled);

    // A whole choice is one row, carrying every value it offers and which of them is in
    // use, rather than a row apiece.
    let palettes: Vec<&Entry> = found
        .iter()
        .filter(|e| matches!(e.kind, EntryKind::Choice(_)) && e.leaf() == "Palette")
        .collect();
    assert_eq!(palettes.len(), 1);
    match &palettes[0].kind {
        EntryKind::Choice(picks) => {
            assert_eq!(picks.len(), PaletteKind::ALL.len());
            let chosen: Vec<&str> = picks.iter().filter(|p| p.chosen).map(|p| p.label.as_str()).collect();
            assert_eq!(chosen, [PaletteKind::Turbo.display_name()]);
        }
        _ => panic!("the palette row"),
    }
    // And searching still finds it by the value's own name.
    assert!(palettes[0].matches("turbo"));
    assert!(palettes[0].matches("viridis"));

    // An item at the top of the menu belongs to no submenu.
    let freeze = found.iter().find(|e| e.command == Some(Command::Freeze)).expect("freeze");
    assert_eq!(freeze.section(), "General");
    assert_eq!(freeze.leaf(), "Freeze");
}

#[test]
fn a_key_is_searched_for_by_part() {
    let items = tree(&context(Session::default()));
    for query in ["F1", "f1", "f"] {
        let found = search(&items, query);
        assert!(
            found.iter().any(|e| e.command == Some(Command::Help)),
            "{query} found nothing with F1 on it"
        );
    }
    // A greyed-out item is still listed, and says so.
    let leave = search(&items, "Leave fullscreen");
    assert_eq!(leave.len(), 1);
    assert!(!leave[0].enabled);
}

#[test]
fn help_search_finds_a_command_by_its_words() {
    let items = tree(&context(Session::default()));
    let found = search(&items, "harmonic");
    assert_eq!(found.len(), 1);
    assert_eq!(found[0].command, Some(Command::Toggle(Flag::ShowHarmonics)));
    // The key is searchable too, and finds the same item the key itself performs.
    let by_key = search(&items, "F11");
    assert_eq!(by_key.len(), 1);
    assert_eq!(by_key[0].command, Some(Command::Fullscreen));
    assert_eq!(search(&items, "").len(), entries(&items).len());
    assert_eq!(search(&items, "  HARMONIC ").len(), 1);
    assert!(search(&items, "zzzz").is_empty());
}

#[test]
fn every_command_explains_itself() {
    let items = tree(&context(Session::default()));
    for entry in entries(&items) {
        assert!(!entry.path.is_empty(), "an item has no label");
        // A disabled placeholder is the one thing with nothing to explain.
        if entry.path.contains("No ") || entry.path.contains("Nothing saved") {
            continue;
        }
        assert!(!entry.help.is_empty(), "{} has no help line", entry.path);
    }
}

#[test]
fn a_changed_row_carries_what_puts_it_back() {
    let mut ctx = context(Session::default());
    let shipped_grid = ctx.switches.flag(Flag::ShowGrid);
    ctx.switches.set_flag(Flag::ShowGrid, !shipped_grid);
    ctx.chosen.palette = PaletteKind::Turbo;
    let items = tree(&ctx);
    let found = entries(&items);
    let at = |path: &str| found.iter().find(|e| e.path == path).unwrap_or_else(|| panic!("{path}"));
    let grid = at("Scales and labels > Grid");
    assert!(grid.changed());
    assert_eq!(grid.reset, Some(Command::Toggle(Flag::ShowGrid)));
    let palette = at("Spectrogram > Palette");
    assert!(palette.changed());
    assert_eq!(palette.reset, Some(Command::Choose(Choice::Palette(PaletteKind::Magma))));
    // A number's way back is the app's, being floating point.
    assert!(!at("Analysis > Tilt").changed());

    // Nothing that is already where it ships has one, and neither has anything that is
    // not a setting at all.
    let untouched = entries(&tree(&context(Session::default())));
    let changed: Vec<&str> = untouched.iter().filter(|e| e.changed()).map(|e| e.path.as_str()).collect();
    assert!(changed.is_empty(), "the shipped settings read as changed: {changed:?}");
    assert_eq!(Chosen::default(), shipped());
}

#[test]
fn a_choice_is_one_row_and_a_number_is_one_row() {
    let found = entries(&tree(&context(Session::default())));
    assert!(found.len() < 160, "the help list has grown back to {} rows", found.len());
    let mut paths: Vec<&str> = found.iter().map(|e| e.path.as_str()).collect();
    paths.sort_unstable();
    let before = paths.len();
    paths.dedup();
    assert_eq!(paths.len(), before, "two rows share a path");
    assert!(found.iter().any(|e| e.path == "Analysis > Tilt" && matches!(e.kind, EntryKind::Number(_))));
}

#[test]
fn a_preset_sets_its_switches_and_choices_and_nothing_else() {
    let mut chosen = shipped();
    chosen.style = CurveStyle::Bars;
    let mut switches = Switches::default();
    switches.set_flag(Flag::ShowGrid, false);
    apply_preset(Preset::Immersive, &mut chosen, &mut switches);
    assert_eq!(chosen.quality, AnalysisQuality::High);
    assert_eq!(chosen.palette, PaletteKind::Magma);
    assert_eq!(chosen.style, CurveStyle::Bars);
    assert!(switches.flag(Flag::Immersive));
    assert!(switches.flag(Flag::Glow));
    assert!(switches.flag(Flag::AutoHide));
    assert!(switches.flag(Flag::ShowWaveform));
    assert!(!switches.flag(Flag::ShowGrid));

    apply_preset(Preset::QC, &mut chosen, &mut switches);
    assert_eq!(chosen.palette, PaletteKind::Viridis);
    assert_eq!(chosen.scale, FreqScale::Linear);
    assert_eq!(chosen.aggregate, BandAggregate::Energy);
    assert!(!switches.flag(Flag::AdaptiveRange));
    assert!(!switches.flag(Flag::Immersive));
    // The glow is the immersive preset's to turn on, not every other preset's to turn off.
    assert!(switches.flag(Flag::Glow));
}
