use sonorant::switches::{Flag, Number, Switches};

#[test]
fn every_flag_round_trips() {
    let mut s = Switches::default();
    for &f in Flag::ALL.iter() {
        let was = s.flag(f);
        assert_eq!(s.toggle(f), !was, "{f:?}");
        assert_eq!(s.flag(f), !was, "{f:?}");
        s.set_flag(f, was);
        assert_eq!(s.flag(f), was, "{f:?}");
    }
    // Every flag reaches a switch of its own: flipping one moves nothing else.
    for &f in Flag::ALL.iter() {
        let mut a = Switches::default();
        a.toggle(f);
        let changed: Vec<Flag> = Flag::ALL
            .iter()
            .copied()
            .filter(|&g| a.flag(g) != Switches::default().flag(g))
            .collect();
        assert_eq!(changed, vec![f], "{f:?} moved more than itself");
    }
}

#[test]
fn switches_ship_as_the_app_ships_them() {
    let s = Switches::default();
    assert!(s.flag(Flag::ShowGrid));
    assert!(!s.flag(Flag::SmoothTime));
    assert!(!s.flag(Flag::ShowMin));
    assert!(!s.flag(Flag::MirrorLeftPane));
    assert!(s.flag(Flag::QuickBarSplit));
    assert!(!s.flag(Flag::Immersive));
    assert!(s.flag(Flag::Glow));
    assert!(!s.flag(Flag::Cinematic));
    let on = Flag::ALL.iter().filter(|&&f| s.flag(f)).count();
    assert_eq!(on, 44);
}

#[test]
fn flags_and_numbers_read_back_by_name() {
    for &f in Flag::ALL.iter() {
        assert_eq!(Flag::from_name(f.name()), Some(f));
        assert_eq!(Flag::from_name(&f.name().to_uppercase()), Some(f));
        assert_eq!(Flag::ALL[f.index()], f);
    }
    for &n in Number::ALL.iter() {
        assert_eq!(Number::from_name(&n.name().to_lowercase()), Some(n));
    }
    assert_eq!(Flag::from_name("DeckLufsI"), Some(Flag::DeckLufsI));
    assert_eq!(Flag::from_name("ShowColorBar"), None);
    assert_eq!(Number::from_name("rowspersecond"), Some(Number::RowsPerSecond));
    assert_eq!(Flag::default(), Flag::ShowGrid);
    assert_eq!(Number::default(), Number::RowsPerSecond);
}
