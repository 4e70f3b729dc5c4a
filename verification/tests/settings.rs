use sonorant::settings::{sanitise_name, Argb, Theme, ThemeSlot};

#[test]
fn colours_parse_and_print() {
    assert_eq!(Argb::parse("#FF102030"), Some(Argb(0xFF10_2030)));
    assert_eq!(Argb::parse("80abcdef"), Some(Argb(0x80AB_CDEF)));
    assert_eq!(Argb::parse("zz"), None);
    assert_eq!(Argb::parse("#123456789"), None);
    assert_eq!(Argb(0xFF0C_1824).to_text(), "#FF0C1824");
}

#[test]
fn names_are_sanitised() {
    assert_eq!(sanitise_name("bad/name*?"), "badname");
    assert_eq!(sanitise_name("  Round Trip  "), "Round Trip");
}

#[test]
fn theme_slots_are_independent() {
    let mut t = Theme::default();
    for (i, &slot) in ThemeSlot::ALL.iter().enumerate() {
        t.set(slot, Some(Argb(i as u32)));
    }
    for (i, &slot) in ThemeSlot::ALL.iter().enumerate() {
        assert_eq!(t.get(slot), Some(Argb(i as u32)), "{slot:?}");
    }
    t.clear();
    assert!(ThemeSlot::ALL.iter().all(|&s| t.get(s).is_none()));
}

#[test]
fn colours_read_with_and_without_their_dressing() {
    assert_eq!(Argb::parse("  #ff102030  "), Some(Argb(0xFF10_2030)));
    assert_eq!(Argb::parse("# 0a"), Some(Argb(0x0A)));
    assert_eq!(Argb::parse("1"), Some(Argb(1)));
    assert_eq!(Argb::parse("FFFFFFFF"), Some(Argb(0xFFFF_FFFF)));
    assert_eq!(Argb::parse(""), None);
    assert_eq!(Argb::parse("#"), None);
    assert_eq!(Argb::parse("+12"), None);
    assert_eq!(Argb::parse("12 34"), None);
    assert_eq!(Argb::parse("\u{3000}#ABC\u{3000}"), Some(Argb(0xABC)));
}

#[test]
fn a_printed_colour_reads_back() {
    for v in [0u32, 1, 0xFF0C_1824, 0x80AB_CDEF, 0xFFFF_FFFF] {
        let c = Argb(v);
        assert_eq!(Argb::parse(&c.to_text()), Some(c));
    }
    assert_eq!(Argb(0x0000_00AB).to_text(), "#000000AB");
}

#[test]
fn channels_come_out_of_their_bytes() {
    let c = Argb(0x80AB_CDEF);
    assert_eq!((c.a(), c.r(), c.g(), c.b()), (0x80, 0xAB, 0xCD, 0xEF));
}

#[test]
fn names_keep_letters_of_any_script() {
    assert_eq!(sanitise_name("Café Ω-1_x"), "Café Ω-1_x");
    assert_eq!(sanitise_name("*/?"), "");
    assert_eq!(sanitise_name(" a / b "), "a  b");
    assert_eq!(sanitise_name("x\t"), "x");
}

#[test]
fn setting_a_slot_touches_only_that_slot() {
    let mut t = Theme::default();
    t.set(ThemeSlot::Curve, Some(Argb(7)));
    assert_eq!(t.curve, Some(Argb(7)));
    assert_eq!(t.get(ThemeSlot::Curve), Some(Argb(7)));
    assert_eq!(t.get(ThemeSlot::Hover), None);
    t.set(ThemeSlot::Curve, None);
    assert_eq!(t, Theme::default());
}
