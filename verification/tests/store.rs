use sonorant::store::{entry_file, entry_of_file, list_entries, Store};

fn strings(v: &[&str]) -> Vec<String> {
    v.iter().map(|s| s.to_string()).collect()
}

#[test]
fn a_store_keeps_its_folder() {
    let s = Store::new("/home/me/.config/sonorant".to_string());
    assert_eq!(s.dir(), "/home/me/.config/sonorant");
}

#[test]
fn entries_are_kept_under_their_sanitised_name() {
    assert_eq!(entry_file("Round Trip").as_deref(), Some("Round Trip.toml"));
    assert_eq!(entry_file("  Mid/night! ").as_deref(), Some("Midnight.toml"));
    assert_eq!(entry_file("*/?"), None);
    assert_eq!(entry_file(""), None);
    let s = Store::new("d".to_string());
    assert_eq!(s.preset_file("Bass Heavy").as_deref(), Some("Bass Heavy.toml"));
    assert_eq!(s.theme_file("..."), None);
}

#[test]
fn only_toml_files_are_entries() {
    assert_eq!(entry_of_file("Round Trip.toml").as_deref(), Some("Round Trip"));
    assert_eq!(entry_of_file("a.b.toml").as_deref(), Some("a.b"));
    assert_eq!(entry_of_file(".toml"), None);
    assert_eq!(entry_of_file("x.TOML"), None);
    assert_eq!(entry_of_file("x.tmp"), None);
    assert_eq!(entry_of_file("toml"), None);
}

#[test]
fn listings_sort_without_regard_to_case_and_keep_ties_in_order() {
    let files = strings(&["b.toml", "A.toml", "notes.txt", ".toml", "a.TOML", "c.d.toml", "B.toml"]);
    assert_eq!(list_entries(&files), strings(&["A", "b", "B", "c.d"]));
    let files = strings(&["Zeta.toml", "Émile.toml", "alpha.toml"]);
    assert_eq!(list_entries(&files), strings(&["alpha", "Zeta", "Émile"]));
    assert!(list_entries(&Vec::new()).is_empty());
}

#[test]
fn presets_and_themes_list_alike() {
    let s = Store::new("d".to_string());
    let files = strings(&["Round Trip.toml", "round trip.tmp"]);
    assert_eq!(s.list_presets(&files), strings(&["Round Trip"]));
    assert_eq!(s.list_themes(&files), strings(&["Round Trip"]));
}
