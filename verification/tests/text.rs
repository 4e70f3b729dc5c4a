use sonorant::media::percent_decode;
use sonorant::settings::sanitise_name;
use sonorant::text::{same_ignoring_ascii_case, trimmed_chars, white_space};

#[test]
fn white_space_is_what_the_standard_library_calls_it() {
    for u in 0u32..=0x10FFFF {
        if let Some(c) = char::from_u32(u) {
            assert_eq!(white_space(c), c.is_whitespace(), "{u:#x}");
        }
    }
}

#[test]
fn trimming_matches_the_standard_library() {
    for s in ["", "  ", " a ", "\u{2003}x\u{85}", "a b", "\r\nkey=value\r"] {
        let got: String = trimmed_chars(s).into_iter().collect();
        assert_eq!(got, s.trim());
    }
}

#[test]
fn letters_and_digits_of_any_script_are_alphanumeric() {
    assert_eq!(sanitise_name("aZ7"), "aZ7");
    assert_eq!(sanitise_name("éΩ٣"), "éΩ٣");
    assert_eq!(sanitise_name("a/b*c?d.e"), "abcde");
}

#[test]
fn invalid_bytes_become_replacement_characters() {
    assert_eq!(percent_decode("A%FFB"), "A\u{FFFD}B");
    assert_eq!(percent_decode("%C3%A9"), "é");
}

#[test]
fn ascii_case_is_ignored_and_nothing_else() {
    assert!(same_ignoring_ascii_case("MusicBee", "musicbee"));
    assert!(!same_ignoring_ascii_case("É", "é"));
    assert!(!same_ignoring_ascii_case("ab", "abc"));
}
