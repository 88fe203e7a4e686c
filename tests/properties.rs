use mal2eng::sentence::capitalize;
use mal2eng::CharacterMap;

#[test]
fn latin_text_is_unchanged() {
    let m = CharacterMap::init();
    let s = "Hello, world! 123 (x) \"q\" 'r' / \\ % ; é";
    assert_eq!(m.transliterate(s, false), s);
}

#[test]
fn empty_text() {
    let m = CharacterMap::init();
    assert_eq!(m.transliterate("", false), "");
    assert_eq!(m.transliterate("", true), "");
}

#[test]
fn capitalization_only_touches_sentence_starts() {
    let m = CharacterMap::init();
    assert_eq!(m.transliterate("മലയാളം", false), "malayaalam");
    assert_eq!(m.transliterate("മലയാളം", true), "Malayaalam");
    assert_eq!(m.transliterate("ക. ക", true), "Ka. Ka");
}

#[test]
fn sentences_are_trimmed_and_joined_by_one_space() {
    let m = CharacterMap::init();
    assert_eq!(m.transliterate("a.b", true), "A. B");
    assert_eq!(m.transliterate("  x  !  y", true), "X  ! Y");
    assert_eq!(m.transliterate("one? two! three.", true), "One? Two! Three.");
    assert_eq!(m.transliterate("a.  ", true), "A. ");
}

#[test]
fn capitalize_first_character() {
    assert_eq!(capitalize("abc"), "Abc");
    assert_eq!(capitalize(""), "");
    assert_eq!(capitalize("ßa"), "SSa");
}

#[test]
fn virama_is_not_emitted() {
    let m = CharacterMap::init();
    for s in ["ക്", "ക്ക്", "ക്ക്a", "അവന്‍", "കു്", "മ്പ്", "ന്ത്യ്"] {
        let r = m.transliterate(s, false);
        assert!(!r.contains('\u{0D4D}'), "{} gave {}", s, r);
    }
}

#[test]
fn zero_width_non_joiner_is_stripped() {
    let m = CharacterMap::init();
    assert_eq!(m.transliterate("മല\u{200C}യാളം", false), "malayaalam");
    assert_eq!(m.transliterate("\u{200C}", false), "");
    assert_eq!(m.transliterate("a\u{200C}b", true), "Ab");
}

#[test]
fn mute_consonant_final_and_interior() {
    let m = CharacterMap::init();
    assert_eq!(m.transliterate("ക്", false), "ku");
    assert_eq!(m.transliterate("ക്a", false), "ka");
    assert_eq!(m.transliterate("ക് ", false), "ku ");
    assert_eq!(m.transliterate("ക്.", false), "ku.");
    assert_eq!(m.transliterate("ക്\t", false), "ku\t");
    assert_eq!(m.transliterate("സ്ഥ", false), "stha");
}

#[test]
fn compound_rules() {
    let m = CharacterMap::init();
    assert_eq!(m.transliterate("ക്ക", false), "kka");
    assert_eq!(m.transliterate("ക്ക്", false), "kku");
    assert_eq!(m.transliterate("ക്ക്a", false), "kka");
    assert_eq!(m.transliterate("ക്ക് a", false), "kku a");
    assert_eq!(m.transliterate("ന്ത്യ", false), "nthya");
    assert_eq!(m.transliterate("ന്ത", false), "ntha");
}

#[test]
fn vowel_signs_fuse_with_their_letter() {
    let m = CharacterMap::init();
    assert_eq!(m.transliterate("കാ", false), "kaa");
    assert_eq!(m.transliterate("കു്", false), "ku");
    assert_eq!(m.transliterate("ക്കി", false), "kki");
    assert_eq!(m.transliterate("ഒൗ", false), "oau");
}

#[test]
fn residual_letters() {
    let m = CharacterMap::init();
    assert_eq!(m.transliterate("ആ", false), "aa");
    assert_eq!(m.transliterate("ൽ", false), "l");
    assert_eq!(m.transliterate("ം", false), "m");
    assert_eq!(m.transliterate("ാ", false), "aa");
    assert_eq!(m.transliterate("ു്", false), "u");
}

#[test]
fn fixture_sentence_start_and_end() {
    let m = CharacterMap::init();
    let r = m.transliterate("ഒരു ചെറിയ ചിപ്പിൽ ഇലക്ട്രോണിക് ട്രാൻസിസ്റ്റർ.", false);
    assert!(r.starts_with("oru cheriya chippil ilaktroniku"));
    assert!(r.ends_with("traansisttar."));
}
