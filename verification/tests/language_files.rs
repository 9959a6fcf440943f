use dialog_cursor_mover::lang::{
    available, fallback_of, is_valid_code, lang_file_name, language_entry, language_of_file,
    read_lang_name, t, tf, Catalog,
};

#[test]
fn a_loaded_translation_is_used() {
    let cat = Catalog::from_text("menu.exit = Beenden\nmenu.about =   \n");
    assert!(cat.is_loaded());
    assert_eq!(t(&cat, "menu.exit"), "Beenden");
    // an empty translation shows the built-in English
    assert_eq!(t(&cat, "menu.about"), fallback_of("menu.about"));
}

#[test]
fn escaped_newlines_become_newlines() {
    let cat = Catalog::from_text("\u{feff}msg.about = a\\nb\n");
    assert_eq!(t(&cat, "msg.about"), "a\nb");
}

#[test]
fn the_last_translation_of_a_key_wins() {
    let cat = Catalog::from_text("menu.exit = One\nmenu.exit = Two\n");
    assert_eq!(t(&cat, "menu.exit"), "Two");
}

#[test]
fn every_placeholder_gets_its_argument() {
    let cat = Catalog::from_text("k = {1} and {0} and {1}\n");
    assert_eq!(tf(&cat, "k", &["a", "b"]), "b and a and b");
}

#[test]
fn loading_happens_once() {
    let mut cat = Catalog::new();
    cat.ensure_loaded(|| Some("menu.exit = Fin\n".to_string()));
    cat.ensure_loaded(|| Some("menu.exit = Other\n".to_string()));
    assert_eq!(t(&cat, "menu.exit"), "Fin");
    let mut missing = Catalog::new();
    missing.ensure_loaded(|| None);
    assert!(missing.is_loaded());
    assert_eq!(t(&missing, "menu.exit"), fallback_of("menu.exit"));
}

#[test]
fn an_unsafe_code_reads_the_default_file() {
    assert_eq!(lang_file_name("ja"), "ja.ini");
    assert_eq!(lang_file_name("../x"), "en.ini");
    assert!(!is_valid_code("ja jp"));
}

#[test]
fn the_display_name_comes_from_the_file_head() {
    let head = "\u{feff}; comment\nlang.name = 日本語 \nmenu.exit = x\n".as_bytes();
    assert_eq!(read_lang_name(head), Some("日本語".to_string()));
    assert_eq!(read_lang_name(b"menu.exit = x\n"), None);
}

#[test]
fn a_cut_character_is_decoded_leniently() {
    // the head of a file may end in the middle of a character
    let mut bytes = b"lang.name = ab".to_vec();
    bytes.push(0xE6);
    assert_eq!(read_lang_name(&bytes), Some("ab\u{fffd}".to_string()));
}

#[test]
fn language_files_are_recognised_by_name() {
    assert_eq!(language_of_file("zh-TW.ini"), Some("zh-TW".to_string()));
    assert_eq!(language_of_file("readme.txt"), None);
    assert_eq!(language_of_file(".ini"), None);
    assert_eq!(language_of_file("a b.ini"), None);
}

#[test]
fn a_language_without_a_name_shows_its_code() {
    assert_eq!(language_entry("de", None), ("de".to_string(), "de".to_string()));
    assert_eq!(language_entry("de", Some("  \n ".to_string())), ("de".to_string(), "de".to_string()));
    assert_eq!(language_entry("de", Some("Deutsch".to_string())), ("de".to_string(), "Deutsch".to_string()));
}

#[test]
fn languages_are_listed_by_code() {
    let found = vec![
        ("ja".to_string(), "日本語".to_string()),
        ("de".to_string(), "Deutsch".to_string()),
        ("en".to_string(), "English".to_string()),
    ];
    let list = available(&found);
    let codes: Vec<&str> = list.iter().map(|(c, _)| c.as_str()).collect();
    assert_eq!(codes, vec!["de", "en", "ja"]);
}
