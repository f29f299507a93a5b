use audio_tagger::prefs::{
    get_last_used_bank, load_prefs, looks_like_json, read_settings, set_last_used_bank,
    write_settings, Prefs, Settings,
};

fn custom() -> Settings {
    Settings { show_title: false, show_authors: true, show_genre: false, instant_playback: true }
}

#[test]
fn initial_settings_show_everything() {
    assert_eq!(
        Settings::default(),
        Settings { show_title: true, show_authors: true, show_genre: true, instant_playback: false }
    );
    assert_eq!(Prefs::default(), Prefs { last_used_bank: None, settings: None });
}

#[test]
fn content_with_a_brace_first_is_json() {
    assert!(looks_like_json("{}"));
    assert!(looks_like_json("  \n\t{\"lastUsedBank\": \"a\"}"));
    assert!(looks_like_json("\u{a0}\u{3000}{"));
    assert!(!looks_like_json(""));
    assert!(!looks_like_json("   "));
    assert!(!looks_like_json("rock"));
    assert!(!looks_like_json("[1]"));
    assert!(!looks_like_json("x{"));
}

#[test]
fn missing_file_gives_no_preferences() {
    assert_eq!(load_prefs(None, None), Prefs::default());
    let parsed = Prefs { last_used_bank: Some("x".to_string()), settings: None };
    assert_eq!(load_prefs(None, Some(parsed)), Prefs::default());
}

#[test]
fn json_gives_what_it_parses_to() {
    let parsed = Prefs { last_used_bank: Some("rock".to_string()), settings: Some(custom()) };
    assert_eq!(load_prefs(Some(" {\"lastUsedBank\":\"rock\"}"), Some(parsed.clone())), parsed);
    assert_eq!(load_prefs(Some("{ broken"), None), Prefs::default());
}

#[test]
fn other_content_is_the_name_of_the_last_bank() {
    assert_eq!(
        load_prefs(Some("  my-bank \n"), None),
        Prefs { last_used_bank: Some("my-bank".to_string()), settings: None }
    );
    let parsed = Prefs { last_used_bank: Some("other".to_string()), settings: Some(custom()) };
    assert_eq!(
        load_prefs(Some("rock"), Some(parsed)),
        Prefs { last_used_bank: Some("rock".to_string()), settings: None }
    );
    assert_eq!(
        load_prefs(Some(""), None),
        Prefs { last_used_bank: Some(String::new()), settings: None }
    );
    assert_eq!(
        load_prefs(Some(" \t "), None),
        Prefs { last_used_bank: Some(String::new()), settings: None }
    );
    assert_eq!(
        load_prefs(Some("a b\u{2003}"), None),
        Prefs { last_used_bank: Some("a b".to_string()), settings: None }
    );
}

#[test]
fn settings_are_read_with_their_default() {
    assert_eq!(read_settings(&Prefs::default()), Settings::default());
    let prefs = Prefs { last_used_bank: None, settings: Some(custom()) };
    assert_eq!(read_settings(&prefs), custom());
}

#[test]
fn writing_settings_keeps_the_bank() {
    let prefs = Prefs { last_used_bank: Some("rock".to_string()), settings: None };
    assert_eq!(
        write_settings(prefs, custom()),
        Prefs { last_used_bank: Some("rock".to_string()), settings: Some(custom()) }
    );
}

#[test]
fn setting_the_bank_keeps_the_settings() {
    let prefs = Prefs { last_used_bank: Some("rock".to_string()), settings: Some(custom()) };
    let updated = set_last_used_bank(prefs, "jazz".to_string());
    assert_eq!(
        updated,
        Prefs { last_used_bank: Some("jazz".to_string()), settings: Some(custom()) }
    );
    assert_eq!(get_last_used_bank(updated).as_deref(), Some("jazz"));
    assert_eq!(get_last_used_bank(Prefs::default()), None);
}
