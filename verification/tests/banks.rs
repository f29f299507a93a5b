use audio_tagger::banks::{
    bank_path, default_tags_json, sanitize_bank, sanitize_lowered, TAGS_SCHEMA_VERSION,
};
use audio_tagger::formats::{is_listed_ext, supported_ext};
use audio_tagger::layout::{banks_dir, documents_root, logs_dir, prefs_path, tags_file_path};

#[test]
fn default_tags_hold_the_version_and_no_tags() {
    assert_eq!(TAGS_SCHEMA_VERSION, 1);
    assert_eq!(default_tags_json(), "{ \"version\": 1, \"tags\": [] }");
}

#[test]
fn sanitize_keeps_letters_digits_hyphens_and_underscores() {
    assert_eq!(sanitize_bank("rock"), "rock");
    assert_eq!(sanitize_bank("My Bank"), "my-bank");
    assert_eq!(sanitize_bank("  Techno 2024  "), "techno-2024");
    assert_eq!(sanitize_bank("a_b-c"), "a_b-c");
    assert_eq!(sanitize_bank("a/b\\c:d.e"), "abcde");
    assert_eq!(sanitize_bank("été"), "t");
    assert_eq!(sanitize_bank("a\tb\nc"), "a-b-c");
    assert_eq!(sanitize_bank("a  b"), "a--b");
    assert_eq!(sanitize_bank("a\u{a0}b\u{3000}c"), "a-b-c");
}

#[test]
fn sanitize_drops_hyphens_at_either_end() {
    assert_eq!(sanitize_bank("-a-"), "a");
    assert_eq!(sanitize_bank("--a--b--"), "a--b");
    assert_eq!(sanitize_bank("! a !"), "a");
    assert_eq!(sanitize_bank("_a_"), "_a_");
}

#[test]
fn sanitize_gives_default_where_nothing_is_left() {
    assert_eq!(sanitize_bank(""), "default");
    assert_eq!(sanitize_bank("   "), "default");
    assert_eq!(sanitize_bank("---"), "default");
    assert_eq!(sanitize_bank("!!!"), "default");
    assert_eq!(sanitize_bank("é ü"), "default");
    assert_eq!(sanitize_bank("default"), "default");
}

#[test]
fn sanitize_lowers_by_the_rules_of_unicode() {
    assert_eq!(sanitize_bank("ROCK"), "rock");
    assert_eq!(sanitize_bank("\u{212a}elvin"), "kelvin");
    assert_eq!(sanitize_bank("\u{130}stanbul"), "istanbul");
}

#[test]
fn sanitize_lowered_does_not_lower() {
    assert_eq!(sanitize_lowered("My Bank"), "My-Bank");
    assert_eq!(sanitize_lowered(" a "), "a");
    assert_eq!(sanitize_lowered(""), "default");
}

#[test]
fn bank_file_is_named_after_the_bank() {
    assert_eq!(bank_path("My Bank"), "tags.my-bank.json");
    assert_eq!(bank_path(""), "tags.default.json");
    assert_eq!(bank_path("../../etc/passwd"), "tags.etcpasswd.json");
}

#[test]
fn files_have_their_names() {
    assert_eq!(tags_file_path(), "tags.json");
    assert_eq!(logs_dir(), "logs");
    assert_eq!(documents_root(), "AudioTagger");
    assert_eq!(banks_dir(), "Banks");
    assert_eq!(prefs_path(), "prefs.json");
}

#[test]
fn six_extensions_are_supported() {
    for ext in ["mp3", "flac", "wav", "aiff", "aif", "m4a", "MP3", "Flac", "WAV", "AiFf"] {
        assert!(supported_ext(Some(ext)), "extension {:?}", ext);
    }
    for ext in ["", "mp4", "ogg", "mp33", "m4", "wave", " mp3", "mp3 ", "alac", "txt"] {
        assert!(!supported_ext(Some(ext)), "extension {:?}", ext);
    }
    assert!(!supported_ext(None));
    assert!(is_listed_ext("mp3"));
    assert!(!is_listed_ext("MP3"));
}
