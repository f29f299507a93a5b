use audio_tagger::banks::{bank_name_of_file, list_tag_banks};
use audio_tagger::folder::{scan_folder, FolderEntry, SimpleFile};
use audio_tagger::sorted::text_le_chars;

fn entry(path: &str, is_file: bool) -> FolderEntry {
    let p = std::path::Path::new(path);
    FolderEntry {
        path: path.to_string(),
        file_name: p.file_name().unwrap().to_str().unwrap().to_string(),
        stem: p.file_stem().and_then(|s| s.to_str()).map(|s| s.to_string()),
        extension: p.extension().and_then(|s| s.to_str()).map(|s| s.to_string()),
        is_file,
    }
}

fn simple(path: &str) -> SimpleFile {
    SimpleFile {
        path: path.to_string(),
        file_name: std::path::Path::new(path).file_name().unwrap().to_str().unwrap().to_string(),
    }
}

fn le(a: &str, b: &str) -> bool {
    text_le_chars(&a.chars().collect(), &b.chars().collect())
}

#[test]
fn texts_are_ordered_as_strings_are() {
    let samples = ["", "a", "A", "ab", "b", "B", "aa", "é", "z", "日本", "\u{10000}", "a\u{0}", "~"];
    for a in samples {
        for b in samples {
            assert_eq!(le(a, b), a <= b, "{:?} <= {:?}", a, b);
        }
    }
}

#[test]
fn scan_lists_supported_files_sorted_without_regard_to_case() {
    let entries = vec![
        entry("/m/zeta.mp3", true),
        entry("/m/Alpha.flac", true),
        entry("/m/notes.txt", true),
        entry("/m/beta.WAV", true),
        entry("/m/folder.mp3", false),
        entry("/m/alpha.m4a", true),
        entry("/m/noextension", true),
        entry("/m/Gamma.aiff", true),
        entry("/m/delta.aif", true),
    ];
    let files = scan_folder(&entries);
    assert_eq!(
        files,
        vec![
            simple("/m/Alpha.flac"),
            simple("/m/alpha.m4a"),
            simple("/m/beta.WAV"),
            simple("/m/delta.aif"),
            simple("/m/Gamma.aiff"),
            simple("/m/zeta.mp3"),
        ]
    );
}

#[test]
fn scan_keeps_the_order_of_names_that_differ_in_case_only() {
    let entries = vec![
        entry("/b/SONG.mp3", true),
        entry("/a/song.mp3", true),
        entry("/c/Song.mp3", true),
        entry("/d/a.mp3", true),
    ];
    let files = scan_folder(&entries);
    let paths: Vec<&str> = files.iter().map(|f| f.path.as_str()).collect();
    assert_eq!(paths, vec!["/d/a.mp3", "/b/SONG.mp3", "/a/song.mp3", "/c/Song.mp3"]);
}

#[test]
fn scan_agrees_with_a_stable_sort_of_std() {
    let names = [
        "b.mp3", "B.mp3", "a.mp3", "Z.mp3", "é.mp3", "É.mp3", "10.mp3", "9.mp3", "_.mp3", "a.MP3",
        "A.mp3", "ab.mp3", "Ab.mp3", "aB.mp3",
    ];
    let entries: Vec<FolderEntry> =
        names.iter().enumerate().map(|(i, n)| entry(&format!("/{}/{}", i, n), true)).collect();
    let mut expected: Vec<SimpleFile> =
        entries.iter().map(|e| simple(&e.path)).collect();
    expected.sort_by(|a, b| a.file_name.to_lowercase().cmp(&b.file_name.to_lowercase()));
    assert_eq!(scan_folder(&entries), expected);
}

#[test]
fn scan_of_nothing_lists_nothing() {
    assert_eq!(scan_folder(&Vec::new()), Vec::<SimpleFile>::new());
    assert_eq!(scan_folder(&vec![entry("/m/readme.md", true)]), Vec::<SimpleFile>::new());
}

#[test]
fn bank_files_are_named_tags_dot_bank_dot_json() {
    assert_eq!(bank_name_of_file(Some("tags.rock"), Some("json")).as_deref(), Some("rock"));
    assert_eq!(bank_name_of_file(Some("tags."), Some("json")).as_deref(), Some(""));
    assert_eq!(bank_name_of_file(Some("tags.tags.x"), Some("json")).as_deref(), Some("x"));
    assert_eq!(bank_name_of_file(Some("tags.tags."), Some("json")).as_deref(), Some(""));
    assert_eq!(bank_name_of_file(Some("tags.a.tags.b"), Some("json")).as_deref(), Some("a.tags.b"));
    assert_eq!(bank_name_of_file(Some("tags"), Some("json")), None);
    assert_eq!(bank_name_of_file(Some("Tags.rock"), Some("json")), None);
    assert_eq!(bank_name_of_file(Some("tags.rock"), Some("JSON")), None);
    assert_eq!(bank_name_of_file(Some("tags.rock"), Some("txt")), None);
    assert_eq!(bank_name_of_file(Some("tags.rock"), None), None);
    assert_eq!(bank_name_of_file(None, Some("json")), None);
}

#[test]
fn banks_are_listed_sorted_with_default() {
    let entries = vec![
        entry("/b/tags.rock.json", true),
        entry("/b/tags.Jazz.json", true),
        entry("/b/prefs.json", true),
        entry("/b/tags.ambient.json", true),
        entry("/b/tags.techno.txt", true),
        entry("/b/tags.json", true),
    ];
    assert_eq!(list_tag_banks(&entries), vec!["Jazz", "ambient", "default", "rock"]);
}

#[test]
fn default_is_listed_once_where_its_file_is_there() {
    let entries = vec![entry("/b/tags.zebra.json", true), entry("/b/tags.default.json", true)];
    assert_eq!(list_tag_banks(&entries), vec!["default", "zebra"]);
    assert_eq!(list_tag_banks(&Vec::new()), vec!["default"]);
}

#[test]
fn a_bank_found_twice_is_listed_twice() {
    let entries = vec![
        entry("/b/tags.tags.a.json", true),
        entry("/b/tags.a.json", true),
        entry("/b/tags.default.json", true),
        entry("/c/tags.default.json", false),
    ];
    assert_eq!(list_tag_banks(&entries), vec!["a", "a", "default", "default"]);
}
