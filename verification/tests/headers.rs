use audio_tagger::headers::{add_cors_headers, is_header_text, HEADER_ROOM};
use audio_tagger::media_type::{content_type_for, usable_content_type};
use hyper::header::HeaderValue;
use hyper::HeaderMap;

#[test]
fn cors_fields_are_set_on_an_empty_map() {
    let mut headers = HeaderMap::new();
    add_cors_headers(&mut headers);
    assert_eq!(headers.len(), 4);
    assert_eq!(headers.get("access-control-allow-origin").unwrap(), "*");
    assert_eq!(headers.get("access-control-allow-methods").unwrap(), "GET, HEAD, OPTIONS");
    assert_eq!(headers.get("access-control-allow-headers").unwrap(), "*");
    assert_eq!(headers.get("vary").unwrap(), "Origin");
}

#[test]
fn cors_fields_replace_what_was_there_and_leave_the_rest() {
    let mut headers = HeaderMap::new();
    headers.insert("content-type", HeaderValue::from_static("audio/mpeg"));
    headers.insert("vary", HeaderValue::from_static("Accept"));
    headers.append("vary", HeaderValue::from_static("Accept-Encoding"));
    headers.insert("access-control-allow-origin", HeaderValue::from_static("https://a.example"));
    assert!(headers.keys_len() < HEADER_ROOM);
    add_cors_headers(&mut headers);
    assert_eq!(headers.keys_len(), 5);
    assert_eq!(headers.len(), 5);
    assert_eq!(headers.get("content-type").unwrap(), "audio/mpeg");
    assert_eq!(headers.get("access-control-allow-origin").unwrap(), "*");
    assert_eq!(headers.get_all("vary").iter().count(), 1);
    assert_eq!(headers.get("vary").unwrap(), "Origin");
}

#[test]
fn decorating_twice_changes_nothing() {
    let mut once = HeaderMap::new();
    add_cors_headers(&mut once);
    let mut twice = once.clone();
    add_cors_headers(&mut twice);
    assert_eq!(once, twice);
}

#[test]
fn header_text_is_visible_ascii() {
    assert!(is_header_text(""));
    assert!(is_header_text("audio/mpeg"));
    assert!(is_header_text("bytes 0-1/2"));
    assert!(is_header_text(" ~"));
    assert!(!is_header_text("a\tb"));
    assert!(!is_header_text("a\nb"));
    assert!(!is_header_text("\u{7f}"));
    assert!(!is_header_text("é"));
    assert!(!is_header_text("a\u{0}"));
}

#[test]
fn unusable_guess_gives_the_default_type() {
    assert_eq!(usable_content_type("audio/flac".to_string()), "audio/flac");
    assert_eq!(usable_content_type("text/plain; charset=utf-8".to_string()), "text/plain; charset=utf-8");
    assert_eq!(usable_content_type("bad\r\nvalue".to_string()), "application/octet-stream");
    assert_eq!(usable_content_type("tÿpe".to_string()), "application/octet-stream");
}

#[test]
fn content_type_is_guessed_from_the_extension() {
    assert_eq!(content_type_for("/music/a.mp3"), "audio/mpeg");
    assert_eq!(content_type_for("a.M4A"), "audio/m4a");
    assert_eq!(content_type_for("a.aiff"), "audio/aiff");
    assert_eq!(content_type_for("a"), "application/octet-stream");
    assert_eq!(content_type_for(""), "application/octet-stream");
    assert_eq!(content_type_for("a.mp3/"), "audio/mpeg");
    assert_eq!(content_type_for("dir.mp3/file"), "application/octet-stream");
}
