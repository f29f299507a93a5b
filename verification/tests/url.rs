use audio_tagger::url::{
    find_path_param, find_requested_path, media_url_for_path, ServerHandle,
};

#[test]
fn handle_names_its_port() {
    let handle = ServerHandle::bound(12123);
    assert_eq!(handle.bound_port, 12123);
    assert_eq!(handle.base_url, "http://127.0.0.1:12123");
    assert_eq!(ServerHandle::bound(65535).base_url, "http://127.0.0.1:65535");
    assert_eq!(ServerHandle::bound(1).base_url, "http://127.0.0.1:1");
}

#[test]
fn unbound_handle_names_port_zero() {
    let handle = ServerHandle::unbound();
    assert_eq!(handle.bound_port, 0);
    assert_eq!(handle.base_url, "http://127.0.0.1:0");
    assert_eq!(ServerHandle::from_bind(None), handle);
    assert_eq!(ServerHandle::from_bind(Some(8080)), ServerHandle::bound(8080));
}

#[test]
fn url_escapes_all_but_letters_and_digits() {
    let handle = ServerHandle::bound(5000);
    assert_eq!(
        media_url_for_path("/music/My Song.mp3", &handle),
        "http://127.0.0.1:5000/audio?path=%2Fmusic%2FMy%20Song%2Emp3"
    );
    assert_eq!(
        media_url_for_path("abcXYZ019", &handle),
        "http://127.0.0.1:5000/audio?path=abcXYZ019"
    );
    assert_eq!(
        media_url_for_path("a-b_c~d&e=f%g+h", &handle),
        "http://127.0.0.1:5000/audio?path=a%2Db%5Fc%7Ed%26e%3Df%25g%2Bh"
    );
    assert_eq!(
        media_url_for_path("C:\\Música\\ü.flac", &handle),
        "http://127.0.0.1:5000/audio?path=C%3A%5CM%C3%BAsica%5C%C3%BC%2Eflac"
    );
    assert_eq!(media_url_for_path("", &handle), "http://127.0.0.1:5000/audio?path=");
}

#[test]
fn url_of_unbound_handle_leads_to_port_zero() {
    assert_eq!(
        media_url_for_path("a b", &ServerHandle::unbound()),
        "http://127.0.0.1:0/audio?path=a%20b"
    );
}

#[test]
fn finds_the_first_path_parameter() {
    assert_eq!(find_path_param("path=abc").as_deref(), Some("abc"));
    assert_eq!(find_path_param("a=1&path=abc&b=2").as_deref(), Some("abc"));
    assert_eq!(find_path_param("path=one&path=two").as_deref(), Some("one"));
    assert_eq!(find_path_param("path=").as_deref(), Some(""));
    assert_eq!(find_path_param("&&path=x&").as_deref(), Some("x"));
    assert_eq!(find_path_param("path=a=b").as_deref(), Some("a=b"));
    assert_eq!(find_path_param("path=%2F"), Some("%2F".to_string()));
    assert_eq!(find_path_param(""), None);
    assert_eq!(find_path_param("path"), None);
    assert_eq!(find_path_param("Path=x"), None);
    assert_eq!(find_path_param("apath=x&pat=y"), None);
}

#[test]
fn decodes_the_path() {
    assert_eq!(
        find_requested_path(Some("path=%2Fmusic%2FMy%20Song%2Emp3")).as_deref(),
        Some("/music/My Song.mp3")
    );
    assert_eq!(find_requested_path(Some("path=%c3%bc")).as_deref(), Some("ü"));
    assert_eq!(find_requested_path(Some("path=100%")).as_deref(), Some("100%"));
    assert_eq!(find_requested_path(Some("path=%zz%4")).as_deref(), Some("%zz%4"));
    assert_eq!(find_requested_path(Some("path=a+b")).as_deref(), Some("a+b"));
    assert_eq!(find_requested_path(Some("path=%FF")), None);
    assert_eq!(find_requested_path(Some("other=1")), None);
    assert_eq!(find_requested_path(None), None);
}

#[test]
fn built_url_is_read_back() {
    let handle = ServerHandle::bound(4242);
    for path in ["/music/My Song.mp3", "C:\\Música\\ü & co=1?.flac", "", "plain", "%41%", "日本語/曲.m4a"] {
        let url = media_url_for_path(path, &handle);
        let query = url.split_once('?').unwrap().1;
        assert_eq!(find_requested_path(Some(query)).as_deref(), Some(path));
    }
}
