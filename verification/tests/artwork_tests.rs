use mpris_bridge::artwork::classify_art_url;
use mpris_bridge::artwork::local_fetch_headers;
use mpris_bridge::artwork::remote_fetch_headers;
use mpris_bridge::artwork::ArtReference;
use mpris_bridge::artwork::StreamProgress;

#[test]
fn file_scheme_becomes_a_local_path() {
    match classify_art_url("file:///tmp/cover.png") {
        ArtReference::LocalPath(p) => assert_eq!(p, "/tmp/cover.png"),
        _ => panic!("expected a local path"),
    }
}

#[test]
fn http_and_https_stay_remote() {
    match classify_art_url("https://example.test/cover.jpg") {
        ArtReference::RemoteUrl(u) => assert_eq!(u, "https://example.test/cover.jpg"),
        _ => panic!("expected a remote url"),
    }
    match classify_art_url("http://example.test/cover.jpg") {
        ArtReference::RemoteUrl(u) => assert_eq!(u, "http://example.test/cover.jpg"),
        _ => panic!("expected a remote url"),
    }
}

#[test]
fn data_scheme_is_unsupported_not_missing() {
    match classify_art_url("data:image/jpeg;base64,AAAA") {
        ArtReference::Unsupported(u) => assert_eq!(u, "data:image/jpeg;base64,AAAA"),
        _ => panic!("expected an unsupported shape"),
    }
}

#[test]
fn local_headers_carry_exact_length_and_guessed_type() {
    let h = local_fetch_headers("/tmp/cover.png", 54321);
    assert_eq!(h.content_length.as_deref(), Some("54321"));
    assert_eq!(h.content_type.as_deref(), Some("image/png"));
}

#[test]
fn unknown_extension_falls_back_to_image_star() {
    let h = local_fetch_headers("/tmp/cover.nosuchext", 1);
    assert_eq!(h.content_type.as_deref(), Some("image/*"));
}

#[test]
fn remote_headers_are_forwarded_verbatim() {
    let h = remote_fetch_headers(Some(String::from("123")), Some(String::from("image/webp")));
    assert_eq!(h.content_length.as_deref(), Some("123"));
    assert_eq!(h.content_type.as_deref(), Some("image/webp"));
}

#[test]
fn missing_upstream_content_type_is_not_fabricated() {
    let h = remote_fetch_headers(Some(String::from("123")), None);
    assert_eq!(h.content_length.as_deref(), Some("123"));
    assert_eq!(h.content_type, None);
}

#[test]
fn accounted_stream_matches_declared_length() {
    let mut p = StreamProgress::make(10);
    assert!(p.accept_all(&vec![4, 3, 3]));
    assert!(p.completed());
}

#[test]
fn short_stream_is_not_reported_complete() {
    let mut p = StreamProgress::make(10);
    assert!(p.accept_all(&vec![4, 3]));
    assert!(!p.completed());
}

#[test]
fn overrunning_chunk_is_refused() {
    let mut p = StreamProgress::make(5);
    assert!(!p.accept_all(&vec![3, 3]));
    assert!(!p.completed());
    let mut q = StreamProgress::make(5);
    assert!(q.accept_chunk(5));
    assert!(!q.accept_chunk(1));
    assert!(q.completed());
}
