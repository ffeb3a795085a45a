use mpris_bridge::arthash::hash_art_reference;
use mpris_bridge::arthash::ABSENT_ART_TOKEN;
use mpris_bridge::error::AppError;
use mpris_bridge::error::ErrorKind;

#[test]
fn statuses_cover_the_taxonomy() {
    assert_eq!(AppError::from_kind(ErrorKind::NotFound).status_code(), 404);
    assert_eq!(AppError::from_kind(ErrorKind::Rejected).status_code(), 400);
    assert_eq!(AppError::from_kind(ErrorKind::Unsupported).status_code(), 500);
    assert_eq!(AppError::from_kind(ErrorKind::TransportError).status_code(), 500);
    assert_eq!(AppError::from_kind(ErrorKind::IOError).status_code(), 500);
    assert_eq!(AppError::from_kind(ErrorKind::FetchError).status_code(), 500);
    assert_eq!(AppError::from_kind(ErrorKind::DiscoveryError).status_code(), 500);
}

#[test]
fn descriptions_name_each_failure_class() {
    assert_eq!(AppError::from_kind(ErrorKind::NotFound).describe(), "not found");
    assert_eq!(AppError::from_kind(ErrorKind::Unsupported).describe(), "unsupported");
    assert_eq!(AppError::from_kind(ErrorKind::Rejected).describe(), "rejected");
    assert_eq!(AppError::from_kind(ErrorKind::TransportError).describe(), "transport error");
    assert_eq!(AppError::from_kind(ErrorKind::IOError).describe(), "i/o error");
    assert_eq!(AppError::from_kind(ErrorKind::FetchError).describe(), "fetch error");
    assert_eq!(AppError::from_kind(ErrorKind::DiscoveryError).describe(), "discovery error");
}

#[test]
fn absent_art_has_the_fixed_sentinel() {
    assert_eq!(hash_art_reference(None), ABSENT_ART_TOKEN);
    assert_eq!(ABSENT_ART_TOKEN, 0);
}

#[test]
fn empty_reference_differs_from_absence() {
    assert_eq!(hash_art_reference(Some("")), 0xcbf29ce484222325);
    assert_ne!(hash_art_reference(Some("")), hash_art_reference(None));
}

#[test]
fn equal_references_hash_alike_and_stably() {
    let a = hash_art_reference(Some("https://example.test/cover.png"));
    let b = hash_art_reference(Some("https://example.test/cover.png"));
    assert_eq!(a, b);
    let c = hash_art_reference(Some("https://example.test/other.png"));
    assert_ne!(a, c);
}

#[test]
fn single_byte_reference_has_the_expected_fold() {
    let expected = (0xcbf29ce484222325u64 ^ ('a' as u64)).wrapping_mul(0x100000001b3);
    assert_eq!(hash_art_reference(Some("a")), expected);
}
