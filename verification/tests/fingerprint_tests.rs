use seedgen::fingerprint::{device_fingerprint, fingerprint_or_sentinel, Platform};

#[test]
fn a_read_identifier_is_kept() {
    let r = fingerprint_or_sentinel(Some("machine-id-value".to_string()));
    assert_eq!(r, "machine-id-value");
}

#[test]
fn a_failed_read_becomes_the_sentinel() {
    assert_eq!(fingerprint_or_sentinel(None), "unknown-device");
}

#[test]
fn unsupported_platforms_get_their_own_sentinel() {
    assert_eq!(device_fingerprint(Platform::Unsupported, None), "unsupported-os");
    assert_eq!(
        device_fingerprint(Platform::Unsupported, Some("ignored".to_string())),
        "unsupported-os"
    );
}

#[test]
fn unix_like_platforms_use_the_file_contents() {
    assert_eq!(
        device_fingerprint(Platform::LinuxLike, Some("abc".to_string())),
        "abc"
    );
    assert_eq!(device_fingerprint(Platform::LinuxLike, None), "unknown-device");
    assert_eq!(
        device_fingerprint(Platform::MacosLike, Some("uuid".to_string())),
        "uuid"
    );
    assert_eq!(device_fingerprint(Platform::MacosLike, None), "unknown-device");
}
