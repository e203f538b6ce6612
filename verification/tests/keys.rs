use oneiros_engine::keys::{key_from_file, HostKey, HostKeyError, IoKind, HOST_KEY_FILE};

#[test]
fn host_key_lives_in_the_data_directory() {
    assert_eq!(HOST_KEY_FILE, "host.key");
    assert_eq!(HostKey::new("/var/lib/oneiros".into()).path(), "/var/lib/oneiros/host.key");
    assert_eq!(HostKey::new("/var/lib/oneiros/".into()).path(), "/var/lib/oneiros/host.key");
    assert_eq!(HostKey::new(String::new()).path(), "host.key");
}

#[test]
fn key_file_must_hold_exactly_one_key() {
    assert!(matches!(key_from_file(None), Ok(None)));
    let key = vec![7u8; 32];
    match key_from_file(Some(key.clone())) {
        Ok(Some(bytes)) => assert_eq!(bytes, key),
        other => panic!("expected the key, got {other:?}"),
    }
    match key_from_file(Some(vec![1, 2, 3])) {
        Err(e) => assert_eq!(
            e.message(),
            "host key file has wrong length: expected 32 bytes, got 3"
        ),
        other => panic!("expected an error, got {other:?}"),
    }
    assert!(matches!(
        key_from_file(Some(vec![0u8; 33])),
        Err(HostKeyError::Io {
            kind: IoKind::InvalidData,
            ..
        })
    ));
}

#[test]
fn io_failures_keep_their_description() {
    let error = HostKeyError::Io {
        kind: IoKind::Other,
        message: "permission denied".into(),
    };
    assert_eq!(error.message(), "permission denied");
}
