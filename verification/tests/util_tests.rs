use apkdl::util::{as_str, ARCHES, TEMP_PREFIX, VENV_PYTHON};

#[test]
fn test_arches() {
    assert!(ARCHES.contains(&"arm64_v8a"));
    assert!(ARCHES.contains(&"x86_64"));
}

#[test]
fn as_str_decodes_utf8() {
    assert_eq!(as_str("héllo".as_bytes()), "héllo");
    assert_eq!(as_str(b"plain"), "plain");
}

#[test]
fn as_str_is_empty_on_invalid_utf8() {
    assert_eq!(as_str(&[0x66, 0xff, 0x6f]), "");
    assert_eq!(as_str(&[]), "");
}

#[test]
fn constants_hold_their_paths() {
    assert_eq!(VENV_PYTHON, "/tmp/apkdl_venv/bin/python3");
    assert_eq!(TEMP_PREFIX, "apkdl_");
    assert_eq!(ARCHES, ["arm64_v8a", "armeabi_v7a", "x86_64", "x86"]);
}
