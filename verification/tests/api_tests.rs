use arcropolis_api::{
    c_path_bytes, has_nul_byte, is_api_version, loaded_file_size, parse_api_version,
    stream_path_of_file, stream_path_of_temp_file, ApiVersion, Event, TEMP_STREAM_PATH,
};

/// Reads a version string the way the attribute does: `None` where it would
/// reject the string.
fn version_of(text: &str) -> Option<ApiVersion> {
    if is_api_version(text) {
        Some(parse_api_version(text))
    } else {
        None
    }
}

fn version(major: u32, minor: u32) -> Option<ApiVersion> {
    Some(ApiVersion { major, minor })
}

#[test]
fn parses_the_versions_the_api_requires() {
    assert_eq!(version_of("1.1"), version(1, 1));
    assert_eq!(version_of("1.2"), version(1, 2));
    assert_eq!(version_of("1.5"), version(1, 5));
    assert_eq!(version_of("1.9"), version(1, 9));
    assert_eq!(version_of("12.340"), version(12, 340));
}

#[test]
fn extra_fields_are_ignored() {
    assert_eq!(version_of("1.8.3"), version(1, 8));
    assert_eq!(version_of("2.0."), version(2, 0));
}

#[test]
fn fields_read_like_u32_from_str() {
    assert_eq!(version_of("+1.+2"), version(1, 2));
    assert_eq!(version_of("007.010"), version(7, 10));
    assert_eq!(version_of("4294967295.0"), version(u32::MAX, 0));
    assert_eq!(version_of("4294967296.0"), None);
    assert_eq!(version_of("0.99999999999"), None);
    assert_eq!(version_of("-1.0"), None);
    assert_eq!(version_of("+.1"), None);
    assert_eq!(version_of("1 .2"), None);
    assert_eq!(version_of("a.1"), None);
}

#[test]
fn a_version_needs_two_fields() {
    assert_eq!(version_of("1"), None);
    assert_eq!(version_of(""), None);
    assert_eq!(version_of("1."), None);
    assert_eq!(version_of(".1"), None);
    assert_eq!(version_of("1..2"), None);
}

#[test]
fn rendered_versions_parse_back() {
    for (major, minor) in [(0u32, 0u32), (1, 12), (u32::MAX, u32::MAX), (10, 0)] {
        let text = format!("{}.{}", major, minor);
        assert_eq!(version_of(&text), version(major, minor));
    }
}

#[test]
fn file_stream_path_keeps_path_and_size() {
    assert_eq!(
        stream_path_of_file(String::from("sd:/a.bin"), Some(1234)),
        Some((String::from("sd:/a.bin"), 1234))
    );
    assert_eq!(stream_path_of_file(String::from("sd:/missing"), None), None);
}

#[test]
fn temp_stream_path() {
    assert_eq!(TEMP_STREAM_PATH, "sd:/temp.bin");
    assert_eq!(
        stream_path_of_temp_file(17, true),
        Some((String::from("sd:/temp.bin"), 17))
    );
    assert_eq!(stream_path_of_temp_file(17, false), None);
}

#[test]
fn loaded_file_size_only_on_success() {
    assert_eq!(loaded_file_size(true, 42), Some(42));
    assert_eq!(loaded_file_size(false, 42), None);
}

#[test]
fn events_are_distinct() {
    assert_ne!(Event::ArcFilesystemMounted, Event::ModFilesystemMounted);
    let e = Event::ModFilesystemMounted;
    let copy = e;
    assert_eq!(e, copy);
}

#[test]
fn accepted_versions_read_directly() {
    assert!(is_api_version("1.8"));
    assert_eq!(parse_api_version("1.8"), ApiVersion { major: 1, minor: 8 });
    assert!(!is_api_version("1"));
    assert!(!is_api_version("x.y"));
}

#[test]
fn c_path_bytes_appends_one_nul() {
    assert_eq!(c_path_bytes("sd:/a.bin"), b"sd:/a.bin\0".to_vec());
    assert_eq!(c_path_bytes(""), vec![0u8]);
    assert_eq!(c_path_bytes("\u{e9}"), vec![0xc3, 0xa9, 0]);
}

#[test]
fn nul_bytes_are_found() {
    assert!(!has_nul_byte("sd:/temp.bin"));
    assert!(has_nul_byte("sd:/\0temp"));
    assert!(has_nul_byte("\0"));
    assert!(!has_nul_byte(""));
}
