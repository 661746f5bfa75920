use mock_ota::topic::{
    artifact_url, device_topic, ensure_trailing_slash, ota_command_topic, parse_status_topic,
};

#[test]
fn trailing_slash_is_added_once() {
    assert_eq!(ensure_trailing_slash("gaia/devices".to_string()), "gaia/devices/");
    assert_eq!(ensure_trailing_slash("gaia/devices/".to_string()), "gaia/devices/");
    assert_eq!(ensure_trailing_slash(String::new()), "/");
}

#[test]
fn command_topic_shape() {
    assert_eq!(
        ota_command_topic("gaia/devices/", "device-1"),
        "gaia/devices/device-1/ota"
    );
}

#[test]
fn telemetry_topic_shape() {
    assert_eq!(
        device_topic("argus/devices/", "device-1"),
        "argus/devices/device-1"
    );
}

#[test]
fn artifact_url_shape() {
    assert_eq!(
        artifact_url("http://mock-ota:8090", "fw.bin"),
        "http://mock-ota:8090/ota/artifacts/fw.bin"
    );
    // Trailing slashes on the base are dropped before the route.
    assert_eq!(
        artifact_url("http://mock-ota:8090///", "fw.bin"),
        "http://mock-ota:8090/ota/artifacts/fw.bin"
    );
}

#[test]
fn status_topic_parses_exact_shape() {
    assert_eq!(
        parse_status_topic("gaia/devices/", "gaia/devices/device-1/ota/status"),
        Some("device-1")
    );
}

#[test]
fn status_topic_refuses_other_shapes() {
    let prefix = "gaia/devices/";
    assert_eq!(parse_status_topic(prefix, "gaia/devices/device-1/ota"), None);
    assert_eq!(
        parse_status_topic(prefix, "gaia/devices/device-1/ota/status/"),
        None
    );
    assert_eq!(
        parse_status_topic(prefix, "gaia/devices/device-1/ota/status/x"),
        None
    );
    assert_eq!(parse_status_topic(prefix, "gaia/devices//ota/status"), None);
    assert_eq!(parse_status_topic(prefix, "gaia/devices/"), None);
    assert_eq!(parse_status_topic(prefix, ""), None);
    assert_eq!(
        parse_status_topic(prefix, "other/devices/device-1/ota/status"),
        None
    );
    // The device segment must be a single path segment; a longer
    // remainder does not match.
    assert_eq!(
        parse_status_topic(prefix, "gaia/devices/a/b/ota/status"),
        None
    );
}
