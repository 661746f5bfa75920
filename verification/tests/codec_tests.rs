use mock_ota::codec::ota_command_payload;

#[test]
fn payload_is_exact_json() {
    let payload = ota_command_payload(
        "11111111-2222-3333-4444-555555555555",
        "http://mock-ota:8090/ota/artifacts/fw.bin",
        "v2",
    );
    assert_eq!(
        payload,
        "{\"job_id\":\"11111111-2222-3333-4444-555555555555\",\
         \"artifact_url\":\"http://mock-ota:8090/ota/artifacts/fw.bin\",\
         \"version\":\"v2\"}"
    );
}

#[test]
fn payload_escapes_quotes_and_backslashes() {
    let payload = ota_command_payload("a\"b", "c\\d", "v");
    assert_eq!(
        payload,
        "{\"job_id\":\"a\\\"b\",\"artifact_url\":\"c\\\\d\",\"version\":\"v\"}"
    );
}

#[test]
fn payload_escapes_control_characters() {
    let payload = ota_command_payload("a\nb", "u", "\u{1}");
    assert_eq!(
        payload,
        "{\"job_id\":\"a\\u000ab\",\"artifact_url\":\"u\",\"version\":\"\\u0001\"}"
    );
}

#[test]
fn payload_parses_back_as_json() {
    // The encoder's output must be valid JSON for any field values:
    // the real decoder on the device side is the judge.
    let payload = ota_command_payload("id \"quoted\"", "http://h/a b\\c", "v\t1");
    let v: serde_json::Value = serde_json::from_str(&payload).unwrap();
    assert_eq!(v["job_id"], "id \"quoted\"");
    assert_eq!(v["artifact_url"], "http://h/a b\\c");
    assert_eq!(v["version"], "v\t1");
}
