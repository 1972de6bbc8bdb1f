use findbt::backend::{host_from_controller, host_from_windows_adapter};
use findbt::profiler::{find_object, host_info_from_profiler, host_info_from_profiler_output, JsonValue};

fn text(s: &str) -> JsonValue {
    JsonValue::Text(s.to_string())
}

fn object(members: Vec<(&str, JsonValue)>) -> JsonValue {
    JsonValue::Object(members.into_iter().map(|(k, v)| (k.to_string(), v)).collect())
}

#[test]
fn controller_properties_are_read_from_the_standard_path() {
    let report = object(vec![(
        "SPBluetoothDataType",
        JsonValue::Array(vec![object(vec![(
            "controller_properties",
            object(vec![
                ("controller_address", text("aa:bb:cc:dd:ee:ff")),
                ("controller_name", text("Lab Mac")),
            ]),
        )])]),
    )]);
    let host = host_info_from_profiler(&report).unwrap();
    assert_eq!(host.name, "Lab Mac");
    assert_eq!(host.address, "AABBCCDDEEFF");
    assert_eq!(host.computer_name, "");
}

#[test]
fn controller_falls_back_to_the_first_object_with_an_address() {
    let report = object(vec![
        ("other", JsonValue::Number("3".to_string())),
        (
            "nested",
            JsonValue::Array(vec![
                JsonValue::Null,
                object(vec![("name", JsonValue::Bool(true)), ("_name", text("Radio")), ("controller_address", text("x"))]),
            ]),
        ),
    ]);
    let host = host_info_from_profiler(&report).unwrap();
    assert_eq!(host.name, "Radio");
    assert_eq!(host.address, "");
    let found = find_object(&report, "controller_address");
    assert!(matches!(found, Some(JsonValue::Object(members)) if members.len() == 3));
}

#[test]
fn report_without_controller_gives_nothing() {
    let report = object(vec![("SPBluetoothDataType", JsonValue::Array(vec![]))]);
    assert!(host_info_from_profiler(&report).is_none());
    let report = JsonValue::Array(vec![object(vec![("controller_address", JsonValue::Null)])]);
    let host = host_info_from_profiler(&report).unwrap();
    assert_eq!(host.name, "macOS Bluetooth Adapter");
    assert_eq!(host.address, "");
}

#[test]
fn platform_adapters() {
    let mac = host_from_controller(Some("  ".to_string()), Some("11-22-33-44-55-66".to_string()));
    assert_eq!(mac.name, "macOS Bluetooth Adapter");
    assert_eq!(mac.address, "112233445566");
    let mac = host_from_controller(Some("Studio".to_string()), None);
    assert_eq!((mac.name.as_str(), mac.address.as_str()), ("Studio", ""));
    let win = host_from_windows_adapter(None, Some(0x0A0B_0C0D_0E0F));
    assert_eq!(win.name, "Windows Bluetooth Adapter");
    assert_eq!(win.address, "0A:0B:0C:0D:0E:0F");
    let win = host_from_windows_adapter(Some("BTHENUM\\dev".to_string()), None);
    assert_eq!((win.name.as_str(), win.address.as_str()), ("BTHENUM\\dev", ""));
}

#[test]
fn profiler_output_bytes_give_the_controller() {
    let stdout = br#"{"SPBluetoothDataType":[{"controller_properties":{"controller_address":"aa-bb-cc-dd-ee-ff","controller_name":"Built-in"}}]}"#;
    let host = host_info_from_profiler_output(stdout).unwrap();
    assert_eq!(host.name, "Built-in");
    assert_eq!(host.address, "AABBCCDDEEFF");
    assert_eq!(host.computer_name, "");
}

#[test]
fn profiler_output_finds_a_nested_controller_address() {
    let stdout = br#"{"other":{"list":[1,2.5,null,true,{"controller_address":"01:02:03:04:05:06"}]}}"#;
    let host = host_info_from_profiler_output(stdout).unwrap();
    assert_eq!(host.name, "macOS Bluetooth Adapter");
    assert_eq!(host.address, "010203040506");
}

#[test]
fn profiler_output_that_is_not_json_gives_nothing() {
    assert!(host_info_from_profiler_output(b"system_profiler: error").is_none());
    assert!(host_info_from_profiler_output(b"").is_none());
    assert!(host_info_from_profiler_output(br#"{"SPBluetoothDataType":[]}"#).is_none());
}
