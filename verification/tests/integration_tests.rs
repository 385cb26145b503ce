use scrcpy_launcher::scrcpy;

#[test]
fn test_adb_status_structure() {
    let status = scrcpy::AdbStatus {
        connected: false,
        message: "Test".to_string(),
    };
    assert_eq!(status.connected, false);
    assert_eq!(status.message, "Test");
}
