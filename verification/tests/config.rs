use http_server::Settings;

#[test]
fn test_load_settings() {
    let settings: Settings = Settings::resolve(None, None, None);

    assert_eq!(settings.buffer_size, 1024);
    assert_eq!(settings.hostname, "127.0.0.1");
    assert_eq!(settings.port, "4221");
}

#[test]
fn test_load_settings_from_env() {
    let settings: Settings = Settings::resolve(
        Some("dummy_host".to_string()),
        Some("1".to_string()),
        Some("512".to_string()),
    );

    assert_eq!(settings.buffer_size, 512);
    assert_eq!(settings.hostname, "dummy_host");
    assert_eq!(settings.port, "1");
}

#[test]
fn unparsable_buffer_size_falls_back() {
    let settings = Settings::resolve(None, None, Some("not-a-number".to_string()));
    assert_eq!(settings.buffer_size, 1024);
}

#[test]
fn zero_buffer_size_falls_back() {
    let settings = Settings::resolve(None, None, Some("0".to_string()));
    assert_eq!(settings.buffer_size, 1024);
}

#[test]
fn buffer_size_with_plus_sign_parses() {
    let settings = Settings::resolve(None, None, Some("+2048".to_string()));
    assert_eq!(settings.buffer_size, 2048);
}
