use fetching_core::audio::RetryConfig;
use fetching_core::config::{validate_args, ArgsError, Config, InputSource};

#[test]
fn test_validate_args_correct_count() {
    let args = vec!["program".to_string(), "spotify:track:123".to_string()];
    let result = validate_args(&args);
    assert!(result.is_ok());
    let input_source = result.unwrap();
    match input_source {
        InputSource::SingleUri(uri) => assert_eq!(uri, "spotify:track:123"),
        _ => panic!("Expected SingleUri"),
    }
}

#[test]
fn test_validate_args_too_few() {
    let args = vec!["program".to_string()];
    let result = validate_args(&args);
    assert!(result.is_err());
}

#[test]
fn test_validate_args_unexpected_arg() {
    let args = vec![
        "program".to_string(),
        "spotify:track:123".to_string(),
        "extra".to_string(),
    ];
    let result = validate_args(&args);
    assert!(result.is_err());
}

#[test]
fn test_validate_args_with_file() {
    let args = vec!["program".to_string(), "--file".to_string(), "uris.txt".to_string()];
    let result = validate_args(&args);
    assert!(result.is_ok());
    let input_source = result.unwrap();
    match input_source {
        InputSource::File(path) => assert_eq!(path.as_str(), "uris.txt"),
        _ => panic!("Expected File"),
    }
}

#[test]
fn test_validate_args_file_without_path() {
    let args = vec!["program".to_string(), "--file".to_string()];
    let result = validate_args(&args);
    assert!(result.is_err());
}

#[test]
fn test_validate_args_both_file_and_uri() {
    let args = vec![
        "program".to_string(),
        "--file".to_string(),
        "uris.txt".to_string(),
        "spotify:track:123".to_string(),
    ];
    let result = validate_args(&args);
    assert!(result.is_err());
}

#[test]
fn validate_args_reports_each_error_kind() {
    let none = vec!["program".to_string()];
    assert!(matches!(validate_args(&none), Err(ArgsError::NoInput)));
    let missing = vec!["program".to_string(), "--file".to_string()];
    assert!(matches!(validate_args(&missing), Err(ArgsError::MissingFilePath)));
    let both = vec![
        "program".to_string(),
        "spotify:track:1".to_string(),
        "--file".to_string(),
        "x".to_string(),
    ];
    assert!(matches!(validate_args(&both), Err(ArgsError::FileAndUri)));
    let extra = vec!["program".to_string(), "a".to_string(), "b".to_string()];
    match validate_args(&extra) {
        Err(ArgsError::Unexpected { arg }) => assert_eq!(arg, "b"),
        other => panic!("unexpected result {:?}", other),
    }
}

#[test]
fn test_config_get_music_dir() {
    let config = Config::default();
    let music_dir = config.get_music_dir("/home/listener");
    assert!(music_dir.ends_with("Music"));
}

#[test]
fn config_defaults_and_override() {
    let mut config = Config::default();
    assert_eq!(config.get_music_dir("/home/listener"), "/home/listener/Music");
    assert_eq!(config.get_music_dir("/root/"), "/root/Music");
    assert_eq!(config.oauth_client_id, "65b708073fc0480ea92a077233ca87bd");
    assert_eq!(config.redirect_uri, "http://127.0.0.1:8898/login");
    assert_eq!(config.track_delay_ms, 200);
    assert_eq!(config.max_retries, 5);
    assert_eq!(config.retry_delay_ms, 1000);
    assert_eq!(config.network_timeout_secs, 30);
    config.music_dir = Some("/srv/music".to_string());
    assert_eq!(config.get_music_dir("/home/listener"), "/srv/music");
}

#[test]
fn retry_config_default_settings() {
    let cfg = RetryConfig::default();
    assert_eq!(cfg.max_attempts, 5);
    assert_eq!(cfg.base_delay_ms, 5_000);
    assert_eq!(cfg.max_delay_ms, 30_000);
}
