use rust_p2p_chat::config::Config;
use std::path::PathBuf;

#[test]
fn config_tests_test_config_default_values() {
    let config = Config::default();

    assert_eq!(config.default_port, 8080);
    assert_eq!(config.buffer_size, 8192);
    assert_eq!(config.heartbeat_interval_secs, 30);
    assert_eq!(config.reconnect_attempts, 3);
    assert_eq!(config.reconnect_delay_secs, 5);
    assert_eq!(config.enable_encryption, true);
    assert_eq!(config.log_level, "info");
    assert_eq!(config.save_history, true);
    assert_eq!(config.max_file_size_mb, 100);
    assert_eq!(config.auto_open_media, true);
    assert!(config.nickname.is_none());
    assert!(config.history_file.is_none());
    assert!(config.download_dir.is_none());

    // Check default media extensions
    let expected_extensions = vec![
        "jpg", "jpeg", "png", "gif", "bmp", "webp", "svg", "mp4", "avi", "mov", "wmv", "mp3",
        "wav", "flac", "aac", "pdf", "doc", "docx", "txt",
    ];
    assert_eq!(config.media_extensions.len(), expected_extensions.len());
    for ext in expected_extensions {
        assert!(config.media_extensions.contains(&ext.to_string()));
    }
}

#[test]
fn test_config_with_custom_values() {
    let config = Config {
        nickname: Some("TestUser".to_string()),
        default_port: 9090,
        buffer_size: 4096,
        heartbeat_interval_secs: 60,
        reconnect_attempts: 5,
        reconnect_delay_secs: 10,
        enable_encryption: false,
        log_level: "debug".to_string(),
        save_history: false,
        history_file: Some(PathBuf::from("/tmp/test_history.json")),
        max_file_size_mb: 50,
        download_dir: Some(PathBuf::from("/tmp/downloads")),
        auto_open_media: false,
        media_extensions: vec!["txt".to_string(), "pdf".to_string()],
    };

    assert_eq!(config.nickname, Some("TestUser".to_string()));
    assert_eq!(config.default_port, 9090);
    assert_eq!(config.buffer_size, 4096);
    assert_eq!(config.heartbeat_interval_secs, 60);
    assert_eq!(config.reconnect_attempts, 5);
    assert_eq!(config.reconnect_delay_secs, 10);
    assert_eq!(config.enable_encryption, false);
    assert_eq!(config.log_level, "debug");
    assert_eq!(config.save_history, false);
    assert_eq!(config.max_file_size_mb, 50);
    assert_eq!(config.auto_open_media, false);
    assert_eq!(config.media_extensions, vec!["txt", "pdf"]);
}

#[test]
fn test_config_download_path_default() {
    let config = Config::default();

    // Without a configured directory the user's download directory is used,
    // and the fallback where the platform knows none.
    let downloads = PathBuf::from("/home/user/Downloads");
    assert_eq!(
        config.download_path(Some(downloads.clone()), PathBuf::from(".")),
        downloads
    );
    assert_eq!(config.download_path(None, PathBuf::from(".")), PathBuf::from("."));
}

#[test]
fn test_config_download_path_custom() {
    let custom_download_dir = PathBuf::from("/tmp/custom_downloads");

    let config = Config {
        download_dir: Some(custom_download_dir.clone()),
        ..Default::default()
    };

    assert_eq!(
        config.download_path(Some(PathBuf::from("/home/user/Downloads")), PathBuf::from(".")),
        custom_download_dir
    );
    assert_eq!(config.download_path(None, PathBuf::from(".")), custom_download_dir);
}

#[test]
fn test_config_history_path_default() {
    let config = Config::default();
    let history_path = config.history_path(Some(PathBuf::from("/data/p2p-chat/chat_history.json")));

    // Should return Some path for default case
    assert!(history_path.is_some());

    let path = history_path.unwrap();
    assert!(path.to_string_lossy().contains("chat_history.json"));

    assert!(config.history_path(None).is_none());
}

#[test]
fn test_config_history_path_custom() {
    let custom_history = PathBuf::from("/tmp/custom_history.json");
    let config = Config {
        history_file: Some(custom_history.clone()),
        ..Default::default()
    };

    assert_eq!(
        config.history_path(Some(PathBuf::from("/data/p2p-chat/chat_history.json"))),
        Some(custom_history.clone())
    );
    assert_eq!(config.history_path(None), Some(custom_history));
}

#[test]
fn test_config_clone() {
    let config = Config {
        nickname: Some("CloneTest".to_string()),
        default_port: 8888,
        media_extensions: vec!["clone".to_string(), "test".to_string()],
        ..Default::default()
    };

    let cloned_config = config.clone();

    assert_eq!(config.nickname, cloned_config.nickname);
    assert_eq!(config.default_port, cloned_config.default_port);
    assert_eq!(config.media_extensions, cloned_config.media_extensions);

    // Ensure it's a deep clone
    assert_ne!(
        config.media_extensions.as_ptr(),
        cloned_config.media_extensions.as_ptr()
    );
}

#[test]
fn test_config_clone_keeps_every_field() {
    let config = Config {
        nickname: Some("Everything".to_string()),
        default_port: 1234,
        buffer_size: 77,
        heartbeat_interval_secs: 9,
        reconnect_attempts: 8,
        reconnect_delay_secs: 7,
        enable_encryption: false,
        log_level: "warn".to_string(),
        save_history: false,
        history_file: Some(PathBuf::from("/tmp/h.json")),
        max_file_size_mb: 6,
        download_dir: Some(PathBuf::from("/tmp/d")),
        auto_open_media: false,
        media_extensions: vec!["a".to_string()],
    };
    let copy = config.clone();
    assert_eq!(copy.nickname, config.nickname);
    assert_eq!(copy.default_port, 1234);
    assert_eq!(copy.buffer_size, 77);
    assert_eq!(copy.heartbeat_interval_secs, 9);
    assert_eq!(copy.reconnect_attempts, 8);
    assert_eq!(copy.reconnect_delay_secs, 7);
    assert_eq!(copy.enable_encryption, false);
    assert_eq!(copy.log_level, "warn");
    assert_eq!(copy.save_history, false);
    assert_eq!(copy.history_file, Some(PathBuf::from("/tmp/h.json")));
    assert_eq!(copy.max_file_size_mb, 6);
    assert_eq!(copy.download_dir, Some(PathBuf::from("/tmp/d")));
    assert_eq!(copy.auto_open_media, false);
    assert_eq!(copy.media_extensions, vec!["a"]);
}

#[test]
fn test_config_debug_format() {
    let config = Config {
        nickname: Some("DebugTest".to_string()),
        ..Default::default()
    };

    let debug_str = format!("{:?}", config);
    assert!(debug_str.contains("DebugTest"));
    assert!(debug_str.contains("default_port"));
}

#[test]
fn test_config_edge_cases() {
    // Test with extreme values
    let config = Config {
        default_port: 1,
        buffer_size: 1,
        heartbeat_interval_secs: 0,
        reconnect_attempts: 0,
        reconnect_delay_secs: 0,
        max_file_size_mb: 0,
        media_extensions: vec![],
        log_level: "".to_string(),
        nickname: Some("".to_string()),
        ..Default::default()
    };

    // Should handle edge cases gracefully
    assert_eq!(config.default_port, 1);
    assert_eq!(config.buffer_size, 1);
    assert_eq!(config.media_extensions.len(), 0);
    assert_eq!(config.log_level, "");
    assert_eq!(config.nickname, Some("".to_string()));
}
