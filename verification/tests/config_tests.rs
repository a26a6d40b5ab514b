use library_bot::config::{Config, ConfigError, ConnectionMode, EnvValues};

fn base() -> EnvValues {
    EnvValues {
        bot_token: Some("123:abc".to_string()),
        bot_database_url: None,
        connection_mode: None,
        webhook_url: None,
        webhook_path: None,
        port: None,
        storage_channel_id: Some("-1001234".to_string()),
        admin_id: Some("42".to_string()),
        admin_username: None,
        library_name: None,
        max_file_size_mb: None,
        page_size: None,
    }
}

#[test]
fn defaults_are_filled_in() {
    let c = Config::from_env_values(base()).unwrap();
    assert_eq!(c.bot_token, "123:abc");
    assert_eq!(c.bot_database_url, "sqlite://library.db");
    assert_eq!(c.connection_mode, ConnectionMode::Polling);
    assert_eq!(c.webhook_url, None);
    assert_eq!(c.webhook_path, "/webhook");
    assert_eq!(c.port, 8080);
    assert_eq!(c.storage_channel_id, -1001234);
    assert_eq!(c.admin_id, 42);
    assert_eq!(c.admin_username, "admin");
    assert_eq!(c.library_name, "SBERE_books");
    assert_eq!(c.max_file_size_mb, 50);
    assert_eq!(c.page_size, 10);
}

#[test]
fn each_error_in_order() {
    let mut v = base();
    v.bot_token = None;
    v.port = Some("x".to_string());
    assert_eq!(Config::from_env_values(v).unwrap_err(), ConfigError::MissingBotToken);

    let mut v = base();
    v.port = Some("70000".to_string());
    assert_eq!(Config::from_env_values(v).unwrap_err(), ConfigError::InvalidPort);

    let mut v = base();
    v.storage_channel_id = None;
    assert_eq!(Config::from_env_values(v).unwrap_err(), ConfigError::MissingStorageChannelId);

    let mut v = base();
    v.storage_channel_id = Some("abc".to_string());
    assert_eq!(Config::from_env_values(v).unwrap_err(), ConfigError::InvalidStorageChannelId);

    let mut v = base();
    v.admin_id = None;
    assert_eq!(Config::from_env_values(v).unwrap_err(), ConfigError::MissingAdminId);

    let mut v = base();
    v.admin_id = Some("4 2".to_string());
    assert_eq!(Config::from_env_values(v).unwrap_err(), ConfigError::InvalidAdminId);

    let mut v = base();
    v.max_file_size_mb = Some("-5".to_string());
    assert_eq!(Config::from_env_values(v).unwrap_err(), ConfigError::InvalidMaxFileSize);

    let mut v = base();
    v.page_size = Some("ten".to_string());
    assert_eq!(Config::from_env_values(v).unwrap_err(), ConfigError::InvalidPageSize);

    let mut v = base();
    v.connection_mode = Some("  WebHook ".to_string());
    assert_eq!(Config::from_env_values(v).unwrap_err(), ConfigError::WebhookUrlRequired);
}

#[test]
fn error_messages() {
    assert_eq!(ConfigError::MissingBotToken.message(), "BOT_TOKEN غير موجود في .env");
    assert_eq!(ConfigError::InvalidPort.message(), "PORT يجب أن يكون رقماً صحيحاً");
    assert_eq!(
        ConfigError::WebhookUrlRequired.message(),
        "CONNECTION_MODE=webhook يتطلب تعيين WEBHOOK_URL في .env"
    );
}

#[test]
fn connection_mode_parsing() {
    assert_eq!(ConnectionMode::from_str("webhook"), ConnectionMode::Webhook);
    assert_eq!(ConnectionMode::from_str(" WEBHOOK\n"), ConnectionMode::Webhook);
    assert_eq!(ConnectionMode::from_str("polling"), ConnectionMode::Polling);
    assert_eq!(ConnectionMode::from_str("web hook"), ConnectionMode::Polling);
    assert_eq!(ConnectionMode::from_str(""), ConnectionMode::Polling);
    assert_eq!(ConnectionMode::from_normalized("webhook"), ConnectionMode::Webhook);
}

#[test]
fn webhook_mode_always_has_full_url() {
    let mut v = base();
    v.connection_mode = Some("webhook".to_string());
    v.webhook_url = Some("https://example.com//".to_string());
    v.webhook_path = Some("/hook".to_string());
    let c = Config::from_env_values(v).unwrap();
    assert_eq!(c.connection_mode, ConnectionMode::Webhook);
    assert_eq!(c.webhook_full_url().as_deref(), Some("https://example.com/hook"));
}

#[test]
fn full_url_absent_without_base() {
    let c = Config::from_env_values(base()).unwrap();
    assert_eq!(c.webhook_full_url(), None);
}

#[test]
fn max_file_size_in_bytes() {
    let c = Config::from_env_values(base()).unwrap();
    assert!(c.max_file_size_fits());
    assert_eq!(c.max_file_size_bytes(), 52_428_800);
    let mut big = c.clone();
    big.max_file_size_mb = 17_592_186_044_416;
    assert!(!big.max_file_size_fits());
    big.max_file_size_mb = 17_592_186_044_415;
    assert!(big.max_file_size_fits());
    assert_eq!(big.max_file_size_bytes(), 17_592_186_044_415 * 1_048_576);
}
