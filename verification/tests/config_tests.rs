use chat_backend::config::{Config, ConfigError, EnvVars, Environment};

fn vars() -> EnvVars {
    EnvVars {
        app_env: None,
        environment: None,
        database_url: Some("postgres://localhost/chat".to_string()),
        jwt_secret: Some("secret".to_string()),
        port: None,
        host: None,
        jwt_expiration_hours: None,
        max_ws_connections: None,
        cors_origins: None,
        enable_logging: None,
    }
}

#[test]
fn environment_from_str_knows_every_name() {
    assert_eq!(Environment::from_str("local"), Environment::Local);
    assert_eq!(Environment::from_str("dev"), Environment::Development);
    assert_eq!(Environment::from_str("development"), Environment::Development);
    assert_eq!(Environment::from_str("staging"), Environment::Staging);
    assert_eq!(Environment::from_str("stage"), Environment::Staging);
    assert_eq!(Environment::from_str("prod"), Environment::Production);
    assert_eq!(Environment::from_str("production"), Environment::Production);
}

#[test]
fn environment_from_str_ignores_case() {
    assert_eq!(Environment::from_str("PROD"), Environment::Production);
    assert_eq!(Environment::from_str("Staging"), Environment::Staging);
    assert_eq!(Environment::from_str("DeV"), Environment::Development);
}

#[test]
fn environment_from_str_defaults_to_local() {
    assert_eq!(Environment::from_str("qa"), Environment::Local);
    assert_eq!(Environment::from_str(""), Environment::Local);
    assert_eq!(Environment::from_str(" prod"), Environment::Local);
}

#[test]
fn environment_from_lowercase_is_case_sensitive() {
    assert_eq!(Environment::from_lowercase("prod"), Environment::Production);
    assert_eq!(Environment::from_lowercase("PROD"), Environment::Local);
}

#[test]
fn environment_predicates() {
    assert!(Environment::Production.is_production());
    assert!(!Environment::Staging.is_production());
    assert!(Environment::Local.is_development());
    assert!(Environment::Development.is_development());
    assert!(!Environment::Staging.is_development());
    assert!(!Environment::Production.is_development());
    assert!(Environment::Local.cors_permissive());
    assert!(Environment::Staging.cors_permissive());
    assert!(!Environment::Production.cors_permissive());
}

#[test]
fn environment_log_levels_and_names() {
    assert_eq!(Environment::Local.default_log_level(), "debug");
    assert_eq!(Environment::Development.default_log_level(), "debug");
    assert_eq!(Environment::Staging.default_log_level(), "info");
    assert_eq!(Environment::Production.default_log_level(), "info");
    assert_eq!(Environment::Local.to_string(), "local");
    assert_eq!(Environment::Development.to_string(), "development");
    assert_eq!(Environment::Staging.to_string(), "staging");
    assert_eq!(Environment::Production.to_string(), "production");
}

#[test]
fn environment_default_ports() {
    assert_eq!(Environment::Local.default_port(), 3000);
    assert_eq!(Environment::Development.default_port(), 3001);
    assert_eq!(Environment::Staging.default_port(), 3002);
    assert_eq!(Environment::Production.default_port(), 8080);
}

#[test]
fn config_defaults() {
    let config = Config::from_env(vars()).unwrap();
    assert_eq!(config.environment, Environment::Local);
    assert_eq!(config.database_url, "postgres://localhost/chat");
    assert_eq!(config.jwt_secret, "secret");
    assert_eq!(config.port, 3000);
    assert_eq!(config.host, "0.0.0.0");
    assert_eq!(config.jwt_expiration_hours, 24);
    assert_eq!(config.max_ws_connections, 100);
    assert!(config.cors_origins.is_empty());
    assert!(config.enable_logging);
    assert_eq!(config.server_address(), "0.0.0.0:3000");
    assert!(config.allow_all_cors());
}

#[test]
fn config_reads_every_variable() {
    let mut v = vars();
    v.app_env = Some("Staging".to_string());
    v.environment = Some("prod".to_string());
    v.port = Some("9000".to_string());
    v.host = Some("127.0.0.1".to_string());
    v.jwt_expiration_hours = Some("-3".to_string());
    v.max_ws_connections = Some("+7".to_string());
    v.cors_origins = Some("https://a.example , https://b.example,".to_string());
    v.enable_logging = Some("false".to_string());
    let config = Config::from_env(v).unwrap();
    assert_eq!(config.environment, Environment::Staging);
    assert_eq!(config.port, 9000);
    assert_eq!(config.host, "127.0.0.1");
    assert_eq!(config.jwt_expiration_hours, -3);
    assert_eq!(config.max_ws_connections, 7);
    assert_eq!(
        config.cors_origins,
        vec!["https://a.example".to_string(), "https://b.example".to_string(), String::new()]
    );
    assert!(!config.enable_logging);
    assert_eq!(config.server_address(), "127.0.0.1:9000");
    assert!(!config.allow_all_cors());
}

#[test]
fn config_second_environment_variable_is_the_fallback() {
    let mut v = vars();
    v.environment = Some("dev".to_string());
    let config = Config::from_env(v).unwrap();
    assert_eq!(config.environment, Environment::Development);
    assert_eq!(config.port, 3001);
}

#[test]
fn config_unreadable_values_fall_back() {
    let mut v = vars();
    v.app_env = Some("production".to_string());
    v.jwt_secret = Some("0123456789abcdef0123456789abcdef".to_string());
    v.port = Some("65536".to_string());
    v.jwt_expiration_hours = Some("a day".to_string());
    v.max_ws_connections = Some("-1".to_string());
    v.enable_logging = Some("yes".to_string());
    let config = Config::from_env(v).unwrap();
    assert_eq!(config.environment, Environment::Production);
    assert_eq!(config.port, 8080);
    assert_eq!(config.jwt_expiration_hours, 24);
    assert_eq!(config.max_ws_connections, 100);
    assert!(config.enable_logging);
    assert!(!config.allow_all_cors());
}

#[test]
fn config_requires_database_url_and_secret() {
    let mut v = vars();
    v.database_url = None;
    v.jwt_secret = None;
    assert_eq!(Config::from_env(v).unwrap_err(), ConfigError::MissingDatabaseUrl);
    let mut v = vars();
    v.jwt_secret = None;
    assert_eq!(Config::from_env(v).unwrap_err(), ConfigError::MissingJwtSecret);
}

#[test]
fn config_production_wants_a_long_secret() {
    let mut v = vars();
    v.app_env = Some("prod".to_string());
    v.jwt_secret = Some("0123456789abcdef0123456789abcde".to_string());
    assert_eq!(Config::from_env(v).unwrap_err(), ConfigError::WeakJwtSecret);
    let mut v = vars();
    v.app_env = Some("prod".to_string());
    v.jwt_secret = Some("0123456789abcdef0123456789abcdef".to_string());
    assert!(Config::from_env(v).is_ok());
    let mut v = vars();
    v.app_env = Some("staging".to_string());
    v.jwt_secret = Some("short".to_string());
    assert!(Config::from_env(v).is_ok());
}

#[test]
fn config_cors_with_origins_is_not_allow_all() {
    let mut v = vars();
    v.cors_origins = Some("https://a.example".to_string());
    let config = Config::from_env(v).unwrap();
    assert_eq!(config.cors_origins, vec!["https://a.example".to_string()]);
    assert!(!config.allow_all_cors());
}

const NUMBERS: [&str; 36] = [
    "", "+", "-", "0", "-0", "+0", "007", "+7", "-7", "65535", "65536", "+65535", "-65535",
    "2147483647", "2147483648", "-2147483648", "-2147483649", "9223372036854775807",
    "9223372036854775808", "-9223372036854775808", "-9223372036854775809",
    "18446744073709551615", "18446744073709551616", "00000000000000000000000000000000000012",
    "99999999999999999999999999999999999999999", "1 ", " 1", "1_000", "１２", "1e3", "0x10",
    "--1", "+-1", "٣", "12a", "a12",
];

#[test]
fn numbers_are_read_as_std_reads_them() {
    for text in NUMBERS {
        let mut v = vars();
        v.port = Some(text.to_string());
        v.jwt_expiration_hours = Some(text.to_string());
        v.max_ws_connections = Some(text.to_string());
        let config = Config::from_env(v).unwrap();
        assert_eq!(config.port, text.parse::<u16>().unwrap_or(3000), "port {:?}", text);
        assert_eq!(
            config.jwt_expiration_hours,
            text.parse::<i64>().unwrap_or(24),
            "hours {:?}",
            text
        );
        assert_eq!(
            config.max_ws_connections,
            text.parse::<usize>().unwrap_or(100),
            "connections {:?}",
            text
        );
    }
}

#[test]
fn flags_are_read_as_std_reads_them() {
    for text in ["true", "false", "", "True", "FALSE", "1", "0", " true", "true ", "yes"] {
        let mut v = vars();
        v.enable_logging = Some(text.to_string());
        let config = Config::from_env(v).unwrap();
        assert_eq!(config.enable_logging, text.parse::<bool>().unwrap_or(true), "{:?}", text);
    }
}
