use proxy_pool::common::utils::{
    level_from_upper, parse_level, validate_table_name, LogLevel,
};
use proxy_pool::db::{check_db_config, ConfigError, DbDriver};
use proxy_pool::model::{AppConfig, DbConfig, LoggingConfig, VerifyConfig};
use proxy_pool::service::quality::{QualityConfig, VerifyLevel};

fn sample_config() -> AppConfig {
    AppConfig {
        verify: VerifyConfig {
            semaphore: 50,
            timeout: 5,
            test_urls: vec!["https://example.com".to_string(), "https://example.org".to_string()],
            verify_level: 1,
        },
        db: DbConfig {
            driver: "sqlite".to_string(),
            connection_string: "sqlite://proxy.db".to_string(),
            table_name: "proxy".to_string(),
            max_connections: 5,
        },
        log: LoggingConfig { console_levels: vec!["info".to_string(), "warn".to_string()] },
    }
}

#[test]
fn model_test_config() {
    let config = sample_config();
    println!("{:#?}", config.verify.semaphore);
}

#[test]
fn app_config_test_config() {
    let config = sample_config();
    println!("{:#?}", config.verify.semaphore);
    assert_eq!(config.verify.semaphore, 50);
    assert_eq!(config.db.max_connections, 5);
    assert_eq!(config.log.console_levels.len(), 2);
}

#[test]
fn table_names_start_with_a_letter() {
    assert!(validate_table_name("proxy"));
    assert!(validate_table_name("Proxy_2"));
    assert!(validate_table_name("p"));
    assert!(!validate_table_name(""));
    assert!(!validate_table_name("2proxy"));
    assert!(!validate_table_name("_proxy"));
}

#[test]
fn table_names_hold_only_letters_digits_and_underscores() {
    assert!(validate_table_name("a_b_c_1_2_3"));
    assert!(!validate_table_name("proxy; DROP TABLE x"));
    assert!(!validate_table_name("proxy-table"));
    assert!(!validate_table_name("proxy table"));
    assert!(!validate_table_name("prox\u{e9}"));
    assert!(!validate_table_name("\u{e9}proxy"));
}

#[test]
fn levels_are_read_whatever_the_case() {
    assert_eq!(parse_level("error"), Some(LogLevel::Error));
    assert_eq!(parse_level("Warn"), Some(LogLevel::Warn));
    assert_eq!(parse_level("warning"), Some(LogLevel::Warn));
    assert_eq!(parse_level("INFO"), Some(LogLevel::Info));
    assert_eq!(parse_level("info"), Some(LogLevel::Info));
    assert_eq!(parse_level("dEbUg"), Some(LogLevel::Debug));
    assert_eq!(parse_level("trace"), Some(LogLevel::Trace));
}

#[test]
fn unknown_levels_are_none() {
    assert_eq!(parse_level(""), None);
    assert_eq!(parse_level("verbose"), None);
    assert_eq!(parse_level(" info"), None);
    assert_eq!(parse_level("warnings"), None);
}

#[test]
fn upper_case_names_are_matched_exactly() {
    assert_eq!(level_from_upper("ERROR"), Some(LogLevel::Error));
    assert_eq!(level_from_upper("WARN"), Some(LogLevel::Warn));
    assert_eq!(level_from_upper("WARNING"), Some(LogLevel::Warn));
    assert_eq!(level_from_upper("INFO"), Some(LogLevel::Info));
    assert_eq!(level_from_upper("DEBUG"), Some(LogLevel::Debug));
    assert_eq!(level_from_upper("TRACE"), Some(LogLevel::Trace));
    assert_eq!(level_from_upper("info"), None);
    assert_eq!(level_from_upper("Error"), None);
}

#[test]
fn drivers_are_selected_by_name() {
    assert!(matches!(DbDriver::parse("sqlite"), Ok(DbDriver::Sqlite)));
    assert!(matches!(DbDriver::parse("mysql"), Ok(DbDriver::MySql)));
    assert!(matches!(DbDriver::parse("postgres"), Ok(DbDriver::Postgres)));
}

#[test]
fn unsupported_driver_is_an_error_with_its_name() {
    match DbDriver::parse("oracle") {
        Err(ConfigError::UnsupportedDriver(name)) => assert_eq!(name, "oracle"),
        other => panic!("unexpected: {:?}", other),
    }
    match DbDriver::parse("SQLite") {
        Err(e) => assert_eq!(e.message(), "Unsupported DB type: SQLite"),
        other => panic!("unexpected: {:?}", other),
    }
}

#[test]
fn db_config_is_checked_driver_first() {
    let mut config = sample_config();
    assert!(matches!(check_db_config(&config.db), Ok(DbDriver::Sqlite)));

    config.db.table_name = "1bad".to_string();
    match check_db_config(&config.db) {
        Err(ConfigError::InvalidTableName(name)) => assert_eq!(name, "1bad"),
        other => panic!("unexpected: {:?}", other),
    }
    match check_db_config(&config.db) {
        Err(e) => assert_eq!(e.message(), "Invalid table name: 1bad"),
        other => panic!("unexpected: {:?}", other),
    }

    config.db.driver = "mongo".to_string();
    match check_db_config(&config.db) {
        Err(ConfigError::UnsupportedDriver(name)) => assert_eq!(name, "mongo"),
        other => panic!("unexpected: {:?}", other),
    }
}

#[test]
fn level_codes_select_presets() {
    assert_eq!(VerifyLevel::from_code(0), VerifyLevel::Fast);
    assert_eq!(VerifyLevel::from_code(1), VerifyLevel::Standard);
    assert_eq!(VerifyLevel::from_code(2), VerifyLevel::Detailed);
    assert_eq!(VerifyLevel::from_code(3), VerifyLevel::Standard);
    assert_eq!(VerifyLevel::from_code(u32::MAX), VerifyLevel::Standard);

    assert_eq!(VerifyLevel::Fast.preset(7), (1, 0, 3));
    assert_eq!(VerifyLevel::Standard.preset(7), (3, 3, 7));
    assert_eq!(VerifyLevel::Detailed.preset(7), (5, 5, 14));
}

#[test]
fn quality_config_takes_default_weights_and_the_preset() {
    let config = sample_config();
    let quality = QualityConfig::from_config(&config.verify);
    assert_eq!(quality.speed_weight, 400_000);
    assert_eq!(quality.success_weight, 300_000);
    assert_eq!(quality.stability_weight, 300_000);
    assert_eq!(quality.test_count, 3);
    assert_eq!(quality.max_retries, 3);
    assert_eq!(quality.timeout, 5);
    assert_eq!(quality.test_urls, config.verify.test_urls);
    assert_eq!(quality.verify_level, VerifyLevel::Standard);
    assert_eq!(quality.planned_total(), 6);

    let copy = quality.clone();
    assert_eq!(copy.test_urls, quality.test_urls);
    assert_eq!(copy.test_count, 3);
}

#[test]
fn detailed_level_doubles_the_timeout() {
    let mut config = sample_config();
    config.verify.verify_level = 2;
    let quality = QualityConfig::from_config(&config.verify);
    assert_eq!(quality.test_count, 5);
    assert_eq!(quality.max_retries, 5);
    assert_eq!(quality.timeout, 10);
    assert_eq!(quality.planned_total(), 10);

    config.verify.verify_level = 0;
    let quality = QualityConfig::from_config(&config.verify);
    assert_eq!(quality.test_count, 1);
    assert_eq!(quality.max_retries, 0);
    assert_eq!(quality.timeout, 3);
    assert_eq!(quality.planned_total(), 2);
}
