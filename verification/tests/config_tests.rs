use avail_indexer::configuration::{parse_u32, ConfigError, Configuration, ConfigurationFile,
    EnvConfig, DEFAULT_EXECUTE_TABLE_NAME, DEFAULT_LOG_INTERVAL_MS, DEFAULT_MAX_TASK_COUNT,
    DEFAULT_SEND_MESSAGE_TABLE_NAME, DEFAULT_TABLE_NAME, MAINNET_ENDPOINT};
use avail_indexer::indexer::IndexerStats;

fn empty_env() -> EnvConfig {
    EnvConfig {
        db_url: None,
        avail_url: None,
        block_height: None,
        table_name: None,
        send_message_table_name: None,
        execute_table_name: None,
        max_task_count: None,
        log_interval_ms: None,
    }
}

fn empty_file() -> ConfigurationFile {
    ConfigurationFile {
        db_url: None,
        avail_url: None,
        block_height: None,
        table_name: None,
        send_message_table_name: None,
        execute_table_name: None,
        max_task_count: None,
        log_interval_ms: None,
    }
}

#[test]
fn parse_u32_accepts_decimal() {
    assert_eq!(parse_u32("25"), Some(25));
    assert_eq!(parse_u32("+7"), Some(7));
    assert_eq!(parse_u32("0"), Some(0));
    assert_eq!(parse_u32("00042"), Some(42));
    assert_eq!(parse_u32("4294967295"), Some(u32::MAX));
}

#[test]
fn parse_u32_rejects_junk() {
    assert_eq!(parse_u32(""), None);
    assert_eq!(parse_u32("+"), None);
    assert_eq!(parse_u32("abc"), None);
    assert_eq!(parse_u32("12x"), None);
    assert_eq!(parse_u32("-3"), None);
    assert_eq!(parse_u32("4294967296"), None);
    assert_eq!(parse_u32("99999999999999999999"), None);
}

#[test]
fn db_url_is_required() {
    let r = Configuration::new(&empty_env(), &empty_file());
    assert_eq!(r.err(), Some(ConfigError::MissingDbUrl));
}

#[test]
fn defaults_fill_the_rest() {
    let mut env = empty_env();
    env.db_url = Some("postgres://localhost/bridge".to_string());
    let c = Configuration::new(&env, &empty_file()).expect("resolves");
    assert_eq!(c.avail_url, MAINNET_ENDPOINT);
    assert_eq!(c.block_height, None);
    assert_eq!(c.table_name, DEFAULT_TABLE_NAME);
    assert_eq!(c.send_message_table_name, DEFAULT_SEND_MESSAGE_TABLE_NAME);
    assert_eq!(c.execute_table_name, DEFAULT_EXECUTE_TABLE_NAME);
    assert_eq!(c.max_task_count, DEFAULT_MAX_TASK_COUNT);
    assert_eq!(c.log_interval_ms, DEFAULT_LOG_INTERVAL_MS);
}

#[test]
fn environment_wins_over_file() {
    let mut env = empty_env();
    env.db_url = Some("postgres://localhost/bridge".to_string());
    env.table_name = Some("env_table".to_string());
    env.max_task_count = Some("4".to_string());
    env.block_height = Some("123".to_string());
    let mut file = empty_file();
    file.table_name = Some("file_table".to_string());
    file.max_task_count = Some(9);
    file.block_height = Some(77);
    let c = Configuration::new(&env, &file).expect("resolves");
    assert_eq!(c.table_name, "env_table");
    assert_eq!(c.max_task_count, 4);
    assert_eq!(c.block_height, Some(123));
}

#[test]
fn file_fills_what_the_environment_leaves() {
    let mut file = empty_file();
    file.db_url = Some("postgres://localhost/bridge".to_string());
    file.avail_url = Some("wss://example".to_string());
    file.log_interval_ms = Some(5000);
    let c = Configuration::new(&empty_env(), &file).expect("resolves");
    assert_eq!(c.db_url, "postgres://localhost/bridge");
    assert_eq!(c.avail_url, "wss://example");
    assert_eq!(c.log_interval_ms, 5000);
}

#[test]
fn unreadable_numbers_are_errors() {
    let mut env = empty_env();
    env.db_url = Some("postgres://localhost/bridge".to_string());
    env.block_height = Some("x".to_string());
    assert_eq!(Configuration::new(&env, &empty_file()).err(), Some(ConfigError::BadBlockHeight));

    let mut env = empty_env();
    env.db_url = Some("postgres://localhost/bridge".to_string());
    env.max_task_count = Some("".to_string());
    assert_eq!(Configuration::new(&env, &empty_file()).err(), Some(ConfigError::BadMaxTaskCount));

    let mut env = empty_env();
    env.db_url = Some("postgres://localhost/bridge".to_string());
    env.log_interval_ms = Some("9e9".to_string());
    assert_eq!(
        Configuration::new(&env, &empty_file()).err(),
        Some(ConfigError::BadLogIntervalMs),
    );
}

#[test]
fn indexer_stats_heartbeat_obeys_interval() {
    let mut stats = IndexerStats::new(60_000, 0);
    assert!(stats.maybe_display_stats(10, 100, 90, 1_000).is_none());
    stats.total_indexed = 5;
    let rep = stats.maybe_display_stats(15, 100, 85, 61_000).expect("interval passed");
    assert_eq!(rep.last_indexed_block, 15);
    assert_eq!(rep.finalized_block, 100);
    assert_eq!(rep.remaining_block_count, 85);
    assert_eq!(rep.block_indexed_count, 5);
    assert_eq!(rep.block_indexed_since_last_log_count, 5);
    assert!(stats.maybe_display_stats(16, 100, 84, 62_000).is_none());
}
