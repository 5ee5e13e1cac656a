//! Configuration defaults and duration parsing.

use oracle_vm::config::{parse_duration, BaseConfig, DatabaseConfig, LogConfig, NetworkConfig};
use oracle_vm::errors::OracleVmError;
use oracle_vm::types::{AssetPair, MerkleRoot, NodeId, TxId, UtxoRef};

#[test]
fn test_parse_duration() {
    assert_eq!(parse_duration("30s").unwrap(), 30_000);
    assert_eq!(parse_duration("5m").unwrap(), 300_000);
    assert_eq!(parse_duration("1h").unwrap(), 3_600_000);
    assert_eq!(parse_duration("1000ms").unwrap(), 1_000);
}

#[test]
fn test_base_config() {
    let config = BaseConfig::new("test-node");
    assert_eq!(config.node_id.as_str(), "test-node");
}

#[test]
fn parse_duration_bare_number_is_seconds() {
    assert_eq!(parse_duration("45").unwrap(), 45_000);
    assert_eq!(parse_duration("2d").unwrap(), 172_800_000);
}

#[test]
fn parse_duration_accepts_one_leading_plus_sign() {
    assert_eq!(parse_duration("+30s").unwrap(), 30_000);
    assert_eq!(parse_duration("+7").unwrap(), 7_000);
    // A lone sign or a doubled sign carries no parseable value.
    assert!(matches!(parse_duration("+"), Err(OracleVmError::Config(_))));
    assert!(matches!(parse_duration("+s"), Err(OracleVmError::Config(_))));
    assert!(matches!(parse_duration("++3s"), Err(OracleVmError::Config(_))));
    assert!(matches!(parse_duration("-3s"), Err(OracleVmError::Config(_))));
}

#[test]
fn parse_duration_rejects_bad_input() {
    assert!(matches!(parse_duration(""), Err(OracleVmError::Config(_))));
    assert!(matches!(parse_duration("s"), Err(OracleVmError::Config(_))));
    assert!(matches!(parse_duration("5w"), Err(OracleVmError::Config(_))));
    assert!(matches!(parse_duration("1.5s"), Err(OracleVmError::Config(_))));
    // The total would not fit in u64 milliseconds.
    assert!(matches!(
        parse_duration("18446744073709551615d"),
        Err(OracleVmError::Config(_))
    ));
    // The numeric value itself would not fit in u64.
    assert!(matches!(
        parse_duration("99999999999999999999ms"),
        Err(OracleVmError::Config(_))
    ));
}

#[test]
fn defaults_match_documented_values() {
    let n = NetworkConfig::default();
    assert_eq!(n.listen_address, "0.0.0.0:9000");
    assert!(n.bootstrap_peers.is_empty());
    assert_eq!(n.max_peers, 50);
    assert_eq!(n.connection_timeout_ms, 30_000);

    let l = LogConfig::default();
    assert_eq!(l.level, "info");
    assert!(l.file.is_none());
    assert!(l.console);

    let d = DatabaseConfig::default();
    assert_eq!(d.path, "./data");
    assert_eq!(d.cache_size, 256 * 1024 * 1024);
    assert_eq!(d.write_buffer_size, 64 * 1024 * 1024);
}

#[test]
fn plain_types_round_trip() {
    assert_eq!(AssetPair::btc_usd().as_str(), "BTC/USD");
    assert_eq!(NodeId::new("n-1").as_str(), "n-1");
    let root = MerkleRoot([3u8; 32]);
    assert_eq!(root.as_bytes(), &[3u8; 32]);
    let utxo = UtxoRef {
        txid: TxId([1u8; 32]),
        vout: 2,
        amount: 5_000,
        address: "addr".to_string(),
    };
    assert_eq!(utxo.vout, 2);
    assert_eq!(utxo.txid, TxId([1u8; 32]));
}

#[test]
fn error_categories_are_stable() {
    assert_eq!(OracleVmError::Config("x".to_string()).category(), "config");
    assert_eq!(OracleVmError::Crypto("x".to_string()).category(), "crypto");
    assert_eq!(OracleVmError::Timeout.category(), "timeout");
}
