use medusa::config::Config;
use medusa::server::ServerConfig;

#[test]
fn test_config_default() {
    let config = Config::default();
    assert_eq!(config.host, "127.0.0.1");
    assert_eq!(config.port, 2312);
    assert_eq!(config.max_connections, 100);
    assert_eq!(config.connection_timeout_secs, 30);
    assert_eq!(config.enable_timeouts, false);
}

#[test]
fn test_server_config_default() {
    let config = ServerConfig::default();
    assert_eq!(config.host, "127.0.0.1");
    assert_eq!(config.port, 2312);
    assert_eq!(config.max_connections, 100);
    assert_eq!(config.connection_timeout_secs, 30);
    assert_eq!(config.enable_timeouts, false);
}
