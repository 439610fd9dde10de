//! Exercises the endpoint configuration.

use json_rpc::config::Config;

#[test]
fn address_renders_host_and_port() {
    let config = Config {
        host: String::from("localhost"),
        port: 30615,
    };
    assert_eq!(config.address_string(), "ws://localhost:30615");
}

#[test]
fn from_env_uses_given_settings() {
    let config = Config::from_env(Some(String::from("example.com")), Some(String::from("8080")));
    assert_eq!(config.host, "example.com");
    assert_eq!(config.port, 8080);
}

#[test]
fn from_env_falls_back_to_defaults() {
    let config = Config::from_env(None, None);
    assert_eq!(config.host, "localhost");
    assert_eq!(config.port, 30615);
}

#[test]
fn unreadable_ports_fall_back() {
    for bad in ["", "12x", "999999999999", " 80", "--1"] {
        let config = Config::from_env(None, Some(String::from(bad)));
        assert_eq!(config.port, 30615, "for input {:?}", bad);
    }
}

#[test]
fn signed_ports_parse() {
    assert_eq!(Config::from_env(None, Some(String::from("+443"))).port, 443);
    assert_eq!(Config::from_env(None, Some(String::from("-1"))).port, -1);
    assert_eq!(
        Config::from_env(None, Some(String::from("-2147483648"))).port,
        i32::MIN
    );
    assert_eq!(
        Config::from_env(None, Some(String::from("2147483647"))).port,
        i32::MAX
    );
    assert_eq!(Config::from_env(None, Some(String::from("2147483648"))).port, 30615);
}
