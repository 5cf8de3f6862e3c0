use etle::config::error::ConfigError;
use etle::config::load::{config_path_from, default_listen_addr};
use etle::config::model::{expand_tilde_path, EtleConfig};
use etle::config::parse::parse;
use etle::discovery::options::default_discovery_multicast_addr;
use etle::net::{IpAddress, Ipv4Address, SocketAddress};

#[test]
fn tests_parses_basic_config_file() {
    let config = parse(
        r#"
        library_root = "~/Downloads/ETLE"
        ipc_socket = "/tmp/etled.sock"
        listen = "0.0.0.0:7000"
        discovery_port = 37037
        discovery_multicast = "239.255.0.86"
        discovery_timeout_ms = 5000
        request_window = 32
        parallel = 0
        "#,
    )
    .unwrap();

    assert_eq!(config.library_root, Some("~/Downloads/ETLE".to_string()));
    assert_eq!(config.ipc_socket, Some("/tmp/etled.sock".to_string()));
    assert_eq!(config.listen, Some(default_listen_addr()));
    assert_eq!(config.discovery_port, Some(37037));
    assert_eq!(config.discovery_multicast, Some(default_discovery_multicast_addr()));
    assert_eq!(config.discovery_timeout_ms, Some(5000));
    assert_eq!(config.request_window, Some(32));
    assert_eq!(config.parallel, Some(0));
}

#[test]
fn tests_ignores_comments_outside_strings() {
    let config = parse(
        r#"
        library_root = "/tmp/#not-comment" # comment
        request_window = 16 # comment
        "#,
    )
    .unwrap();

    assert_eq!(config.library_root, Some("/tmp/#not-comment".to_string()));
    assert_eq!(config.request_window, Some(16));
}

#[test]
fn tests_rejects_non_multicast_discovery_multicast() {
    assert!(parse(r#"discovery_multicast = "192.168.1.1""#).is_err());
}

#[test]
fn mod_parses_basic_config_file() {
    let config = parse(
        r#"
        library_root = "~/Downloads/ETLE"
        ipc_socket = "/tmp/etled.sock"
        listen = "0.0.0.0:7000"
        discovery_port = 37037
        discovery_multicast = "239.255.0.86"
        discovery_timeout_ms = 5000
        request_window = 32
        parallel = 0
        "#,
    )
    .unwrap();

    assert_eq!(config.library_root, Some("~/Downloads/ETLE".to_string()));
    assert_eq!(config.ipc_socket, Some("/tmp/etled.sock".to_string()));
    assert_eq!(config.listen, Some(default_listen_addr()));
    assert_eq!(config.discovery_port, Some(37037));
    assert_eq!(config.discovery_multicast, Some(default_discovery_multicast_addr()));
    assert_eq!(config.discovery_timeout_ms, Some(5000));
    assert_eq!(config.request_window, Some(32));
    assert_eq!(config.parallel, Some(0));
}

#[test]
fn mod_ignores_comments_outside_strings() {
    let config = parse(
        r#"
        library_root = "/tmp/#not-comment" # comment
        request_window = 16 # comment
        "#,
    )
    .unwrap();

    assert_eq!(config.library_root, Some("/tmp/#not-comment".to_string()));
    assert_eq!(config.request_window, Some(16));
}

#[test]
fn mod_rejects_non_multicast_discovery_multicast() {
    assert!(parse(r#"discovery_multicast = "192.168.1.1""#).is_err());
}

#[test]
fn non_multicast_error_names_the_address() {
    assert_eq!(
        parse("\n discovery_multicast = \"192.168.1.1\"").unwrap_err(),
        ConfigError::InvalidValue { line: 2, key: "discovery_multicast".to_string(), value: "192.168.1.1".to_string() }
    );
}

#[test]
fn line_errors_carry_line_numbers() {
    assert_eq!(
        parse("request_window = 4\nno equals sign").unwrap_err(),
        ConfigError::InvalidLine { line: 2, message: "expected `key = value`".to_string() }
    );
    assert_eq!(
        parse("key =   ").unwrap_err(),
        ConfigError::InvalidLine { line: 1, message: "key and value must be non-empty".to_string() }
    );
    assert_eq!(parse("colour = 3").unwrap_err(), ConfigError::UnknownKey { line: 1, key: "colour".to_string() });
    assert_eq!(
        parse("discovery_port = 70000").unwrap_err(),
        ConfigError::InvalidValue { line: 1, key: "discovery_port".to_string(), value: "70000".to_string() }
    );
    assert_eq!(
        parse("listen = \"nowhere\"").unwrap_err(),
        ConfigError::InvalidValue { line: 1, key: "listen".to_string(), value: "nowhere".to_string() }
    );
}

#[test]
fn strings_unescape_and_numbers_take_plus() {
    let config = parse("auth_psk = \"a\\\"b\\\\c\\nd\\te\\x\"\r\nparallel = +3\r\n").unwrap();

    assert_eq!(config.auth_psk, Some("a\"b\\c\nd\te\\x".to_string()));
    assert_eq!(config.parallel, Some(3));
    assert_eq!(config.auth_psk(), Some("a\"b\\c\nd\te\\x".to_string()));
}

#[test]
fn empty_text_gives_defaults() {
    let config = parse("# only a comment\n\n   \n").unwrap();

    assert_eq!(config, EtleConfig::default());
    assert_eq!(config.listen_addr(), SocketAddress { ip: IpAddress::V4(Ipv4Address::new(0, 0, 0, 0)), port: 7000 });
    assert_eq!(config.discovery_port(), 37037);
    assert_eq!(config.discovery_multicast(), Ipv4Address::new(239, 255, 0, 86));
    assert_eq!(config.discovery_timeout_ms(), 3000);
    assert_eq!(config.request_window(), 16);
    assert_eq!(config.parallel(), 0);
    assert_eq!(config.auth_psk(), None);
    assert_eq!(config.library_root(Some("/home/u")), None);
}

#[test]
fn set_values_override_defaults() {
    let config = parse("listen = 127.0.0.1:7100\ndiscovery_port = 1\nrequest_window = 2").unwrap();

    assert_eq!(config.listen_addr(), SocketAddress { ip: IpAddress::V4(Ipv4Address::new(127, 0, 0, 1)), port: 7100 });
    assert_eq!(config.discovery_port(), 1);
    assert_eq!(config.request_window(), 2);
}

#[test]
fn tilde_expands_to_home() {
    assert_eq!(expand_tilde_path("~", Some("/home/u")), "/home/u");
    assert_eq!(expand_tilde_path("~", None), "~");
    assert_eq!(expand_tilde_path("~/Downloads/ETLE", Some("/home/u")), "/home/u/Downloads/ETLE");
    assert_eq!(expand_tilde_path("~/x", None), "~/x");
    assert_eq!(expand_tilde_path("/abs/~", Some("/home/u")), "/abs/~");
    let config = parse("library_root = \"~/lib\"").unwrap();
    assert_eq!(config.library_root(Some("/home/u")), Some("/home/u/lib".to_string()));
}

#[test]
fn config_path_follows_environment_order() {
    assert_eq!(config_path_from(Some("/c.toml".to_string()), Some("/x".to_string()), Some("/h".to_string())), Some("/c.toml".to_string()));
    assert_eq!(config_path_from(None, Some("/x".to_string()), Some("/h".to_string())), Some("/x/etle/config.toml".to_string()));
    assert_eq!(config_path_from(None, None, Some("/h".to_string())), Some("/h/.config/etle/config.toml".to_string()));
    assert_eq!(config_path_from(None, None, None), None);
}
