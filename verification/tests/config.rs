use relay_rs::config::{decimal_text, Config, DEFAULT_LOG_DIR, DEFAULT_PORT, DEFAULT_STATE_FILE};

fn config(addr: Option<&str>, port: u16) -> Config {
    Config {
        addr: addr.map(str::to_string),
        port,
        log_dir: DEFAULT_LOG_DIR.to_string(),
        state_file: DEFAULT_STATE_FILE.to_string(),
        trusted_proxy_cidrs: String::new(),
    }
}

#[test]
fn port_is_bound_on_every_address() {
    assert_eq!(config(None, DEFAULT_PORT).bind_addr(), "0.0.0.0:8080");
    assert_eq!(config(None, 0).bind_addr(), "0.0.0.0:0");
    assert_eq!(config(None, 65535).bind_addr(), "0.0.0.0:65535");
}

#[test]
fn address_goes_before_port() {
    assert_eq!(config(Some("127.0.0.1:9000"), 8080).bind_addr(), "127.0.0.1:9000");
}

#[test]
fn numbers_are_written_in_decimal() {
    for n in [0u16, 7, 10, 99, 100, 1024, 60001] {
        assert_eq!(decimal_text(n), n.to_string());
    }
}
