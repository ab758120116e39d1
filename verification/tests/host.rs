use pulson::host::{build_api_url, host_or, port_or, HostConfig};

#[test]
fn test_build_api_url_with_base_url() {
    let url = build_api_url(Some("https://sub.domain.com"), "127.0.0.1", 3030, "/api/devices");
    assert_eq!(url, "https://sub.domain.com/api/devices");
}

#[test]
fn test_build_api_url_with_base_url_trailing_slash() {
    let url = build_api_url(Some("https://sub.domain.com/"), "127.0.0.1", 3030, "/api/devices");
    assert_eq!(url, "https://sub.domain.com/api/devices");
}

#[test]
fn test_build_api_url_without_base_url() {
    let url = build_api_url(None, "127.0.0.1", 3030, "/api/devices");
    assert_eq!(url, "http://127.0.0.1:3030/api/devices");
}

#[test]
fn test_build_api_url_host_with_protocol() {
    let url = build_api_url(None, "https://example.com", 3030, "/api/devices");
    assert_eq!(url, "https://example.com/api/devices");
}

#[test]
fn test_build_api_url_host_with_protocol_and_port() {
    let url = build_api_url(None, "https://example.com:8443", 3030, "/api/devices");
    assert_eq!(url, "https://example.com:8443/api/devices");
}

#[test]
fn plain_host_with_port_is_split() {
    let h = HostConfig::from_str("example.org:8080").unwrap();
    assert_eq!(h.host, "example.org");
    assert_eq!(h.port, 8080);
    assert_eq!(h.scheme(), "http");
    assert!(!h.is_https());
    assert_eq!(h.server_url(), "http://example.org:8080");
    assert_eq!(h.server_bind_address(), "example.org:8080");
}

#[test]
fn plain_host_needs_exactly_one_port() {
    assert_eq!(
        HostConfig::from_str("localhost").unwrap_err(),
        "Host must be in format 'host:port' or a full URL"
    );
    assert!(HostConfig::from_str("a:1:2").is_err());
    let h = HostConfig::from_str("localhost:3030").unwrap();
    assert_eq!(h.base_url(), None);
    assert_eq!(h.full_url, "http://localhost:3030");
}

#[test]
fn bad_port_is_refused() {
    assert_eq!(HostConfig::from_str("localhost:notaport").unwrap_err(), "Invalid port number");
    assert!(HostConfig::from_str("localhost:70000").is_err());
}

#[test]
fn https_url_gives_its_base() {
    let h = HostConfig::from_str("https://example.com").unwrap();
    assert!(h.is_https());
    assert_eq!(h.scheme(), "https");
    assert_eq!(h.host, "example.com");
    assert_eq!(h.port, 443);
    assert_eq!(h.base_url(), Some("https://example.com".to_string()));
}

#[test]
fn http_url_with_port_keeps_it() {
    let h = HostConfig::from_str("http://10.0.0.5:9000").unwrap();
    assert_eq!(h.host, "10.0.0.5");
    assert_eq!(h.port, 9000);
    assert!(!h.is_https());
    assert_eq!(h.bind_address, "10.0.0.5:9000");
    assert_eq!(h.base_url(), Some("http://10.0.0.5:9000".to_string()));
    let local = HostConfig::from_str("http://localhost").unwrap();
    assert_eq!(local.port, 80);
    assert_eq!(local.bind_address, "127.0.0.1:80");
}

#[test]
fn environment_port_falls_back_on_the_default() {
    assert_eq!(port_or(Some("8080"), 3030), 8080);
    assert_eq!(port_or(Some("eighty"), 3030), 3030);
    assert_eq!(port_or(Some("65536"), 3030), 3030);
    assert_eq!(port_or(None, 3030), 3030);
    assert_eq!(host_or(Some("10.1.1.1"), "127.0.0.1"), "10.1.1.1");
    assert_eq!(host_or(None, "127.0.0.1"), "127.0.0.1");
}

#[test]
fn listen_addresses_and_database_files() {
    assert_eq!(
        pulson::host::split_bind_address("0.0.0.0:8080"),
        Some(("0.0.0.0".to_string(), "8080".to_string()))
    );
    assert_eq!(pulson::host::split_bind_address("nocolon"), None);
    assert_eq!(pulson::host::split_bind_address("a:b:c"), None);
    assert_eq!(pulson::host::database_file("/data/store.db"), "/data/store.db");
    assert_eq!(pulson::host::database_file("/data"), "/data/pulson.db");
}

#[test]
fn base_url_only_for_full_urls() {
    let plain = HostConfig::from_str("127.0.0.1:8080").unwrap();
    assert_eq!(plain.base_url(), None);
    assert_eq!(plain.server_bind_address(), "127.0.0.1:8080");
    let local = HostConfig::from_str("http://localhost:3030").unwrap();
    assert_eq!(local.base_url(), Some("http://localhost:3030".to_string()));
    assert_eq!(local.server_bind_address(), "127.0.0.1:3030");
    assert!(!local.is_https());
    let secure = HostConfig::from_str("https://example.com:8443").unwrap();
    assert!(secure.is_https());
    assert_eq!(secure.port, 8443);
}
