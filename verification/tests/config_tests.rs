use gsc_fq::config::{
    service_plan, ConfigFile, ProxySection, ReverseProxyClientSection, ReverseProxySection,
    ReverseProxyServerSection, ServerSection,
};
use gsc_fq::error::{AppError, ConfigError};
use gsc_fq::ip::{is_ip_address_exec, is_ipv4_exec, is_ipv6_exec};
use gsc_fq::loader::ConfigLoader;

fn chars(s: &str) -> Vec<char> {
    s.chars().collect()
}

fn proxy(local: &str, remote: &str, source_ip: Option<&str>) -> ProxySection {
    ProxySection {
        local: local.to_string(),
        remote: remote.to_string(),
        source_ip: source_ip.map(|s| s.to_string()),
        allow_ips: None,
        max_conns_per_ip: None,
        cps_limit: None,
    }
}

fn config(proxies: Vec<ProxySection>) -> ConfigFile {
    ConfigFile {
        server: None,
        proxies,
        token: Some("default".to_string()),
        totp_secret: None,
        reverse_proxies: vec![],
        reverse_proxy_server: None,
        reverse_proxy_client: None,
    }
}

#[test]
fn test_validate_detects_invalid_source_ip() {
    let mut config = config(vec![proxy("8080", "example.com:80", Some("invalid-ip"))]);
    let result = config.validate();
    assert!(result.is_err());
    if let Err(ConfigError::InvalidConfigValue { reason, .. }) = result {
        assert!(reason.contains("not a valid IP address"));
    } else {
        panic!("Expected InvalidConfigValue error");
    }
}

#[test]
fn test_duplicate_local_port_detection() {
    let mut config = config(vec![
        proxy("8080", "example.com:80", None),
        proxy("8080", "example.net:8080", None),
    ]);
    let result = config.validate();
    assert!(result.is_err());
    if let Err(ConfigError::InvalidConfigValue { reason, .. }) = result {
        assert!(reason.contains("Duplicate local port"));
    } else {
        panic!("Expected InvalidConfigValue error for duplicate port");
    }
}

#[test]
fn validate_reports_every_error_in_order() {
    let mut c = config(vec![
        proxy("0", "example.com:0", Some("not-an-ip")),
        proxy("1:2:3", "x:80", None),
        proxy("9000", "host:abc", None),
    ]);
    match c.validate() {
        Err(ConfigError::InvalidConfigValue { path, reason }) => {
            assert_eq!(path, "config");
            assert_eq!(
                reason,
                "proxies[0].local port must be between 1 and 65535; \
                 proxies[0].remote port must be between 1 and 65535; \
                 proxies[0].source_ip 'not-an-ip' is not a valid IP address; \
                 proxies[1].local: Configuration error: Invalid configuration value at local: Invalid local format '1:2:3', expected 'IP:PORT' or 'PORT'; \
                 proxies[2].remote: Configuration error: Invalid configuration value at remote: Invalid port number in 'host:abc'"
            );
        }
        other => panic!("unexpected {:?}", other),
    }
}

#[test]
fn validate_drops_null_and_empty_source_addresses() {
    let mut c = config(vec![
        proxy("9000", "example.com:443", Some("null")),
        proxy("9001", "example.com:443", Some("  ")),
        proxy("9002", "example.com:443", Some(" 10.0.0.1 ")),
    ]);
    let warnings = c.validate().expect("valid");
    assert_eq!(
        warnings,
        vec![
            "proxies[0].source_ip contains 'null' value; will be ignored".to_string(),
            "proxies[1].source_ip is empty and will be ignored".to_string(),
        ]
    );
    assert!(c.proxies[0].source_ip.is_none());
    assert!(c.proxies[1].source_ip.is_none());
    assert_eq!(c.proxies[2].source_ip.as_deref(), Some(" 10.0.0.1 "));
}

#[test]
fn validate_trims_or_defaults_bind_ip() {
    let mut c = config(vec![proxy("8080", "example.com:80", None)]);
    c.server = Some(ServerSection { bind_ip: Some(" 127.0.0.1 ".to_string()), debug: None });
    assert!(c.validate().expect("valid").is_empty());
    assert_eq!(c.server.as_ref().unwrap().bind_ip.as_deref(), Some("127.0.0.1"));

    let mut d = config(vec![proxy("8200", "example.com:8201", None)]);
    d.server = Some(ServerSection { bind_ip: Some("".to_string()), debug: None });
    let w = d.validate().expect("valid");
    assert!(w.iter().any(|w| w.contains("bind_ip")));
    assert_eq!(d.server.as_ref().unwrap().bind_ip.as_deref(), Some("127.0.0.1"));
}

#[test]
fn validate_checks_reverse_rules() {
    let mut c = config(vec![]);
    c.reverse_proxies = vec![
        ReverseProxySection { server: "7000".to_string(), local: "8080".to_string(), source_ip: None },
        ReverseProxySection { server: "0.0.0.0:7000".to_string(), local: "x".to_string(), source_ip: None },
    ];
    match c.validate() {
        Err(ConfigError::InvalidConfigValue { reason, .. }) => assert_eq!(
            reason,
            "Reverse proxies configured but neither reverse_proxy_server nor reverse_proxy_client specified; \
             Duplicate server port 7000 detected in reverse_proxies[1]; \
             reverse_proxies[1].local: Configuration error: Invalid configuration value at local: Invalid port number 'x'"
        ),
        other => panic!("unexpected {:?}", other),
    }
}

#[test]
fn port_getters_follow_colon_rules() {
    let p = proxy("127.0.0.1:8080", "[::1]:443", None);
    assert_eq!(p.get_local_port().unwrap(), 8080);
    assert_eq!(p.get_local_ip().as_deref(), Some("127.0.0.1"));
    assert_eq!(p.get_remote_port().unwrap(), 443);
    assert_eq!(p.get_remote_host().unwrap(), "[::1]");
    let q = proxy("9000", "80", None);
    assert_eq!(q.get_remote_host().unwrap(), "localhost");
    assert!(q.get_local_ip().is_none());
    match proxy("70000", "80", None).get_local_port() {
        Err(AppError::Config(ConfigError::InvalidConfigValue { path, reason })) => {
            assert_eq!(path, "local");
            assert_eq!(reason, "Invalid port number '70000'");
        }
        _ => panic!("expected error"),
    }
    let r = ReverseProxySection { server: "::1:7000".to_string(), local: "9000".to_string(), source_ip: None };
    assert_eq!(r.get_server_port().unwrap(), 7000);
    assert_eq!(r.get_server_ip().as_deref(), Some("::1"));
    assert_eq!(r.get_local_port().unwrap(), 9000);
    assert_eq!(r.get_local_host(), None);
    let s = ReverseProxySection { server: "7000".to_string(), local: "127.0.0.1:8080".to_string(), source_ip: None };
    assert_eq!(s.get_local_host().as_deref(), Some("127.0.0.1"));
}

#[test]
fn runtime_mode_follows_sections() {
    let c = config(vec![]);
    assert_eq!(c.get_runtime_mode(), "forward");
}

#[test]
fn ip_text_forms() {
    assert!(is_ipv4_exec(&chars("192.168.1.1")));
    assert!(!is_ipv4_exec(&chars("192.168.01.1")));
    assert!(!is_ipv4_exec(&chars("256.1.1.1")));
    assert!(!is_ipv4_exec(&chars("1.2.3")));
    assert!(is_ipv6_exec(&chars("::1")));
    assert!(is_ipv6_exec(&chars("::")));
    assert!(is_ipv6_exec(&chars("fe80::1:2")));
    assert!(is_ipv6_exec(&chars("1:2:3:4:5:6:7:8")));
    assert!(is_ipv6_exec(&chars("1:2:3:4:5:6:7::")));
    assert!(is_ipv6_exec(&chars("::ffff:1.2.3.4")));
    assert!(!is_ipv6_exec(&chars("1:2:3:4:5:6::1.2.3.4")));
    assert!(!is_ipv6_exec(&chars("1::2::3")));
    assert!(!is_ipv6_exec(&chars(":::")));
    assert!(!is_ipv6_exec(&chars("12345::")));
    assert!(!is_ip_address_exec(&chars("invalid")));
    assert!(!is_ip_address_exec(&chars(" 127.0.0.1 ")));
}

#[test]
fn ip_forms_edge_cases() {
    let cases = [
        ("0.0.0.0", true), ("255.255.255.255", true), ("1.2.3.04", false), ("::", true), ("1::", true),
        ("a:b:c:d:e:f:1:2", true), ("a:b:c:d:e:f:1:2:3", false), ("::ffff:10.0.0.1", true),
        ("1:2:3:4:5:6:1.2.3.4", true), ("1:2:3:4:5:1.2.3.4", false), (":1::2", false), ("1:::2", false),
        ("FFFF::", true), ("g::1", false), ("1.2.3.4.5", false), ("", false), ("12345::1", false),
        ("1:2:3:4:5:6:7:8::", false),
    ];
    for (s, ok) in cases {
        assert_eq!(is_ip_address_exec(&chars(s)), ok, "on {:?}", s);
    }
}

#[test]
fn sanitize_quotes_unquoted_null() {
    let content = "\n[[proxies]]\nlocal = \"8000\"\nremote = \"example.org:80\"\nsource_ip = null\n";
    let (s, w) = ConfigLoader::sanitize_special_values(content);
    assert_eq!(s, "\n[[proxies]]\nlocal = \"8000\"\nremote = \"example.org:80\"\nsource_ip = \"null\"\n");
    assert!(w.is_empty());
    let (t, _) = ConfigLoader::sanitize_special_values("SOURCE_IP=  NULL # none");
    assert_eq!(t, "SOURCE_IP=  \"null\" # none");
    let (u, _) = ConfigLoader::sanitize_special_values("source_ip = nullx");
    assert_eq!(u, "source_ip = nullx");
    let (v, _) = ConfigLoader::sanitize_special_values("other = null");
    assert_eq!(v, "other = null");
}

#[test]
fn offsets_become_lines_and_columns() {
    assert_eq!(ConfigLoader::offset_to_line_col("ab\ncd", 4), (2, 2));
    assert_eq!(ConfigLoader::offset_to_line_col("ab\ncd", 0), (1, 1));
    assert_eq!(ConfigLoader::offset_to_line_col("a\r\nb", 100), (2, 2));
}

#[test]
fn decoder_messages_become_config_errors() {
    match ConfigLoader::map_toml_error_parts("x", "missing field `remote`", None) {
        ConfigError::MissingRequiredField(f) => assert_eq!(f, "remote"),
        other => panic!("unexpected {:?}", other),
    }
    match ConfigLoader::map_toml_error_parts("a = \nb", "invalid string", Some(4)) {
        ConfigError::InvalidTomlFormat(t) => assert_eq!(
            t,
            "TOML parse error at line 1, column 5: invalid string\nTip: Check for syntax errors like 'null' values (should be omitted), missing quotes, or invalid data types"
        ),
        other => panic!("unexpected {:?}", other),
    }
}

#[test]
fn search_paths_in_order() {
    assert_eq!(ConfigLoader::get_config_search_paths(), vec!["default.toml", "config.toml", "gsc-fq.toml"]);
}

#[test]
fn values_cut_inside_a_character_cannot_be_sanitized() {
    assert!(ConfigLoader::can_sanitize_text("source_ip = null\nlocal = \"1\""));
    assert!(ConfigLoader::can_sanitize_text("source_ip = n"));
    assert!(ConfigLoader::can_sanitize_text("other = néé"));
    // byte four of "néé" is the second byte of its last "é"
    assert!(!ConfigLoader::can_sanitize_text("local = \"1\"\nsource_ip = néé"));
    assert!(ConfigLoader::can_sanitize_text("source_ip = nué"));
}

#[test]
fn decoder_failures_are_explained_with_their_position() {
    let content = "a = 1\nb = ";
    let err = toml::from_str::<toml::Table>(content).unwrap_err();
    match ConfigLoader::map_toml_error(content, err) {
        ConfigError::InvalidTomlFormat(t) => {
            assert!(t.starts_with("TOML parse error at line 2, column "), "{}", t);
            assert!(t.ends_with("missing quotes, or invalid data types"), "{}", t);
        }
        other => panic!("expected a format error, got {:?}", other),
    }
}

#[test]
fn missing_fields_are_named() {
    let content = "secs = 1\n";
    let err = toml::from_str::<std::time::Duration>(content).unwrap_err();
    match ConfigLoader::map_toml_error(content, err) {
        ConfigError::MissingRequiredField(f) => assert_eq!(f, "nanos"),
        other => panic!("expected a missing field, got {:?}", other),
    }
}

#[test]
fn services_follow_the_sections_present() {
    let plan = service_plan(&config(vec![proxy("8080", "example.com:80", None)])).unwrap();
    assert!(plan.forward && !plan.reverse_server && !plan.reverse_client);

    let mut c = config(vec![]);
    c.reverse_proxy_server =
        Some(ReverseProxyServerSection { port: 9001, allowed_tokens: vec![], totp_secret: None });
    let plan = service_plan(&c).unwrap();
    assert!(!plan.forward && plan.reverse_server && !plan.reverse_client);

    c.reverse_proxy_client = Some(ReverseProxyClientSection {
        server: "127.0.0.1:9001".to_string(),
        token: None,
        totp_secret: None,
    });
    let plan = service_plan(&c).unwrap();
    assert!(!plan.forward && plan.reverse_server && plan.reverse_client);

    match service_plan(&config(vec![])) {
        Err(ConfigError::InvalidConfigValue { path, reason }) => {
            assert_eq!(path, "config");
            assert_eq!(reason, "No services configured");
        }
        _ => panic!("expected the configuration to be refused"),
    }
}

#[test]
fn duplicates_are_found_by_port_not_by_text() {
    let mut c = config(vec![
        proxy("8080", "example.com:80", None),
        proxy("9090", "example.com:81", None),
        proxy("127.0.0.1:8080", "example.com:82", None),
    ]);
    match c.validate() {
        Err(ConfigError::InvalidConfigValue { reason, .. }) => {
            assert!(reason.contains("Duplicate local port 8080 detected in proxies[2]"));
            assert!(!reason.contains("proxies[1]"));
        }
        other => panic!("unexpected {:?}", other),
    }
}

#[test]
fn bad_bind_address_is_reported_trimmed() {
    let mut c = config(vec![proxy("8080", "example.com:80", None)]);
    c.server = Some(ServerSection { bind_ip: Some("  not-an-ip ".to_string()), debug: None });
    match c.validate() {
        Err(ConfigError::InvalidConfigValue { reason, .. }) => {
            assert!(reason.contains("server.bind_ip 'not-an-ip' is not a valid IP address"));
        }
        other => panic!("unexpected {:?}", other),
    }
    assert_eq!(c.server.as_ref().unwrap().bind_ip.as_deref(), Some("  not-an-ip "));
}

#[test]
fn a_second_check_changes_nothing() {
    let mut c = config(vec![
        proxy("9000", "example.com:443", Some("null")),
        proxy("9001", "example.com:443", Some(" 10.0.0.1 ")),
    ]);
    c.server = Some(ServerSection { bind_ip: Some(" ".to_string()), debug: Some(true) });
    let first = c.validate().expect("valid");
    assert_eq!(first.len(), 2);
    let proxies_after_first: Vec<Option<String>> = c.proxies.iter().map(|p| p.source_ip.clone()).collect();
    let bind_after_first = c.server.as_ref().unwrap().bind_ip.clone();
    let second = c.validate().expect("still valid");
    assert!(second.is_empty());
    let proxies_after_second: Vec<Option<String>> = c.proxies.iter().map(|p| p.source_ip.clone()).collect();
    assert_eq!(proxies_after_first, proxies_after_second);
    assert_eq!(c.server.as_ref().unwrap().bind_ip, bind_after_first);
    assert_eq!(bind_after_first.as_deref(), Some("127.0.0.1"));
}

#[test]
fn host_and_port_split_back() {
    for (host, port) in [("example.com", 8080u16), ("::1", 443), ("10.0.0.1", 1)] {
        let p = proxy("9000", &format!("{}:{}", host, port), None);
        assert_eq!(p.get_remote_host().unwrap(), host);
        assert_eq!(p.get_remote_port().unwrap(), port);
    }
}

#[test]
fn sanitizing_keeps_lines() {
    let content = "a = 1\nsource_ip = null\r\n\n  b = \"x\" # c\nsource_ip=NULL";
    let (s, _) = ConfigLoader::sanitize_special_values(content);
    let before: Vec<&str> = content.split('\n').collect();
    let after: Vec<&str> = s.split('\n').collect();
    assert_eq!(before.len(), after.len());
    assert_eq!(s.matches('\n').count(), content.matches('\n').count());
    assert_eq!(after[0], before[0]);
    assert_eq!(after[1], "source_ip = \"null\"\r");
    assert_eq!(after[2], before[2]);
    assert_eq!(after[3], before[3]);
    assert_eq!(after[4], "source_ip=\"null\"");
}
