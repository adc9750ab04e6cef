use xau_tray::proxy::{
    env_proxy_setting, macos_system_proxy_url, parse_scutil_no_proxy, parse_scutil_proxy,
    proxy_decision_message, scutil_proxy_url, scutil_value, system_proxy_setting, ProxySource,
};

const SCUTIL_BOTH: &str = "<dictionary> {\n  HTTPEnable : 1\n  HTTPProxy : 127.0.0.1\n  HTTPPort : 7890\n  HTTPSEnable : 1\n  HTTPSProxy : 10.0.0.2\n  HTTPSPort : 8443\n  ExceptionsList : <array> {\n    0 : localhost\n    1 : 127.0.0.1\n  }\n}\n";

const SCUTIL_SOCKS_ONLY: &str = "<dictionary> {\n  HTTPEnable : 0\n  HTTPSEnable : 0\n  SOCKSEnable : 1\n  SOCKSProxy : 127.0.0.1\n  SOCKSPort : 1080\n}\n";

const SCUTIL_DISABLED: &str = "<dictionary> {\n  HTTPEnable : 0\n  HTTPProxy : 127.0.0.1\n  HTTPPort : 7890\n}\n";

#[test]
fn scutil_values_are_read_per_key() {
    assert_eq!(scutil_value(SCUTIL_BOTH, "HTTPPort"), Some("7890".to_string()));
    assert_eq!(scutil_value(SCUTIL_BOTH, "HTTPSProxy"), Some("10.0.0.2".to_string()));
    assert_eq!(scutil_value(SCUTIL_BOTH, "Missing"), None);
}

#[test]
fn scutil_proxy_requires_enabled_host_and_port() {
    assert_eq!(
        scutil_proxy_url(SCUTIL_BOTH, "HTTPEnable", "HTTPProxy", "HTTPPort", "http"),
        Some("http://127.0.0.1:7890".to_string())
    );
    assert_eq!(
        scutil_proxy_url(SCUTIL_DISABLED, "HTTPEnable", "HTTPProxy", "HTTPPort", "http"),
        None
    );
    let zero_port = "HTTPEnable : 1\nHTTPProxy : h\nHTTPPort : 0\n";
    assert_eq!(scutil_proxy_url(zero_port, "HTTPEnable", "HTTPProxy", "HTTPPort", "http"), None);
}

#[test]
fn https_wins_over_http_and_socks() {
    assert_eq!(parse_scutil_proxy(SCUTIL_BOTH), Some("http://10.0.0.2:8443".to_string()));
    assert_eq!(parse_scutil_proxy(SCUTIL_SOCKS_ONLY), Some("socks5://127.0.0.1:1080".to_string()));
    assert_eq!(parse_scutil_proxy(SCUTIL_DISABLED), None);
}

#[test]
fn exception_list_becomes_comma_separated() {
    assert_eq!(parse_scutil_no_proxy(SCUTIL_BOTH), Some("localhost,127.0.0.1".to_string()));
    assert_eq!(parse_scutil_no_proxy(SCUTIL_DISABLED), None);
}

#[test]
fn macos_answer_carries_url_and_exceptions() {
    let (url, no_proxy) = macos_system_proxy_url(SCUTIL_BOTH).expect("proxy");
    assert_eq!(url, "http://10.0.0.2:8443");
    assert_eq!(no_proxy, Some("localhost,127.0.0.1".to_string()));
    assert!(macos_system_proxy_url(SCUTIL_DISABLED).is_none());
}

#[test]
fn env_fallback_takes_first_non_blank() {
    let values = vec![
        None,
        Some("   ".to_string()),
        Some(" http://proxy:8080 ".to_string()),
        Some("http://other:1".to_string()),
    ];
    assert_eq!(env_proxy_setting(&values), Some("http://proxy:8080".to_string()));
    assert_eq!(env_proxy_setting(&vec![None, None]), None);
}

#[test]
fn system_proxy_prefers_the_platform_answer() {
    let env = vec![Some("http://envproxy:1".to_string())];
    let s = system_proxy_setting(Some(SCUTIL_BOTH), &env).expect("proxy");
    assert_eq!(s.url, "http://10.0.0.2:8443");
    assert!(s.source == ProxySource::System);
    assert_eq!(s.no_proxy, Some("localhost,127.0.0.1".to_string()));

    let s = system_proxy_setting(Some(SCUTIL_DISABLED), &env).expect("env fallback");
    assert_eq!(s.url, "http://envproxy:1");
    assert!(s.source == ProxySource::Env);
    assert_eq!(s.no_proxy, None);

    assert!(system_proxy_setting(None, &vec![None]).is_none());
}

#[test]
fn decision_messages_name_the_source() {
    let env = vec![Some("http://envproxy:1".to_string())];
    let sys = system_proxy_setting(Some(SCUTIL_BOTH), &env).unwrap();
    assert_eq!(
        proxy_decision_message(Some(&sys)),
        "[xau-tray] network mode: system proxy enabled (system)"
    );
    let envp = system_proxy_setting(None, &env).unwrap();
    assert_eq!(
        proxy_decision_message(Some(&envp)),
        "[xau-tray] network mode: system proxy enabled (env)"
    );
    assert_eq!(proxy_decision_message(None), "[xau-tray] network mode: direct connection");
}
