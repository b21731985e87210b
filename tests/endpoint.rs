use winrm_client::adjust_endpoint;

#[test]
fn encrypt_bare_address() {
    assert_eq!(adjust_endpoint("10.0.3.203", true, false), "https://10.0.3.203:5986/wsman");
}

#[test]
fn encrypt_rewrites_plain_url() {
    assert_eq!(adjust_endpoint("http://host:5985", true, false), "https://host:5986/wsman");
}

#[test]
fn default_bare_host() {
    assert_eq!(adjust_endpoint("server", false, false), "http://server:5985/wsman");
}

#[test]
fn default_url_with_path_gets_port() {
    assert_eq!(adjust_endpoint("https://server/wsman", false, false), "https://server:5986/wsman");
}

#[test]
fn default_keeps_canonical_url() {
    assert_eq!(adjust_endpoint("https://server:5986/wsman", false, false), "https://server:5986/wsman");
}

#[test]
fn default_https_gets_tls_port() {
    assert_eq!(adjust_endpoint("https://server", false, false), "https://server:5986/wsman");
}

#[test]
fn default_strips_path_before_port() {
    assert_eq!(adjust_endpoint("server/wsman", false, false), "http://server:5985/wsman");
    assert_eq!(adjust_endpoint("server/wsman/wsman", false, false), "http://server:5985/wsman");
}

#[test]
fn default_keeps_ipv6_literal() {
    assert_eq!(adjust_endpoint("[::1]", false, false), "http://[::1]/wsman");
}

#[test]
fn default_keeps_given_port() {
    assert_eq!(adjust_endpoint("http://host:80", false, false), "http://host:80/wsman");
    assert_eq!(adjust_endpoint("host:443", false, false), "http://host:443/wsman");
}

#[test]
fn plain_rewrites_tls_url() {
    assert_eq!(adjust_endpoint("https://host:5986", false, true), "http://host:5985/wsman");
    assert_eq!(adjust_endpoint("host", false, true), "http://host:5985/wsman");
}

#[test]
fn plain_keeps_port_80() {
    assert_eq!(adjust_endpoint("host:80", false, true), "http://host:80/wsman");
}

#[test]
fn encrypt_keeps_port_443() {
    assert_eq!(adjust_endpoint("host:443", true, false), "https://host:443/wsman");
}

#[test]
fn encrypt_after_path_appends_port() {
    assert_eq!(adjust_endpoint("https://h/wsman", true, false), "https://h/wsman:5986/wsman");
}

#[test]
fn encrypt_wins_over_plain() {
    assert_eq!(adjust_endpoint("host", true, true), "https://host:5986/wsman");
}

#[test]
fn empty_endpoint() {
    assert_eq!(adjust_endpoint("", false, false), "http://:5985/wsman");
    assert_eq!(adjust_endpoint("", true, false), "https://:5986/wsman");
}

#[test]
fn normalizing_twice_changes_nothing() {
    let inputs = [
        "10.0.3.203", "http://host:5985", "server", "https://server/wsman", "host:80",
        "[::1]", "https://h/wsman", "", "http://a:5985:5985", "server/wsman",
    ];
    for raw in inputs {
        for (e, n) in [(true, false), (false, true), (false, false), (true, true)] {
            let once = adjust_endpoint(raw, e, n);
            assert_eq!(adjust_endpoint(&once, e, n), once);
        }
    }
}

#[test]
fn every_result_has_scheme_and_path() {
    for raw in ["x", "http://x", "https://x:1", "a:b:c", "x/wsman"] {
        for (e, n) in [(true, false), (false, true), (false, false)] {
            let r = adjust_endpoint(raw, e, n);
            assert!(r.ends_with("/wsman"));
            assert!(r.starts_with("http://") != r.starts_with("https://"));
        }
    }
}
