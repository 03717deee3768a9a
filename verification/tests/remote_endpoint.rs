use transport_services::remote_endpoint::RemoteEndpoint;

#[test]
fn new_endpoint_is_empty() {
    let endpoint = RemoteEndpoint::new();
    assert_eq!(endpoint.hostname, None);
    assert_eq!(endpoint.ipv4, None);
    assert_eq!(endpoint.port, None);
    assert_eq!(endpoint.hostname(), None);
    assert_eq!(endpoint.service(), None);
    assert_eq!(endpoint.ipv4(), None);
    assert_eq!(endpoint.ipv6(), None);
    assert_eq!(endpoint.port(), None);
}

#[test]
fn with_hostname_sets_only_the_hostname() {
    let mut endpoint = RemoteEndpoint::new();
    endpoint.with_hostname("example.com".to_string());
    assert_eq!(endpoint.hostname, Some("example.com".to_string()));
    assert_eq!(endpoint.hostname(), Some(&"example.com".to_string()));
    assert_eq!(endpoint.service(), None);
    assert_eq!(endpoint.ipv4, None);
    assert_eq!(endpoint.ipv6(), None);
    assert_eq!(endpoint.port, None);
}

#[test]
fn fields_are_set_one_by_one() {
    let mut endpoint = RemoteEndpoint::new();
    endpoint.with_port(443);
    assert_eq!(endpoint.port(), Some(443));
    assert_eq!(endpoint.hostname(), None);
    endpoint.with_service("https".to_string());
    assert_eq!(endpoint.service(), Some(&"https".to_string()));
    assert_eq!(endpoint.port(), Some(443));
    endpoint.with_ipv4([192, 0, 2, 1]);
    assert_eq!(endpoint.ipv4(), Some([192, 0, 2, 1]));
    assert_eq!(endpoint.ipv4, Some([192, 0, 2, 1]));
    let v6 = [0x20, 0x01, 0x0d, 0xb8, 0, 0, 0, 0, 0, 0, 0, 0, 0, 0, 0, 1];
    endpoint.with_ipv6(v6);
    assert_eq!(endpoint.ipv6(), Some(v6));
    endpoint.with_hostname("a".to_string());
    endpoint.with_hostname("b".to_string());
    assert_eq!(endpoint.hostname(), Some(&"b".to_string()));
    assert_eq!(endpoint.service(), Some(&"https".to_string()));
    assert_eq!(endpoint.ipv4(), Some([192, 0, 2, 1]));
    assert_eq!(endpoint.ipv6(), Some(v6));
    assert_eq!(endpoint.port(), Some(443));
}

#[test]
fn fields_need_not_agree() {
    let mut endpoint = RemoteEndpoint::new();
    endpoint.with_hostname("localhost".to_string());
    endpoint.with_ipv4([8, 8, 8, 8]);
    endpoint.with_port(0);
    assert_eq!(endpoint.hostname(), Some(&"localhost".to_string()));
    assert_eq!(endpoint.ipv4(), Some([8, 8, 8, 8]));
    assert_eq!(endpoint.port(), Some(0));
}
