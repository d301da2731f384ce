use replay::{mirror_uri, target_uri, SendError};

#[test]
fn mirror_uri_joins_scheme_target_and_path() {
    assert_eq!(mirror_uri("127.0.0.1:8080", "/hello?q=1"), "http://127.0.0.1:8080/hello?q=1");
}

#[test]
fn target_uri_parses_the_joined_text() {
    let uri = target_uri("127.0.0.1:8080", "/hello?q=1").unwrap();
    assert_eq!(uri.to_string(), "http://127.0.0.1:8080/hello?q=1");
    assert_eq!(uri.host(), Some("127.0.0.1"));
    assert_eq!(uri.port_u16(), Some(8080));
    assert_eq!(uri.path(), "/hello");
    assert_eq!(uri.query(), Some("q=1"));
}

#[test]
fn target_uri_with_ipv6_target() {
    let uri = target_uri("[::1]:9000", "/fanout").unwrap();
    assert_eq!(uri.port_u16(), Some(9000));
    assert_eq!(uri.path(), "/fanout");
}

#[test]
fn invalid_path_is_an_error() {
    assert_eq!(target_uri("127.0.0.1:8080", "/a b").unwrap_err(), SendError::InvalidUri);
}

#[test]
fn invalid_authority_is_an_error() {
    assert_eq!(target_uri("bad host", "/").unwrap_err(), SendError::InvalidUri);
}

#[test]
fn target_uri_is_the_parse_of_the_joined_text() {
    let text = mirror_uri("127.0.0.1:8080", "/fits");
    let parsed: http::Uri = text.parse().unwrap();
    assert_eq!(target_uri("127.0.0.1:8080", "/fits").unwrap(), parsed);
    assert_eq!(target_uri("127.0.0.1:8080", "/fits").unwrap(), target_uri("127.0.0.1:8080", "/fits").unwrap());
}
