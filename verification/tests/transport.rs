use messenger::transport::{
    parse_http_response, parse_http_url, read_response, split_http_url, HttpEndpoint,
    RelayHttpClient, RelaySession, Result, TransportError, UrlProblem,
};

#[test]
fn parses_http_urls() -> Result<()> {
    assert_eq!(
        parse_http_url("http://127.0.0.1:8080")?,
        HttpEndpoint {
            host: "127.0.0.1".to_owned(),
            port: 8080,
        }
    );
    assert_eq!(
        parse_http_url("http://localhost")?,
        HttpEndpoint {
            host: "localhost".to_owned(),
            port: 80,
        }
    );
    Ok(())
}

#[test]
fn rejects_non_http_urls() {
    assert!(matches!(
        parse_http_url("https://example.com"),
        Err(TransportError::InvalidUrl(_))
    ));
}

fn invalid_url_text(server: &str) -> String {
    match parse_http_url(server) {
        Err(TransportError::InvalidUrl(text)) => text,
        other => panic!("expected an invalid URL, got {:?}", other),
    }
}

#[test]
fn url_edge_cases() {
    assert_eq!(
        parse_http_url("http://relay.example:9000///").unwrap(),
        HttpEndpoint { host: "relay.example".to_owned(), port: 9000 }
    );
    assert_eq!(
        parse_http_url("http://[::1]:8080").unwrap(),
        HttpEndpoint { host: "[::1]".to_owned(), port: 8080 }
    );
    assert_eq!(
        parse_http_url("http://host:+81").unwrap(),
        HttpEndpoint { host: "host".to_owned(), port: 81 }
    );
    assert_eq!(
        parse_http_url("http://host:00065535").unwrap(),
        HttpEndpoint { host: "host".to_owned(), port: 65535 }
    );
    assert_eq!(invalid_url_text("https://example.com"), "only http:// URLs are supported");
    assert_eq!(invalid_url_text("http://host:65536"), "invalid port");
    assert_eq!(invalid_url_text("http://host:"), "invalid port");
    assert_eq!(invalid_url_text("http://host:8a"), "invalid port");
    assert_eq!(invalid_url_text("http://host:-1"), "invalid port");
    assert_eq!(invalid_url_text("http://:8080"), "missing host");
    assert_eq!(invalid_url_text("http:///"), "missing host");
    assert!(matches!(split_http_url("http://:8080"), Ok((host, 8080)) if host.is_empty()));
    assert!(matches!(split_http_url("ftp://x"), Err(UrlProblem::NotHttp)));
}

#[test]
fn parses_responses() {
    let (status, body) = parse_http_response(b"HTTP/1.1 200 OK\r\nA: b\r\n\r\n{\"x\":1}").unwrap();
    assert_eq!(status, 200);
    assert_eq!(body, b"{\"x\":1}");
    let (status, body) = parse_http_response(b"HTTP/1.1\t\t 404\r\n\r\n").unwrap();
    assert_eq!(status, 404);
    assert!(body.is_empty());
    let (status, _) = parse_http_response(b"  HTTP/1.0 204\r\n\r\n").unwrap();
    assert_eq!(status, 204);
}

fn http_error_text(response: &[u8]) -> String {
    match parse_http_response(response) {
        Err(TransportError::Http(text)) => text,
        other => panic!("expected an HTTP error, got {:?}", other),
    }
}

#[test]
fn response_errors() {
    assert_eq!(http_error_text(b"HTTP/1.1 200 OK\r\n"), "malformed HTTP response");
    assert_eq!(http_error_text(b"HTTP/1.1 \xff\r\n\r\n"), "invalid HTTP status line");
    assert_eq!(http_error_text(b"HTTP/1.1\r\nX: 200\r\n\r\n"), "missing HTTP status");
    assert_eq!(http_error_text(b"HTTP/1.1 OK\r\n\r\n"), "invalid HTTP status");
    assert_eq!(http_error_text(b"HTTP/1.1 70000\r\n\r\n"), "invalid HTTP status");
}

#[test]
fn reads_response_bodies() {
    assert_eq!(read_response(b"HTTP/1.1 201 Created\r\n\r\nok").unwrap(), b"ok");
    match read_response(b"HTTP/1.1 404 Not Found\r\n\r\nno such thing") {
        Err(TransportError::Http(text)) => {
            assert_eq!(text, "server returned HTTP 404: no such thing")
        },
        other => panic!("unexpected {:?}", other),
    }
    match read_response(b"HTTP/1.1 500 Oops\r\n\r\n\xffx") {
        Err(TransportError::Http(text)) => assert_eq!(text, "server returned HTTP 500: \u{fffd}x"),
        other => panic!("unexpected {:?}", other),
    }
    assert!(read_response(b"HTTP/1.1 300 Moved\r\n\r\n").is_err());
}

#[test]
fn encodes_requests() {
    let client = RelayHttpClient::new("http://relay.test:8080/").unwrap();
    assert_eq!(client.endpoint().host, "relay.test");
    assert_eq!(client.endpoint().port, 8080);
    let session = RelaySession::new("tok".to_owned(), 99);
    assert_eq!(session.token(), "tok");
    assert_eq!(session.expires_at_ms(), 99);

    assert_eq!(
        String::from_utf8(client.pending(&session)).unwrap(),
        "GET /v1/relay/envelopes/pending HTTP/1.1\r\nHost: relay.test\r\nConnection: close\r\n\
         Content-Length: 0\r\nAuthorization: Bearer tok\r\n\r\n"
    );
    assert_eq!(
        String::from_utf8(client.submit(&session, b"{}".to_vec())).unwrap(),
        "POST /v1/relay/envelopes HTTP/1.1\r\nHost: relay.test\r\nConnection: close\r\n\
         Content-Length: 2\r\nContent-Type: application/json\r\nAuthorization: Bearer tok\r\n\r\n{}"
    );
    assert_eq!(
        String::from_utf8(client.mark_delivered(&session, "abc")).unwrap(),
        "POST /v1/relay/envelopes/abc/delivered HTTP/1.1\r\nHost: relay.test\r\nConnection: close\r\n\
         Content-Length: 0\r\nAuthorization: Bearer tok\r\n\r\n"
    );
    assert_eq!(
        String::from_utf8(client.auth_challenge_request(b"[1]".to_vec())).unwrap(),
        "POST /v1/auth/challenge HTTP/1.1\r\nHost: relay.test\r\nConnection: close\r\n\
         Content-Length: 3\r\nContent-Type: application/json\r\n\r\n[1]"
    );
    assert_eq!(
        String::from_utf8(client.auth_verify_request(Vec::new())).unwrap(),
        "POST /v1/auth/verify HTTP/1.1\r\nHost: relay.test\r\nConnection: close\r\n\
         Content-Length: 0\r\n\r\n"
    );
    assert!(matches!(RelayHttpClient::new("relay.test"), Err(TransportError::InvalidUrl(_))));
}
