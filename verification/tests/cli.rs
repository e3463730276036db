use messenger::cli::{
    command_of, option_value, parse_relay_response, parse_relay_url, received_line, relay_reply,
    relay_request, required_option, usage, CliError, Command, DEFAULT_SERVER,
};
use messenger::crypto::{IdentityKeypair, PrivateIdentity};

fn args(items: &[&str]) -> Vec<String> {
    items.iter().map(|s| s.to_string()).collect()
}

#[test]
fn reads_options() {
    let a = args(&["--from", "a.json", "--text", "hi", "--to"]);
    assert_eq!(option_value(&a, "--from"), Some("a.json"));
    assert_eq!(option_value(&a, "--text"), Some("hi"));
    assert_eq!(option_value(&a, "--to"), None);
    assert_eq!(option_value(&a, "--server"), None);
    assert_eq!(option_value(&args(&["--x", "--x", "v"]), "--x"), Some("--x"));
    assert_eq!(required_option(&a, "--from").unwrap(), "a.json");
    match required_option(&a, "--identity") {
        Err(CliError::Usage(text)) => assert_eq!(text, format!("missing --identity\n{}", usage())),
        other => panic!("unexpected {:?}", other),
    }
}

#[test]
fn usage_lists_the_commands() {
    let text = usage();
    assert_eq!(text.lines().count(), 4);
    assert!(text.starts_with("messenger-dev identity new <identity.json>\n"));
    assert!(text.ends_with("--identity <identity.json> --from <public.json>"));
}

#[test]
fn tool_reads_relay_urls() {
    let endpoint = parse_relay_url(DEFAULT_SERVER).unwrap();
    assert_eq!((endpoint.host.as_str(), endpoint.port), ("127.0.0.1", 8080));
    let endpoint = parse_relay_url("http://:81").unwrap();
    assert_eq!((endpoint.host.as_str(), endpoint.port), ("", 81));
    assert!(matches!(parse_relay_url("https://x"), Err(CliError::Usage(t)) if t == "only http:// relay URLs are supported"));
    assert!(matches!(parse_relay_url("http://x:y"), Err(CliError::Usage(t)) if t == "invalid relay port"));
    assert!(matches!(parse_relay_response(b"HTTP/1.1 200 OK\r\n\r\nz"), Ok((200, b)) if b == b"z"));
    assert!(matches!(parse_relay_response(b"nothing"), Err(CliError::Http(t)) if t == "malformed HTTP response"));
}

#[test]
fn reads_commands() {
    let cases: Vec<(Vec<&str>, Command)> = vec![
        (vec![], Command::Help),
        (vec!["help"], Command::Help),
        (vec!["--help"], Command::Help),
        (vec!["-h"], Command::Help),
        (vec!["identity", "new", "a.json"], Command::IdentityNew("a.json".to_owned())),
        (
            vec!["identity", "public", "a.json", "b.json"],
            Command::IdentityPublic("a.json".to_owned(), "b.json".to_owned()),
        ),
        (vec!["send"], Command::Send),
        (vec!["send", "--text", "hi"], Command::Send),
        (vec!["receive", "--identity", "a.json"], Command::Receive),
        (vec!["db", "init", "--db", "a.db"], Command::DbInit),
        (vec!["db", "public", "--db", "a.db", "--out", "a.json"], Command::DbPublic),
        (vec!["contact", "add", "--db", "a.db"], Command::ContactAdd),
        (vec!["message", "send", "--db", "a.db"], Command::MessageSend),
        (vec!["sync", "--db", "b.db"], Command::Sync),
        (vec!["sync"], Command::Sync),
        (vec!["messages", "list", "--db", "b.db"], Command::MessagesList),
        (vec!["db", "init"], Command::DbInit),
    ];
    for (words, expected) in cases {
        assert_eq!(command_of(&args(&words)).unwrap(), expected, "{words:?}");
    }
    for words in [
        vec!["help", "me"],
        vec!["identity", "new"],
        vec!["identity", "new", "a", "b"],
        vec!["identity", "public", "a"],
        vec!["identity", "old", "a"],
        vec!["Send"],
        vec!["-help"],
        vec!["db"],
        vec!["db", "drop"],
        vec!["contact", "remove"],
        vec!["messages"],
        vec!["message", "list"],
    ] {
        match command_of(&args(&words)) {
            Err(CliError::Usage(text)) => assert_eq!(text, usage()),
            other => panic!("{words:?} gave {other:?}"),
        }
    }
}

#[test]
fn tool_requests_and_replies() {
    let (endpoint, bytes) =
        relay_request("http://relay.test:9000/", "GET", "/v1/x", Some("tok"), None).unwrap();
    assert_eq!((endpoint.host.as_str(), endpoint.port), ("relay.test", 9000));
    assert_eq!(
        String::from_utf8(bytes).unwrap(),
        "GET /v1/x HTTP/1.1\r\nHost: relay.test\r\nConnection: close\r\nContent-Length: 0\r\nAuthorization: Bearer tok\r\n\r\n"
    );
    let (_, bytes) = relay_request("http://h", "POST", "/p", None, Some(b"{}".to_vec())).unwrap();
    assert_eq!(
        bytes,
        b"POST /p HTTP/1.1\r\nHost: h\r\nConnection: close\r\nContent-Length: 2\r\nContent-Type: application/json\r\n\r\n{}".to_vec()
    );
    assert!(matches!(relay_request("ftp://h", "GET", "/", None, None), Err(CliError::Usage(t)) if t == "only http:// relay URLs are supported"));
    assert!(matches!(relay_request("http://h:70000", "GET", "/", None, None), Err(CliError::Usage(t)) if t == "invalid relay port"));

    assert!(matches!(relay_reply(b"HTTP/1.1 204 No Content\r\n\r\n"), Ok(b) if b.is_empty()));
    assert!(matches!(
        relay_reply(b"HTTP/1.1 404 Not Found\r\nX: y\r\n\r\nnope"),
        Err(CliError::Http(t)) if t == "server returned HTTP 404: nope"
    ));
    assert!(matches!(relay_reply(b"HTTP/1.1\r\n\r\n"), Err(CliError::Http(t)) if t == "missing HTTP status"));
}

#[test]
fn received_lines() {
    let keys = |seed: u8, secret: u8| {
        IdentityKeypair::from_private_identity(PrivateIdentity {
            signing_key: [seed; 32],
            agreement_secret: [secret; 32],
        })
    };
    let alice = keys(1, 2);
    let bob = keys(5, 6);
    let envelope = alice.encrypt_for(&bob.public_identity(), b"hi \xffbob").unwrap();
    let line = received_line(&bob, &alice.public_identity(), &envelope).unwrap();
    assert_eq!(line, format!("{}: hi \u{fffd}bob", envelope.message_id.text()));
    assert!(matches!(
        received_line(&bob, &bob.public_identity(), &envelope),
        Err(CliError::Crypto(_))
    ));
}
