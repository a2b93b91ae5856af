use blazingly_aasa_mcp::fetch::{
    check_domain, fetch, fetch_begin, fetch_origin, is_accepted_content_type, transport_notes_for,
    Exchange, FetchError, FetchOptions, FetchStep, Fetched, Hosting, ResponseHeaders, Source,
};

#[test]
fn urls_match_the_documented_locations() {
    assert_eq!(
        Source::WellKnown.url("example.com"),
        "https://example.com/.well-known/apple-app-site-association"
    );
    assert_eq!(
        Source::AppleCdn.url("example.com"),
        "https://app-site-association.cdn-apple.com/a/v1/example.com"
    );
}

#[test]
fn only_public_hostnames_are_accepted() {
    assert!(check_domain("example.com").is_ok());
    assert!(check_domain("a.b.example.co.uk").is_ok());

    for bad in [
        "",
        "localhost",
        "app.localhost",
        "printer.local",
        "127.0.0.1",
        "::1",
        "169.254.169.254",
        "example.com:8080",
        "https://example.com",
        "example.com/path",
        "user@example.com",
        "nodots",
        ".example.com",
        "example..com",
    ] {
        assert!(check_domain(bad).is_err(), "{bad} should be refused");
    }
}

#[test]
fn root_url_and_labels() {
    assert_eq!(
        Source::Root.url("example.com"),
        "https://example.com/apple-app-site-association"
    );
    assert_eq!(Source::WellKnown.label(), "well-known");
    assert_eq!(Source::Root.label(), "root");
    assert_eq!(Source::AppleCdn.label(), "apple-cdn");
}

#[test]
fn each_refusal_says_why() {
    assert_eq!(check_domain("").unwrap_err(), "domain is empty");
    let long = "a".repeat(250) + ".com";
    assert_eq!(
        check_domain(&long).unwrap_err(),
        "domain is longer than 253 characters"
    );
    assert_eq!(
        check_domain("example.com:8080").unwrap_err(),
        "`example.com:8080` contains `:`; pass a bare hostname such as example.com, not a URL"
    );
    assert_eq!(
        check_domain("127.0.0.1").unwrap_err(),
        "`127.0.0.1` is an IP address; association files are served by name"
    );
    assert_eq!(
        check_domain("App.LocalHost").unwrap_err(),
        "`App.LocalHost` is not a public host"
    );
    assert_eq!(
        check_domain("printer.local").unwrap_err(),
        "`printer.local` is not a public host"
    );
    assert_eq!(
        check_domain("nodots").unwrap_err(),
        "`nodots` has no dot, so it is not a fully qualified domain name"
    );
    assert_eq!(
        check_domain("example.com.").unwrap_err(),
        "`example.com.` is not a well-formed domain name"
    );
    assert_eq!(
        check_domain("example..com").unwrap_err(),
        "`example..com` is not a well-formed domain name"
    );
}

#[test]
fn a_final_label_is_compared_whole() {
    // `mylocal.com` is a perfectly good domain; only a final label of `local` is refused.
    assert!(check_domain("mylocal.com").is_ok());
    assert!(check_domain("local.example.com").is_ok());
    // Dotted digits that are not an address are a name.
    assert!(check_domain("1.2.3.4.example").is_ok());
    assert!(check_domain("256.1.1.1").is_ok());
    assert!(check_domain("01.2.3.4").is_ok());
    // A non-ASCII character is refused, and named.
    assert_eq!(
        check_domain("exämple.com").unwrap_err(),
        "`exämple.com` contains `ä`; pass a bare hostname such as example.com, not a URL"
    );
}

#[test]
fn a_refused_domain_never_asks_for_a_request() {
    for domain in ["localhost", "127.0.0.1", "169.254.169.254", "https://example.com"] {
        match fetch_begin(Source::WellKnown, domain) {
            FetchStep::Finished(Err(error)) => {
                assert!(error.hosting.is_none());
                assert_eq!(error.message, check_domain(domain).unwrap_err());
            }
            other => panic!("{domain} should be refused, got {other:?}"),
        }
    }
    match fetch_begin(Source::AppleCdn, "example.com") {
        FetchStep::Send { url } => {
            assert_eq!(url, "https://app-site-association.cdn-apple.com/a/v1/example.com")
        }
        other => panic!("example.com should be requested, got {other:?}"),
    }
}

fn headers(content_type: Option<&str>, location: Option<&str>) -> ResponseHeaders {
    ResponseHeaders {
        content_type: content_type.map(str::to_owned),
        location: location.map(str::to_owned),
        apple_failure_reason: None,
        apple_failure_details: None,
        apple_from: None,
        apple_try_direct: None,
    }
}

#[test]
fn a_refused_domain_ignores_whatever_the_network_said() {
    let exchange = Exchange::Received {
        status: 200,
        headers: headers(Some("application/json"), None),
        body: b"{}".to_vec(),
    };
    let error = fetch(Source::WellKnown, "localhost", FetchOptions::default(), exchange)
        .err()
        .expect("refused");
    assert_eq!(error.message, "`localhost` is not a public host");
    assert!(error.hosting.is_none());
}

#[test]
fn a_redirect_is_reported_with_its_target() {
    let exchange = Exchange::Received {
        status: 301,
        headers: headers(
            Some("text/html"),
            Some("https://www.airbnb.com/.well-known/apple-app-site-association"),
        ),
        body: Vec::new(),
    };
    let error = fetch(Source::WellKnown, "airbnb.com", FetchOptions::default(), exchange)
        .err()
        .expect("a 301 is not a document");
    assert_eq!(error.message, "HTTP 301");
    assert_eq!(
        error.describe(),
        "https://airbnb.com/.well-known/apple-app-site-association: HTTP 301"
    );
    let hosting = error.hosting.expect("transport facts");
    assert_eq!(hosting.status, 301);
    assert_eq!(
        hosting.redirected_to.as_deref(),
        Some("https://www.airbnb.com/.well-known/apple-app-site-association")
    );
    assert_eq!(
        hosting.notes,
        vec![
            "the server replied 301 and tried to redirect; Apple requires the association file to be served with no redirects".to_owned(),
            "Content-Type is `text/html`; Apple expects application/json".to_owned(),
        ]
    );
}

#[test]
fn a_clean_reply_is_a_document() {
    let mut h = headers(Some("Application/JSON; charset=utf-8"), None);
    h.apple_from = Some("https://example.com".to_owned());
    let exchange = Exchange::Received { status: 200, headers: h, body: b"{}".to_vec() };
    let found = fetch(Source::AppleCdn, "example.com", FetchOptions::default(), exchange)
        .ok()
        .expect("200 is a document");
    assert_eq!(found.body, b"{}");
    assert_eq!(found.hosting.bytes, 2);
    assert!(found.hosting.notes.is_empty());
    assert_eq!(
        found.hosting.apple_headers,
        vec![("apple-from".to_owned(), "https://example.com".to_owned())]
    );
}

#[test]
fn transport_failures_prefer_the_resolvers_reason() {
    let refused = Exchange::Failed {
        refused: Some("evil.example resolves to 127.0.0.1, which is inside the local network; refusing to connect".to_owned()),
        error: "host not found".to_owned(),
    };
    let error = fetch(Source::WellKnown, "evil.example", FetchOptions::default(), refused)
        .err()
        .unwrap();
    assert!(error.message.starts_with("evil.example resolves to 127.0.0.1"));
    let plain = Exchange::Failed { refused: None, error: "timed out".to_owned() };
    let error = fetch(Source::WellKnown, "example.com", FetchOptions::default(), plain)
        .err()
        .unwrap();
    assert_eq!(error.message, "timed out");
}

#[test]
fn an_oversized_body_names_the_limit() {
    let exchange = Exchange::Unreadable {
        status: 200,
        headers: headers(Some("application/json"), None),
        error: "body too large".to_owned(),
    };
    let error = fetch(Source::WellKnown, "example.com", FetchOptions::default(), exchange)
        .err()
        .unwrap();
    assert_eq!(
        error.message,
        "could not read the body within the 131072 byte limit: body too large"
    );
    assert!(error.hosting.is_none());
}

#[test]
fn content_type_rules() {
    assert!(is_accepted_content_type("application/json"));
    assert!(is_accepted_content_type("  APPLICATION/PKCS7-MIME ; x=y"));
    assert!(!is_accepted_content_type("text/plain"));
    assert_eq!(
        transport_notes_for(200, &None),
        vec!["the server sent no Content-Type".to_owned()]
    );
    assert!(transport_notes_for(404, &Some("application/json".to_owned())).is_empty());
}

fn found(url: &str) -> Fetched {
    Fetched {
        body: b"{}".to_vec(),
        hosting: Hosting {
            source: Source::Root,
            url: url.to_owned(),
            status: 200,
            content_type: Some("application/json".to_owned()),
            bytes: 2,
            redirected_to: None,
            apple_headers: Vec::new(),
            notes: Vec::new(),
        },
    }
}

fn failed(url: &str) -> Box<FetchError> {
    Box::new(FetchError {
        source: Source::WellKnown,
        url: url.to_owned(),
        message: "HTTP 404".to_owned(),
        hosting: None,
    })
}

#[test]
fn the_origin_falls_back_to_the_root_location_and_says_so() {
    let result = fetch_origin(Err(failed("a")), Some(Ok(found("b")))).ok().unwrap();
    assert_eq!(result.hosting.url, "b");
    assert_eq!(
        result.hosting.notes,
        vec!["served from /apple-app-site-association; Apple documents /.well-known/apple-app-site-association".to_owned()]
    );
    let error = fetch_origin(Err(failed("a")), Some(Err(failed("b")))).err().unwrap();
    assert_eq!(error.url, "a", "the .well-known failure is the one worth fixing");
    let direct = fetch_origin(Ok(found("c")), None).ok().unwrap();
    assert!(direct.hosting.notes.is_empty());
}

#[test]
fn default_limits() {
    assert_eq!(FetchOptions::default().max_bytes, 131072);
    assert_eq!(FetchOptions::default().timeout, std::time::Duration::from_secs(10));
}

#[test]
fn a_received_body_above_the_ceiling_is_refused() {
    let options = FetchOptions { max_bytes: 4, ..FetchOptions::default() };
    let exchange = Exchange::Received {
        status: 200,
        headers: headers(Some("application/json"), None),
        body: b"{\"a\":1}".to_vec(),
    };
    let error = fetch(Source::WellKnown, "example.com", options, exchange).err().unwrap();
    assert_eq!(
        error.message,
        "could not read the body within the 4 byte limit: the body is 7 bytes"
    );
    assert!(error.hosting.is_none());
    let exchange = Exchange::Received {
        status: 200,
        headers: headers(Some("application/json"), None),
        body: b"{}".to_vec(),
    };
    assert!(fetch(Source::WellKnown, "example.com", options, exchange).is_ok());
}
