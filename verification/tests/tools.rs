use blazingly_aasa_mcp::cli::{
    comparison_clean, explanation_clean, file_report_clean, link_check_clean, validation_clean,
};
use blazingly_aasa_mcp::fetch::{
    fetch_begin, FetchError, FetchOptions, FetchStep, Fetched, Hosting, Source,
};
use blazingly_aasa_mcp::mcp::{call_explain_match, call_validate_association_file};
use blazingly_aasa_mcp::render;
use blazingly_aasa_mcp::tools::{
    check_universal_link, compare_origin_and_cdn, decision_name, explain_match,
    fetch_association_file, read, validate_association_file, MatchDecision, Service, Severity,
};

const DOCUMENT: &str = r#"{"applinks":{"details":[{
    "appIDs": ["ABCDE12345.com.example.app"],
    "components": [
        {"/": "/help/website/*", "exclude": true},
        {"/": "/help/*", "?": {"articleNumber": "????"}}
    ]
}]}}"#;

const MCP_DOCUMENT: &str = r#"{"applinks":{"details":[{
    "appIDs": ["ABCDE12345.com.example.app"],
    "components": [
        {"/": "/help/website/*", "exclude": true},
        {"/": "/help/*", "?": {"articleNumber": "????"}},
        {"/": "buy/*"}
    ]
}]},"webcredentials":{"apps":["ABCDE12345.com.example.app"]}}"#;

const APP: &str = "ABCDE12345.com.example.app";
const LIMIT: usize = 131072;

#[test]
fn validate_reads_stdin_and_succeeds_on_a_clean_file() {
    let validation = validate_association_file(DOCUMENT, LIMIT).ok().expect("parses");
    assert!(!validation.has_errors);
    let output = render::validation(&validation);
    assert!(output.contains(APP));
    assert!(output.contains("diagnostics:  none"), "{output}");
}

#[test]
fn validate_exits_non_zero_when_the_file_has_errors() {
    let validation = validate_association_file(
        r#"{"applinks":{"details":[{"components":[{"/":"/*"}]}]}}"#,
        LIMIT,
    )
    .ok()
    .expect("parses");
    assert!(validation.has_errors, "an error-level diagnostic should fail");
    assert!(render::validation(&validation).contains("AASA110"));
}

#[test]
fn explain_matches_and_exits_zero() {
    let explanation = explain_match(
        DOCUMENT,
        "example.com",
        Some(APP),
        "https://example.com/help/1?articleNumber=4815",
        LIMIT,
    )
    .ok()
    .expect("answers");
    assert!(explanation_clean(&explanation));
    assert!(render::explanation(&explanation).contains("MATCH"));
}

#[test]
fn explain_reports_the_failing_component_and_exits_non_zero() {
    let explanation = explain_match(
        DOCUMENT,
        "example.com",
        Some(APP),
        "https://example.com/help/1?articleNumber=481",
        LIMIT,
    )
    .ok()
    .expect("answers");
    assert!(!explanation_clean(&explanation), "a miss should not exit zero");
    let output = render::explanation(&explanation);
    assert!(output.contains("NO_MATCH"));
    assert!(
        output.contains("articleNumber"),
        "the trace should name the failing component:\n{output}"
    );
    assert!(output.ends_with("\napps reached: none\n"), "{output}");
}

#[test]
fn json_output_is_machine_readable() {
    let explanation = explain_match(
        DOCUMENT,
        "example.com",
        Some(APP),
        "https://example.com/help/1?articleNumber=4815",
        LIMIT,
    )
    .ok()
    .expect("answers");
    assert_eq!(explanation.decision, Some("match"));
    assert_eq!(explanation.apps[0].app_id, APP);
}

#[test]
fn explain_match_returns_a_decision_and_a_trace() {
    let content = call_explain_match(
        Some(MCP_DOCUMENT.to_owned()),
        Some("example.com".to_owned()),
        Some("https://example.com/help/1?articleNumber=481".to_owned()),
        Some(APP.to_owned()),
        LIMIT,
    )
    .ok()
    .expect("not a tool error");
    assert_eq!(content.decision, Some("no_match"));
    let explanation = content.explanation.unwrap();
    assert!(explanation.contains("NO_MATCH"));
    assert!(
        explanation.contains("articleNumber"),
        "the trace should name the component that failed:\n{explanation}"
    );
}

#[test]
fn omitting_the_app_id_asks_which_apps_a_url_reaches() {
    let content = call_explain_match(
        Some(MCP_DOCUMENT.to_owned()),
        Some("example.com".to_owned()),
        Some("https://example.com/help/1?articleNumber=4815".to_owned()),
        None,
        LIMIT,
    )
    .ok()
    .expect("not a tool error");
    assert!(content.decision.is_none());
    assert_eq!(content.apps.len(), 1);
    assert_eq!(content.apps[0].app_id, APP);
    assert_eq!(content.apps[0].decision, "match");
}

#[test]
fn an_empty_app_id_counts_as_omitted() {
    let content = call_explain_match(
        Some(MCP_DOCUMENT.to_owned()),
        Some("example.com".to_owned()),
        Some("https://example.com/buy/42".to_owned()),
        Some(String::new()),
        LIMIT,
    )
    .ok()
    .unwrap();
    assert!(content.decision.is_none());
    assert_eq!(content.apps[0].decision, "match");
}

#[test]
fn validate_reports_stable_codes() {
    let content = call_validate_association_file(Some(MCP_DOCUMENT.to_owned()), LIMIT)
        .ok()
        .expect("parses");
    assert!(!content.has_errors);
    let codes: Vec<&str> = content.diagnostics.iter().map(|d| d.code.as_str()).collect();
    // `buy/*` is a legal path pattern, since swcutil matches it against `/buy/42`.
    assert!(codes.is_empty(), "expected a silent report, got {codes:?}");
    assert_eq!(content.apps[0].app_id, APP);
    assert_eq!(
        content.apps[0].services,
        vec![Service::AppLinks, Service::WebCredentials]
    );
}

#[test]
fn a_broken_document_is_a_tool_error_not_a_protocol_error() {
    let failure = call_validate_association_file(Some("{ not json".to_owned()), LIMIT)
        .err()
        .expect("a bad document is the caller's problem");
    assert!(!failure.error.is_empty());
    assert!(failure.hosting.is_none());
}

#[test]
fn a_missing_required_argument_is_reported_readably() {
    let failure = call_explain_match(None, Some("example.com".to_owned()), None, None, LIMIT)
        .err()
        .expect("content is required");
    assert_eq!(failure.error, "`content` is required and must be a string");
    let failure = call_explain_match(Some("{}".to_owned()), None, None, None, LIMIT)
        .err()
        .unwrap();
    assert_eq!(failure.error, "`domain` is required and must be a string");
}

#[test]
fn an_oversized_document_is_refused_before_parsing() {
    let failure = validate_association_file(DOCUMENT, 10).err().expect("too large");
    assert!(failure.error.contains("10 byte limit"), "{}", failure.error);
}

#[test]
fn an_unusable_url_is_reported_as_such() {
    let failure = explain_match(DOCUMENT, "example.com", Some(APP), "not a url", LIMIT)
        .err()
        .expect("the URL cannot be split");
    assert!(failure.error.starts_with("invalid URL: "), "{}", failure.error);
    let failure = explain_match(DOCUMENT, "example.com", None, "not a url", LIMIT)
        .err()
        .expect("the URL cannot be split");
    assert!(failure.error.starts_with("invalid URL: "), "{}", failure.error);
}

#[test]
fn excluded_urls_are_reported_as_excluded() {
    let explanation = explain_match(
        DOCUMENT,
        "example.com",
        None,
        "https://example.com/help/website/faq",
        LIMIT,
    )
    .ok()
    .unwrap();
    assert_eq!(explanation.apps[0].decision, "exclude");
    assert!(!explanation_clean(&explanation) || !explanation.apps.is_empty());
    let rendered = render::explanation(&explanation);
    assert_eq!(rendered, format!("\napps reached:\n  exclude    {APP}\n"));
}

#[test]
fn decision_names() {
    assert_eq!(decision_name(MatchDecision::Match), "match");
    assert_eq!(decision_name(MatchDecision::Exclude), "exclude");
    assert_eq!(decision_name(MatchDecision::NoMatch), "no_match");
}

fn fetched(body: &str, source: Source) -> Fetched {
    Fetched {
        body: body.as_bytes().to_vec(),
        hosting: Hosting {
            source,
            url: source.url("example.com"),
            status: 200,
            content_type: Some("application/json".to_owned()),
            bytes: body.len(),
            redirected_to: None,
            apple_headers: Vec::new(),
            notes: Vec::new(),
        },
    }
}

#[test]
fn a_link_check_answers_from_the_fetched_file() {
    let check = check_universal_link(
        "example.com",
        Some(APP),
        "https://example.com/help/1?articleNumber=4815",
        FetchOptions::default(),
        fetched(MCP_DOCUMENT, Source::WellKnown),
    )
    .ok()
    .expect("answers");
    assert_eq!(check.decision, Some("match"));
    assert!(link_check_clean(&check));
    assert_eq!(check.services, Some(vec![Service::AppLinks, Service::WebCredentials]));
    let output = render::link_check(&check);
    assert!(output.starts_with(
        "domain:       example.com\nurl:          https://example.com/help/1?articleNumber=4815\nsource:       https://example.com/.well-known/apple-app-site-association (well-known)\nstatus:       200\n"
    ), "{output}");
    assert!(output.contains("\nservices:     applinks, webcredentials\n"), "{output}");
    assert!(output.contains("\napps reached:\n  match      ABCDE12345.com.example.app\n"), "{output}");
}

#[test]
fn a_file_report_lists_apps_and_diagnostics() {
    let report = fetch_association_file(
        "example.com",
        FetchOptions::default(),
        fetched(r#"{"applinks":{"details":[{"components":[{"/":"/*"}]}]}}"#, Source::AppleCdn),
    )
    .ok()
    .unwrap();
    assert!(report.has_errors);
    assert!(report.diagnostics.iter().any(|d| d.severity == Severity::Error && d.code == "AASA110"));
    let output = render::file_report(&report);
    assert!(output.contains("\napps:         none\n"), "{output}");
    assert!(output.contains("error(s)"), "{output}");
}

#[test]
fn apps_are_listed_once_in_order() {
    let document = r#"{"applinks":{"details":[{"appIDs":["Z.b","A.b"],"components":[{"/":"/x"}]}]},
        "webcredentials":{"apps":["M.b","A.b"]},"appclips":{"apps":["A.b"]}}"#;
    let validation = validate_association_file(document, LIMIT).ok().unwrap();
    let ids: Vec<&str> = validation.apps.iter().map(|a| a.app_id.as_str()).collect();
    assert_eq!(ids, vec!["A.b", "M.b", "Z.b"]);
    assert_eq!(
        validation.apps[0].services,
        vec![Service::AppLinks, Service::WebCredentials, Service::AppClips]
    );
    let output = render::validation(&validation);
    assert!(output.starts_with(&format!(
        "\napps:\n  {:<44} applinks, webcredentials, appclips\n",
        "A.b"
    )), "{output}");
}

#[test]
fn the_same_file_on_both_sides_is_identical() {
    let comparison = compare_origin_and_cdn(
        "example.com",
        FetchOptions::default(),
        fetched(DOCUMENT, Source::WellKnown),
        fetched(DOCUMENT, Source::AppleCdn),
    )
    .ok()
    .unwrap();
    assert!(comparison.equivalent);
    assert!(comparison.structurally_identical);
    assert!(render::comparison(&comparison).ends_with("identical: the CDN is serving the same file.\n"));
}

#[test]
fn a_stale_cdn_copy_is_reported_as_different() {
    let older = r#"{"applinks":{"details":[{"appIDs":["ABCDE12345.com.example.app"],"components":[{"/":"/help/*"}]}]}}"#;
    let comparison = compare_origin_and_cdn(
        "example.com",
        FetchOptions::default(),
        fetched(DOCUMENT, Source::WellKnown),
        fetched(older, Source::AppleCdn),
    )
    .ok()
    .unwrap();
    assert!(!comparison.equivalent);
    assert!(!comparison.changes.is_empty());
    let output = render::comparison(&comparison);
    assert!(output.contains(&format!("DIFFERENT: {} policy change(s).", comparison.changes.len())));
}

#[test]
fn reformatting_is_no_change() {
    let reformatted = r#"{ "applinks": { "details": [ { "appIDs": [ "ABCDE12345.com.example.app" ],
        "components": [ { "/": "/help/website/*", "exclude": true },
                        { "/": "/help/*", "?": { "articleNumber": "????" } } ] } ] } }"#;
    let comparison = compare_origin_and_cdn(
        "example.com",
        FetchOptions::default(),
        fetched(DOCUMENT, Source::WellKnown),
        fetched(reformatted, Source::AppleCdn),
    )
    .ok()
    .unwrap();
    assert!(comparison.equivalent);
    assert!(comparison.changes.is_empty());
    assert!(render::comparison(&comparison).ends_with(
        "equivalent: the two files are written differently but behave identically.\n"
    ) || comparison.structurally_identical);
}

#[test]
fn a_failed_read_keeps_its_transport_facts() {
    let mut facts = fetched("", Source::WellKnown).hosting;
    facts.status = 301;
    facts.redirected_to = Some("https://www.example.com/".to_owned());
    let error = Box::new(FetchError {
        source: Source::WellKnown,
        url: facts.url.clone(),
        message: "HTTP 301".to_owned(),
        hosting: Some(facts),
    });
    let failure = read(Source::AppleCdn, Err(error), None).err().unwrap();
    assert_eq!(
        failure.error,
        "https://example.com/.well-known/apple-app-site-association: HTTP 301"
    );
    let output = render::failure(&failure);
    assert!(output.starts_with(
        "error: https://example.com/.well-known/apple-app-site-association: HTTP 301\n\nsource:"
    ), "{output}");
    assert!(output.contains("redirect:     https://www.example.com/\n"), "{output}");
}

#[test]
fn the_network_check_and_the_offline_explanation_agree() {
    for (url, app) in [
        ("https://example.com/help/1?articleNumber=4815", Some(APP)),
        ("https://example.com/help/1?articleNumber=481", Some(APP)),
        ("https://example.com/help/website/x", Some(APP)),
        ("https://example.com/buy/1", None),
    ] {
        let check = check_universal_link(
            "example.com",
            app,
            url,
            FetchOptions::default(),
            fetched(MCP_DOCUMENT, Source::WellKnown),
        )
        .ok()
        .expect("answers");
        let explanation = explain_match(MCP_DOCUMENT, "example.com", app, url, LIMIT)
            .ok()
            .expect("answers");
        assert_eq!(check.decision, explanation.decision, "{url}");
        assert_eq!(check.explanation, explanation.explanation, "{url}");
        assert_eq!(check.notes, explanation.notes, "{url}");
        let left: Vec<(String, String)> =
            check.apps.iter().map(|a| (a.app_id.clone(), a.decision.to_owned())).collect();
        let right: Vec<(String, String)> =
            explanation.apps.iter().map(|a| (a.app_id.clone(), a.decision.to_owned())).collect();
        assert_eq!(left, right, "{url}");
    }
}

fn rank(severity: Severity) -> u8 {
    match severity {
        Severity::Info => 0,
        Severity::Warning => 1,
        Severity::Error => 2,
    }
}

#[test]
fn diagnostics_come_most_severe_first() {
    let document = r#"{"applinks":{"details":[
        {"appIDs":["ABCDE12345.com.example.app"],"components":[{"/":"*"},{"/":"/x"}]},
        {"components":[{"/":"/*"}]}
    ]}}"#;
    let validation = validate_association_file(document, LIMIT).ok().expect("parses");
    assert!(validation.diagnostics.len() >= 2, "{:?}", validation.diagnostics);
    for pair in validation.diagnostics.windows(2) {
        assert!(rank(pair[0].severity) >= rank(pair[1].severity), "{:?}", validation.diagnostics);
    }
    assert!(!validation_clean(&validation));
}

#[test]
fn exit_status_follows_the_answer() {
    let clean = validate_association_file(DOCUMENT, LIMIT).ok().unwrap();
    assert!(validation_clean(&clean));
    let report = fetch_association_file(
        "example.com",
        FetchOptions::default(),
        fetched(DOCUMENT, Source::WellKnown),
    )
    .ok()
    .unwrap();
    assert!(file_report_clean(&report));
    let same = compare_origin_and_cdn(
        "example.com",
        FetchOptions::default(),
        fetched(DOCUMENT, Source::WellKnown),
        fetched(DOCUMENT, Source::AppleCdn),
    )
    .ok()
    .unwrap();
    assert!(comparison_clean(&same));
    let older = r#"{"applinks":{"details":[{"appIDs":["X.y"],"components":[{"/":"/a"}]}]}}"#;
    let stale = compare_origin_and_cdn(
        "example.com",
        FetchOptions::default(),
        fetched(DOCUMENT, Source::WellKnown),
        fetched(older, Source::AppleCdn),
    )
    .ok()
    .unwrap();
    assert!(!comparison_clean(&stale));
}

#[test]
fn a_refused_domain_is_answered_with_the_url_and_the_reason() {
    let primary = match fetch_begin(Source::WellKnown, "localhost") {
        FetchStep::Finished(result) => result,
        FetchStep::Send { .. } => panic!("a refused domain must not ask for a request"),
    };
    let root = match fetch_begin(Source::Root, "localhost") {
        FetchStep::Finished(result) => result,
        FetchStep::Send { .. } => panic!("a refused domain must not ask for a request"),
    };
    let failure = read(Source::WellKnown, primary, Some(root)).err().unwrap();
    assert_eq!(
        failure.error,
        "https://localhost/.well-known/apple-app-site-association: `localhost` is not a public host"
    );
    assert!(failure.hosting.is_none());
}

#[test]
fn a_root_fallback_keeps_every_transport_fact() {
    let mut root = fetched(DOCUMENT, Source::Root);
    root.hosting.apple_headers = vec![("apple-from".to_owned(), "x".to_owned())];
    root.hosting.redirected_to = Some("https://example.com/y".to_owned());
    let primary = Err(Box::new(FetchError {
        source: Source::WellKnown,
        url: Source::WellKnown.url("example.com"),
        message: "HTTP 404".to_owned(),
        hosting: None,
    }));
    let found = read(Source::WellKnown, primary, Some(Ok(root))).ok().unwrap();
    assert_eq!(found.hosting.source, Source::Root);
    assert_eq!(found.hosting.content_type.as_deref(), Some("application/json"));
    assert_eq!(found.hosting.redirected_to.as_deref(), Some("https://example.com/y"));
    assert_eq!(found.hosting.apple_headers.len(), 1);
    assert_eq!(found.hosting.bytes, DOCUMENT.len());
    assert_eq!(found.hosting.notes.len(), 1);
}
