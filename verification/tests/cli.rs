use blazingly_aasa_mcp::cli::{parse_flags, plan, Command, USAGE};
use blazingly_aasa_mcp::fetch::{fetch_begin, FetchStep, Source};

fn args(list: &[&str]) -> Vec<String> {
    list.iter().map(|s| (*s).to_owned()).collect()
}

#[test]
fn help_lists_every_command() {
    assert!(matches!(plan(&args(&["--help"])), Ok(Command::Help)));
    assert!(matches!(plan(&args(&["check", "-h"])), Ok(Command::Help)));
    for command in ["check", "fetch", "compare", "validate", "explain"] {
        assert!(USAGE.contains(command), "help omits {command}");
    }
    assert!(
        USAGE.contains("Associated Domains entitlement"),
        "help should say what a result does not prove"
    );
}

#[test]
fn version_is_the_crate_version() {
    assert!(matches!(plan(&args(&["--version"])), Ok(Command::Version)));
    assert!(matches!(plan(&args(&["fetch", "-V"])), Ok(Command::Version)));
}

#[test]
fn no_arguments_serve_mcp() {
    match plan(&Vec::new()) {
        Ok(Command::Serve { options }) => assert_eq!(options.max_bytes, 131072),
        other => panic!("{other:?}"),
    }
}

#[test]
fn a_refused_domain_never_reaches_the_network() {
    // The guard runs before any request exists, so this is fast and offline.
    for domain in ["localhost", "127.0.0.1", "169.254.169.254", "https://example.com"] {
        match plan(&args(&["fetch", domain])) {
            Ok(Command::Fetch { domain: d, source, .. }) => {
                assert_eq!(d, domain);
                assert!(
                    matches!(fetch_begin(source, &d), FetchStep::Finished(Err(_))),
                    "{domain} should be refused before any request"
                );
            }
            other => panic!("{other:?}"),
        }
    }
}

#[test]
fn an_unknown_command_explains_itself() {
    let error = plan(&args(&["frobnicate"])).err().expect("refused");
    assert!(error.contains("frobnicate"));
    assert!(error.contains("blazingly-aasa check"));
    assert_eq!(error, format!("unknown command `frobnicate`\n\n{USAGE}"));
}

#[test]
fn flags_stand_anywhere_and_the_last_one_wins() {
    let (positional, flags) = parse_flags(&args(&[
        "--json",
        "example.com",
        "--app",
        "A.b",
        "https://example.com/x",
        "--timeout",
        "+30",
        "--max-bytes",
        "1024",
        "--app",
        "C.d",
        "-",
    ]))
    .unwrap();
    assert_eq!(positional, args(&["example.com", "https://example.com/x", "-"]));
    assert_eq!(flags.app.as_deref(), Some("C.d"));
    assert!(flags.json);
    assert!(!flags.cdn);
    assert_eq!(flags.timeout_seconds, 30);
    assert_eq!(flags.max_bytes, 1024);
    assert_eq!(flags.options().max_bytes, 1024);
}

#[test]
fn bad_flags_are_refused_with_a_reason() {
    assert_eq!(parse_flags(&args(&["--app"])).err().unwrap(), "--app needs a value");
    assert_eq!(parse_flags(&args(&["--timeout"])).err().unwrap(), "--timeout needs a value");
    assert_eq!(
        parse_flags(&args(&["--timeout", "ten"])).err().unwrap(),
        "--timeout needs a whole number of seconds"
    );
    assert_eq!(
        parse_flags(&args(&["--timeout", "18446744073709551616"])).err().unwrap(),
        "--timeout needs a whole number of seconds"
    );
    assert_eq!(parse_flags(&args(&["--timeout", "18446744073709551615"])).unwrap().1.timeout_seconds, u64::MAX);
    assert_eq!(
        parse_flags(&args(&["--max-bytes", "-1"])).err().unwrap(),
        "--max-bytes needs a whole number"
    );
    assert_eq!(parse_flags(&args(&["--bogus"])).err().unwrap(), "unknown option --bogus");
}

#[test]
fn commands_check_their_argument_count() {
    assert_eq!(
        plan(&args(&["check", "example.com"])).err().unwrap(),
        "usage: blazingly-aasa check <domain> <url> [--app <id>]"
    );
    assert_eq!(
        plan(&args(&["explain", "-", "example.com"])).err().unwrap(),
        "usage: blazingly-aasa explain <file|-> <domain> <url> [--app <id>]"
    );
    match plan(&args(&["fetch", "example.com", "--cdn"])) {
        Ok(Command::Fetch { source, flags, .. }) => {
            assert_eq!(source, Source::AppleCdn);
            assert!(flags.cdn);
        }
        other => panic!("{other:?}"),
    }
    match plan(&args(&["explain", "-", "example.com", "https://example.com/", "--app", "A.b"])) {
        Ok(Command::Explain { path, domain, url, flags }) => {
            assert_eq!((path.as_str(), domain.as_str(), url.as_str()), ("-", "example.com", "https://example.com/"));
            assert_eq!(flags.app.as_deref(), Some("A.b"));
        }
        other => panic!("{other:?}"),
    }
}
