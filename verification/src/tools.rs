//! The tool implementations.
//!
//! Both front ends route through here. The MCP server and the command line are not two
//! implementations of the same answers: a `blazingly-aasa check` result and a
//! `check_universal_link` tool result come out of one function with one set of bounds.
//!
//! Everything the association file means is computed by `blazingly_aasa`; the calls into it stand
//! behind the trusted items at the top of this file, whose results are named by the
//! `aasa_*` specification functions. What this module decides, and proves, is how those answers
//! are combined into a tool result.

use vstd::prelude::*;
use vstd::utf8::encode_utf8;

use crate::fetch::{
    begins, domain_refusal, fetch_origin, opt_view, root_note, settled_read, source_url, Exchange,
    FetchError, FetchOptions, FetchStep, Fetched, Hosting, Source,
};
use crate::text::{insert_sorted, str_lt, string_views, strictly_sorted};

verus! {

// ------------------------------------------------------------------------------------------
// The values the tools read from `blazingly_aasa`, as plain values of this crate.
// ------------------------------------------------------------------------------------------

/// An Associated Domains service.
#[derive(Debug, Clone, Copy, PartialEq, Eq, Structural)]
pub enum Service {
    /// Universal links.
    AppLinks,
    /// Shared web credentials.
    WebCredentials,
    /// App Clips.
    AppClips,
    /// Handoff.
    ActivityContinuation,
}

/// The key a service uses in the association file.
pub open spec fn service_key(service: Service) -> Seq<char> {
    match service {
        Service::AppLinks => "applinks"@,
        Service::WebCredentials => "webcredentials"@,
        Service::AppClips => "appclips"@,
        Service::ActivityContinuation => "activitycontinuation"@,
    }
}

impl Service {
    /// The key this service uses in the association file.
    pub fn key(self) -> (key: &'static str)
        ensures
            key@ == service_key(self),
    {
        match self {
            Service::AppLinks => "applinks",
            Service::WebCredentials => "webcredentials",
            Service::AppClips => "appclips",
            Service::ActivityContinuation => "activitycontinuation",
        }
    }
}

/// How seriously to take a diagnostic.
#[derive(Debug, Clone, Copy, PartialEq, Eq, Structural)]
pub enum Severity {
    /// Informational: legal, but worth surfacing.
    Info,
    /// The document is usable but something is likely unintended.
    Warning,
    /// The document is malformed or self-contradictory.
    Error,
}

/// One validation finding.
#[derive(Debug)]
pub struct Diagnostic {
    /// Stable machine-readable code, for example `AASA110`.
    pub code: String,
    /// How seriously to take this finding.
    pub severity: Severity,
    /// Dotted path to the offending value.
    pub path: String,
    /// What is wrong.
    pub message: String,
    /// How to fix it, when there is a concrete suggestion.
    pub help: Option<String>,
}

/// A diagnostic as plain character sequences.
pub struct DiagnosticView {
    pub code: Seq<char>,
    pub severity: Severity,
    pub path: Seq<char>,
    pub message: Seq<char>,
    pub help: Option<Seq<char>>,
}

impl View for Diagnostic {
    type V = DiagnosticView;

    open spec fn view(&self) -> DiagnosticView {
        DiagnosticView {
            code: self.code@,
            severity: self.severity,
            path: self.path@,
            message: self.message@,
            help: opt_view(self.help),
        }
    }
}

/// How severe a finding is, from informational up to error.
pub open spec fn severity_rank(s: Severity) -> int {
    match s {
        Severity::Info => 0,
        Severity::Warning => 1,
        Severity::Error => 2,
    }
}

/// The findings come most severe first.
pub open spec fn most_severe_first(list: Seq<DiagnosticView>) -> bool {
    forall|i: int, j: int|
        0 <= i < j < list.len() ==> severity_rank((#[trigger] list[i]).severity) >= severity_rank(
            (#[trigger] list[j]).severity,
        )
}

/// The views of a list of diagnostics.
pub open spec fn diagnostic_views(v: Seq<Diagnostic>) -> Seq<DiagnosticView> {
    v.map_values(|d: Diagnostic| d@)
}

/// The outcome of matching a URL against a document.
#[derive(Debug, Clone, Copy, PartialEq, Eq, Structural)]
pub enum MatchDecision {
    /// A rule matched and did not exclude the URL.
    Match,
    /// The first matching rule set `exclude: true`.
    Exclude,
    /// No rule matched.
    NoMatch,
}

/// What matching one URL for one app produced.
#[derive(Debug)]
pub struct MatchSummary {
    /// The decision.
    pub decision: MatchDecision,
    /// The human-readable trace of the decision.
    pub explanation: String,
    /// Context that does not change the decision, such as a non-HTTPS scheme.
    pub notes: Vec<String>,
}

/// A match summary as plain values.
pub struct MatchView {
    pub decision: MatchDecision,
    pub explanation: Seq<char>,
    pub notes: Seq<Seq<char>>,
}

impl View for MatchSummary {
    type V = MatchView;

    open spec fn view(&self) -> MatchView {
        MatchView {
            decision: self.decision,
            explanation: self.explanation@,
            notes: string_views(self.notes@),
        }
    }
}

/// `blazingly_aasa::CompiledAasa`, carried through opaquely.
#[verifier::external_type_specification]
#[verifier::external_body]
pub struct ExCompiledAasa(blazingly_aasa::CompiledAasa);

/// `blazingly_aasa::SemanticChange`, carried through opaquely.
#[verifier::external_type_specification]
#[verifier::external_body]
pub struct ExSemanticChange(blazingly_aasa::SemanticChange);

/// A parsed and compiled association file, together with the bytes it was compiled from.
///
/// Only [`compile`] builds one, so `compiled` is always what `blazingly_aasa` made of `source`.
pub struct Association {
    compiled: blazingly_aasa::CompiledAasa,
    source: Ghost<Seq<u8>>,
}

impl View for Association {
    type V = Seq<u8>;

    /// The bytes the document was compiled from.
    closed spec fn view(&self) -> Seq<u8> {
        self.source@
    }
}

/// One behavioural difference between two files.
#[derive(Debug)]
pub struct Change {
    /// How the difference reads, as `blazingly_aasa` prints it.
    pub text: String,
    /// The difference itself.
    pub detail: blazingly_aasa::SemanticChange,
}

/// The texts of a list of changes.
pub open spec fn change_texts(v: Seq<Change>) -> Seq<Seq<char>> {
    v.map_values(|c: Change| c.text@)
}

// ------------------------------------------------------------------------------------------
// Names for what `blazingly_aasa` computes from a file's bytes.
// ------------------------------------------------------------------------------------------

/// Why `CompiledAasa::parse_with` refuses `bytes` under a `limit`-byte ceiling, or `None` when it
/// accepts them.
pub uninterp spec fn aasa_parse_failure(bytes: Seq<u8>, limit: usize) -> Option<Seq<char>>;

/// `CompiledAasa::apps_for_service` for the file made of `bytes`.
pub uninterp spec fn aasa_apps_for_service(bytes: Seq<u8>, service: Service) -> Seq<Seq<char>>;

/// `CompiledAasa::services_for_app` for the file made of `bytes`.
pub uninterp spec fn aasa_services_for_app(bytes: Seq<u8>, app_id: Seq<char>) -> Seq<Service>;

/// The diagnostics `CompiledAasa::validate` reports for the file made of `bytes`.
pub uninterp spec fn aasa_diagnostics(bytes: Seq<u8>) -> Seq<DiagnosticView>;

/// `CompiledAasa::apps_for_url`: every app the URL reaches with its decision, or why the URL
/// could not be split.
pub uninterp spec fn aasa_apps_for_url(bytes: Seq<u8>, domain: Seq<char>, url: Seq<char>) -> Result<
    Seq<(Seq<char>, MatchDecision)>,
    Seq<char>,
>;

/// `CompiledAasa::match_url`: the decision for one app with its printed trace and notes, or why
/// the URL could not be split.
pub uninterp spec fn aasa_match_url(
    bytes: Seq<u8>,
    domain: Seq<char>,
    app_id: Seq<char>,
    url: Seq<char>,
) -> Result<MatchView, Seq<char>>;

/// The printed changes `CompiledAasa::semantic_diff` finds between two files.
pub uninterp spec fn aasa_semantic_diff(left: Seq<u8>, right: Seq<u8>) -> Seq<Seq<char>>;

/// `CompiledAasa::structural_equal`: whether two files have the same wire model.
pub uninterp spec fn aasa_structural_equal(left: Seq<u8>, right: Seq<u8>) -> bool;

/// The decision an `apps_for_url` list gives `app_id`: its entry's decision, or no match.
pub open spec fn listed_decision(apps: Seq<(Seq<char>, MatchDecision)>, app_id: Seq<char>) -> MatchDecision {
    if exists|i: int| 0 <= i < apps.len() && (#[trigger] apps[i]).0 == app_id {
        apps[choose|i: int| 0 <= i < apps.len() && (#[trigger] apps[i]).0 == app_id].1
    } else {
        MatchDecision::NoMatch
    }
}

// ------------------------------------------------------------------------------------------
// The trusted calls into `blazingly_aasa`.
// ------------------------------------------------------------------------------------------

/// Parses and compiles a file with `CompiledAasa::parse_with` under a `limit`-byte ceiling.
///
/// Claims that the result is named by [`aasa_parse_failure`], and, as the crate documents and
/// its source shows, that a payload above the ceiling is refused.
#[verifier::external_body]
fn parse_association(bytes: &[u8], limit: usize) -> (r: Result<Association, String>)
    ensures
        r matches Ok(a) ==> a@ == bytes@ && aasa_parse_failure(bytes@, limit) is None,
        r matches Err(m) ==> aasa_parse_failure(bytes@, limit) == Some(m@),
        bytes@.len() > limit ==> r is Err,
{
    let options = blazingly_aasa::ParseOptions::new().max_bytes(limit);
    match blazingly_aasa::CompiledAasa::parse_with(bytes, &options) {
        Ok(compiled) => Ok(Association { compiled, source: Ghost(bytes@) }),
        Err(error) => Err(error.to_string()),
    }
}

/// `CompiledAasa::apps_for_service`; claims only that the result is the named one.
#[verifier::external_body]
fn apps_for_service(document: &Association, service: Service) -> (apps: Vec<String>)
    ensures
        string_views(apps@) == aasa_apps_for_service(document@, service),
{
    document
        .compiled
        .apps_for_service(match service {
            Service::AppLinks => blazingly_aasa::Service::AppLinks,
            Service::WebCredentials => blazingly_aasa::Service::WebCredentials,
            Service::AppClips => blazingly_aasa::Service::AppClips,
            Service::ActivityContinuation => blazingly_aasa::Service::ActivityContinuation,
        })
        .into_iter()
        .map(str::to_owned)
        .collect()
}

/// `CompiledAasa::services_for_app`; claims only that the result is the named one.
#[verifier::external_body]
fn services_for_app(document: &Association, app_id: &str) -> (services: Vec<Service>)
    ensures
        services@ == aasa_services_for_app(document@, app_id@),
{
    document
        .compiled
        .services_for_app(app_id)
        .into_iter()
        .map(|service| match service {
            blazingly_aasa::Service::AppLinks => Service::AppLinks,
            blazingly_aasa::Service::WebCredentials => Service::WebCredentials,
            blazingly_aasa::Service::AppClips => Service::AppClips,
            blazingly_aasa::Service::ActivityContinuation => Service::ActivityContinuation,
        })
        .collect()
}

/// `CompiledAasa::validate`, reduced to its diagnostics.
///
/// Claims that they are the named ones and, as `ValidationReport::diagnostics` documents and its
/// sort shows, that they come most severe first.
#[verifier::external_body]
fn diagnostics_of(document: &Association) -> (list: Vec<Diagnostic>)
    ensures
        diagnostic_views(list@) == aasa_diagnostics(document@),
        most_severe_first(diagnostic_views(list@)),
{
    let report = document.compiled.validate();
    let severity = |s: blazingly_aasa::Severity| match s {
        blazingly_aasa::Severity::Info => Severity::Info,
        blazingly_aasa::Severity::Warning => Severity::Warning,
        blazingly_aasa::Severity::Error => Severity::Error,
    };
    report.diagnostics().iter().map(|d| Diagnostic {
        code: d.code.as_str().to_owned(),
        severity: severity(d.severity),
        path: d.path.clone(),
        message: d.message.clone(),
        help: d.help.clone(),
    }).collect()
}

/// The pairs of a list of `(app, decision)` entries as plain values.
pub open spec fn app_decision_views(v: Seq<(String, MatchDecision)>) -> Seq<(Seq<char>, MatchDecision)> {
    v.map_values(|p: (String, MatchDecision)| (p.0@, p.1))
}

/// `CompiledAasa::apps_for_url`.
///
/// Besides naming the result, claims what the crate documents for it: apps whose verdict is no
/// match are omitted, and an app appears at most once.
#[verifier::external_body]
fn apps_for_url(document: &Association, domain: &str, url: &str) -> (r: Result<Vec<(String, MatchDecision)>, String>)
    ensures
        r matches Ok(v) ==> (aasa_apps_for_url(document@, domain@, url@) matches Ok(listed) && listed == app_decision_views(v@)),
        r matches Err(m) ==> (aasa_apps_for_url(document@, domain@, url@) matches Err(reason) && reason == m@),
        r matches Ok(v) ==> forall|i: int|
            0 <= i < v@.len() ==> (#[trigger] v@[i]).1 != MatchDecision::NoMatch,
        r matches Ok(v) ==> forall|i: int|
            0 <= i < v@.len() ==> forall|j: int|
                i < j < v@.len() ==> (#[trigger] v@[i]).0@ != (#[trigger] v@[j]).0@,
{
    match document.compiled.apps_for_url(domain, url) {
        Ok(apps) => Ok(
            apps.into_iter().map(|(app_id, decision)| (app_id, match decision {
                blazingly_aasa::MatchDecision::Match => MatchDecision::Match,
                blazingly_aasa::MatchDecision::Exclude => MatchDecision::Exclude,
                blazingly_aasa::MatchDecision::NoMatch => MatchDecision::NoMatch,
            })).collect(),
        ),
        Err(error) => Err(error.to_string()),
    }
}

/// `CompiledAasa::match_url`, reduced to its decision, its printed trace and its notes.
///
/// Besides naming the result, claims what the crate documents: `match_url` splits the URL as
/// `apps_for_url` does, so the two fail together with the same message, and it decides as
/// `apps_for_url` lists, since both take an app's verdict from the first entry that matched.
#[verifier::external_body]
fn match_url(document: &Association, domain: &str, app_id: &str, url: &str) -> (r: Result<MatchSummary, String>)
    ensures
        r matches Ok(m) ==> (aasa_match_url(document@, domain@, app_id@, url@) matches Ok(named) && named == m@),
        r matches Err(e) ==> (aasa_match_url(document@, domain@, app_id@, url@) matches Err(reason) && reason == e@),
        r is Err <==> aasa_apps_for_url(document@, domain@, url@) is Err,
        r matches Err(e) ==> (aasa_apps_for_url(document@, domain@, url@) matches Err(reason) && reason == e@),
        r matches Ok(m) ==> (aasa_apps_for_url(document@, domain@, url@) matches Ok(apps)
            && m.decision == listed_decision(apps, app_id@)),
{
    match document.compiled.match_url(domain, app_id, url) {
        Ok(result) => Ok(
            MatchSummary {
                decision: match result.decision {
                    blazingly_aasa::MatchDecision::Match => MatchDecision::Match,
                    blazingly_aasa::MatchDecision::Exclude => MatchDecision::Exclude,
                    blazingly_aasa::MatchDecision::NoMatch => MatchDecision::NoMatch,
                },
                explanation: result.to_string(),
                notes: result.notes.clone(),
            },
        ),
        Err(error) => Err(error.to_string()),
    }
}

/// `CompiledAasa::semantic_diff`, each change paired with its printed form.
///
/// Claims that the printed forms are the named ones and that files with the same wire model
/// differ in nothing: `semantic_diff` reads only what `compile` made of that model.
#[verifier::external_body]
fn semantic_diff(left: &Association, right: &Association) -> (changes: Vec<Change>)
    ensures
        change_texts(changes@) == aasa_semantic_diff(left@, right@),
        aasa_structural_equal(left@, right@) ==> changes@.len() == 0,
{
    left.compiled
        .semantic_diff(&right.compiled)
        .changes()
        .iter()
        .map(|change| Change { text: change.to_string(), detail: change.clone() })
        .collect()
}

/// `CompiledAasa::structural_equal`; claims only that the result is the named one.
#[verifier::external_body]
fn structural_equal(left: &Association, right: &Association) -> (equal: bool)
    ensures
        equal == aasa_structural_equal(left@, right@),
{
    left.compiled.structural_equal(&right.compiled)
}

// ------------------------------------------------------------------------------------------
// Tool results.
// ------------------------------------------------------------------------------------------

/// What went wrong, in a shape both front ends can render.
#[derive(Debug)]
pub struct Failure {
    /// A human-readable explanation.
    pub error: String,
    /// Transport facts, when the failure happened after a response arrived.
    pub hosting: Option<Box<Hosting>>,
}

impl Failure {
    fn new(error: String) -> (f: Self)
        ensures
            f.error == error,
            f.hosting is None,
    {
        Failure { error, hosting: None }
    }
}

/// What a tool returns: its answer, or a [`Failure`].
pub type Outcome<T> = Result<T, Failure>;

/// One app's verdict for a URL.
#[derive(Debug)]
pub struct AppVerdict {
    /// The application identifier.
    pub app_id: String,
    /// `match`, `exclude`, or `no_match`.
    pub decision: &'static str,
}

/// The answer to "why doesn't this link open my app?".
#[derive(Debug)]
pub struct LinkCheck {
    /// The domain that was read.
    pub domain: String,
    /// The URL under test.
    pub url: String,
    /// Transport facts about the file that was read.
    pub hosting: Hosting,
    /// Diagnostics from validating the file.
    pub diagnostics: Vec<Diagnostic>,
    /// The decision for the requested app, when one was named.
    pub decision: Option<&'static str>,
    /// A human-readable trace of that decision.
    pub explanation: Option<String>,
    /// The services the file grants the requested app.
    pub services: Option<Vec<Service>>,
    /// Every app the URL reaches. Always present, and the whole answer when no app was named.
    pub apps: Vec<AppVerdict>,
    /// Context that does not change the decision, such as a non-HTTPS scheme.
    pub notes: Vec<String>,
}

/// A file that was read and validated.
#[derive(Debug)]
pub struct FileReport {
    /// The domain that was read.
    pub domain: String,
    /// Transport facts.
    pub hosting: Hosting,
    /// Diagnostics from validating the file.
    pub diagnostics: Vec<Diagnostic>,
    /// Whether any diagnostic was an error.
    pub has_errors: bool,
    /// Every app named anywhere in the file, with the services it is granted.
    pub apps: Vec<AppServices>,
}

/// One app and what the file grants it.
#[derive(Debug)]
pub struct AppServices {
    /// The application identifier.
    pub app_id: String,
    /// The services it appears under.
    pub services: Vec<Service>,
}

/// The result of comparing what a site serves against what Apple's CDN serves.
#[derive(Debug)]
pub struct CdnComparison {
    /// The domain that was read.
    pub domain: String,
    /// Transport facts for the origin.
    pub origin: Hosting,
    /// Transport facts for the CDN.
    pub apple_cdn: Hosting,
    /// Whether the two make the same decisions for every app.
    pub equivalent: bool,
    /// The behavioural differences, empty when equivalent.
    pub changes: Vec<Change>,
    /// Whether the two files are also identical in structure.
    pub structurally_identical: bool,
}

/// Validation of a document supplied by the caller.
#[derive(Debug)]
pub struct Validation {
    /// Diagnostics, most severe first.
    pub diagnostics: Vec<Diagnostic>,
    /// Whether any diagnostic was an error.
    pub has_errors: bool,
    /// Every app named anywhere in the file, with the services it is granted.
    pub apps: Vec<AppServices>,
}

/// A match against a document supplied by the caller.
#[derive(Debug)]
pub struct Explanation {
    /// The decision for the requested app, when one was named.
    pub decision: Option<&'static str>,
    /// A human-readable trace.
    pub explanation: Option<String>,
    /// Every app the URL reaches.
    pub apps: Vec<AppVerdict>,
    /// Context that does not change the decision.
    pub notes: Vec<String>,
}

// ------------------------------------------------------------------------------------------
// What the results must hold.
// ------------------------------------------------------------------------------------------

/// The name a decision is reported under.
pub open spec fn decision_text(decision: MatchDecision) -> Seq<char> {
    match decision {
        MatchDecision::Match => "match"@,
        MatchDecision::Exclude => "exclude"@,
        MatchDecision::NoMatch => "no_match"@,
    }
}

/// Verdicts as `(app, decision name)` pairs.
pub open spec fn verdict_views(v: Seq<AppVerdict>) -> Seq<(Seq<char>, Seq<char>)> {
    v.map_values(|a: AppVerdict| (a.app_id@, a.decision@))
}

/// An `apps_for_url` list as `(app, decision name)` pairs.
pub open spec fn named_verdicts(apps: Seq<(Seq<char>, MatchDecision)>) -> Seq<(Seq<char>, Seq<char>)> {
    apps.map_values(|a: (Seq<char>, MatchDecision)| (a.0, decision_text(a.1)))
}

/// The application identifiers of a list of app entries.
pub open spec fn app_ids(v: Seq<AppServices>) -> Seq<Seq<char>> {
    v.map_values(|a: AppServices| a.app_id@)
}

/// Whether `app_id` is listed under any service of the file made of `bytes`.
pub open spec fn listed_anywhere(bytes: Seq<u8>, app_id: Seq<char>) -> bool {
    aasa_apps_for_service(bytes, Service::AppLinks).contains(app_id) || aasa_apps_for_service(
        bytes,
        Service::WebCredentials,
    ).contains(app_id) || aasa_apps_for_service(bytes, Service::AppClips).contains(app_id)
        || aasa_apps_for_service(bytes, Service::ActivityContinuation).contains(app_id)
}

/// `apps` lists every app named anywhere in the file made of `bytes` exactly once, in string
/// order, each with the services the file grants it.
pub open spec fn lists_every_app(apps: Seq<AppServices>, bytes: Seq<u8>) -> bool {
    &&& strictly_sorted(app_ids(apps))
    &&& forall|x: Seq<char>| app_ids(apps).contains(x) <==> listed_anywhere(bytes, x)
    &&& forall|i: int|
        0 <= i < apps.len() ==> (#[trigger] apps[i]).services@ == aasa_services_for_app(
            bytes,
            apps[i].app_id@,
        )
}

/// Whether any diagnostic is an error.
pub open spec fn any_error(list: Seq<DiagnosticView>) -> bool {
    exists|i: int| 0 <= i < list.len() && (#[trigger] list[i]).severity == Severity::Error
}

/// The failure a read becomes: the error as one line, with its transport facts.
pub open spec fn failure_from(f: Failure, e: FetchError) -> bool {
    &&& f.error@ == e.url@ + ": "@ + e.message@
    &&& match e.hosting {
        Some(h) => f.hosting matches Some(b) && *b == h,
        None => f.hosting is None,
    }
}

/// The view of an optional `&str`.
pub open spec fn opt_str_view(o: Option<&str>) -> Option<Seq<char>> {
    match o {
        Some(s) => Some(s@),
        None => None,
    }
}

/// The bytes of a string.
pub open spec fn text_bytes(s: Seq<char>) -> Seq<u8> {
    encode_utf8(s)
}

// ------------------------------------------------------------------------------------------
// The tools.
// ------------------------------------------------------------------------------------------

/// The name a decision is reported under.
pub fn decision_name(decision: MatchDecision) -> (name: &'static str)
    ensures
        name@ == decision_text(decision),
{
    match decision {
        MatchDecision::Match => "match",
        MatchDecision::Exclude => "exclude",
        MatchDecision::NoMatch => "no_match",
    }
}

/// Parses and compiles; a refusal becomes a failure carrying the parser's message.
fn compile(bytes: &[u8], limit: usize) -> (r: Outcome<Association>)
    ensures
        r matches Ok(a) ==> a@ == bytes@ && aasa_parse_failure(bytes@, limit) is None,
        r matches Err(f) ==> aasa_parse_failure(bytes@, limit) == Some(f.error@) && f.hosting is None,
        bytes@.len() > limit ==> r is Err,
{
    match parse_association(bytes, limit) {
        Ok(document) => Ok(document),
        Err(message) => Err(Failure::new(message)),
    }
}

/// Every app named anywhere in the file, once each, sorted, with its services.
fn app_services(document: &Association) -> (apps: Vec<AppServices>)
    ensures
        lists_every_app(apps@, document@),
{
    let mut names: Vec<String> = Vec::new();
    let services = [
        Service::AppLinks,
        Service::WebCredentials,
        Service::AppClips,
        Service::ActivityContinuation,
    ];
    let mut k: usize = 0;
    while k < 4
        invariant
            k <= 4,
            services@ == seq![
                Service::AppLinks,
                Service::WebCredentials,
                Service::AppClips,
                Service::ActivityContinuation,
            ],
            strictly_sorted(string_views(names@)),
            forall|x: Seq<char>|
                string_views(names@).contains(x) <==> exists|j: int|
                    0 <= j < k && #[trigger] aasa_apps_for_service(document@, services@[j]).contains(
                        x,
                    ),
        decreases 4 - k,
    {
        let listed = apps_for_service(document, services[k]);
        let ghost before = string_views(names@);
        assert(forall|x: Seq<char>|
            before.contains(x) <==> exists|j: int|
                0 <= j < k && #[trigger] aasa_apps_for_service(document@, services@[j]).contains(
                    x,
                ));
        let mut i: usize = 0;
        while i < listed.len()
            invariant
                k < 4,
                forall|x: Seq<char>|
                    before.contains(x) <==> exists|j: int|
                        0 <= j < k && #[trigger] aasa_apps_for_service(
                            document@,
                            services@[j],
                        ).contains(x),
                i <= listed@.len(),
                strictly_sorted(string_views(names@)),
                forall|x: Seq<char>|
                    string_views(names@).contains(x) <==> (before.contains(x) || string_views(
                        listed@,
                    ).take(i as int).contains(x)),
            decreases listed.len() - i,
        {
            let ghost mid = string_views(names@);
            assert(forall|x: Seq<char>|
                mid.contains(x) <==> (before.contains(x) || string_views(listed@).take(
                    i as int,
                ).contains(x)));
            insert_sorted(&mut names, listed[i].as_str());
            proof {
                let lv = string_views(listed@);
                let pre = lv.take(i as int);
                let post = lv.take(i as int + 1);
                let item = lv[i as int];
                assert(item == listed@[i as int]@);
                assert(post =~= pre.push(item));
                assert forall|x: Seq<char>| post.contains(x) <==> (pre.contains(x) || x == item) by {
                    if post.contains(x) {
                        let t = choose|t: int| 0 <= t < post.len() && post[t] == x;
                        if t < i {
                            assert(pre[t] == x);
                        }
                    }
                    if pre.contains(x) {
                        let t = choose|t: int| 0 <= t < pre.len() && pre[t] == x;
                        assert(post[t] == x);
                    }
                    if x == item {
                        assert(post[i as int] == x);
                    }
                }
                assert forall|x: Seq<char>| string_views(names@).contains(x) <==> (before.contains(
                    x,
                ) || post.contains(x)) by {
                    assert(string_views(names@).contains(x) <==> (mid.contains(x) || x == item));
                    assert(mid.contains(x) <==> (before.contains(x) || pre.contains(x)));
                }
            }
            i = i + 1;
        }
        proof {
            let lv = string_views(listed@);
            assert(i == listed@.len());
            assert(lv.take(i as int) =~= lv);
            assert(lv == aasa_apps_for_service(document@, services@[k as int]));
            assert forall|x: Seq<char>| #[trigger] string_views(names@).contains(x) implies exists|
                j: int,
            | 0 <= j < k + 1 && #[trigger] aasa_apps_for_service(document@, services@[j]).contains(
                x,
            ) by {
                assert(before.contains(x) || lv.contains(x));
                if before.contains(x) {
                    let j = choose|j: int|
                        0 <= j < k && #[trigger] aasa_apps_for_service(
                            document@,
                            services@[j],
                        ).contains(x);
                    assert(0 <= j < k + 1 && aasa_apps_for_service(
                        document@,
                        services@[j],
                    ).contains(x));
                } else {
                    assert(aasa_apps_for_service(document@, services@[k as int]).contains(x));
                }
            }
            assert forall|x: Seq<char>, j: int|
                0 <= j < k + 1 && #[trigger] aasa_apps_for_service(
                    document@,
                    services@[j],
                ).contains(x) implies string_views(names@).contains(x) by {
                if j < k {
                    assert(before.contains(x));
                } else {
                    assert(j == k);
                    assert(lv.contains(x));
                    assert(lv.take(i as int).contains(x));
                }
            }
        }
        k = k + 1;
    }
    proof {
        assert forall|x: Seq<char>| string_views(names@).contains(x) <==> listed_anywhere(
            document@,
            x,
        ) by {
            if listed_anywhere(document@, x) {
                if aasa_apps_for_service(document@, Service::AppLinks).contains(x) {
                    assert(aasa_apps_for_service(document@, services@[0]).contains(x));
                } else if aasa_apps_for_service(document@, Service::WebCredentials).contains(x) {
                    assert(aasa_apps_for_service(document@, services@[1]).contains(x));
                } else if aasa_apps_for_service(document@, Service::AppClips).contains(x) {
                    assert(aasa_apps_for_service(document@, services@[2]).contains(x));
                } else {
                    assert(aasa_apps_for_service(document@, services@[3]).contains(x));
                }
            }
        }
    }
    let mut apps: Vec<AppServices> = Vec::new();
    let mut i: usize = 0;
    while i < names.len()
        invariant
            i <= names@.len(),
            apps@.len() == i,
            forall|t: int| 0 <= t < i ==> (#[trigger] apps@[t]).app_id@ == names@[t]@,
            forall|t: int|
                0 <= t < i ==> (#[trigger] apps@[t]).services@ == aasa_services_for_app(
                    document@,
                    apps@[t].app_id@,
                ),
        decreases names.len() - i,
    {
        let app_id = names[i].clone();
        let services = services_for_app(document, app_id.as_str());
        apps.push(AppServices { app_id, services });
        i = i + 1;
    }
    assert(app_ids(apps@) =~= string_views(names@));
    apps
}

/// Every app the URL reaches, with its decision name.
fn verdicts(document: &Association, domain: &str, url: &str) -> (r: Outcome<Vec<AppVerdict>>)
    ensures
        match aasa_apps_for_url(document@, domain@, url@) {
            Ok(apps) => r matches Ok(v) && verdict_views(v@) == named_verdicts(apps) && reach_list(
                apps,
            ),
            Err(m) => r matches Err(f) && f.error@ == "invalid URL: "@ + m && f.hosting is None,
        },
{
    match apps_for_url(document, domain, url) {
        Ok(apps) => {
            let mut v: Vec<AppVerdict> = Vec::new();
            let mut i: usize = 0;
            while i < apps.len()
                invariant
                    i <= apps@.len(),
                    verdict_views(v@) == named_verdicts(app_decision_views(apps@.take(i as int))),
                decreases apps.len() - i,
            {
                let ghost before = verdict_views(v@);
                let app_id = apps[i].0.clone();
                let decision = decision_name(apps[i].1);
                let ghost entry = (app_id@, decision@);
                v.push(AppVerdict { app_id, decision });
                proof {
                    let pre = apps@.take(i as int);
                    let post = apps@.take(i as int + 1);
                    assert(post =~= pre.push(apps@[i as int]));
                    assert(app_decision_views(post) =~= app_decision_views(pre).push(
                        (apps@[i as int].0@, apps@[i as int].1),
                    ));
                    assert(named_verdicts(app_decision_views(post)) =~= named_verdicts(
                        app_decision_views(pre),
                    ).push((apps@[i as int].0@, decision_text(apps@[i as int].1))));
                    assert(verdict_views(v@) =~= before.push(entry));
                }
                i = i + 1;
            }
            assert(apps@.take(apps@.len() as int) =~= apps@);
            proof {
                let listed = app_decision_views(apps@);
                assert forall|i: int, j: int| 0 <= i < j < listed.len() implies (
                #[trigger] listed[i]).0 != (#[trigger] listed[j]).0 by {
                    assert(listed[i].0 == apps@[i].0@ && listed[j].0 == apps@[j].0@);
                }
                assert forall|i: int| 0 <= i < listed.len() implies (
                #[trigger] listed[i]).1 != MatchDecision::NoMatch by {
                    assert(listed[i].1 == apps@[i].1);
                }
            }
            Ok(v)
        },
        Err(message) => {
            let mut error = String::from_str("invalid URL: ");
            error.append(message.as_str());
            Err(Failure::new(error))
        },
    }
}

/// The decision for one app, with its trace.
fn matched(document: &Association, domain: &str, app_id: &str, url: &str) -> (r: Outcome<
    MatchSummary,
>)
    ensures
        match aasa_match_url(document@, domain@, app_id@, url@) {
            Ok(m) => r matches Ok(s) && s@ == m,
            Err(m) => r matches Err(f) && f.error@ == "invalid URL: "@ + m && f.hosting is None,
        },
        r is Err <==> aasa_apps_for_url(document@, domain@, url@) is Err,
        r matches Ok(s) ==> (aasa_apps_for_url(document@, domain@, url@) matches Ok(apps)
            && s.decision == listed_decision(apps, app_id@)),
{
    match match_url(document, domain, app_id, url) {
        Ok(result) => Ok(result),
        Err(message) => {
            let mut error = String::from_str("invalid URL: ");
            error.append(message.as_str());
            Err(Failure::new(error))
        },
    }
}

/// The failure a read error becomes.
fn failure_of(error: Box<FetchError>) -> (f: Failure)
    ensures
        failure_from(f, *error),
{
    let error = *error;
    let text = error.describe();
    let hosting = match error.hosting {
        Some(h) => Some(Box::new(h)),
        None => None,
    };
    Failure { error: text, hosting }
}

/// `f` is `found` as read from the root location: the same file and transport facts, with a note
/// that it was not found where Apple documents it.
pub open spec fn found_at_root(f: Fetched, found: Fetched) -> bool {
    &&& f.body == found.body
    &&& f.hosting.source == found.hosting.source
    &&& f.hosting.url == found.hosting.url
    &&& f.hosting.status == found.hosting.status
    &&& f.hosting.content_type == found.hosting.content_type
    &&& f.hosting.bytes == found.hosting.bytes
    &&& f.hosting.redirected_to == found.hosting.redirected_to
    &&& f.hosting.apple_headers == found.hosting.apple_headers
    &&& string_views(f.hosting.notes@) == string_views(found.hosting.notes@).push(root_note())
}

/// `r` settles a read of `source` whose location gave `primary` and, for the `.well-known`
/// location, whose root location gave `fallback` when it was read.
pub open spec fn reads(
    r: Outcome<Fetched>,
    source: Source,
    primary: Result<Fetched, Box<FetchError>>,
    fallback: Option<Result<Fetched, Box<FetchError>>>,
) -> bool {
    match primary {
        Ok(found) => r == Ok::<Fetched, Failure>(found),
        Err(e) => if source == Source::WellKnown && fallback matches Some(Ok(found)) {
            r matches Ok(f) && found_at_root(f, fallback->Some_0->Ok_0)
        } else {
            r matches Err(f) && failure_from(f, *e)
        },
    }
}

/// Settles a read of `source`: the `.well-known` location falls back to the root location
/// (`fallback` is what reading it gave, when it was read), other sources stand alone, and an
/// error becomes a [`Failure`] that keeps the transport facts.
pub fn read(
    source: Source,
    primary: Result<Fetched, Box<FetchError>>,
    fallback: Option<Result<Fetched, Box<FetchError>>>,
) -> (r: Outcome<Fetched>)
    ensures
        reads(r, source, primary, fallback),
{
    let result = if source == Source::WellKnown {
        fetch_origin(primary, fallback)
    } else {
        primary
    };
    match result {
        Ok(found) => Ok(found),
        Err(error) => Err(failure_of(error)),
    }
}

/// A refused domain never reaches the network: reading it asks for no request at either
/// location, and whatever the network would have answered, the read fails with the URL and the
/// reason, carrying no transport facts.
pub proof fn lemma_refused_domain_never_reaches_the_network(
    source: Source,
    domain: Seq<char>,
    options: FetchOptions,
    step: FetchStep,
    exchange: Exchange,
    primary: Result<Fetched, Box<FetchError>>,
    root_step: FetchStep,
    root_exchange: Exchange,
    fallback: Option<Result<Fetched, Box<FetchError>>>,
    r: Outcome<Fetched>,
)
    requires
        domain_refusal(domain) is Some,
        begins(step, source, domain),
        settled_read(primary, step, source, domain, options, exchange),
        begins(root_step, Source::Root, domain),
        fallback matches Some(root) ==> settled_read(
            root,
            root_step,
            Source::Root,
            domain,
            options,
            root_exchange,
        ),
        reads(r, source, primary, fallback),
    ensures
        step is Finished,
        root_step is Finished,
        r matches Err(f) && f.hosting is None && f.error@ == source_url(source, domain) + ": "@
            + domain_refusal(domain)->Some_0,
{
}

/// Why a URL question is refused: the URL could not be split.
pub open spec fn url_refusal(bytes: Seq<u8>, domain: Seq<char>, url: Seq<char>) -> Option<Seq<char>> {
    match aasa_apps_for_url(bytes, domain, url) {
        Err(m) => Some("invalid URL: "@ + m),
        Ok(_) => None,
    }
}

/// An `apps_for_url` list as the crate documents it: no app twice, and no app whose verdict is
/// no match.
pub open spec fn reach_list(listed: Seq<(Seq<char>, MatchDecision)>) -> bool {
    &&& forall|i: int| 0 <= i < listed.len() ==> (#[trigger] listed[i]).1 != MatchDecision::NoMatch
    &&& forall|i: int, j: int|
        0 <= i < j < listed.len() ==> (#[trigger] listed[i]).0 != (#[trigger] listed[j]).0
}

/// `apps`, `decision`, `explanation` and `notes` answer which apps `url` reaches and, when an
/// app is named, what is decided for it and why.
pub open spec fn answers_url(
    bytes: Seq<u8>,
    domain: Seq<char>,
    app_id: Option<Seq<char>>,
    url: Seq<char>,
    apps: Seq<AppVerdict>,
    decision: Option<&'static str>,
    explanation: Option<String>,
    notes: Seq<String>,
) -> bool {
    &&& aasa_apps_for_url(bytes, domain, url) matches Ok(listed) && verdict_views(apps)
        == named_verdicts(listed) && reach_list(listed) && match app_id {
        None => decision is None && explanation is None && notes.len() == 0,
        Some(a) => aasa_match_url(bytes, domain, a, url) matches Ok(m) && (decision matches Some(
            d,
        ) && d@ == decision_text(m.decision)) && opt_view(explanation) == Some(m.explanation)
            && string_views(notes) == m.notes && m.decision == listed_decision(listed, a),
    }
}

/// Whether any diagnostic in the list is an error.
fn has_error(list: &Vec<Diagnostic>) -> (r: bool)
    ensures
        r == any_error(diagnostic_views(list@)),
{
    let mut i: usize = 0;
    while i < list.len()
        invariant
            i <= list@.len(),
            forall|t: int| 0 <= t < i ==> (#[trigger] list@[t]).severity != Severity::Error,
        decreases list.len() - i,
    {
        if list[i].severity == Severity::Error {
            assert(diagnostic_views(list@)[i as int].severity == Severity::Error);
            return true;
        }
        i = i + 1;
    }
    proof {
        if any_error(diagnostic_views(list@)) {
            let t = choose|t: int|
                0 <= t < diagnostic_views(list@).len() && (#[trigger] diagnostic_views(
                    list@,
                )[t]).severity == Severity::Error;
            assert(list@[t].severity == Severity::Error);
        }
    }
    false
}

/// The outcome of a URL question: refused with the URL's problem, or answered.
pub open spec fn url_outcome<T>(
    r: Outcome<T>,
    bytes: Seq<u8>,
    domain: Seq<char>,
    url: Seq<char>,
    answered: spec_fn(T) -> bool,
) -> bool {
    match url_refusal(bytes, domain, url) {
        Some(m) => r matches Err(f) && f.error@ == m && f.hosting is None,
        None => r matches Ok(a) && answered(a),
    }
}

/// The outcome of a tool that first parses `bytes`: refused with the parser's message, or
/// `parsed`.
pub open spec fn parsed_outcome<T>(
    r: Outcome<T>,
    bytes: Seq<u8>,
    limit: usize,
    parsed: spec_fn(Outcome<T>) -> bool,
) -> bool {
    match aasa_parse_failure(bytes, limit) {
        Some(m) => r matches Err(f) && f.error@ == m && f.hosting is None,
        None => parsed(r),
    }
}

/// What `check_universal_link` answers for a file read as `fetched`.
pub open spec fn link_check_outcome(
    r: Outcome<LinkCheck>,
    domain: Seq<char>,
    app_id: Option<Seq<char>>,
    url: Seq<char>,
    limit: usize,
    fetched: Fetched,
) -> bool {
    let bytes = fetched.body@;
    parsed_outcome(
        r,
        bytes,
        limit,
        |r: Outcome<LinkCheck>|
            url_outcome(
                r,
                bytes,
                domain,
                url,
                |c: LinkCheck|
                    {
                        &&& c.domain@ == domain
                        &&& c.url@ == url
                        &&& c.hosting == fetched.hosting
                        &&& diagnostic_views(c.diagnostics@) == aasa_diagnostics(bytes)
                        &&& most_severe_first(diagnostic_views(c.diagnostics@))
                        &&& answers_url(
                            bytes,
                            domain,
                            app_id,
                            url,
                            c.apps@,
                            c.decision,
                            c.explanation,
                            c.notes@,
                        )
                        &&& match app_id {
                            Some(a) => c.services matches Some(sv) && sv@ == aasa_services_for_app(
                                bytes,
                                a,
                            ),
                            None => c.services is None,
                        }
                    },
            ),
    )
}

/// What `fetch_association_file` answers for a file read as `fetched`.
pub open spec fn file_report_outcome(
    r: Outcome<FileReport>,
    domain: Seq<char>,
    limit: usize,
    fetched: Fetched,
) -> bool {
    let bytes = fetched.body@;
    parsed_outcome(
        r,
        bytes,
        limit,
        |r: Outcome<FileReport>|
            r matches Ok(report) && {
                &&& report.domain@ == domain
                &&& report.hosting == fetched.hosting
                &&& diagnostic_views(report.diagnostics@) == aasa_diagnostics(bytes)
                &&& most_severe_first(diagnostic_views(report.diagnostics@))
                &&& report.has_errors == any_error(aasa_diagnostics(bytes))
                &&& lists_every_app(report.apps@, bytes)
            },
    )
}

/// What `compare_origin_and_cdn` answers for files read as `origin` and `cdn`.
pub open spec fn comparison_outcome(
    r: Outcome<CdnComparison>,
    domain: Seq<char>,
    limit: usize,
    origin: Fetched,
    cdn: Fetched,
) -> bool {
    parsed_outcome(
        r,
        origin.body@,
        limit,
        |r: Outcome<CdnComparison>|
            parsed_outcome(
                r,
                cdn.body@,
                limit,
                |r: Outcome<CdnComparison>|
                    r matches Ok(c) && {
                        &&& c.domain@ == domain
                        &&& c.origin == origin.hosting
                        &&& c.apple_cdn == cdn.hosting
                        &&& change_texts(c.changes@) == aasa_semantic_diff(origin.body@, cdn.body@)
                        &&& c.equivalent == (c.changes@.len() == 0)
                        &&& c.structurally_identical == aasa_structural_equal(
                            origin.body@,
                            cdn.body@,
                        )
                        &&& c.structurally_identical ==> c.equivalent
                    },
            ),
    )
}

/// What `validate_association_file` answers for `content`.
pub open spec fn validation_outcome(r: Outcome<Validation>, content: Seq<char>, limit: usize) -> bool {
    let bytes = text_bytes(content);
    parsed_outcome(
        r,
        bytes,
        limit,
        |r: Outcome<Validation>|
            r matches Ok(v) && {
                &&& diagnostic_views(v.diagnostics@) == aasa_diagnostics(bytes)
                &&& most_severe_first(diagnostic_views(v.diagnostics@))
                &&& v.has_errors == any_error(aasa_diagnostics(bytes))
                &&& lists_every_app(v.apps@, bytes)
            },
    )
}

/// What `explain_match` answers for `content`.
pub open spec fn explanation_outcome(
    r: Outcome<Explanation>,
    content: Seq<char>,
    domain: Seq<char>,
    app_id: Option<Seq<char>>,
    url: Seq<char>,
    limit: usize,
) -> bool {
    let bytes = text_bytes(content);
    parsed_outcome(
        r,
        bytes,
        limit,
        |r: Outcome<Explanation>|
            url_outcome(
                r,
                bytes,
                domain,
                url,
                |e: Explanation|
                    answers_url(
                        bytes,
                        domain,
                        app_id,
                        url,
                        e.apps@,
                        e.decision,
                        e.explanation,
                        e.notes@,
                    ),
            ),
    )
}

/// Answers which apps `url` reaches and, when `app_id` is given, what is decided for it.
fn answer_url(document: &Association, domain: &str, app_id: Option<&str>, url: &str) -> (r: Outcome<
    (Vec<AppVerdict>, Option<&'static str>, Option<String>, Vec<String>),
>)
    ensures
        url_outcome(
            r,
            document@,
            domain@,
            url@,
            |a: (Vec<AppVerdict>, Option<&'static str>, Option<String>, Vec<String>)|
                answers_url(document@, domain@, opt_str_view(app_id), url@, a.0@, a.1, a.2, a.3@),
        ),
{
    let apps = match verdicts(document, domain, url) {
        Ok(apps) => apps,
        Err(failure) => return Err(failure),
    };
    match app_id {
        Some(app_id) => {
            let result = match matched(document, domain, app_id, url) {
                Ok(result) => result,
                Err(failure) => return Err(failure),
            };
            let name = decision_name(result.decision);
            Ok((apps, Some(name), Some(result.explanation), result.notes))
        },
        None => Ok((apps, None, None, Vec::new())),
    }
}

/// Fetches a domain's association file and answers whether it lets an app open a URL.
///
/// `fetched` is the settled read of the domain's `.well-known` file (see [`read`]). With no
/// `app_id`, the answer is every app the URL reaches.
pub fn check_universal_link(
    domain: &str,
    app_id: Option<&str>,
    url: &str,
    options: crate::fetch::FetchOptions,
    fetched: Fetched,
) -> (r: Outcome<LinkCheck>)
    ensures
        link_check_outcome(r, domain@, opt_str_view(app_id), url@, options.max_bytes, fetched),
        fetched.body@.len() > options.max_bytes ==> r is Err,
{
    let compiled = match compile(fetched.body.as_slice(), options.max_bytes) {
        Ok(compiled) => compiled,
        Err(failure) => return Err(failure),
    };
    let diagnostics = diagnostics_of(&compiled);
    let (apps, decision, explanation, notes) = match answer_url(&compiled, domain, app_id, url) {
        Ok(answer) => answer,
        Err(failure) => return Err(failure),
    };
    let services = match app_id {
        Some(app_id) => Some(services_for_app(&compiled, app_id)),
        None => None,
    };
    Ok(
        LinkCheck {
            domain: String::from_str(domain),
            url: String::from_str(url),
            hosting: fetched.hosting,
            diagnostics,
            decision,
            explanation,
            services,
            apps,
            notes,
        },
    )
}

/// Validates a fetched association file.
///
/// `fetched` is the settled read of the chosen location for `domain` (see [`read`]); its
/// `hosting.source` says which location it was.
pub fn fetch_association_file(
    domain: &str,
    options: crate::fetch::FetchOptions,
    fetched: Fetched,
) -> (r: Outcome<FileReport>)
    ensures
        file_report_outcome(r, domain@, options.max_bytes, fetched),
        fetched.body@.len() > options.max_bytes ==> r is Err,
{
    let compiled = match compile(fetched.body.as_slice(), options.max_bytes) {
        Ok(compiled) => compiled,
        Err(failure) => return Err(failure),
    };
    let diagnostics = diagnostics_of(&compiled);
    let has_errors = has_error(&diagnostics);
    let apps = app_services(&compiled);
    Ok(
        FileReport {
            domain: String::from_str(domain),
            hosting: fetched.hosting,
            diagnostics,
            has_errors,
            apps,
        },
    )
}

/// Compares what a site serves against what Apple's CDN is handing to devices.
///
/// `origin` and `cdn` are the settled reads of the domain's `.well-known` file and of its CDN
/// copy (see [`read`]). The two are equivalent exactly when no behavioural change is found.
pub fn compare_origin_and_cdn(
    domain: &str,
    options: crate::fetch::FetchOptions,
    origin: Fetched,
    cdn: Fetched,
) -> (r: Outcome<CdnComparison>)
    ensures
        comparison_outcome(r, domain@, options.max_bytes, origin, cdn),
        origin.body@.len() > options.max_bytes || cdn.body@.len() > options.max_bytes ==> r is Err,
{
    let left = match compile(origin.body.as_slice(), options.max_bytes) {
        Ok(compiled) => compiled,
        Err(failure) => return Err(failure),
    };
    let right = match compile(cdn.body.as_slice(), options.max_bytes) {
        Ok(compiled) => compiled,
        Err(failure) => return Err(failure),
    };
    let changes = semantic_diff(&left, &right);
    let equivalent = changes.len() == 0;
    let structurally_identical = structural_equal(&left, &right);
    Ok(
        CdnComparison {
            domain: String::from_str(domain),
            origin: origin.hosting,
            apple_cdn: cdn.hosting,
            equivalent,
            changes,
            structurally_identical,
        },
    )
}

/// Validates a document the caller already holds. No network.
pub fn validate_association_file(content: &str, limit: usize) -> (r: Outcome<Validation>)
    ensures
        validation_outcome(r, content@, limit),
        text_bytes(content@).len() > limit ==> r is Err,
{
    let compiled = match compile(content.as_bytes(), limit) {
        Ok(compiled) => compiled,
        Err(failure) => return Err(failure),
    };
    let diagnostics = diagnostics_of(&compiled);
    let has_errors = has_error(&diagnostics);
    let apps = app_services(&compiled);
    Ok(Validation { diagnostics, has_errors, apps })
}

/// Matches a URL against a document the caller already holds. No network.
///
/// With no `app_id`, the answer is every app the URL reaches.
pub fn explain_match(
    content: &str,
    domain: &str,
    app_id: Option<&str>,
    url: &str,
    limit: usize,
) -> (r: Outcome<Explanation>)
    ensures
        explanation_outcome(r, content@, domain@, opt_str_view(app_id), url@, limit),
        text_bytes(content@).len() > limit ==> r is Err,
{
    let compiled = match compile(content.as_bytes(), limit) {
        Ok(compiled) => compiled,
        Err(failure) => return Err(failure),
    };
    let (apps, decision, explanation, notes) = match answer_url(&compiled, domain, app_id, url) {
        Ok(answer) => answer,
        Err(failure) => return Err(failure),
    };
    Ok(Explanation { decision, explanation, apps, notes })
}

/// Naming an app asks the same question as leaving it out: the decision reported for a named
/// app is the verdict it has among the apps the URL reaches, and `no_match` when the URL does not
/// reach it. Every app the URL reaches is reported as `match` or `exclude`, once.
pub proof fn lemma_named_decision_is_its_reach(
    bytes: Seq<u8>,
    domain: Seq<char>,
    app: Seq<char>,
    url: Seq<char>,
    apps: Seq<AppVerdict>,
    decision: Option<&'static str>,
    explanation: Option<String>,
    notes: Seq<String>,
)
    requires
        answers_url(bytes, domain, Some(app), url, apps, decision, explanation, notes),
    ensures
        decision is Some,
        forall|i: int|
            0 <= i < apps.len() && (#[trigger] apps[i]).app_id@ == app ==> decision.unwrap()@
                == apps[i].decision@,
        (forall|i: int| 0 <= i < apps.len() ==> (#[trigger] apps[i]).app_id@ != app)
            ==> decision.unwrap()@ == "no_match"@,
        forall|i: int|
            0 <= i < apps.len() ==> (#[trigger] apps[i]).decision@ == "match"@ || apps[i].decision@
                == "exclude"@,
        forall|i: int, j: int|
            0 <= i < j < apps.len() ==> (#[trigger] apps[i]).app_id@ != (#[trigger] apps[j]).app_id@,
{
    let listed = choose|listed: Seq<(Seq<char>, MatchDecision)>|
        aasa_apps_for_url(bytes, domain, url) == Ok::<Seq<(Seq<char>, MatchDecision)>, Seq<char>>(
            listed,
        );
    assert(aasa_apps_for_url(bytes, domain, url) matches Ok(l) && l == listed);
    assert(verdict_views(apps) == named_verdicts(listed));
    assert(apps.len() == listed.len()) by {
        assert(verdict_views(apps).len() == apps.len());
        assert(named_verdicts(listed).len() == listed.len());
    }
    assert forall|i: int| 0 <= i < apps.len() implies #[trigger] apps[i].app_id@ == listed[i].0
        && apps[i].decision@ == decision_text(listed[i].1) by {
        assert(verdict_views(apps)[i] == named_verdicts(listed)[i]);
    }
    assert forall|i: int|
        0 <= i < apps.len() && (#[trigger] apps[i]).app_id@ == app implies decision.unwrap()@
        == apps[i].decision@ by {
        assert(listed[i].0 == app);
        let k = choose|k: int| 0 <= k < listed.len() && (#[trigger] listed[k]).0 == app;
        if k != i {
            if k < i {
                assert(listed[k].0 != listed[i].0);
            } else {
                assert(listed[i].0 != listed[k].0);
            }
        }
    }
    if forall|i: int| 0 <= i < apps.len() ==> (#[trigger] apps[i]).app_id@ != app {
        assert forall|i: int| 0 <= i < listed.len() implies (#[trigger] listed[i]).0 != app by {
            assert(apps[i].app_id@ != app);
        }
    }
    assert forall|i: int| 0 <= i < apps.len() implies (#[trigger] apps[i]).decision@ == "match"@
        || apps[i].decision@ == "exclude"@ by {
        assert(listed[i].1 != MatchDecision::NoMatch);
    }
    assert forall|i: int, j: int|
        0 <= i < j < apps.len() implies (#[trigger] apps[i]).app_id@ != (
        #[trigger] apps[j]).app_id@ by {
        assert(listed[i].0 != listed[j].0);
    }
}

/// The network check and the offline explanation give one answer: reading a domain's file and
/// checking a URL against it says the same as handing the same bytes to `explain_match`. Both
/// refuse together, with the same message, and otherwise report the same apps, decision, trace
/// and notes.
pub proof fn lemma_check_agrees_with_explain(
    checked: Outcome<LinkCheck>,
    explained: Outcome<Explanation>,
    content: Seq<char>,
    fetched: Fetched,
    domain: Seq<char>,
    app_id: Option<Seq<char>>,
    url: Seq<char>,
    limit: usize,
)
    requires
        text_bytes(content) == fetched.body@,
        link_check_outcome(checked, domain, app_id, url, limit, fetched),
        explanation_outcome(explained, content, domain, app_id, url, limit),
    ensures
        checked is Ok <==> explained is Ok,
        checked matches Err(f) ==> explained matches Err(g) && f.error@ == g.error@,
        checked matches Ok(c) ==> explained matches Ok(e) && {
            &&& verdict_views(c.apps@) == verdict_views(e.apps@)
            &&& match (c.decision, e.decision) {
                (Some(x), Some(y)) => x@ == y@,
                (None, None) => true,
                _ => false,
            }
            &&& opt_view(c.explanation) == opt_view(e.explanation)
            &&& string_views(c.notes@) == string_views(e.notes@)
        },
{
    let bytes = fetched.body@;
    match aasa_parse_failure(bytes, limit) {
        Some(m) => {},
        None => {
            match url_refusal(bytes, domain, url) {
                Some(m) => {},
                None => {
                    let c = checked->Ok_0;
                    let e = explained->Ok_0;
                    assert(answers_url(bytes, domain, app_id, url, c.apps@, c.decision, c.explanation, c.notes@));
                    assert(answers_url(bytes, domain, app_id, url, e.apps@, e.decision, e.explanation, e.notes@));
                },
            }
        },
    }
}

/// Some service of the file made of `bytes` lists `app_id`.
pub open spec fn some_service_lists(bytes: Seq<u8>, app_id: Seq<char>) -> bool {
    exists|s: Service| #[trigger] aasa_apps_for_service(bytes, s).contains(app_id)
}

/// An app list names exactly the apps of the file: every app that `apps_for_service` lists for
/// any of the four services is in it, and everything in it is listed for some service.
proof fn lemma_app_list_is_every_service_app(apps: Seq<AppServices>, bytes: Seq<u8>)
    requires
        lists_every_app(apps, bytes),
    ensures
        forall|s: Service, a: Seq<char>|
            #[trigger] aasa_apps_for_service(bytes, s).contains(a) ==> exists|i: int|
                0 <= i < apps.len() && (#[trigger] apps[i]).app_id@ == a,
        forall|i: int| 0 <= i < apps.len() ==> some_service_lists(bytes, (#[trigger] apps[i]).app_id@),
{
    assert forall|s: Service, a: Seq<char>|
        #[trigger] aasa_apps_for_service(bytes, s).contains(a) implies exists|i: int|
        0 <= i < apps.len() && (#[trigger] apps[i]).app_id@ == a by {
        assert(listed_anywhere(bytes, a)) by {
            match s {
                Service::AppLinks => {},
                Service::WebCredentials => {},
                Service::AppClips => {},
                Service::ActivityContinuation => {},
            }
        }
        assert(app_ids(apps).contains(a));
        let i = choose|i: int| 0 <= i < app_ids(apps).len() && app_ids(apps)[i] == a;
        assert(apps[i].app_id@ == a);
    }
    assert forall|i: int| 0 <= i < apps.len() implies some_service_lists(
        bytes,
        (#[trigger] apps[i]).app_id@,
    ) by {
        let a = apps[i].app_id@;
        assert(app_ids(apps)[i] == a);
        assert(app_ids(apps).contains(a));
        assert(listed_anywhere(bytes, a));
        let s = if aasa_apps_for_service(bytes, Service::AppLinks).contains(a) {
            Service::AppLinks
        } else if aasa_apps_for_service(bytes, Service::WebCredentials).contains(a) {
            Service::WebCredentials
        } else if aasa_apps_for_service(bytes, Service::AppClips).contains(a) {
            Service::AppClips
        } else {
            Service::ActivityContinuation
        };
        assert(aasa_apps_for_service(bytes, s).contains(apps[i].app_id@));
    }
}

/// A fetched file's report lists every app the file names under any service, and nothing else.
pub proof fn lemma_file_report_lists_every_service_app(
    r: Outcome<FileReport>,
    domain: Seq<char>,
    limit: usize,
    fetched: Fetched,
)
    requires
        file_report_outcome(r, domain, limit, fetched),
        r is Ok,
    ensures
        forall|s: Service, a: Seq<char>|
            #[trigger] aasa_apps_for_service(fetched.body@, s).contains(a) ==> exists|i: int|
                0 <= i < r->Ok_0.apps@.len() && (#[trigger] r->Ok_0.apps@[i]).app_id@ == a,
        forall|i: int|
            0 <= i < r->Ok_0.apps@.len() ==> some_service_lists(
                fetched.body@,
                (#[trigger] r->Ok_0.apps@[i]).app_id@,
            ),
{
    lemma_app_list_is_every_service_app(r->Ok_0.apps@, fetched.body@);
}

/// A validated document's report lists every app it names under any service, and nothing else.
pub proof fn lemma_validation_lists_every_service_app(
    r: Outcome<Validation>,
    content: Seq<char>,
    limit: usize,
)
    requires
        validation_outcome(r, content, limit),
        r is Ok,
    ensures
        forall|s: Service, a: Seq<char>|
            #[trigger] aasa_apps_for_service(text_bytes(content), s).contains(a) ==> exists|i: int|
                0 <= i < r->Ok_0.apps@.len() && (#[trigger] r->Ok_0.apps@[i]).app_id@ == a,
        forall|i: int|
            0 <= i < r->Ok_0.apps@.len() ==> some_service_lists(
                text_bytes(content),
                (#[trigger] r->Ok_0.apps@[i]).app_id@,
            ),
{
    lemma_app_list_is_every_service_app(r->Ok_0.apps@, text_bytes(content));
}

} // verus!
