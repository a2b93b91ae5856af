//! Human-readable rendering for the command line.
//!
//! The MCP side returns structured content; this turns the same values into something a person
//! reads in a terminal. Both come from one set of tool functions, so the two front ends cannot
//! disagree about an answer. Each rendering is stated exactly by a specification function of the
//! same name with `_text` appended.

use vstd::prelude::*;

use crate::fetch::{Hosting, opt_view, pair_views, source_label};
use crate::text::{
    append_each, append_padded, decimal, decimal_exec, join, join_exec, pad, string_views,
    wrap_each,
};
use crate::tools::{
    AppServices, AppVerdict, CdnComparison, Diagnostic, DiagnosticView, Explanation, Failure,
    FileReport, LinkCheck, Severity, Validation, change_texts, diagnostic_views, service_key,
    Service,
};

verus! {

/// The first lines of the transport facts: where, what status, what type, how large, and
/// where a redirect pointed.
pub open spec fn hosting_head_text(h: Hosting) -> Seq<char> {
    let header = "source:       "@ + h.url@ + " ("@ + source_label(h.source) + ")\n"@
        + "status:       "@ + decimal(h.status as nat) + "\n"@;
    let size = "size:         "@ + decimal(h.bytes as nat) + " bytes\n"@;
    header + content_type_line(h.content_type) + size + redirect_line(h.redirected_to)
}

/// The `content-type:` line, when the server sent one.
pub open spec fn content_type_line(content_type: Option<String>) -> Seq<char> {
    match content_type {
        Some(ct) => "content-type: "@ + ct@ + "\n"@,
        None => Seq::empty(),
    }
}

/// The `redirect:` line, when the server tried to redirect.
pub open spec fn redirect_line(location: Option<String>) -> Seq<char> {
    match location {
        Some(location) => "redirect:     "@ + location@ + "\n"@,
        None => Seq::empty(),
    }
}

/// The transport facts, one per line: the head, then Apple's headers, then the notes.
pub open spec fn hosting_text(h: Hosting) -> Seq<char> {
    hosting_head_text(h) + wrap_each(pair_lines(pair_views(h.apple_headers@)), Seq::empty(), "\n"@)
        + wrap_each(string_views(h.notes@), "  ! "@, "\n"@)
}

/// `name: value`.
pub open spec fn pair_line(p: (Seq<char>, Seq<char>)) -> Seq<char> {
    p.0 + ": "@ + p.1
}

/// `name: value` for each header pair.
pub open spec fn pair_lines(pairs: Seq<(Seq<char>, Seq<char>)>) -> Seq<Seq<char>> {
    pairs.map_values(|p: (Seq<char>, Seq<char>)| pair_line(p))
}

/// One line of the apps-reached block, without its indent.
pub open spec fn verdict_line(a: AppVerdict) -> Seq<char> {
    pad(a.decision@, 10) + " "@ + a.app_id@
}

/// The lines of the apps-reached block.
pub open spec fn verdict_lines(apps: Seq<AppVerdict>) -> Seq<Seq<char>> {
    apps.map_values(|a: AppVerdict| verdict_line(a))
}

/// One line of the app list, without its indent.
pub open spec fn app_line(a: AppServices) -> Seq<char> {
    pad(a.app_id@, 44) + " "@ + join(service_keys(a.services@), ", "@)
}

/// The lines of the app list.
pub open spec fn app_lines(apps: Seq<AppServices>) -> Seq<Seq<char>> {
    apps.map_values(|a: AppServices| app_line(a))
}

/// The lines of the diagnostics block.
pub open spec fn diagnostic_lines(list: Seq<DiagnosticView>) -> Seq<Seq<char>> {
    list.map_values(|d: DiagnosticView| diagnostic_text(d))
}

/// How a severity prints.
pub open spec fn severity_text(s: Severity) -> Seq<char> {
    match s {
        Severity::Info => "info"@,
        Severity::Warning => "warning"@,
        Severity::Error => "error"@,
    }
}

/// How a diagnostic prints: `severity [code] path: message`, then its help on a line of its own.
pub open spec fn diagnostic_text(d: DiagnosticView) -> Seq<char> {
    severity_text(d.severity) + " ["@ + d.code + "] "@ + d.path + ": "@ + d.message + match d.help {
        Some(help) => "\n  help: "@ + help,
        None => Seq::empty(),
    }
}

/// How many diagnostics have severity `s`.
pub open spec fn count_severity(list: Seq<DiagnosticView>, s: Severity) -> nat
    decreases list.len(),
{
    if list.len() == 0 {
        0
    } else {
        count_severity(list.drop_last(), s) + if list.last().severity == s {
            1nat
        } else {
            0nat
        }
    }
}

/// The diagnostics block.
pub open spec fn diagnostics_text(list: Seq<DiagnosticView>) -> Seq<char> {
    if list.len() == 0 {
        "\ndiagnostics:  none\n"@
    } else {
        "\ndiagnostics:  "@ + decimal(count_severity(list, Severity::Error)) + " error(s), "@
            + decimal(count_severity(list, Severity::Warning)) + " warning(s)\n"@ + wrap_each(
            diagnostic_lines(list),
            "  "@,
            "\n"@,
        )
    }
}

/// The block of apps a URL reaches.
pub open spec fn verdicts_text(apps: Seq<AppVerdict>) -> Seq<char> {
    if apps.len() == 0 {
        "\napps reached: none\n"@
    } else {
        "\napps reached:\n"@ + wrap_each(verdict_lines(apps), "  "@, "\n"@)
    }
}

/// The keys of a list of services.
pub open spec fn service_keys(services: Seq<Service>) -> Seq<Seq<char>> {
    services.map_values(|s: Service| service_key(s))
}

/// The block listing every app of a file with its services.
pub open spec fn app_list_text(apps: Seq<AppServices>) -> Seq<char> {
    if apps.len() == 0 {
        "\napps:         none\n"@
    } else {
        "\napps:\n"@ + wrap_each(app_lines(apps), "  "@, "\n"@)
    }
}

/// How a failure reads.
pub open spec fn failure_text(f: Failure) -> Seq<char> {
    "error: "@ + f.error@ + "\n"@ + match f.hosting {
        Some(h) => "\n"@ + hosting_text(*h),
        None => Seq::empty(),
    }
}

/// How a link check reads.
pub open spec fn link_check_text(c: LinkCheck) -> Seq<char> {
    let explanation = match c.explanation {
        Some(text) => "\n"@ + text@,
        None => Seq::empty(),
    };
    let services = match c.services {
        Some(list) => "\nservices:     "@ + (if list@.len() == 0 {
            "none"@
        } else {
            join(service_keys(list@), ", "@)
        }) + "\n"@,
        None => Seq::empty(),
    };
    "domain:       "@ + c.domain@ + "\n"@ + "url:          "@ + c.url@ + "\n"@ + hosting_text(
        c.hosting,
    ) + explanation + services + verdicts_text(c.apps@) + diagnostics_text(
        diagnostic_views(c.diagnostics@),
    ) + wrap_each(string_views(c.notes@), "\nnote: "@, "\n"@)
}

/// How a file report reads.
pub open spec fn file_report_text(r: FileReport) -> Seq<char> {
    "domain:       "@ + r.domain@ + "\n"@ + hosting_text(r.hosting) + app_list_text(r.apps@)
        + diagnostics_text(diagnostic_views(r.diagnostics@))
}

/// How an origin/CDN comparison reads.
pub open spec fn comparison_text(c: CdnComparison) -> Seq<char> {
    let head = "domain:       "@ + c.domain@ + "\n\n"@ + "origin\n"@ + hosting_text(c.origin)
        + "\napple cdn\n"@ + hosting_text(c.apple_cdn) + "\n"@;
    if c.equivalent {
        head + if c.structurally_identical {
            "identical: the CDN is serving the same file.\n"@
        } else {
            "equivalent: the two files are written differently but behave identically.\n"@
        }
    } else {
        head + "DIFFERENT: "@ + decimal(c.changes@.len()) + " policy change(s). Apple's CDN may be serving an older file.\n\n"@
            + wrap_each(change_texts(c.changes@), Seq::empty(), "\n"@)
    }
}

/// How an offline validation reads.
pub open spec fn validation_text(v: Validation) -> Seq<char> {
    app_list_text(v.apps@) + diagnostics_text(diagnostic_views(v.diagnostics@))
}

/// How an offline match reads.
pub open spec fn explanation_text(e: Explanation) -> Seq<char> {
    let explanation = match e.explanation {
        Some(text) => text@,
        None => Seq::empty(),
    };
    explanation + verdicts_text(e.apps@) + wrap_each(string_views(e.notes@), "\nnote: "@, "\n"@)
}

fn append_number(out: &mut String, n: usize)
    ensures
        final(out)@ == old(out)@ + decimal(n as nat),
{
    let text = decimal_exec(n as u64);
    out.append(text.as_str());
}

fn hosting_head(out: &mut String, facts: &Hosting)
    ensures
        final(out)@ == old(out)@ + hosting_head_text(*facts),
{
    let ghost start = out@;
    out.append("source:       ");
    out.append(facts.url.as_str());
    out.append(" (");
    out.append(facts.source.label());
    out.append(")\n");
    out.append("status:       ");
    append_number(out, facts.status as usize);
    out.append("\n");
    let ghost header = "source:       "@ + facts.url@ + " ("@ + source_label(facts.source) + ")\n"@
        + "status:       "@ + decimal(facts.status as nat) + "\n"@;
    assert(out@ =~= start + header);
    let ghost p1 = out@;
    if let Some(content_type) = &facts.content_type {
        out.append("content-type: ");
        out.append(content_type.as_str());
        out.append("\n");
    }
    let ghost content = content_type_line(facts.content_type);
    assert(out@ =~= p1 + content);
    let ghost p2 = out@;
    out.append("size:         ");
    append_number(out, facts.bytes);
    out.append(" bytes\n");
    let ghost size = "size:         "@ + decimal(facts.bytes as nat) + " bytes\n"@;
    assert(out@ =~= p2 + size);
    let ghost p3 = out@;
    if let Some(location) = &facts.redirected_to {
        out.append("redirect:     ");
        out.append(location.as_str());
        out.append("\n");
    }
    let ghost redirect = redirect_line(facts.redirected_to);
    assert(out@ =~= p3 + redirect);
    assert(hosting_head_text(*facts) == header + content + size + redirect);
    assert(out@ =~= start + (header + content + size + redirect));
}

fn header_lines(pairs: &Vec<(String, String)>) -> (lines: Vec<String>)
    ensures
        string_views(lines@) == pair_lines(pair_views(pairs@)),
{
    let mut lines: Vec<String> = Vec::new();
    let mut i: usize = 0;
    while i < pairs.len()
        invariant
            i <= pairs@.len(),
            string_views(lines@) == pair_lines(pair_views(pairs@.take(i as int))),
        decreases pairs.len() - i,
    {
        let mut line = String::from_str(pairs[i].0.as_str());
        line.append(": ");
        line.append(pairs[i].1.as_str());
        let ghost before = string_views(lines@);
        let ghost expected = pair_line((pairs@[i as int].0@, pairs@[i as int].1@));
        assert(line@ == expected);
        lines.push(line);
        proof {
            let pre = pairs@.take(i as int);
            let post = pairs@.take(i as int + 1);
            assert(post =~= pre.push(pairs@[i as int]));
            assert(pair_views(post) =~= pair_views(pre).push(
                (pairs@[i as int].0@, pairs@[i as int].1@),
            ));
            assert(pair_lines(pair_views(post)) =~= pair_lines(pair_views(pre)).push(expected));
            assert(string_views(lines@) =~= before.push(expected));
        }
        i = i + 1;
    }
    assert(pairs@.take(pairs@.len() as int) =~= pairs@);
    lines
}

fn hosting(out: &mut String, facts: &Hosting)
    ensures
        final(out)@ == old(out)@ + hosting_text(*facts),
{
    let ghost start = out@;
    hosting_head(out, facts);
    let lines = header_lines(&facts.apple_headers);
    proof {
        reveal_strlit("");
        assert(""@ =~= Seq::<char>::empty());
    }
    append_each(out, &lines, "", "\n");
    append_each(out, &facts.notes, "  ! ", "\n");
    assert(out@ =~= start + hosting_text(*facts));
}

fn severity_name(s: Severity) -> (name: &'static str)
    ensures
        name@ == severity_text(s),
{
    match s {
        Severity::Info => "info",
        Severity::Warning => "warning",
        Severity::Error => "error",
    }
}

fn diagnostics(out: &mut String, list: &Vec<Diagnostic>)
    ensures
        final(out)@ == old(out)@ + diagnostics_text(diagnostic_views(list@)),
{
    let ghost start = out@;
    let ghost views = diagnostic_views(list@);
    if list.len() == 0 {
        out.append("\ndiagnostics:  none\n");
        return;
    }
    let mut errors: usize = 0;
    let mut warnings: usize = 0;
    let mut lines: Vec<String> = Vec::new();
    let mut i: usize = 0;
    while i < list.len()
        invariant
            i <= list@.len(),
            views == diagnostic_views(list@),
            errors == count_severity(views.take(i as int), Severity::Error),
            warnings == count_severity(views.take(i as int), Severity::Warning),
            errors <= i,
            warnings <= i,
            string_views(lines@) == diagnostic_lines(views.take(i as int)),
        decreases list.len() - i,
    {
        let d = &list[i];
        let ghost pre = views.take(i as int);
        let ghost post = views.take(i as int + 1);
        assert(post =~= pre.push(views[i as int]));
        assert(post.drop_last() =~= pre);
        assert(views[i as int] == d@);
        if d.severity == Severity::Error {
            errors = errors + 1;
        }
        if d.severity == Severity::Warning {
            warnings = warnings + 1;
        }
        let mut line = String::from_str(severity_name(d.severity));
        line.append(" [");
        line.append(d.code.as_str());
        line.append("] ");
        line.append(d.path.as_str());
        line.append(": ");
        line.append(d.message.as_str());
        if let Some(help) = &d.help {
            line.append("\n  help: ");
            line.append(help.as_str());
        }
        let ghost before = string_views(lines@);
        assert(line@ == diagnostic_text(views[i as int]));
        lines.push(line);
        assert(string_views(lines@) =~= before.push(diagnostic_text(views[i as int])));
        assert(diagnostic_lines(post) =~= diagnostic_lines(pre).push(diagnostic_text(views[i as int])));
        i = i + 1;
    }
    assert(views.take(list@.len() as int) =~= views);
    out.append("\ndiagnostics:  ");
    append_number(out, errors);
    out.append(" error(s), ");
    append_number(out, warnings);
    out.append(" warning(s)\n");
    append_each(out, &lines, "  ", "\n");
    assert(out@ =~= start + diagnostics_text(views));
}

fn verdicts(out: &mut String, apps: &Vec<AppVerdict>)
    ensures
        final(out)@ == old(out)@ + verdicts_text(apps@),
{
    let ghost start = out@;
    if apps.len() == 0 {
        out.append("\napps reached: none\n");
        return;
    }
    let mut lines: Vec<String> = Vec::new();
    let mut i: usize = 0;
    while i < apps.len()
        invariant
            i <= apps@.len(),
            string_views(lines@) == verdict_lines(apps@.take(i as int)),
        decreases apps.len() - i,
    {
        let mut line = String::new();
        append_padded(&mut line, apps[i].decision, 10);
        line.append(" ");
        line.append(apps[i].app_id.as_str());
        let ghost before = string_views(lines@);
        assert(line@ == verdict_line(apps@[i as int]));
        lines.push(line);
        assert(apps@.take(i as int + 1) =~= apps@.take(i as int).push(apps@[i as int]));
        assert(string_views(lines@) =~= before.push(verdict_line(apps@[i as int])));
        assert(verdict_lines(apps@.take(i as int + 1)) =~= verdict_lines(apps@.take(i as int)).push(
            verdict_line(apps@[i as int]),
        ));
        i = i + 1;
    }
    assert(apps@.take(apps@.len() as int) =~= apps@);
    out.append("\napps reached:\n");
    append_each(out, &lines, "  ", "\n");
    assert(out@ =~= start + verdicts_text(apps@));
}

fn service_names(services: &Vec<Service>) -> (names: Vec<String>)
    ensures
        string_views(names@) == service_keys(services@),
{
    let mut names: Vec<String> = Vec::new();
    let mut i: usize = 0;
    while i < services.len()
        invariant
            i <= services@.len(),
            string_views(names@) == service_keys(services@.take(i as int)),
        decreases services.len() - i,
    {
        let ghost before = string_views(names@);
        names.push(String::from_str(services[i].key()));
        assert(services@.take(i as int + 1) =~= services@.take(i as int).push(services@[i as int]));
        assert(string_views(names@) =~= before.push(service_key(services@[i as int])));
        assert(service_keys(services@.take(i as int + 1)) =~= service_keys(
            services@.take(i as int),
        ).push(service_key(services@[i as int])));
        i = i + 1;
    }
    assert(services@.take(services@.len() as int) =~= services@);
    names
}

fn app_list(out: &mut String, apps: &Vec<AppServices>)
    ensures
        final(out)@ == old(out)@ + app_list_text(apps@),
{
    let ghost start = out@;
    if apps.len() == 0 {
        out.append("\napps:         none\n");
        return;
    }
    let mut lines: Vec<String> = Vec::new();
    let mut i: usize = 0;
    while i < apps.len()
        invariant
            i <= apps@.len(),
            string_views(lines@) == app_lines(apps@.take(i as int)),
        decreases apps.len() - i,
    {
        let mut line = String::new();
        append_padded(&mut line, apps[i].app_id.as_str(), 44);
        line.append(" ");
        let names = service_names(&apps[i].services);
        let joined = join_exec(&names, ", ");
        line.append(joined.as_str());
        let ghost before = string_views(lines@);
        assert(line@ == app_line(apps@[i as int]));
        lines.push(line);
        assert(apps@.take(i as int + 1) =~= apps@.take(i as int).push(apps@[i as int]));
        assert(string_views(lines@) =~= before.push(app_line(apps@[i as int])));
        assert(app_lines(apps@.take(i as int + 1)) =~= app_lines(apps@.take(i as int)).push(
            app_line(apps@[i as int]),
        ));
        i = i + 1;
    }
    assert(apps@.take(apps@.len() as int) =~= apps@);
    out.append("\napps:\n");
    append_each(out, &lines, "  ", "\n");
    assert(out@ =~= start + app_list_text(apps@));
}

/// Renders a failure, including the transport facts when the request got far enough to produce
/// any.
///
/// A bare "HTTP 301" is the least useful half of that answer: the redirect target and the fact that
/// Apple forbids redirects at all are what the reader needs.
pub fn failure(f: &Failure) -> (out: String)
    ensures
        out@ == failure_text(*f),
{
    let mut out = String::from_str("error: ");
    out.append(f.error.as_str());
    out.append("\n");
    if let Some(facts) = &f.hosting {
        out.append("\n");
        hosting(&mut out, facts);
    }
    assert(out@ =~= failure_text(*f));
    out
}

/// Renders a link check.
pub fn link_check(check: &LinkCheck) -> (out: String)
    ensures
        out@ == link_check_text(*check),
{
    let mut out = String::from_str("domain:       ");
    out.append(check.domain.as_str());
    out.append("\n");
    out.append("url:          ");
    out.append(check.url.as_str());
    out.append("\n");
    hosting(&mut out, &check.hosting);
    if let Some(explanation) = &check.explanation {
        out.append("\n");
        out.append(explanation.as_str());
    }
    if let Some(services) = &check.services {
        out.append("\nservices:     ");
        if services.len() == 0 {
            out.append("none");
        } else {
            let names = service_names(services);
            let joined = join_exec(&names, ", ");
            out.append(joined.as_str());
        }
        out.append("\n");
    }
    verdicts(&mut out, &check.apps);
    diagnostics(&mut out, &check.diagnostics);
    append_each(&mut out, &check.notes, "\nnote: ", "\n");
    assert(out@ =~= link_check_text(*check));
    out
}

/// Renders a fetched file report.
pub fn file_report(report: &FileReport) -> (out: String)
    ensures
        out@ == file_report_text(*report),
{
    let mut out = String::from_str("domain:       ");
    out.append(report.domain.as_str());
    out.append("\n");
    hosting(&mut out, &report.hosting);
    app_list(&mut out, &report.apps);
    diagnostics(&mut out, &report.diagnostics);
    assert(out@ =~= file_report_text(*report));
    out
}

/// Renders an origin/CDN comparison.
pub fn comparison(c: &CdnComparison) -> (out: String)
    ensures
        out@ == comparison_text(*c),
{
    let mut out = String::from_str("domain:       ");
    out.append(c.domain.as_str());
    out.append("\n\n");
    out.append("origin\n");
    hosting(&mut out, &c.origin);
    out.append("\napple cdn\n");
    hosting(&mut out, &c.apple_cdn);
    out.append("\n");
    if c.equivalent {
        if c.structurally_identical {
            out.append("identical: the CDN is serving the same file.\n");
        } else {
            out.append("equivalent: the two files are written differently but behave identically.\n");
        }
        assert(out@ =~= comparison_text(*c));
        return out;
    }
    out.append("DIFFERENT: ");
    append_number(&mut out, c.changes.len());
    out.append(" policy change(s). Apple's CDN may be serving an older file.\n\n");
    let mut texts: Vec<String> = Vec::new();
    let mut i: usize = 0;
    while i < c.changes.len()
        invariant
            i <= c.changes@.len(),
            string_views(texts@) == change_texts(c.changes@.take(i as int)),
        decreases c.changes.len() - i,
    {
        let ghost before = string_views(texts@);
        texts.push(c.changes[i].text.clone());
        assert(c.changes@.take(i as int + 1) =~= c.changes@.take(i as int).push(
            c.changes@[i as int],
        ));
        assert(string_views(texts@) =~= before.push(c.changes@[i as int].text@));
        assert(change_texts(c.changes@.take(i as int + 1)) =~= change_texts(
            c.changes@.take(i as int),
        ).push(c.changes@[i as int].text@));
        i = i + 1;
    }
    assert(c.changes@.take(c.changes@.len() as int) =~= c.changes@);
    proof {
        reveal_strlit("");
        assert(""@ =~= Seq::<char>::empty());
    }
    append_each(&mut out, &texts, "", "\n");
    assert(out@ =~= comparison_text(*c));
    out
}

/// Renders an offline validation.
pub fn validation(v: &Validation) -> (out: String)
    ensures
        out@ == validation_text(*v),
{
    let mut out = String::new();
    app_list(&mut out, &v.apps);
    diagnostics(&mut out, &v.diagnostics);
    assert(out@ =~= validation_text(*v));
    out
}

/// Renders an offline match.
pub fn explanation(e: &Explanation) -> (out: String)
    ensures
        out@ == explanation_text(*e),
{
    let mut out = String::new();
    if let Some(text) = &e.explanation {
        out.append(text.as_str());
    }
    verdicts(&mut out, &e.apps);
    append_each(&mut out, &e.notes, "\nnote: ", "\n");
    assert(out@ =~= explanation_text(*e));
    out
}

/// The findings of severity `s`.
pub open spec fn of_severity(s: Severity) -> spec_fn(DiagnosticView) -> bool {
    |d: DiagnosticView| d.severity == s
}

/// `count_severity` counts exactly the findings of that severity.
proof fn lemma_count_is_the_filtered_length(list: Seq<DiagnosticView>, s: Severity)
    ensures
        count_severity(list, s) == list.filter(of_severity(s)).len(),
    decreases list.len(),
{
    reveal(Seq::filter);
    if list.len() > 0 {
        lemma_count_is_the_filtered_length(list.drop_last(), s);
    }
}

/// The diagnostics block opens with the counts: the number before ` error(s)` is how many
/// findings are errors and the number before ` warning(s)` how many are warnings; with no
/// finding at all it says `none`.
pub proof fn lemma_diagnostics_block_counts_by_severity(list: Seq<DiagnosticView>)
    ensures
        list.len() == 0 ==> diagnostics_text(list) == "\ndiagnostics:  none\n"@,
        list.len() > 0 ==> ("\ndiagnostics:  "@ + decimal(
            list.filter(|d: DiagnosticView| d.severity == Severity::Error).len(),
        ) + " error(s), "@ + decimal(
            list.filter(|d: DiagnosticView| d.severity == Severity::Warning).len(),
        ) + " warning(s)\n"@).is_prefix_of(diagnostics_text(list)),
{
    lemma_count_is_the_filtered_length(list, Severity::Error);
    lemma_count_is_the_filtered_length(list, Severity::Warning);
    assert(of_severity(Severity::Error) =~= |d: DiagnosticView| d.severity == Severity::Error);
    assert(of_severity(Severity::Warning) =~= |d: DiagnosticView| d.severity == Severity::Warning);
    if list.len() > 0 {
        let head = "\ndiagnostics:  "@ + decimal(count_severity(list, Severity::Error))
            + " error(s), "@ + decimal(count_severity(list, Severity::Warning)) + " warning(s)\n"@;
        let rest = wrap_each(diagnostic_lines(list), "  "@, "\n"@);
        assert(diagnostics_text(list) == head + rest);
        assert(head =~= (head + rest).subrange(0, head.len() as int));
    }
}

/// `line` stands somewhere in `text`.
pub open spec fn has_line(text: Seq<char>, line: Seq<char>) -> bool {
    exists|before: Seq<char>, after: Seq<char>| #[trigger] (before + line + after) == text
}

/// A link check that looked up the named app's services reports them on a `services:` line:
/// their keys joined by `, ` when there are any, and `none` only when the list is empty.
pub proof fn lemma_services_line_names_every_service(c: LinkCheck)
    ensures
        match c.services {
            Some(list) => if list@.len() > 0 {
                has_line(
                    link_check_text(c),
                    "\nservices:     "@ + join(list@.map_values(|s: Service| service_key(s)), ", "@)
                        + "\n"@,
                )
            } else {
                has_line(link_check_text(c), "\nservices:     none\n"@)
            },
            None => true,
        },
{
    if c.services is Some {
        let list = c.services->Some_0;
        let explanation = match c.explanation {
            Some(text) => "\n"@ + text@,
            None => Seq::empty(),
        };
        let before = "domain:       "@ + c.domain@ + "\n"@ + "url:          "@ + c.url@ + "\n"@
            + hosting_text(c.hosting) + explanation;
        let after = verdicts_text(c.apps@) + diagnostics_text(diagnostic_views(c.diagnostics@))
            + wrap_each(string_views(c.notes@), "\nnote: "@, "\n"@);
        assert(service_keys(list@) =~= list@.map_values(|s: Service| service_key(s)));
        let line = "\nservices:     "@ + (if list@.len() == 0 {
            "none"@
        } else {
            join(service_keys(list@), ", "@)
        }) + "\n"@;
        assert(link_check_text(c) =~= before + line + after);
        if list@.len() > 0 {
            let wanted = "\nservices:     "@ + join(
                list@.map_values(|s: Service| service_key(s)),
                ", "@,
            ) + "\n"@;
            assert(wanted == line);
            assert(link_check_text(c) == before + wanted + after);
            assert(has_line(link_check_text(c), wanted));
        } else {
            reveal_strlit("\nservices:     ");
            reveal_strlit("none");
            reveal_strlit("\n");
            reveal_strlit("\nservices:     none\n");
            assert(line =~= "\nservices:     none\n"@);
            assert(link_check_text(c) == before + "\nservices:     none\n"@ + after);
        }
    }
}

} // verus!
