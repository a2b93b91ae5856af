//! Retrieving association files over HTTPS: what to request, and what a reply means.

use vstd::prelude::*;
use vstd::utf8::encode_utf8;

use crate::text::{
    before_semicolon, before_semicolon_exec, char_views, chars_eq_str, chars_of, decimal,
    decimal_exec, is_ascii_alnum, is_ipv4_exec, is_ipv4_text, lemma_split_dots_nonempty, lower,
    lower_exec, push_char, split_dots, split_dots_exec, string_views, trim, trim_exec,
};

verus! {

/// Where an association file was read from.
#[derive(Debug, Clone, Copy, PartialEq, Eq, Structural)]
pub enum Source {
    /// `https://<domain>/.well-known/apple-app-site-association`, the location Apple documents.
    WellKnown,
    /// `https://<domain>/apple-app-site-association`, the older location Apple still accepts.
    Root,
    /// `https://app-site-association.cdn-apple.com/a/v1/<domain>`, what devices actually receive.
    AppleCdn,
}

/// The URL a source reads for `domain`.
pub open spec fn source_url(source: Source, domain: Seq<char>) -> Seq<char> {
    match source {
        Source::WellKnown => "https://"@ + domain + "/.well-known/apple-app-site-association"@,
        Source::Root => "https://"@ + domain + "/apple-app-site-association"@,
        Source::AppleCdn => "https://app-site-association.cdn-apple.com/a/v1/"@ + domain,
    }
}

/// The short label of a source.
pub open spec fn source_label(source: Source) -> Seq<char> {
    match source {
        Source::WellKnown => "well-known"@,
        Source::Root => "root"@,
        Source::AppleCdn => "apple-cdn"@,
    }
}

impl Source {
    /// The URL this source reads for `domain`.
    pub fn url(self, domain: &str) -> (url: String)
        ensures
            url@ == source_url(self, domain@),
    {
        match self {
            Source::WellKnown => {
                let mut url = String::from_str("https://");
                url.append(domain);
                url.append("/.well-known/apple-app-site-association");
                url
            },
            Source::Root => {
                let mut url = String::from_str("https://");
                url.append(domain);
                url.append("/apple-app-site-association");
                url
            },
            Source::AppleCdn => {
                let mut url = String::from_str("https://app-site-association.cdn-apple.com/a/v1/");
                url.append(domain);
                url
            },
        }
    }

    /// A short label for output.
    pub fn label(self) -> (label: &'static str)
        ensures
            label@ == source_label(self),
    {
        match self {
            Source::WellKnown => "well-known",
            Source::Root => "root",
            Source::AppleCdn => "apple-cdn",
        }
    }
}

/// A character a bare hostname may contain.
pub open spec fn is_hostname_char(c: char) -> bool {
    is_ascii_alnum(c) || c == '.' || c == '-'
}

/// `i` is the position of the first character of `d` that no hostname may contain.
pub open spec fn first_refused_at(d: Seq<char>, i: int) -> bool {
    &&& 0 <= i < d.len()
    &&& !is_hostname_char(d[i])
    &&& forall|j: int| 0 <= j < i ==> is_hostname_char(#[trigger] d[j])
}

/// Whether `s` holds two dots in a row.
pub open spec fn has_double_dot(s: Seq<char>) -> bool {
    exists|i: int| 0 <= i && i + 1 < s.len() && #[trigger] s[i] == '.' && s[i + 1] == '.'
}

/// Why `domain` is refused, in the words the caller sees; `None` when it is a plain public
/// hostname.
///
/// The address check is on dotted-decimal IPv4 only: by that point every character is a letter,
/// a digit, `.` or `-`, and IPv6 text always holds a `:`.
pub open spec fn domain_refusal(d: Seq<char>) -> Option<Seq<char>> {
    let lowered = lower(d);
    let last = split_dots(lowered).last();
    if d.len() == 0 {
        Some("domain is empty"@)
    } else if encode_utf8(d).len() > 253 {
        Some("domain is longer than 253 characters"@)
    } else if exists|i: int| first_refused_at(d, i) {
        let i = choose|i: int| first_refused_at(d, i);
        Some("`"@ + d + "` contains `"@ + seq![d[i]]
            + "`; pass a bare hostname such as example.com, not a URL"@)
    } else if is_ipv4_text(d) {
        Some("`"@ + d + "` is an IP address; association files are served by name"@)
    } else if lowered == "localhost"@ || last == "localhost"@ || last == "local"@ {
        Some("`"@ + d + "` is not a public host"@)
    } else if !lowered.contains('.') {
        Some("`"@ + d + "` has no dot, so it is not a fully qualified domain name"@)
    } else if lowered[0] == '.' || lowered.last() == '.' || has_double_dot(lowered) {
        Some("`"@ + d + "` is not a well-formed domain name"@)
    } else {
        None
    }
}

/// Every plain public hostname is accepted: a name of ASCII letters, digits, dots and hyphens,
/// within 253 bytes, with a dot, neither starting nor ending with a dot and never holding two in
/// a row, that is not a dotted-decimal IPv4 address and whose last label is neither `localhost`
/// nor `local` (in any case), is never refused.
pub proof fn lemma_plain_public_hostnames_are_accepted(d: Seq<char>)
    requires
        d.len() > 0,
        encode_utf8(d).len() <= 253,
        forall|i: int|
            0 <= i < d.len() ==> ('a' <= #[trigger] d[i] <= 'z') || ('A' <= d[i] <= 'Z') || ('0'
                <= d[i] <= '9') || d[i] == '.' || d[i] == '-',
        d.contains('.'),
        d[0] != '.',
        d[d.len() - 1] != '.',
        forall|i: int| 0 <= i < d.len() - 1 ==> !(#[trigger] d[i] == '.' && d[i + 1] == '.'),
        !is_ipv4_text(d),
        split_dots(lower(d)).last() != "localhost"@,
        split_dots(lower(d)).last() != "local"@,
    ensures
        domain_refusal(d) is None,
{
    let lowered = lower(d);
    assert forall|i: int| 0 <= i < d.len() implies (#[trigger] lowered[i] == '.') == (d[i] == '.') by {
        let c = d[i];
        if 'A' <= c <= 'Z' {
            assert(lowered[i] == ((c as u32) + 32) as char);
            assert((((c as u32) + 32) as char) as u32 == (c as u32) + 32);
        }
    }
    assert(!(exists|i: int| first_refused_at(d, i))) by {
        assert forall|i: int| 0 <= i < d.len() implies is_hostname_char(#[trigger] d[i]) by {}
    }
    let k = choose|k: int| 0 <= k < d.len() && d[k] == '.';
    assert(lowered.contains('.')) by {
        assert(lowered[k] == '.');
    }
    assert(lowered != "localhost"@) by {
        if lowered == "localhost"@ {
            reveal_strlit("localhost");
            assert(lowered[k] == '.');
        }
    }
    assert(!has_double_dot(lowered)) by {
        if has_double_dot(lowered) {
            let i = choose|i: int|
                0 <= i && i + 1 < lowered.len() && #[trigger] lowered[i] == '.' && lowered[i + 1]
                    == '.';
            assert(d[i] == '.' && d[i + 1] == '.');
        }
    }
    assert(lowered[0] != '.');
    assert(lowered.last() != '.');
}

/// A character no hostname may contain has a first such character at or before it.
proof fn lemma_a_first_refused_character_exists(d: Seq<char>, i: int)
    requires
        0 <= i < d.len(),
        !is_hostname_char(d[i]),
    ensures
        exists|j: int| first_refused_at(d, j),
    decreases i,
{
    if forall|k: int| 0 <= k < i ==> is_hostname_char(#[trigger] d[k]) {
        assert(first_refused_at(d, i));
    } else {
        let k = choose|k: int| 0 <= k < i && !is_hostname_char(#[trigger] d[k]);
        lemma_a_first_refused_character_exists(d, k);
    }
}

/// Nothing but a plain public hostname is accepted: an empty name, one over 253 bytes, one
/// holding any character other than an ASCII letter, digit, dot or hyphen, one without a dot, one
/// that starts or ends with a dot or holds two in a row, a dotted-decimal IPv4 address, and a
/// name whose last label is `localhost` or `local` (in any case) are all refused.
pub proof fn lemma_anything_else_is_refused(d: Seq<char>)
    requires
        d.len() == 0 || encode_utf8(d).len() > 253 || (exists|i: int|
            0 <= i < d.len() && !(('a' <= #[trigger] d[i] <= 'z') || ('A' <= d[i] <= 'Z') || ('0'
                <= d[i] <= '9') || d[i] == '.' || d[i] == '-')) || !d.contains('.') || d[0] == '.'
            || d[d.len() - 1] == '.' || (exists|i: int|
            0 <= i < d.len() - 1 && #[trigger] d[i] == '.' && d[i + 1] == '.') || is_ipv4_text(d)
            || split_dots(lower(d)).last() == "localhost"@ || split_dots(lower(d)).last()
            == "local"@,
    ensures
        domain_refusal(d) is Some,
{
    if d.len() > 0 && encode_utf8(d).len() <= 253 && !(exists|i: int| first_refused_at(d, i))
        && !is_ipv4_text(d) {
        let lowered = lower(d);
        assert forall|i: int| 0 <= i < d.len() implies is_hostname_char(#[trigger] d[i]) by {
            if !is_hostname_char(d[i]) {
                lemma_a_first_refused_character_exists(d, i);
            }
        }
        assert forall|i: int| 0 <= i < d.len() implies (#[trigger] lowered[i] == '.') == (d[i]
            == '.') by {
            let c = d[i];
            if 'A' <= c <= 'Z' {
                assert(lowered[i] == ((c as u32) + 32) as char);
                assert((((c as u32) + 32) as char) as u32 == (c as u32) + 32);
            }
        }
        if !d.contains('.') {
            assert(!lowered.contains('.'));
        } else if d[0] == '.' {
            assert(lowered[0] == '.');
        } else if d[d.len() - 1] == '.' {
            assert(lowered.last() == '.');
        } else if exists|i: int| 0 <= i < d.len() - 1 && #[trigger] d[i] == '.' && d[i + 1] == '.' {
            let i = choose|i: int| 0 <= i < d.len() - 1 && #[trigger] d[i] == '.' && d[i + 1] == '.';
            assert(lowered[i] == '.' && lowered[i + 1] == '.');
            assert(has_double_dot(lowered));
        }
    }
}

/// `"`"` + domain + tail.
fn quoted_message(domain: &str, tail: &str) -> (m: String)
    ensures
        m@ == "`"@ + domain@ + tail@,
{
    let mut m = String::from_str("`");
    m.append(domain);
    m.append(tail);
    m
}

/// Rejects anything that is not a plain public hostname.
///
/// The caller names a domain, not a URL, so this is the only place an address enters. An IP
/// literal, `localhost`, a `.local` name, or anything with a port, path, or credentials is refused
/// before a socket is opened.
pub fn check_domain(domain: &str) -> (r: Result<(), String>)
    ensures
        r is Ok <==> domain_refusal(domain@) is None,
        r matches Err(m) ==> domain_refusal(domain@) == Some(m@),
{
    let d = chars_of(domain);
    if d.len() == 0 {
        return Err(String::from_str("domain is empty"));
    }
    if domain.as_bytes().len() > 253 {
        return Err(String::from_str("domain is longer than 253 characters"));
    }
    let mut i: usize = 0;
    while i < d.len()
        invariant
            d@ == domain@,
            d@.len() > 0,
            encode_utf8(domain@).len() <= 253,
            i <= d.len(),
            forall|j: int| 0 <= j < i ==> is_hostname_char(#[trigger] d@[j]),
        decreases d.len() - i,
    {
        let c = d[i];
        let allowed = ('a' <= c && c <= 'z') || ('A' <= c && c <= 'Z') || ('0' <= c && c <= '9')
            || c == '.' || c == '-';
        if !allowed {
            proof {
                assert(first_refused_at(domain@, i as int));
                let k = choose|k: int| first_refused_at(domain@, k);
                if k < i {
                    assert(is_hostname_char(d@[k]));
                } else if k > i {
                    assert(is_hostname_char(d@[i as int]));
                }
                assert(k == i);
            }
            let mut m = quoted_message(domain, "` contains `");
            push_char(&mut m, c);
            m.append("`; pass a bare hostname such as example.com, not a URL");
            assert(m@ =~= "`"@ + domain@ + "` contains `"@ + seq![domain@[i as int]]
                + "`; pass a bare hostname such as example.com, not a URL"@);
            return Err(m);
        }
        i = i + 1;
    }
    assert(!exists|k: int| first_refused_at(domain@, k));
    if is_ipv4_exec(&d) {
        return Err(quoted_message(domain, "` is an IP address; association files are served by name"));
    }
    let lowered = lower_exec(&d);
    let labels = split_dots_exec(&lowered);
    proof {
        lemma_split_dots_nonempty(lowered@);
        assert(char_views(labels@)[labels@.len() - 1] == labels@[labels@.len() - 1]@);
    }
    let last = &labels[labels.len() - 1];
    if chars_eq_str(&lowered, "localhost") || chars_eq_str(last, "localhost") || chars_eq_str(
        last,
        "local",
    ) {
        return Err(quoted_message(domain, "` is not a public host"));
    }
    let mut has_dot = false;
    let mut double = false;
    let mut k: usize = 0;
    while k < lowered.len()
        invariant
            k <= lowered.len(),
            has_dot <==> exists|j: int| 0 <= j < k && lowered@[j] == '.',
            double <==> exists|j: int| 0 <= j && j + 1 < k && #[trigger] lowered@[j] == '.'
                && lowered@[j + 1] == '.',
        decreases lowered.len() - k,
    {
        if lowered[k] == '.' {
            if k > 0 && lowered[k - 1] == '.' {
                double = true;
                assert(lowered@[k - 1] == '.' && lowered@[(k - 1) + 1] == '.');
            }
            has_dot = true;
        }
        k = k + 1;
    }
    assert(has_dot == lowered@.contains('.'));
    if !has_dot {
        return Err(
            quoted_message(domain, "` has no dot, so it is not a fully qualified domain name"),
        );
    }
    if lowered[0] == '.' || lowered[lowered.len() - 1] == '.' || double {
        return Err(quoted_message(domain, "` is not a well-formed domain name"));
    }
    Ok(())
}

/// The character sequence an optional string holds.
pub open spec fn opt_view(o: Option<String>) -> Option<Seq<char>> {
    match o {
        Some(s) => Some(s@),
        None => None,
    }
}

/// The character sequences a list of string pairs holds.
pub open spec fn pair_views(v: Seq<(String, String)>) -> Seq<(Seq<char>, Seq<char>)> {
    v.map_values(|p: (String, String)| (p.0@, p.1@))
}

/// What the transport observed, separate from what the document says.
#[derive(Debug)]
pub struct Hosting {
    /// Which location was read.
    pub source: Source,
    /// The URL requested.
    pub url: String,
    /// HTTP status code.
    pub status: u16,
    /// `Content-Type`, when the server sent one.
    pub content_type: Option<String>,
    /// Body size in bytes.
    pub bytes: usize,
    /// Where the server tried to redirect to. Apple requires no redirects, so this is a finding.
    pub redirected_to: Option<String>,
    /// Apple CDN diagnostic headers, when reading from the CDN.
    pub apple_headers: Vec<(String, String)>,
    /// Transport-level findings, in the order they were noticed.
    pub notes: Vec<String>,
}

/// A successful read.
#[derive(Debug)]
pub struct Fetched {
    /// The bytes as served.
    pub body: Vec<u8>,
    /// What the transport observed.
    pub hosting: Hosting,
}

/// A read that did not produce a document.
#[derive(Debug)]
pub struct FetchError {
    /// Which location was attempted. Kept for callers that report per-source failures.
    pub source: Source,
    /// The URL requested.
    pub url: String,
    /// What went wrong.
    pub message: String,
    /// Transport facts, when the request got far enough to produce any.
    pub hosting: Option<Hosting>,
}

impl FetchError {
    /// The error as one line: the URL, a colon, and what went wrong.
    pub fn describe(&self) -> (text: String)
        ensures
            text@ == self.url@ + ": "@ + self.message@,
    {
        let mut text = String::from_str(self.url.as_str());
        text.append(": ");
        text.append(self.message.as_str());
        text
    }
}

/// Limits applied to every request.
#[derive(Debug, Clone, Copy)]
pub struct FetchOptions {
    /// Whole-request timeout.
    pub timeout: std::time::Duration,
    /// Largest body accepted, in bytes.
    pub max_bytes: usize,
}

/// A duration of `seconds` whole seconds (`Duration::from_secs`).
#[verifier::external_body]
pub(crate) fn seconds(seconds: u64) -> std::time::Duration {
    std::time::Duration::from_secs(seconds)
}

/// The default body ceiling: 128 KiB, matching `blazingly_aasa`'s own default.
pub const DEFAULT_MAX_BYTES: usize = 131072;

/// The default whole-request timeout, in seconds.
pub const DEFAULT_TIMEOUT_SECONDS: u64 = 10;

impl Default for FetchOptions {
    fn default() -> (options: Self)
        ensures
            options.max_bytes == DEFAULT_MAX_BYTES,
    {
        FetchOptions { timeout: seconds(DEFAULT_TIMEOUT_SECONDS), max_bytes: DEFAULT_MAX_BYTES }
    }
}

/// The headers of a response that the diagnosis reads. A value that is not visible ASCII is
/// absent, as if the server had not sent it.
#[derive(Debug)]
pub struct ResponseHeaders {
    /// `Content-Type`.
    pub content_type: Option<String>,
    /// `Location`.
    pub location: Option<String>,
    /// `Apple-Failure-Reason`.
    pub apple_failure_reason: Option<String>,
    /// `Apple-Failure-Details`.
    pub apple_failure_details: Option<String>,
    /// `Apple-From`.
    pub apple_from: Option<String>,
    /// `Apple-Try-Direct`.
    pub apple_try_direct: Option<String>,
}

/// What the network answered for one request.
#[derive(Debug)]
pub enum Exchange {
    /// No response arrived. `refused` is the resolver's reason when it refused every address.
    Failed { refused: Option<String>, error: String },
    /// A response arrived, but its body could not be read within the size limit.
    Unreadable { status: u16, headers: ResponseHeaders, error: String },
    /// A response arrived with its whole body.
    Received { status: u16, headers: ResponseHeaders, body: Vec<u8> },
}

/// The next step of a read: send a request, or stop with an answer.
#[derive(Debug)]
pub enum FetchStep {
    /// Request this URL, then hand what came back to [`fetch`].
    Send { url: String },
    /// No request is to be made.
    Finished(Result<Fetched, Box<FetchError>>),
}

/// One name/value entry, present when the server sent the header.
pub open spec fn header_entry(name: Seq<char>, value: Option<String>) -> Seq<(Seq<char>, Seq<char>)> {
    match value {
        Some(v) => seq![(name, v@)],
        None => Seq::empty(),
    }
}

/// Apple's CDN diagnostic headers that were sent, in a fixed order.
pub open spec fn apple_header_entries(h: ResponseHeaders) -> Seq<(Seq<char>, Seq<char>)> {
    header_entry("apple-failure-reason"@, h.apple_failure_reason) + header_entry(
        "apple-failure-details"@,
        h.apple_failure_details,
    ) + header_entry("apple-from"@, h.apple_from) + header_entry(
        "apple-try-direct"@,
        h.apple_try_direct,
    )
}

/// The note for a 3xx reply.
pub open spec fn redirect_note(status: u16) -> Seq<char> {
    "the server replied "@ + decimal(status as nat)
        + " and tried to redirect; Apple requires the association file to be served with no redirects"@
}

/// The note for an unexpected `Content-Type`.
pub open spec fn content_type_note(content_type: Seq<char>) -> Seq<char> {
    "Content-Type is `"@ + content_type + "`; Apple expects application/json"@
}

/// Whether a `Content-Type` names JSON or a CMS-signed file, ignoring parameters, surrounding
/// whitespace and ASCII case.
pub open spec fn content_type_accepted(content_type: Seq<char>) -> bool {
    let base = lower(trim(before_semicolon(content_type)));
    base == "application/json"@ || base == "application/pkcs7-mime"@
}

/// The transport findings for a reply, in the order they are noticed.
pub open spec fn transport_notes(status: u16, content_type: Option<Seq<char>>) -> Seq<Seq<char>> {
    let redirect = if 300 <= status < 400 {
        seq![redirect_note(status)]
    } else {
        Seq::empty()
    };
    match content_type {
        Some(ct) => if content_type_accepted(ct) {
            redirect
        } else {
            redirect.push(content_type_note(ct))
        },
        None => redirect.push("the server sent no Content-Type"@),
    }
}

/// The message for a body that could not be read within the limit.
pub open spec fn body_limit_message(max_bytes: usize, error: Seq<char>) -> Seq<char> {
    "could not read the body within the "@ + decimal(max_bytes as nat) + " byte limit: "@ + error
}

/// `h` records a reply with `status` and `headers` and a body of `size` bytes, read from `url`.
pub open spec fn hosting_records(
    h: Hosting,
    source: Source,
    url: Seq<char>,
    status: u16,
    headers: ResponseHeaders,
    size: nat,
) -> bool {
    &&& h.source == source
    &&& h.url@ == url
    &&& h.status == status
    &&& opt_view(h.content_type) == opt_view(headers.content_type)
    &&& h.bytes == size
    &&& opt_view(h.redirected_to) == opt_view(headers.location)
    &&& pair_views(h.apple_headers@) == apple_header_entries(headers)
    &&& string_views(h.notes@) == transport_notes(status, opt_view(headers.content_type))
}

fn push_header(list: &mut Vec<(String, String)>, name: &str, value: &Option<String>)
    ensures
        pair_views(final(list)@) == pair_views(old(list)@) + header_entry(name@, *value),
{
    let ghost before = pair_views(list@);
    match value {
        Some(v) => {
            list.push((String::from_str(name), v.clone()));
            assert(pair_views(list@) =~= before + header_entry(name@, *value));
        },
        None => {
            assert(pair_views(list@) =~= before + header_entry(name@, *value));
        },
    }
}

fn apple_headers_of(headers: &ResponseHeaders) -> (list: Vec<(String, String)>)
    ensures
        pair_views(list@) == apple_header_entries(*headers),
{
    let mut list: Vec<(String, String)> = Vec::new();
    assert(pair_views(list@) =~= Seq::empty());
    push_header(&mut list, "apple-failure-reason", &headers.apple_failure_reason);
    push_header(&mut list, "apple-failure-details", &headers.apple_failure_details);
    push_header(&mut list, "apple-from", &headers.apple_from);
    push_header(&mut list, "apple-try-direct", &headers.apple_try_direct);
    assert(pair_views(list@) =~= apple_header_entries(*headers));
    list
}

/// Whether a `Content-Type` is one Apple accepts.
pub fn is_accepted_content_type(content_type: &str) -> (r: bool)
    ensures
        r == content_type_accepted(content_type@),
{
    let chars = chars_of(content_type);
    let base = lower_exec(&trim_exec(&before_semicolon_exec(&chars)));
    chars_eq_str(&base, "application/json") || chars_eq_str(&base, "application/pkcs7-mime")
}

/// The transport findings for a reply.
pub fn transport_notes_for(status: u16, content_type: &Option<String>) -> (notes: Vec<String>)
    ensures
        string_views(notes@) == transport_notes(status, opt_view(*content_type)),
{
    let mut notes: Vec<String> = Vec::new();
    if 300 <= status && status < 400 {
        let mut note = String::from_str("the server replied ");
        let code = decimal_exec(status as u64);
        note.append(code.as_str());
        note.append(
            " and tried to redirect; Apple requires the association file to be served with no redirects",
        );
        notes.push(note);
    }
    let ghost first = string_views(notes@);
    assert(first =~= (if 300 <= status < 400 {
        seq![redirect_note(status)]
    } else {
        Seq::empty()
    }));
    match content_type {
        Some(ct) => {
            if !is_accepted_content_type(ct.as_str()) {
                let mut note = String::from_str("Content-Type is `");
                note.append(ct.as_str());
                note.append("`; Apple expects application/json");
                notes.push(note);
                assert(string_views(notes@) =~= first.push(content_type_note(ct@)));
            }
        },
        None => {
            notes.push(String::from_str("the server sent no Content-Type"));
            assert(string_views(notes@) =~= first.push("the server sent no Content-Type"@));
        },
    }
    notes
}

/// `step` is how reading `source` for `domain` begins: a refused domain stops there, before any
/// request exists; an accepted one asks for exactly the documented URL.
pub open spec fn begins(step: FetchStep, source: Source, domain: Seq<char>) -> bool {
    &&& domain_refusal(domain) is None <==> step is Send
    &&& step matches FetchStep::Send { url } ==> url@ == source_url(source, domain)
    &&& step matches FetchStep::Finished(r) ==> r matches Err(e) && e.source == source && e.url@
        == source_url(source, domain) && Some(e.message@) == domain_refusal(domain)
        && e.hosting is None
}

/// The first step of reading `source` for `domain`.
pub fn fetch_begin(source: Source, domain: &str) -> (step: FetchStep)
    ensures
        begins(step, source, domain@),
{
    let url = source.url(domain);
    match check_domain(domain) {
        Ok(()) => FetchStep::Send { url },
        Err(message) => FetchStep::Finished(
            Err(Box::new(FetchError { source, url, message, hosting: None })),
        ),
    }
}

/// The message for a received body longer than the ceiling.
pub open spec fn oversize_message(max_bytes: usize, size: nat) -> Seq<char> {
    body_limit_message(max_bytes, "the body is "@ + decimal(size) + " bytes"@)
}

/// `r` is what reading `source` for `domain` gives when the network answered `exchange`.
///
/// A refused domain is refused whatever `exchange` holds. Otherwise a transport failure, a body
/// above the ceiling, or a status other than 200 is an error; only the last carries the
/// transport facts.
pub open spec fn fetches(
    r: Result<Fetched, Box<FetchError>>,
    source: Source,
    domain: Seq<char>,
    options: FetchOptions,
    exchange: Exchange,
) -> bool {
    &&& r matches Err(e) ==> e.source == source && e.url@ == source_url(source, domain)
    &&& r matches Ok(f) ==> f.body@.len() <= options.max_bytes
    &&& domain_refusal(domain) matches Some(m) ==> r matches Err(e) && e.message@ == m
        && e.hosting is None
    &&& domain_refusal(domain) is None ==> match exchange {
        Exchange::Failed { refused, error } => r matches Err(e) && e.hosting is None
            && e.message@ == (match refused {
            Some(reason) => reason@,
            None => error@,
        }),
        Exchange::Unreadable { error, .. } => r matches Err(e) && e.hosting is None
            && e.message@ == body_limit_message(options.max_bytes, error@),
        Exchange::Received { status, headers, body } => if body@.len() > options.max_bytes {
            r matches Err(e) && e.hosting is None && e.message@ == oversize_message(
                options.max_bytes,
                body@.len(),
            )
        } else if status == 200 {
            r matches Ok(f) && f.body@ == body@ && hosting_records(
                f.hosting,
                source,
                source_url(source, domain),
                status,
                headers,
                body@.len(),
            )
        } else {
            r matches Err(e) && e.message@ == "HTTP "@ + decimal(status as nat) && (
            e.hosting matches Some(h) && hosting_records(
                h,
                source,
                source_url(source, domain),
                status,
                headers,
                body@.len(),
            ))
        },
    }
}

/// `r` is what reading `source` for `domain` settled on: the answer `step` already held, or, when
/// it asked for a request, what [`fetch`] made of the network's `exchange`.
pub open spec fn settled_read(
    r: Result<Fetched, Box<FetchError>>,
    step: FetchStep,
    source: Source,
    domain: Seq<char>,
    options: FetchOptions,
    exchange: Exchange,
) -> bool {
    match step {
        FetchStep::Finished(res) => r == res,
        FetchStep::Send { .. } => fetches(r, source, domain, options, exchange),
    }
}

/// A document served with a Content-Type other than JSON or a CMS-signed file is reported: for a
/// 200 reply of a size within the ceiling, the read succeeds, and its notes are empty exactly
/// when the type before any parameters, trimmed and in any ASCII case, is `application/json` or
/// `application/pkcs7-mime`; otherwise they hold the one note naming the type as sent.
pub proof fn lemma_only_json_types_pass_unremarked(
    r: Result<Fetched, Box<FetchError>>,
    source: Source,
    domain: Seq<char>,
    options: FetchOptions,
    exchange: Exchange,
)
    requires
        domain_refusal(domain) is None,
        fetches(r, source, domain, options, exchange),
        exchange matches Exchange::Received { status, headers, body } && status == 200
            && body@.len() <= options.max_bytes && headers.content_type is Some,
    ensures
        r matches Ok(f) && ({
            let sent = exchange->Received_headers.content_type->Some_0@;
            let base = lower(trim(before_semicolon(sent)));
            if base == "application/json"@ || base == "application/pkcs7-mime"@ {
                string_views(f.hosting.notes@) == Seq::<Seq<char>>::empty()
            } else {
                string_views(f.hosting.notes@) == seq![
                    "Content-Type is `"@ + sent + "`; Apple expects application/json"@,
                ]
            }
        }),
{
    let sent = exchange->Received_headers.content_type->Some_0@;
    assert(transport_notes(200, Some(sent)) =~= if content_type_accepted(sent) {
        Seq::<Seq<char>>::empty()
    } else {
        seq![content_type_note(sent)]
    });
}

/// Reads one association file, given what the network answered for it.
pub fn fetch(source: Source, domain: &str, options: FetchOptions, exchange: Exchange) -> (r: Result<
    Fetched,
    Box<FetchError>,
>)
    ensures
        fetches(r, source, domain@, options, exchange),
{
    let url = source.url(domain);
    if let Err(message) = check_domain(domain) {
        return Err(Box::new(FetchError { source, url, message, hosting: None }));
    }
    match exchange {
        Exchange::Failed { refused, error } => {
            let message = match refused {
                Some(reason) => reason,
                None => error,
            };
            Err(Box::new(FetchError { source, url, message, hosting: None }))
        },
        Exchange::Unreadable { status: _, headers: _, error } => {
            let mut message = String::from_str("could not read the body within the ");
            let limit = decimal_exec(options.max_bytes as u64);
            message.append(limit.as_str());
            message.append(" byte limit: ");
            message.append(error.as_str());
            Err(Box::new(FetchError { source, url, message, hosting: None }))
        },
        Exchange::Received { status, headers, body } => {
            if body.len() > options.max_bytes {
                let mut message = String::from_str("could not read the body within the ");
                let limit = decimal_exec(options.max_bytes as u64);
                message.append(limit.as_str());
                message.append(" byte limit: ");
                let mut detail = String::from_str("the body is ");
                let size = decimal_exec(body.len() as u64);
                detail.append(size.as_str());
                detail.append(" bytes");
                message.append(detail.as_str());
                assert(message@ =~= oversize_message(options.max_bytes, body@.len()));
                return Err(Box::new(FetchError { source, url, message, hosting: None }));
            }
            let notes = transport_notes_for(status, &headers.content_type);
            let apple_headers = apple_headers_of(&headers);
            let hosting = Hosting {
                source,
                url: url.clone(),
                status,
                content_type: headers.content_type,
                bytes: body.len(),
                redirected_to: headers.location,
                apple_headers,
                notes,
            };
            if status != 200 {
                let mut message = String::from_str("HTTP ");
                let code = decimal_exec(status as u64);
                message.append(code.as_str());
                return Err(Box::new(FetchError { source, url, message, hosting: Some(hosting) }));
            }
            Ok(Fetched { body, hosting })
        },
    }
}

/// The note added when the file came from the older root location.
pub open spec fn root_note() -> Seq<char> {
    "served from /apple-app-site-association; Apple documents /.well-known/apple-app-site-association"@
}

/// Reads from `.well-known`, falling back to the older root location.
///
/// `root` is what reading the root location gave; it is only needed, and only read, when the
/// `.well-known` read failed. When neither location works, the `.well-known` failure is the
/// answer, since that is the one Apple documents and the one worth fixing.
pub fn fetch_origin(
    well_known: Result<Fetched, Box<FetchError>>,
    root: Option<Result<Fetched, Box<FetchError>>>,
) -> (r: Result<Fetched, Box<FetchError>>)
    ensures
        well_known is Ok ==> r == well_known,
        well_known matches Err(e) ==> match root {
            Some(Ok(found)) => r matches Ok(f) && f.body == found.body && f.hosting.source
                == found.hosting.source && f.hosting.url == found.hosting.url && f.hosting.status
                == found.hosting.status && f.hosting.content_type == found.hosting.content_type
                && f.hosting.bytes == found.hosting.bytes && f.hosting.redirected_to
                == found.hosting.redirected_to && f.hosting.apple_headers
                == found.hosting.apple_headers && string_views(f.hosting.notes@) == string_views(
                found.hosting.notes@,
            ).push(root_note()),
            _ => r == well_known,
        },
{
    match well_known {
        Ok(found) => Ok(found),
        Err(error) => match root {
            Some(Ok(found)) => {
                let mut found = found;
                let ghost before = string_views(found.hosting.notes@);
                found.hosting.notes.push(
                    String::from_str(
                        "served from /apple-app-site-association; Apple documents /.well-known/apple-app-site-association",
                    ),
                );
                assert(string_views(found.hosting.notes@) =~= before.push(root_note()));
                Ok(found)
            },
            _ => Err(error),
        },
    }
}

} // verus!
