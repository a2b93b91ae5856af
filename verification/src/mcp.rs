//! The decisions behind the MCP tool catalog: how tool arguments are read and which tool
//! function answers. The catalog itself, its schemas and the protocol are served by the caller.
//!
//! Five tools, two of which do double duty: omitting `app_id` turns "does this app get this URL"
//! into "which apps does this URL reach".

use vstd::prelude::*;

use crate::fetch::Source;
use crate::text::{chars_eq_str, chars_of};
use crate::tools::{
    Explanation, Failure, Outcome, Validation, explain_match, explanation_outcome,
    opt_str_view, validate_association_file, validation_outcome,
};

verus! {

/// The refusal for a missing or non-string required argument.
pub open spec fn missing_argument(key: Seq<char>) -> Seq<char> {
    "`"@ + key + "` is required and must be a string"@
}

/// Reads a required argument. `found` is the argument's value when it was given as a string.
pub fn text(key: &str, found: Option<String>) -> (r: Outcome<String>)
    ensures
        match found {
            Some(v) => r matches Ok(t) && t@ == v@,
            None => r matches Err(f) && f.error@ == missing_argument(key@) && f.hosting is None,
        },
{
    match found {
        Some(value) => Ok(value),
        None => {
            let mut error = String::from_str("`");
            error.append(key);
            error.append("` is required and must be a string");
            Err(Failure { error, hosting: None })
        },
    }
}

/// The value an optional argument stands for: an empty string counts as absent.
pub open spec fn optional_value(found: Option<Seq<char>>) -> Option<Seq<char>> {
    match found {
        Some(v) => if v.len() == 0 {
            None
        } else {
            Some(v)
        },
        None => None,
    }
}

/// Reads an optional argument. `found` is the argument's value when it was given as a string.
pub fn optional(found: Option<String>) -> (r: Option<String>)
    ensures
        opt_string_view(r) == optional_value(opt_string_view(found)),
{
    match found {
        Some(value) => {
            if value.as_str().unicode_len() == 0 {
                None
            } else {
                Some(value)
            }
        },
        None => None,
    }
}

/// The view of an optional string.
pub open spec fn opt_string_view(o: Option<String>) -> Option<Seq<char>> {
    match o {
        Some(s) => Some(s@),
        None => None,
    }
}

/// Which location `fetch_association_file` reads: Apple's CDN when `source` is `apple_cdn`, the
/// site itself otherwise.
pub fn source_argument(source: Option<String>) -> (s: Source)
    ensures
        s == (if optional_value(opt_string_view(source)) == Some("apple_cdn"@) {
            Source::AppleCdn
        } else {
            Source::WellKnown
        }),
{
    match optional(source) {
        Some(value) => {
            if chars_eq_str(&chars_of(value.as_str()), "apple_cdn") {
                Source::AppleCdn
            } else {
                Source::WellKnown
            }
        },
        None => Source::WellKnown,
    }
}

/// The `validate_association_file` tool, given its `content` argument.
pub fn call_validate_association_file(content: Option<String>, limit: usize) -> (r: Outcome<
    Validation,
>)
    ensures
        match content {
            Some(c) => validation_outcome(r, c@, limit),
            None => r matches Err(f) && f.error@ == missing_argument("content"@),
        },
{
    let content = match text("content", content) {
        Ok(content) => content,
        Err(failure) => return Err(failure),
    };
    validate_association_file(content.as_str(), limit)
}

/// The `explain_match` tool, given its arguments. A missing `content`, `domain` or `url` is
/// reported in that order.
pub fn call_explain_match(
    content: Option<String>,
    domain: Option<String>,
    url: Option<String>,
    app_id: Option<String>,
    limit: usize,
) -> (r: Outcome<Explanation>)
    ensures
        content is None ==> (r matches Err(f) && f.error@ == missing_argument("content"@)),
        content is Some && domain is None ==> (r matches Err(f) && f.error@ == missing_argument(
            "domain"@,
        )),
        content is Some && domain is Some && url is None ==> (r matches Err(f) && f.error@
            == missing_argument("url"@)),
        content is Some && domain is Some && url is Some ==> explanation_outcome(
            r,
            content.unwrap()@,
            domain.unwrap()@,
            optional_value(opt_string_view(app_id)),
            url.unwrap()@,
            limit,
        ),
{
    let content = match text("content", content) {
        Ok(content) => content,
        Err(failure) => return Err(failure),
    };
    let domain = match text("domain", domain) {
        Ok(domain) => domain,
        Err(failure) => return Err(failure),
    };
    let url = match text("url", url) {
        Ok(url) => url,
        Err(failure) => return Err(failure),
    };
    let app_id = optional(app_id);
    let app: Option<&str> = match &app_id {
        Some(a) => Some(a.as_str()),
        None => None,
    };
    assert(opt_str_view(app) == opt_string_view(app_id));
    explain_match(content.as_str(), domain.as_str(), app, url.as_str(), limit)
}

} // verus!
