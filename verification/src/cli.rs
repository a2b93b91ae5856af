//! The command line's decisions: what the arguments ask for, and whether an answer is clean
//! enough to exit zero. Reading files, printing, and running the request are the caller's part.

use vstd::prelude::*;

use crate::fetch::{FetchOptions, Source, DEFAULT_MAX_BYTES, DEFAULT_TIMEOUT_SECONDS, seconds};
use crate::text::{chars_eq_str, chars_of, parse_unsigned, parsed_unsigned, string_views};
use crate::tools::{CdnComparison, Explanation, FileReport, LinkCheck, Validation};

verus! {

/// The usage text.
pub const USAGE: &'static str = "blazingly-aasa - Apple Universal Links diagnostics

  blazingly-aasa                     serve MCP over stdio (default)
  blazingly-aasa check <domain> <url> [--app <id>]
                                     why doesn't this link open the app?
  blazingly-aasa fetch <domain> [--cdn]
                                     fetch and validate the association file
  blazingly-aasa compare <domain>    origin against what Apple's CDN serves
  blazingly-aasa validate <file|->   validate a file you already have
  blazingly-aasa explain <file|-> <domain> <url> [--app <id>]
                                     match a URL against a file you already have

Options
  --app <id>       application identifier; omit to be told every app a URL reaches
  --cdn            read Apple's CDN copy instead of the site's own file
  --json           emit the structured result instead of formatted text
  --timeout <s>    request timeout in seconds (default 10)
  --max-bytes <n>  largest accepted file (default 131072)
  -h, --help       this text
  -V, --version    version

Results describe what the association file permits. Whether a link actually opens an app also
depends on the app being installed and on its Associated Domains entitlement, which no file can
tell you.
";

/// The options that follow a command.
#[derive(Debug)]
pub struct Flags {
    /// `--app`: the application identifier, when given.
    pub app: Option<String>,
    /// `--cdn`: read Apple's CDN copy.
    pub cdn: bool,
    /// `--json`: emit the structured result.
    pub json: bool,
    /// `--timeout`: the request timeout in seconds.
    pub timeout_seconds: u64,
    /// `--max-bytes`: the largest accepted file.
    pub max_bytes: usize,
}

impl Flags {
    /// The request limits these flags ask for.
    pub fn options(&self) -> (options: FetchOptions)
        ensures
            options.max_bytes == self.max_bytes,
    {
        FetchOptions { timeout: seconds(self.timeout_seconds), max_bytes: self.max_bytes }
    }
}

/// Flags as plain values.
pub struct FlagsView {
    pub positional: Seq<Seq<char>>,
    pub app: Option<Seq<char>>,
    pub cdn: bool,
    pub json: bool,
    pub timeout_seconds: u64,
    pub max_bytes: usize,
}

/// The flags before any option is read.
pub open spec fn initial_flags() -> FlagsView {
    FlagsView {
        positional: Seq::empty(),
        app: None,
        cdn: false,
        json: false,
        timeout_seconds: DEFAULT_TIMEOUT_SECONDS,
        max_bytes: DEFAULT_MAX_BYTES,
    }
}

/// Reads `args` from position `i` on into `acc`: options may stand anywhere, each one that
/// takes a value takes the next argument, and a later option overrides an earlier one.
pub open spec fn flags_from(args: Seq<Seq<char>>, i: nat, acc: FlagsView) -> Result<FlagsView, Seq<char>>
    decreases args.len() - i,
{
    if i >= args.len() {
        Ok(acc)
    } else {
        let a = args[i as int];
        let has_value = i + 1 < args.len();
        let value = args[(i + 1) as int];
        if a == "--app"@ {
            if has_value {
                flags_from(args, i + 2, FlagsView { app: Some(value), ..acc })
            } else {
                Err("--app needs a value"@)
            }
        } else if a == "--timeout"@ {
            if !has_value {
                Err("--timeout needs a value"@)
            } else if let Some(n) = parsed_unsigned(value, u64::MAX as nat) {
                flags_from(args, i + 2, FlagsView { timeout_seconds: n as u64, ..acc })
            } else {
                Err("--timeout needs a whole number of seconds"@)
            }
        } else if a == "--max-bytes"@ {
            if !has_value {
                Err("--max-bytes needs a value"@)
            } else if let Some(n) = parsed_unsigned(value, usize::MAX as nat) {
                flags_from(args, i + 2, FlagsView { max_bytes: n as usize, ..acc })
            } else {
                Err("--max-bytes needs a whole number"@)
            }
        } else if a == "--cdn"@ {
            flags_from(args, i + 1, FlagsView { cdn: true, ..acc })
        } else if a == "--json"@ {
            flags_from(args, i + 1, FlagsView { json: true, ..acc })
        } else if a.len() > 0 && a[0] == '-' && a != "-"@ {
            Err("unknown option "@ + a)
        } else {
            flags_from(args, i + 1, FlagsView { positional: acc.positional.push(a), ..acc })
        }
    }
}

/// `flags` and `positional` hold `view`.
pub open spec fn flags_hold(positional: Seq<String>, flags: Flags, view: FlagsView) -> bool {
    &&& string_views(positional) == view.positional
    &&& match flags.app {
        Some(a) => view.app == Some(a@),
        None => view.app is None,
    }
    &&& flags.cdn == view.cdn
    &&& flags.json == view.json
    &&& flags.timeout_seconds == view.timeout_seconds
    &&& flags.max_bytes == view.max_bytes
}

/// Splits the arguments after a command into positional arguments and flags.
pub fn parse_flags(arguments: &[String]) -> (r: Result<(Vec<String>, Flags), String>)
    ensures
        match flags_from(string_views(arguments@), 0, initial_flags()) {
            Ok(view) => r matches Ok(p) && flags_hold(p.0@, p.1, view),
            Err(m) => r matches Err(e) && e@ == m,
        },
{
    let ghost args = string_views(arguments@);
    let mut positional: Vec<String> = Vec::new();
    let mut flags = Flags {
        app: None,
        cdn: false,
        json: false,
        timeout_seconds: DEFAULT_TIMEOUT_SECONDS,
        max_bytes: DEFAULT_MAX_BYTES,
    };
    let ghost mut view = initial_flags();
    let mut index: usize = 0;
    assert(string_views(positional@) =~= view.positional);
    while index < arguments.len()
        invariant
            index <= arguments@.len(),
            args == string_views(arguments@),
            flags_hold(positional@, flags, view),
            flags_from(args, 0, initial_flags()) == flags_from(args, index as nat, view),
        decreases arguments.len() - index,
    {
        let argument = chars_of(arguments[index].as_str());
        assert(argument@ == args[index as int]);
        let has_value = index + 1 < arguments.len();
        if chars_eq_str(&argument, "--app") {
            if !has_value {
                return Err(String::from_str("--app needs a value"));
            }
            let value = arguments[index + 1].clone();
            proof {
                view = FlagsView { app: Some(args[index + 1]), ..view };
            }
            flags.app = Some(value);
            index = index + 2;
        } else if chars_eq_str(&argument, "--timeout") {
            if !has_value {
                return Err(String::from_str("--timeout needs a value"));
            }
            match parse_unsigned(arguments[index + 1].as_str(), u64::MAX) {
                Some(n) => {
                    proof {
                        view = FlagsView { timeout_seconds: n, ..view };
                    }
                    flags.timeout_seconds = n;
                },
                None => {
                    return Err(String::from_str("--timeout needs a whole number of seconds"));
                },
            }
            index = index + 2;
        } else if chars_eq_str(&argument, "--max-bytes") {
            if !has_value {
                return Err(String::from_str("--max-bytes needs a value"));
            }
            match parse_unsigned(arguments[index + 1].as_str(), usize::MAX as u64) {
                Some(n) => {
                    proof {
                        view = FlagsView { max_bytes: n as usize, ..view };
                    }
                    flags.max_bytes = n as usize;
                },
                None => {
                    return Err(String::from_str("--max-bytes needs a whole number"));
                },
            }
            index = index + 2;
        } else if chars_eq_str(&argument, "--cdn") {
            proof {
                view = FlagsView { cdn: true, ..view };
            }
            flags.cdn = true;
            index = index + 1;
        } else if chars_eq_str(&argument, "--json") {
            proof {
                view = FlagsView { json: true, ..view };
            }
            flags.json = true;
            index = index + 1;
        } else if argument.len() > 0 && argument[0] == '-' && !chars_eq_str(&argument, "-") {
            let mut message = String::from_str("unknown option ");
            message.append(arguments[index].as_str());
            return Err(message);
        } else {
            let ghost before = string_views(positional@);
            positional.push(arguments[index].clone());
            proof {
                view = FlagsView { positional: view.positional.push(args[index as int]), ..view };
                assert(string_views(positional@) =~= before.push(args[index as int]));
            }
            index = index + 1;
        }
    }
    Ok((positional, flags))
}

/// What the command line was asked to do.
#[derive(Debug)]
pub enum Command {
    /// Print the usage text.
    Help,
    /// Print the version.
    Version,
    /// Serve MCP over stdio.
    Serve { options: FetchOptions },
    /// Why doesn't this link open the app?
    Check { domain: String, url: String, flags: Flags },
    /// Fetch and validate the association file.
    Fetch { domain: String, source: Source, flags: Flags },
    /// Compare the origin against what Apple's CDN serves.
    Compare { domain: String, flags: Flags },
    /// Validate a file the caller already has (`-` is standard input).
    Validate { path: String, flags: Flags },
    /// Match a URL against a file the caller already has (`-` is standard input).
    Explain { path: String, domain: String, url: String, flags: Flags },
}

/// Whether `args` holds `a` or `b` anywhere.
pub open spec fn mentions(args: Seq<Seq<char>>, a: Seq<char>, b: Seq<char>) -> bool {
    exists|i: int| 0 <= i < args.len() && (#[trigger] args[i] == a || args[i] == b)
}

/// The refusal for a command given the wrong number of arguments.
pub open spec fn usage_error(usage: Seq<char>) -> Seq<char> {
    "usage: blazingly-aasa "@ + usage
}

/// `r` is the command `args` asks for, with `view` holding the flags that follow it.
pub open spec fn command_from(
    r: Result<Command, String>,
    name: Seq<char>,
    view: FlagsView,
) -> bool {
    let p = view.positional;
    if name == "serve"@ {
        r matches Ok(Command::Serve { options }) && options.max_bytes == view.max_bytes
    } else if name == "check"@ {
        if p.len() == 2 {
            r matches Ok(Command::Check { domain, url, flags }) && domain@ == p[0] && url@ == p[1]
                && flags_hold(seq![domain, url], flags, view)
        } else {
            r matches Err(e) && e@ == usage_error("check <domain> <url> [--app <id>]"@)
        }
    } else if name == "fetch"@ {
        if p.len() == 1 {
            r matches Ok(Command::Fetch { domain, source, flags }) && domain@ == p[0] && source == (
            if view.cdn {
                Source::AppleCdn
            } else {
                Source::WellKnown
            }) && flags_hold(seq![domain], flags, view)
        } else {
            r matches Err(e) && e@ == usage_error("fetch <domain> [--cdn]"@)
        }
    } else if name == "compare"@ {
        if p.len() == 1 {
            r matches Ok(Command::Compare { domain, flags }) && domain@ == p[0] && flags_hold(
                seq![domain],
                flags,
                view,
            )
        } else {
            r matches Err(e) && e@ == usage_error("compare <domain>"@)
        }
    } else if name == "validate"@ {
        if p.len() == 1 {
            r matches Ok(Command::Validate { path, flags }) && path@ == p[0] && flags_hold(
                seq![path],
                flags,
                view,
            )
        } else {
            r matches Err(e) && e@ == usage_error("validate <file|->"@)
        }
    } else if name == "explain"@ {
        if p.len() == 3 {
            r matches Ok(Command::Explain { path, domain, url, flags }) && path@ == p[0] && domain@
                == p[1] && url@ == p[2] && flags_hold(seq![path, domain, url], flags, view)
        } else {
            r matches Err(e) && e@ == usage_error("explain <file|-> <domain> <url> [--app <id>]"@)
        }
    } else {
        r matches Err(e) && e@ == "unknown command `"@ + name + "`\n\n"@ + USAGE@
    }
}

/// `r` is what the whole argument list asks for: help and version win wherever they stand, no
/// arguments at all means serving MCP, and otherwise the first argument names a command whose
/// flags are read from the rest.
pub open spec fn plans(r: Result<Command, String>, args: Seq<Seq<char>>) -> bool {
    if mentions(args, "-h"@, "--help"@) {
        r matches Ok(Command::Help)
    } else if mentions(args, "-V"@, "--version"@) {
        r matches Ok(Command::Version)
    } else if args.len() == 0 {
        r matches Ok(Command::Serve { options }) && options.max_bytes == DEFAULT_MAX_BYTES
    } else {
        match flags_from(args.drop_first(), 0, initial_flags()) {
            Err(m) => r matches Err(e) && e@ == m,
            Ok(view) => command_from(r, args[0], view),
        }
    }
}

fn mentions_exec(arguments: &Vec<String>, a: &str, b: &str) -> (r: bool)
    ensures
        r == mentions(string_views(arguments@), a@, b@),
{
    let ghost args = string_views(arguments@);
    let mut i: usize = 0;
    while i < arguments.len()
        invariant
            i <= arguments@.len(),
            args == string_views(arguments@),
            forall|k: int| 0 <= k < i ==> !(#[trigger] args[k] == a@ || args[k] == b@),
        decreases arguments.len() - i,
    {
        let c = chars_of(arguments[i].as_str());
        if chars_eq_str(&c, a) || chars_eq_str(&c, b) {
            assert(args[i as int] == a@ || args[i as int] == b@);
            return true;
        }
        i = i + 1;
    }
    false
}

fn usage_failure(usage: &str) -> (e: String)
    ensures
        e@ == usage_error(usage@),
{
    let mut e = String::from_str("usage: blazingly-aasa ");
    e.append(usage);
    e
}

/// Decides what the command line was asked to do.
pub fn plan(arguments: &Vec<String>) -> (r: Result<Command, String>)
    ensures
        plans(r, string_views(arguments@)),
{
    let ghost args = string_views(arguments@);
    if mentions_exec(arguments, "-h", "--help") {
        return Ok(Command::Help);
    }
    if mentions_exec(arguments, "-V", "--version") {
        return Ok(Command::Version);
    }
    if arguments.len() == 0 {
        return Ok(Command::Serve { options: FetchOptions::default() });
    }
    let rest = arguments.as_slice().split_at(1).1;
    assert(string_views(rest@) =~= args.drop_first());
    let (positional, flags) = match parse_flags(rest) {
        Ok(parsed) => parsed,
        Err(message) => return Err(message),
    };
    let ghost view = flags_from(args.drop_first(), 0, initial_flags())->Ok_0;
    let name = chars_of(arguments[0].as_str());
    assert(name@ == args[0]);
    if chars_eq_str(&name, "serve") {
        return Ok(Command::Serve { options: flags.options() });
    }
    if chars_eq_str(&name, "check") {
        if positional.len() != 2 {
            return Err(usage_failure("check <domain> <url> [--app <id>]"));
        }
        let domain = positional[0].clone();
        let url = positional[1].clone();
        assert(positional@ =~= seq![domain, url]);
        return Ok(Command::Check { domain, url, flags });
    }
    if chars_eq_str(&name, "fetch") {
        if positional.len() != 1 {
            return Err(usage_failure("fetch <domain> [--cdn]"));
        }
        let source = if flags.cdn {
            Source::AppleCdn
        } else {
            Source::WellKnown
        };
        let domain = positional[0].clone();
        assert(positional@ =~= seq![domain]);
        return Ok(Command::Fetch { domain, source, flags });
    }
    if chars_eq_str(&name, "compare") {
        if positional.len() != 1 {
            return Err(usage_failure("compare <domain>"));
        }
        let domain = positional[0].clone();
        assert(positional@ =~= seq![domain]);
        return Ok(Command::Compare { domain, flags });
    }
    if chars_eq_str(&name, "validate") {
        if positional.len() != 1 {
            return Err(usage_failure("validate <file|->"));
        }
        let path = positional[0].clone();
        assert(positional@ =~= seq![path]);
        return Ok(Command::Validate { path, flags });
    }
    if chars_eq_str(&name, "explain") {
        if positional.len() != 3 {
            return Err(usage_failure("explain <file|-> <domain> <url> [--app <id>]"));
        }
        let path = positional[0].clone();
        let domain = positional[1].clone();
        let url = positional[2].clone();
        assert(positional@ =~= seq![path, domain, url]);
        return Ok(Command::Explain { path, domain, url, flags });
    }
    let mut message = String::from_str("unknown command `");
    message.append(arguments[0].as_str());
    message.append("`\n\n");
    message.append(USAGE);
    Err(message)
}

/// Whether a link check is good news: the named app matches, or, with no app named, some app
/// is reached.
pub fn link_check_clean(check: &LinkCheck) -> (clean: bool)
    ensures
        clean == match check.decision {
            Some(d) => d@ == "match"@,
            None => check.apps@.len() > 0,
        },
{
    match check.decision {
        Some(d) => chars_eq_str(&chars_of(d), "match"),
        None => check.apps.len() > 0,
    }
}

/// Whether an offline match is good news, by the same rule as [`link_check_clean`].
pub fn explanation_clean(explanation: &Explanation) -> (clean: bool)
    ensures
        clean == match explanation.decision {
            Some(d) => d@ == "match"@,
            None => explanation.apps@.len() > 0,
        },
{
    match explanation.decision {
        Some(d) => chars_eq_str(&chars_of(d), "match"),
        None => explanation.apps.len() > 0,
    }
}

/// Whether a fetched file is good news: no diagnostic is an error.
pub fn file_report_clean(report: &FileReport) -> (clean: bool)
    ensures
        clean == !report.has_errors,
{
    !report.has_errors
}

/// Whether a supplied file is good news, by the same rule as [`file_report_clean`].
pub fn validation_clean(validation: &Validation) -> (clean: bool)
    ensures
        clean == !validation.has_errors,
{
    !validation.has_errors
}

/// Whether a comparison is good news: the CDN copy decides as the site's own file does.
pub fn comparison_clean(comparison: &CdnComparison) -> (clean: bool)
    ensures
        clean == comparison.equivalent,
{
    comparison.equivalent
}

} // verus!
