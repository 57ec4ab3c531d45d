//! Option parsing of the `discover` command: `[--max-pages N] [--max-records N]
//! [--per-page N]`, each at most once.

use vstd::prelude::*;
use vstd::string::StringExecFns;

use crate::domain::string_views;
use crate::host::DiscoverLimits;
use crate::text::{chars_of, join2, parse_unsigned, spec_parse_unsigned, str_eq};

verus! {

pub open spec fn positive_flag(flag: Seq<char>) -> bool {
    flag == "--max-pages"@ || flag == "--per-page"@
}

/// What one option value parses to, or the message that rejects it.
pub open spec fn spec_parse_limit_value(flag: Seq<char>, value: Seq<char>) -> Result<u64, Seq<char>> {
    match spec_parse_unsigned(value, u64::MAX as nat) {
        None => Err(flag + " must be a non-negative integer"@),
        Some(v) => if positive_flag(flag) && v == 0 {
            Err(flag + " must be greater than zero"@)
        } else {
            Ok(v as u64)
        },
    }
}

pub open spec fn set_limit(acc: DiscoverLimits, flag: Seq<char>, v: u64) -> Result<
    DiscoverLimits,
    Seq<char>,
> {
    if flag == "--max-pages"@ {
        if acc.max_pages is Some {
            Err("--max-pages specified more than once"@)
        } else {
            Ok(DiscoverLimits { max_pages: Some(v), per_page: acc.per_page, max_records: acc.max_records })
        }
    } else if flag == "--max-records"@ {
        if acc.max_records is Some {
            Err("--max-records specified more than once"@)
        } else {
            Ok(DiscoverLimits { max_pages: acc.max_pages, per_page: acc.per_page, max_records: Some(v) })
        }
    } else if flag == "--per-page"@ {
        if acc.per_page is Some {
            Err("--per-page specified more than once"@)
        } else {
            Ok(DiscoverLimits { max_pages: acc.max_pages, per_page: Some(v), max_records: acc.max_records })
        }
    } else {
        Err("unknown discover option: "@ + flag)
    }
}

/// The options from position `i` on, read as flag/value pairs into `acc`.
pub open spec fn limits_from(args: Seq<Seq<char>>, i: nat, acc: DiscoverLimits) -> Result<
    DiscoverLimits,
    Seq<char>,
>
    decreases args.len() - i,
{
    if i >= args.len() {
        Ok(acc)
    } else if i + 1 >= args.len() {
        Err(args[i as int] + " requires a value"@)
    } else {
        match spec_parse_limit_value(args[i as int], args[i + 1 as int]) {
            Err(e) => Err(e),
            Ok(v) => match set_limit(acc, args[i as int], v) {
                Err(e) => Err(e),
                Ok(next) => limits_from(args, i + 2, next),
            },
        }
    }
}

pub open spec fn no_limits() -> DiscoverLimits {
    DiscoverLimits { max_pages: None, per_page: None, max_records: None }
}

pub open spec fn spec_parse_discover_limits(args: Seq<Seq<char>>) -> Result<DiscoverLimits, Seq<char>> {
    limits_from(args, 0, no_limits())
}

/// Parses one option value: a decimal `u64`; `--max-pages` and `--per-page`
/// must also be above zero.
pub fn parse_limit_value(flag: &str, value: &str) -> (r: Result<u64, String>)
    ensures
        match spec_parse_limit_value(flag@, value@) {
            Ok(v) => r == Ok::<u64, String>(v),
            Err(m) => r matches Err(e) && e@ == m,
        },
{
    let chars = chars_of(value);
    match parse_unsigned(chars.as_slice(), u64::MAX) {
        None => Err(join2(flag, " must be a non-negative integer")),
        Some(v) => {
            if (str_eq(flag, "--max-pages") || str_eq(flag, "--per-page")) && v == 0 {
                Err(join2(flag, " must be greater than zero"))
            } else {
                Ok(v)
            }
        },
    }
}

/// Parses the optional limit flags of `discover`. Each flag takes a value, may
/// be given once, and unknown flags are refused.
pub fn parse_discover_limits(args: &[String]) -> (r: Result<DiscoverLimits, String>)
    ensures
        match spec_parse_discover_limits(string_views(args@)) {
            Ok(l) => r == Ok::<DiscoverLimits, String>(l),
            Err(m) => r matches Err(e) && e@ == m,
        },
{
    let ghost views = string_views(args@);
    let mut limits = DiscoverLimits { max_pages: None, per_page: None, max_records: None };
    let mut index: usize = 0;
    while index < args.len()
        invariant
            views == string_views(args@),
            index <= args.len(),
            spec_parse_discover_limits(views) == limits_from(views, index as nat, limits),
        decreases args.len() - index,
    {
        let flag = args[index].as_str();
        assert(views[index as int] == flag@);
        if index + 1 >= args.len() {
            return Err(join2(flag, " requires a value"));
        }
        let value = args[index + 1].as_str();
        assert(views[index + 1 as int] == value@);
        let parsed = match parse_limit_value(flag, value) {
            Ok(v) => v,
            Err(e) => return Err(e),
        };
        if str_eq(flag, "--max-pages") {
            if limits.max_pages.is_some() {
                return Err(String::from_str("--max-pages specified more than once"));
            }
            limits = DiscoverLimits { max_pages: Some(parsed), per_page: limits.per_page, max_records: limits.max_records };
        } else if str_eq(flag, "--max-records") {
            if limits.max_records.is_some() {
                return Err(String::from_str("--max-records specified more than once"));
            }
            limits = DiscoverLimits { max_pages: limits.max_pages, per_page: limits.per_page, max_records: Some(parsed) };
        } else if str_eq(flag, "--per-page") {
            if limits.per_page.is_some() {
                return Err(String::from_str("--per-page specified more than once"));
            }
            limits = DiscoverLimits { max_pages: limits.max_pages, per_page: Some(parsed), max_records: limits.max_records };
        } else {
            let mut m = String::from_str("unknown discover option: ");
            m.append(flag);
            return Err(m);
        }
        index = index + 2;
    }
    Ok(limits)
}

/// The command's usage text.
pub fn usage() -> (u: &'static str)
    ensures
        u@ == "Usage:\n  mh init-db <path>\n  mh inspect <path>\n  mh discover <db-path> <plugins-dir> <plugin-id> [--max-pages N] [--max-records N] [--per-page N]"@,
{
    "Usage:\n  mh init-db <path>\n  mh inspect <path>\n  mh discover <db-path> <plugins-dir> <plugin-id> [--max-pages N] [--max-records N] [--per-page N]"
}

} // verus!
