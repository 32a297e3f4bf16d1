//! The prefix that the operator asks for on the kernel command line.
//!
//! The command line names the prefix as `net.ifnames.prefix=<letters>`.  It
//! is searched with the `regex` crate.

use vstd::prelude::*;
use crate::error::NamingError;
use crate::name::PREFIX_MAX_LEN;
use crate::text::{chars_of, same_chars};

verus! {

/// `regex::Error`, the report on a pattern that could not be compiled.
#[verifier::external_type_specification]
#[verifier::external_body]
pub struct ExRegexError(regex::Error);

/// What the first group of `pattern` holds in the leftmost match that
/// `regex::Regex::captures` finds in `text`.  Nothing at all where
/// `regex::Regex::new` turns the pattern down; no text where the pattern is
/// not found or the group takes no part in the match.
pub uninterp spec fn first_group(pattern: Seq<char>, text: Seq<char>) -> Option<Option<Seq<char>>>;

/// Compiles `pattern` with `regex::Regex::new`, searches `text` with
/// `regex::Regex::captures` and hands out what `regex::Captures::get` has for
/// the first group.  Assumed: the outcome depends on the two texts alone.
#[verifier::external_body]
fn capture_first_group(pattern: &str, text: &str) -> (r: Result<Option<String>, regex::Error>)
    ensures
        match r {
            Ok(Some(group)) => first_group(pattern@, text@) == Some(Some(group@)),
            Ok(None) => first_group(pattern@, text@) == Some(None::<Seq<char>>),
            Err(_) => first_group(pattern@, text@) is None,
        },
{
    let re = regex::Regex::new(pattern)?;
    Ok(
        match re.captures(text) {
            Some(found) => match found.get(1) {
                Some(group) => Some(group.as_str().to_owned()),
                None => None,
            },
            None => None,
        },
    )
}

/// The pattern that finds the prefix on the kernel command line; its first
/// group is the prefix.
pub const PREFIX_PATTERN: &'static str = "net.ifnames.prefix=([[:alpha:]]+)";

/// The prefix that the kernel itself gives to network devices.
pub open spec fn kernel_prefix() -> Seq<char> {
    seq!['e', 't', 'h']
}

/// The prefix that a capture on the command line asks for.  Without a
/// capture no prefix is asked for, which the empty prefix stands for.  The
/// kernel's own prefix is turned down, and so is one that is too long.
pub open spec fn prefix_of_capture(capture: Option<Seq<char>>) -> Result<Seq<char>, NamingError> {
    match capture {
        None => Ok(Seq::empty()),
        Some(prefix) => if prefix == kernel_prefix() {
            Err(NamingError::KernelPrefix)
        } else if prefix.len() > PREFIX_MAX_LEN {
            Err(NamingError::PrefixTooLong)
        } else {
            Ok(prefix)
        },
    }
}

/// The prefix that the kernel command line `cmdline` asks for.
pub open spec fn prefix_of_cmdline(cmdline: Seq<char>) -> Result<Seq<char>, NamingError> {
    match first_group(PREFIX_PATTERN@, cmdline) {
        Some(capture) => prefix_of_capture(capture),
        None => Err(NamingError::Pattern),
    }
}

/// Tells whether `r` is `expected`, text for text.
pub open spec fn is_result(r: Result<String, NamingError>, expected: Result<Seq<char>, NamingError>) -> bool {
    match r {
        Ok(text) => expected == Ok::<Seq<char>, NamingError>(text@),
        Err(e) => expected == Err::<Seq<char>, NamingError>(e),
    }
}

/// Decides on what was captured on the command line: the prefix that is
/// asked for, the empty one if nothing was captured, or why it is
/// turned down.  A prefix is never cut short.
pub fn prefix_from_capture(capture: Option<String>) -> (r: Result<String, NamingError>)
    ensures
        is_result(
            r,
            prefix_of_capture(
                match capture {
                    Some(text) => Some(text@),
                    None => None,
                },
            ),
        ),
{
    match capture {
        None => Ok(String::new()),
        Some(prefix) => {
            let chars = chars_of(prefix.as_str());
            let eth = vec!['e', 't', 'h'];
            assert(eth@ =~= kernel_prefix());
            if same_chars(&chars, &eth) {
                Err(NamingError::KernelPrefix)
            } else if chars.len() > PREFIX_MAX_LEN {
                Err(NamingError::PrefixTooLong)
            } else {
                Ok(prefix)
            }
        },
    }
}

/// Finds the prefix that the kernel command line asks for.
pub fn get_prefix_from_cmdline(cmdline: &str) -> (r: Result<String, NamingError>)
    ensures
        is_result(r, prefix_of_cmdline(cmdline@)),
{
    match capture_first_group(PREFIX_PATTERN, cmdline) {
        Ok(capture) => prefix_from_capture(capture),
        Err(_) => Err(NamingError::Pattern),
    }
}

} // verus!
