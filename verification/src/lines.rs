//! Building output: strings from pieces and lists of lines.

use vstd::prelude::*;

use crate::profile::{str_opt_view, string_opt_view};
use crate::readback::{opt_line, strings_view};
use crate::text::owned;

verus! {

// ---------------------------------------------------------------------
// Builders
// ---------------------------------------------------------------------

/// The two strings one after the other.
pub fn cat2(a: &str, b: &str) -> (r: String)
    ensures
        r@ == a@ + b@,
{
    let mut r = owned(a);
    r.append(b);
    r
}

/// Adds one line at the end.
pub fn push_line(lines: &mut Vec<String>, line: String)
    ensures
        strings_view(final(lines)@) == strings_view(old(lines)@).push(line@),
{
    lines.push(line);
    assert(strings_view(lines@) =~= strings_view(old(lines)@).push(line@));
}

/// Adds `key` followed by the value, when there is a value.
pub fn push_opt(lines: &mut Vec<String>, key: &str, value: Option<&str>)
    ensures
        strings_view(final(lines)@) == strings_view(old(lines)@) + opt_line(key@, str_opt_view(value)),
{
    let ghost before = strings_view(lines@);
    if let Some(v) = value {
        lines.push(cat2(key, v));
    }
    assert(strings_view(lines@) =~= before + opt_line(key@, str_opt_view(value)));
}

/// Adds the lines of `more` at the end, in order.
pub fn append_lines(lines: &mut Vec<String>, more: Vec<String>)
    ensures
        strings_view(final(lines)@) == strings_view(old(lines)@) + strings_view(more@),
{
    let mut more = more;
    let ghost before = strings_view(lines@);
    let ghost rest = strings_view(more@);
    lines.append(&mut more);
    assert(strings_view(lines@) =~= before + rest);
}

/// The text of an optional string, borrowed.
pub fn opt_str(s: &Option<String>) -> (r: Option<&str>)
    ensures
        str_opt_view(r) == string_opt_view(*s),
{
    match s {
        Some(s) => Some(s.as_str()),
        None => None,
    }
}

} // verus!
