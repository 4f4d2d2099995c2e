//! Running a probe under a time limit: what the runner does after each
//! poll of the probe process, and what the process's exit means.

use vstd::prelude::*;

use crate::readback::{parse_probe_output, spec_parse_probe_output, ProbeModel, ProbeResult};
use crate::text::{chars_of, decimal, decimal_string, owned, string_of, trim, trim_chars};

verus! {

/// What the runner does after it polled the probe process.
#[derive(Clone, Copy, Debug, PartialEq, Eq, Structural)]
pub enum ProbeAction {
    /// The process has exited: collect its output.
    Collect,
    /// The time limit has passed: stop the process and report a timeout.
    GiveUp,
    /// Still running within the limit: wait a little and poll again.
    Wait,
}

/// An exited process is collected; a running one is given up once the time
/// limit has passed, and waited for before that.
pub open spec fn spec_next_probe_action(exited: bool, elapsed_ms: u128, timeout_ms: u64) -> ProbeAction {
    if exited {
        ProbeAction::Collect
    } else if elapsed_ms >= timeout_ms {
        ProbeAction::GiveUp
    } else {
        ProbeAction::Wait
    }
}

/// Decides the runner's next step (see [`spec_next_probe_action`]).
pub fn next_probe_action(exited: bool, elapsed_ms: u128, timeout_ms: u64) -> (r: ProbeAction)
    ensures
        r == spec_next_probe_action(exited, elapsed_ms, timeout_ms),
{
    if exited {
        ProbeAction::Collect
    } else if elapsed_ms >= timeout_ms as u128 {
        ProbeAction::GiveUp
    } else {
        ProbeAction::Wait
    }
}

pub open spec fn spec_timeout_message(timeout_ms: u64) -> Seq<char> {
    "timeout after "@ + decimal(timeout_ms as nat) + "ms"@
}

/// The error of a probe that ran out of time.
pub fn probe_timeout_message(timeout_ms: u64) -> (r: String)
    ensures
        r@ == spec_timeout_message(timeout_ms),
{
    let mut r = owned("timeout after ");
    r.append(decimal_string(timeout_ms).as_str());
    r.append("ms");
    r
}

/// The error of a probe that exited unsuccessfully: what it wrote to its
/// error stream, trimmed, or its exit status when that is blank.
pub open spec fn spec_failed_probe_message(status: Seq<char>, stderr: Seq<char>) -> Seq<char> {
    if trim(stderr).len() == 0 {
        "probe exited with status "@ + status
    } else {
        trim(stderr)
    }
}

/// What a finished probe gives: its report read back when it succeeded,
/// else its error.
pub open spec fn spec_probe_outcome(
    feature_code: u8,
    success: bool,
    status: Seq<char>,
    stdout: Seq<char>,
    stderr: Seq<char>,
) -> Result<ProbeModel, Seq<char>> {
    if success {
        spec_parse_probe_output(feature_code, stdout)
    } else {
        Err(spec_failed_probe_message(status, stderr))
    }
}

/// What a finished probe gives (see [`spec_probe_outcome`]); `status` is
/// the exit status as text.
pub fn probe_outcome(feature_code: u8, success: bool, status: &str, stdout: &str, stderr: &str) -> (r: Result<
    ProbeResult,
    String,
>)
    ensures
        match spec_probe_outcome(feature_code, success, status@, stdout@, stderr@) {
            Ok(m) => r is Ok && r->Ok_0@ == m,
            Err(e) => r is Err && r->Err_0@ == e,
        },
{
    if success {
        return parse_probe_output(feature_code, stdout);
    }
    let trimmed = trim_chars(&chars_of(stderr));
    if trimmed.len() == 0 {
        let mut message = owned("probe exited with status ");
        message.append(status);
        Err(message)
    } else {
        Err(string_of(&trimmed))
    }
}

} // verus!
