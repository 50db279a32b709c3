//! The decisions of the service manager: reading `launchctl list` and
//! `skhd --status`, and judging the state a service reached after a command.
use vstd::prelude::*;

use crate::models::{spec_display_name, ServiceState, SkhdVariant};
use crate::text::{
    chars_of, contains_str, find_char, find_char_in, find_ws, find_ws_in, is_ws,
    lemma_find_char, lemma_find_ws, lemma_skip_ws, owned, range_is, seq_contains, skip_ws, skip_ws_in, text_of,
    trim,
};
use crate::detect::trim_seq;

verus! {

/// An error of a service operation, tagged with the variant it concerns.
#[derive(Debug, Clone)]
pub struct ServiceError {
    pub variant: SkhdVariant,
    pub message: String,
}

pub open spec fn tagged(v: SkhdVariant, message: Seq<char>) -> Seq<char> {
    spec_display_name(v) + ": "@ + message
}

impl ServiceError {
    /// The message, prefixed with the variant's name: `skhd: ...` or `skhd.zig: ...`.
    pub fn to_string(&self) -> (r: String)
        ensures
            r@ == tagged(self.variant, self.message@),
    {
        let r = owned(self.variant.display_name());
        let r = r.concat(": ");
        r.concat(self.message.as_str())
    }
}

pub(crate) fn tag(v: SkhdVariant, message: &str) -> (r: String)
    ensures
        r@ == tagged(v, message@),
{
    ServiceError { variant: v, message: owned(message) }.to_string()
}

// ------------------------------------------------------------------
// `launchctl list`
// ------------------------------------------------------------------

/// End of the line that starts at `p` without its terminator, as `str::lines`
/// gives it: a line feed, and a carriage return just before it, are dropped.
pub open spec fn line_content_end(s: Seq<char>, p: int) -> int {
    let e = find_char(s, p, s.len() as int, '\n');
    if e < s.len() && e > p && s[e - 1] == '\r' {
        e - 1
    } else {
        e
    }
}

/// The whitespace-separated words of `[lo, hi)`, as `str::split_whitespace` gives them.
pub open spec fn words(s: Seq<char>, lo: int, hi: int) -> Seq<(int, int)>
    decreases hi - lo,
{
    let a = skip_ws(s, lo, hi);
    if lo >= hi || a >= hi {
        Seq::empty()
    } else {
        let b = find_ws(s, a, hi);
        proof {
            lemma_skip_ws(s, lo, hi);
            lemma_find_ws(s, a, hi);
        }
        if b <= lo {
            Seq::empty()
        } else {
            seq![(a, b)] + words(s, b, hi)
        }
    }
}

/// The first line from `p` on whose third word, the job's label, is `label`.
pub open spec fn launchctl_line(s: Seq<char>, p: int, label: Seq<char>) -> Option<(int, int)>
    decreases s.len() - p,
{
    if p < 0 || p >= s.len() {
        None
    } else {
        let e = find_char(s, p, s.len() as int, '\n');
        let c = line_content_end(s, p);
        proof {
            lemma_find_char(s, p, s.len() as int, '\n');
        }
        if words(s, p, c).len() >= 3 && s.subrange(words(s, p, c)[2].0, words(s, p, c)[2].1)
            == label {
            Some((p, c))
        } else if e >= s.len() {
            None
        } else {
            launchctl_line(s, e + 1, label)
        }
    }
}

/// The value of a string of decimal digits.
pub open spec fn digits_value(d: Seq<char>) -> nat
    decreases d.len(),
{
    if d.len() == 0 {
        0
    } else {
        digits_value(d.drop_last()) * 10 + ((d.last() as int - '0' as int) as nat)
    }
}

pub open spec fn all_digits(d: Seq<char>) -> bool {
    forall|i: int| 0 <= i < d.len() ==> '0' <= #[trigger] d[i] <= '9'
}

/// What `str::parse::<u32>` gives, as an option: an optional `+`, then one or
/// more decimal digits whose value fits in a `u32`.
pub open spec fn spec_parse_u32(s: Seq<char>) -> Option<u32> {
    let d = if s.len() > 0 && s[0] == '+' {
        s.drop_first()
    } else {
        s
    };
    if d.len() > 0 && all_digits(d) && digits_value(d) <= u32::MAX {
        Some(digits_value(d) as u32)
    } else {
        None
    }
}

/// What a `launchctl list` line tells of the service.
pub struct LaunchctlEntry {
    pub state: ServiceState,
    pub pid: Option<u32>,
    pub error_message: Option<String>,
}

pub struct EntryModel {
    pub state: ServiceState,
    pub pid: Option<u32>,
    pub error_message: Option<Seq<char>>,
}

impl View for LaunchctlEntry {
    type V = EntryModel;

    open spec fn view(&self) -> EntryModel {
        EntryModel {
            state: self.state,
            pid: self.pid,
            error_message: self.error_message.deep_view(),
        }
    }
}

/// The entry a `PID Status Label` line stands for: no PID means stopped, a
/// non-zero status an error, otherwise running.
pub open spec fn entry_of(pid: Seq<char>, code: Seq<char>) -> EntryModel {
    if pid == "-"@ {
        EntryModel { state: ServiceState::Stopped, pid: None, error_message: None }
    } else if code != "0"@ {
        EntryModel {
            state: ServiceState::Error,
            pid: spec_parse_u32(pid),
            error_message: Some("Service exited with code "@ + code),
        }
    } else {
        EntryModel { state: ServiceState::Running, pid: spec_parse_u32(pid), error_message: None }
    }
}

/// What `launchctl list` output says of the job `label`, if it lists it.
pub open spec fn spec_launchctl_entry(s: Seq<char>, label: Seq<char>) -> Option<EntryModel> {
    match launchctl_line(s, 0, label) {
        None => None,
        Some((a, c)) => {
            let w = words(s, a, c);
            Some(entry_of(s.subrange(w[0].0, w[0].1), s.subrange(w[1].0, w[1].1)))
        },
    }
}

proof fn lemma_digits_value_prefix(d: Seq<char>, j: int)
    requires
        0 <= j <= d.len(),
        all_digits(d),
    ensures
        digits_value(d.take(j)) <= digits_value(d),
    decreases d.len() - j,
{
    if j < d.len() {
        lemma_digits_value_prefix(d, j + 1);
        assert(d.take(j + 1).drop_last() =~= d.take(j));
        assert(d.take(j + 1).last() == d[j]);
        assert('0' <= d[j]);
    } else {
        assert(d.take(j) =~= d);
    }
}

/// `str::parse::<u32>`, as an option.
pub fn parse_u32(s: &str) -> (r: Option<u32>)
    ensures
        r == spec_parse_u32(s@),
{
    let v = chars_of(s);
    let start: usize = if v.len() > 0 && v[0] == '+' {
        1
    } else {
        0
    };
    let ghost d = if s@.len() > 0 && s@[0] == '+' {
        s@.drop_first()
    } else {
        s@
    };
    proof {
        assert(d =~= v@.subrange(start as int, v@.len() as int));
    }
    if start >= v.len() {
        return None;
    }
    let mut i = start;
    while i < v.len()
        invariant
            start <= i <= v@.len(),
            v@ == s@,
            d == (if s@.len() > 0 && s@[0] == '+' {
                s@.drop_first()
            } else {
                s@
            }),
            d == v@.subrange(start as int, v@.len() as int),
            forall|k: int| 0 <= k < i - start ==> '0' <= #[trigger] d[k] <= '9',
        decreases v@.len() - i,
    {
        if !('0' <= v[i] && v[i] <= '9') {
            proof {
                assert(d[i - start] == v@[i as int]);
                assert(!('0' <= d[i - start] <= '9'));
                assert(!all_digits(d));
            }
            return None;
        }
        i = i + 1;
    }
    let mut acc: u64 = 0;
    let mut j = start;
    while j < v.len()
        invariant
            start <= j <= v@.len(),
            v@ == s@,
            d == (if s@.len() > 0 && s@[0] == '+' {
                s@.drop_first()
            } else {
                s@
            }),
            d == v@.subrange(start as int, v@.len() as int),
            all_digits(d),
            acc == digits_value(d.take(j - start)),
            acc <= u32::MAX,
        decreases v@.len() - j,
    {
        let ch = v[j];
        proof {
            assert(d[j - start] == v@[j as int]);
            assert('0' <= d[j - start] <= '9');
            assert(d.take(j - start + 1).drop_last() =~= d.take(j - start));
            assert(d.take(j - start + 1).last() == ch);
        }
        let digit = (ch as u64) - ('0' as u64);
        if acc > (0xffff_ffffu64 - digit) / 10 {
            proof {
                assert(digits_value(d.take(j - start + 1)) == acc * 10 + digit);
                assert(acc * 10 + digit > 0xffff_ffff) by (nonlinear_arith)
                    requires
                        acc > (0xffff_ffffu64 - digit) / 10,
                        digit <= 9,
                ;
                lemma_digits_value_prefix(d, j - start + 1);
                assert(digits_value(d) > u32::MAX);
            }
            return None;
        }
        proof {
            assert(acc * 10 + digit <= 0xffff_ffff) by (nonlinear_arith)
                requires
                    acc <= (0xffff_ffffu64 - digit) / 10,
                    digit <= 9,
            ;
        }
        acc = acc * 10 + digit;
        j = j + 1;
    }
    proof {
        assert(d.take(d.len() as int) =~= d);
    }
    Some(acc as u32)
}

/// The words of `[lo, hi)` of `s`.
fn words_in(s: &Vec<char>, lo: usize, hi: usize) -> (r: Vec<(usize, usize)>)
    requires
        lo <= hi <= s@.len(),
    ensures
        Seq::new(r@.len(), |i: int| (r@[i].0 as int, r@[i].1 as int)) == words(
            s@,
            lo as int,
            hi as int,
        ),
        forall|i: int| 0 <= i < r@.len() ==> lo <= #[trigger] r@[i].0 <= r@[i].1 <= hi,
{
    let mut r: Vec<(usize, usize)> = Vec::new();
    let mut p = lo;
    loop
        invariant
            lo <= p <= hi <= s@.len(),
            Seq::new(r@.len(), |i: int| (r@[i].0 as int, r@[i].1 as int)) + words(
                s@,
                p as int,
                hi as int,
            ) == words(s@, lo as int, hi as int),
            forall|i: int| 0 <= i < r@.len() ==> lo <= #[trigger] r@[i].0 <= r@[i].1 <= hi,
        decreases hi - p,
    {
        let a = skip_ws_in(s, p, hi);
        if p >= hi || a >= hi {
            proof {
                assert(Seq::new(r@.len(), |i: int| (r@[i].0 as int, r@[i].1 as int)) + Seq::<
                    (int, int),
                >::empty() =~= Seq::new(r@.len(), |i: int| (r@[i].0 as int, r@[i].1 as int)));
            }
            return r;
        }
        let b = find_ws_in(s, a, hi);
        proof {
            lemma_skip_ws(s@, p as int, hi as int);
        }
        if b <= p {
            proof {
                assert(Seq::new(r@.len(), |i: int| (r@[i].0 as int, r@[i].1 as int)) + Seq::<
                    (int, int),
                >::empty() =~= Seq::new(r@.len(), |i: int| (r@[i].0 as int, r@[i].1 as int)));
            }
            return r;
        }
        let ghost before = Seq::new(r@.len(), |i: int| (r@[i].0 as int, r@[i].1 as int));
        r.push((a, b));
        proof {
            assert(Seq::new(r@.len(), |i: int| (r@[i].0 as int, r@[i].1 as int)) =~= before.push(
                (a as int, b as int),
            ));
            assert(before + (seq![(a as int, b as int)] + words(s@, b as int, hi as int)) =~= before.push(
                (a as int, b as int),
            ) + words(s@, b as int, hi as int));
        }
        p = b;
    }
}

/// What `launchctl list` output says of the job `label`: the first line whose
/// third word is the label is read as `PID Status Label`. A job whose label only
/// contains `label`, such as `com.jackielii.skhd.grabber`, is another job.
pub fn parse_launchctl_entry(stdout: &str, label: &str) -> (r: Option<LaunchctlEntry>)
    ensures
        match r {
            None => spec_launchctl_entry(stdout@, label@) is None,
            Some(e) => spec_launchctl_entry(stdout@, label@) == Some(e@),
        },
{
    let s = chars_of(stdout);
    let n = s.len();
    let mut p: usize = 0;
    while p < n
        invariant
            n == s@.len(),
            s@ == stdout@,
            p <= n,
            launchctl_line(s@, p as int, label@) == launchctl_line(s@, 0, label@),
        decreases n - p,
    {
        let e = find_char_in(&s, p, n, '\n');
        let c = if e < n && e > p && s[e - 1] == '\r' {
            e - 1
        } else {
            e
        };
        let w = words_in(&s, p, c);
        if w.len() >= 3 && range_is(&s, w[2].0, w[2].1, label) {
            let pid = text_of(stdout, w[0].0, w[0].1);
            let code = text_of(stdout, w[1].0, w[1].1);
            proof {
                assert(w@[0].0 as int == words(s@, p as int, c as int)[0].0);
            }
            let entry = if range_is(&s, w[0].0, w[0].1, "-") {
                LaunchctlEntry { state: ServiceState::Stopped, pid: None, error_message: None }
            } else if !range_is(&s, w[1].0, w[1].1, "0") {
                let m = owned("Service exited with code ");
                LaunchctlEntry {
                    state: ServiceState::Error,
                    pid: parse_u32(pid.as_str()),
                    error_message: Some(m.concat(code.as_str())),
                }
            } else {
                LaunchctlEntry {
                    state: ServiceState::Running,
                    pid: parse_u32(pid.as_str()),
                    error_message: None,
                }
            };
            return Some(entry);
        }
        if e >= n {
            return None;
        }
        p = e + 1;
    }
    None
}

/// The message for a job that `launchctl list` does not show.
pub fn launchctl_missing_message(label: &str) -> (r: String)
    ensures
        r@ == "skhd service not found in launchctl list (label: "@ + label@ + ")."@,
{
    let m = owned("skhd service not found in launchctl list (label: ");
    let m = m.concat(label);
    m.concat(").")
}

// ------------------------------------------------------------------
// `skhd --status`
// ------------------------------------------------------------------

/// How `skhd --status` went.
#[derive(Debug, Clone)]
pub enum StatusOutput {
    CouldNotRun,
    Ran { success: bool, stdout: String, stderr: String },
}

pub struct ReportModel {
    pub state: ServiceState,
    pub error_message: Option<Seq<char>>,
}

impl View for StatusOutput {
    /// `None` when the command could not run, else its exit status and outputs.
    type V = Option<(bool, Seq<char>, Seq<char>)>;

    open spec fn view(&self) -> Option<(bool, Seq<char>, Seq<char>)> {
        match self {
            StatusOutput::CouldNotRun => None,
            StatusOutput::Ran { success, stdout, stderr } => Some((*success, stdout@, stderr@)),
        }
    }
}

/// The state `skhd --status` reports: its output is searched for the words
/// `stopped` or `inactive` first (so that `inactive` is not read as `active`),
/// then `running`, `active` or `started`.
pub open spec fn spec_status_report(o: Option<(bool, Seq<char>, Seq<char>)>) -> ReportModel {
    match o {
        None => ReportModel {
            state: ServiceState::Unknown,
            error_message: Some("Failed to run skhd --status"@),
        },
        Some((success, out, err)) => {
            if !success {
                ReportModel {
                    state: ServiceState::Error,
                    error_message: Some("skhd --status failed: "@ + trim_seq(err)),
                }
            } else if seq_contains(out, "stopped"@) || seq_contains(out, "inactive"@) {
                ReportModel { state: ServiceState::Stopped, error_message: None }
            } else if seq_contains(out, "running"@) || seq_contains(out, "active"@)
                || seq_contains(out, "started"@) {
                ReportModel { state: ServiceState::Running, error_message: None }
            } else {
                ReportModel {
                    state: ServiceState::Unknown,
                    error_message: Some("Status: "@ + trim_seq(out)),
                }
            }
        },
    }
}

/// The state and message that `skhd --status` gives.
pub fn status_report(o: &StatusOutput) -> (r: (ServiceState, Option<String>))
    ensures
        r.0 == spec_status_report(o@).state,
        r.1.deep_view() == spec_status_report(o@).error_message,
{
    match o {
        StatusOutput::CouldNotRun => (
            ServiceState::Unknown,
            Some(owned("Failed to run skhd --status")),
        ),
        StatusOutput::Ran { success, stdout, stderr } => {
            let out = stdout.as_str();
            if !*success {
                let m = owned("skhd --status failed: ");
                let t = trim(stderr.as_str());
                (ServiceState::Error, Some(m.concat(t.as_str())))
            } else if contains_str(out, "stopped") || contains_str(out, "inactive") {
                (ServiceState::Stopped, None)
            } else if contains_str(out, "running") || contains_str(out, "active") || contains_str(
                out,
                "started",
            ) {
                (ServiceState::Running, None)
            } else {
                let m = owned("Status: ");
                let t = trim(out);
                (ServiceState::Unknown, Some(m.concat(t.as_str())))
            }
        },
    }
}

// ------------------------------------------------------------------
// Judging the outcome of a command
// ------------------------------------------------------------------

/// How a service state is written in messages.
pub open spec fn spec_state_name(s: ServiceState) -> Seq<char> {
    match s {
        ServiceState::Running => "Running"@,
        ServiceState::Stopped => "Stopped"@,
        ServiceState::Error => "Error"@,
        ServiceState::Unknown => "Unknown"@,
    }
}

pub fn state_name(s: ServiceState) -> (r: &'static str)
    ensures
        r@ == spec_state_name(s),
{
    match s {
        ServiceState::Running => "Running",
        ServiceState::Stopped => "Stopped",
        ServiceState::Error => "Error",
        ServiceState::Unknown => "Unknown",
    }
}

/// The command that restarts a variant's service by hand.
pub open spec fn spec_restart_hint(v: SkhdVariant) -> Seq<char> {
    match v {
        SkhdVariant::Original => "brew services restart skhd"@,
        SkhdVariant::Zig => "skhd --restart-service"@,
    }
}

pub open spec fn msg_start_failed() -> Seq<char> {
    "Service failed to start. Check your skhd configuration for syntax errors."@
}

pub open spec fn msg_unexpected_state(s: ServiceState, v: SkhdVariant) -> Seq<char> {
    "Service in unexpected state: "@ + spec_state_name(s)
        + ". Try restarting the service manually with: "@ + spec_restart_hint(v)
}

/// A start succeeded when the service then runs; a service in error reports its
/// own message, or a default one; any other state is an unexpected one. Every
/// refusal names the variant.
pub open spec fn spec_start_verdict(
    v: SkhdVariant,
    state: ServiceState,
    error_message: Option<Seq<char>>,
) -> Result<(), Seq<char>> {
    match state {
        ServiceState::Running => Ok(()),
        ServiceState::Error => match error_message {
            Some(m) => Err(tagged(v, m)),
            None => Err(tagged(v, msg_start_failed())),
        },
        _ => Err(tagged(v, msg_unexpected_state(state, v))),
    }
}

pub fn start_verdict(v: SkhdVariant, state: ServiceState, error_message: Option<String>) -> (r:
    Result<(), String>)
    ensures
        match (r, spec_start_verdict(v, state, error_message.deep_view())) {
            (Ok(()), Ok(())) => true,
            (Err(m), Err(sm)) => m@ == sm,
            _ => false,
        },
{
    match state {
        ServiceState::Running => Ok(()),
        ServiceState::Error => match error_message {
            Some(m) => Err(tag(v, m.as_str())),
            None => Err(
                tag(v, "Service failed to start. Check your skhd configuration for syntax errors."),
            ),
        },
        _ => {
            let m = owned("Service in unexpected state: ");
            let m = m.concat(state_name(state));
            let m = m.concat(". Try restarting the service manually with: ");
            let hint = match v {
                SkhdVariant::Original => "brew services restart skhd",
                SkhdVariant::Zig => "skhd --restart-service",
            };
            let m = m.concat(hint);
            Err(tag(v, m.as_str()))
        },
    }
}

pub open spec fn msg_still_running() -> Seq<char> {
    "Failed to stop service. The service is still running."@
}

pub open spec fn msg_restart_failed() -> Seq<char> {
    "Service failed to restart. Check the service status."@
}

/// A stop succeeded unless the service still runs.
pub fn stop_verdict(v: SkhdVariant, state: ServiceState) -> (r: Result<(), String>)
    ensures
        r is Ok <==> state != ServiceState::Running,
        r matches Err(m) ==> m@ == tagged(v, msg_still_running()),
{
    if state == ServiceState::Running {
        Err(tag(v, "Failed to stop service. The service is still running."))
    } else {
        Ok(())
    }
}

/// A restart succeeded when the service then runs.
pub fn restart_verdict(v: SkhdVariant, state: ServiceState) -> (r: Result<(), String>)
    ensures
        r is Ok <==> state == ServiceState::Running,
        r matches Err(m) ==> m@ == tagged(v, msg_restart_failed()),
{
    if state == ServiceState::Running {
        Ok(())
    } else {
        Err(tag(v, "Service failed to restart. Check the service status."))
    }
}

/// Whether a message begins by naming the variant, as `skhd: ` or `skhd.zig: `.
pub open spec fn names_variant(v: SkhdVariant, m: Seq<char>) -> bool {
    let prefix = spec_display_name(v) + ": "@;
    m.len() >= prefix.len() && m.subrange(0, prefix.len() as int) == prefix
}

/// A tagged message names its variant.
pub proof fn lemma_tagged_names_variant(v: SkhdVariant, message: Seq<char>)
    ensures
        names_variant(v, tagged(v, message)),
{
    let prefix = spec_display_name(v) + ": "@;
    assert(tagged(v, message).subrange(0, prefix.len() as int) =~= prefix);
}

/// Every refusal of a start names the variant acted upon, the message of a
/// service in error included.
pub proof fn law_start_refusals_name_the_variant(
    v: SkhdVariant,
    state: ServiceState,
    error_message: Option<Seq<char>>,
)
    ensures
        spec_start_verdict(v, state, error_message) matches Err(m) ==> names_variant(v, m),
{
    if state == ServiceState::Error {
        match error_message {
            Some(m) => lemma_tagged_names_variant(v, m),
            None => lemma_tagged_names_variant(v, msg_start_failed()),
        }
    } else {
        lemma_tagged_names_variant(v, msg_unexpected_state(state, v));
    }
}

} // verus!
