//! Post-load validation of the devkit configuration.
//!
//! The validator reads a [`ConfigSnapshot`]: the settings it checks, as
//! plain values. Two facts come from outside the library: whether the
//! database path names a parent directory that does not exist, and whether
//! the spike probability lies outside `[0.0, 1.0]`; each is handed in as
//! the text that the report quotes.
use vstd::prelude::*;
use crate::text::{
    chars_contain, chars_of, chars_start_with, decimal, has_prefix, push_decimal, push_str,
    str_is, string_from,
};

verus! {

/// Severity level for a validation issue.
#[derive(Debug, Clone, Copy, PartialEq, Eq, Structural)]
pub enum ValidationSeverity {
    Error,
    Warning,
}

/// A single validation issue found during config validation.
#[derive(Debug, Clone)]
pub struct ValidationIssue {
    pub field: String,
    pub message: String,
    pub severity: ValidationSeverity,
}

/// What an issue says, as character sequences.
pub struct IssueView {
    pub field: Seq<char>,
    pub message: Seq<char>,
    pub severity: ValidationSeverity,
}

/// The content of an issue.
pub open spec fn issue_view(i: ValidationIssue) -> IssueView {
    IssueView { field: i.field@, message: i.message@, severity: i.severity }
}

/// The content of a list of issues.
pub open spec fn issues_view(s: Seq<ValidationIssue>) -> Seq<IssueView> {
    s.map_values(|i: ValidationIssue| issue_view(i))
}

/// Result of validating a configuration.
#[derive(Debug, Clone)]
pub struct ValidationResult {
    pub issues: Vec<ValidationIssue>,
}

/// Whether an issue is error-level.
pub open spec fn is_error(i: ValidationIssue) -> bool {
    i.severity == ValidationSeverity::Error
}

/// Whether an issue is warning-level.
pub open spec fn is_warning(i: ValidationIssue) -> bool {
    i.severity == ValidationSeverity::Warning
}

/// One line of the report for `i`.
pub open spec fn issue_line(i: ValidationIssue) -> Seq<char> {
    let prefix = match i.severity {
        ValidationSeverity::Error => "ERROR"@,
        ValidationSeverity::Warning => "WARN "@,
    };
    "["@ + prefix + "] "@ + i.field@ + ": "@ + i.message@ + "\n"@
}

/// The report lines for the first issues, in order.
pub open spec fn issue_lines(s: Seq<ValidationIssue>) -> Seq<char>
    decreases s.len(),
{
    if s.len() == 0 {
        Seq::empty()
    } else {
        issue_lines(s.drop_last()) + issue_line(s.last())
    }
}

/// The report heading.
pub open spec fn report_heading() -> Seq<char> {
    "Configuration Validation\n"@ + "========================\n"@
}

/// The formatted report for `s`.
pub open spec fn report(s: Seq<ValidationIssue>) -> Seq<char> {
    if s.len() == 0 {
        report_heading() + "All checks passed.\n"@
    } else {
        report_heading() + issue_lines(s) + "\n"@ + decimal(s.filter(|i: ValidationIssue| is_error(i)).len())
            + " error(s), "@ + decimal(s.filter(|i: ValidationIssue| is_warning(i)).len())
            + " warning(s)\n"@
    }
}

fn count_severity(issues: &Vec<ValidationIssue>, sev: ValidationSeverity) -> (res: usize)
    ensures
        res == issues@.filter(|i: ValidationIssue| i.severity == sev).len(),
{
    let ghost pred = |i: ValidationIssue| i.severity == sev;
    let mut count: usize = 0;
    for k in 0..issues.len()
        invariant
            pred == (|i: ValidationIssue| i.severity == sev),
            count == issues@.take(k as int).filter(pred).len(),
            count <= k,
    {
        proof {
            reveal(Seq::filter);
            assert(issues@.take(k + 1).drop_last() =~= issues@.take(k as int));
        }
        if issues[k].severity == sev {
            count = count + 1;
        }
    }
    assert(issues@.take(issues.len() as int) =~= issues@);
    count
}

fn filter_severity(issues: &Vec<ValidationIssue>, sev: ValidationSeverity) -> (res: Vec<
    &ValidationIssue,
>)
    ensures
        res@.map_values(|r: &ValidationIssue| *r) == issues@.filter(
            |i: ValidationIssue| i.severity == sev,
        ),
{
    let ghost pred = |i: ValidationIssue| i.severity == sev;
    let mut res: Vec<&ValidationIssue> = Vec::new();
    for k in 0..issues.len()
        invariant
            pred == (|i: ValidationIssue| i.severity == sev),
            res@.map_values(|r: &ValidationIssue| *r) == issues@.take(k as int).filter(pred),
    {
        proof {
            reveal(Seq::filter);
            assert(issues@.take(k + 1).drop_last() =~= issues@.take(k as int));
        }
        let ghost before = res@;
        if issues[k].severity == sev {
            res.push(&issues[k]);
            assert(res@.map_values(|r: &ValidationIssue| *r) =~= before.map_values(
                |r: &ValidationIssue| *r,
            ).push(issues@[k as int]));
        }
    }
    assert(issues@.take(issues.len() as int) =~= issues@);
    res
}

impl ValidationResult {
    /// Returns true if there are no error-level issues.
    pub fn is_valid(&self) -> (res: bool)
        ensures
            res == !(exists|k: int| 0 <= k < self.issues@.len() && is_error(#[trigger] self.issues@[k])),
    {
        for k in 0..self.issues.len()
            invariant
                forall|j: int| 0 <= j < k ==> !is_error(#[trigger] self.issues@[j]),
        {
            if self.issues[k].severity == ValidationSeverity::Error {
                return false;
            }
        }
        true
    }

    /// Returns true if there are any issues (errors or warnings).
    pub fn has_issues(&self) -> (res: bool)
        ensures
            res == (self.issues@.len() > 0),
    {
        self.issues.len() > 0
    }

    /// Return only error-level issues.
    pub fn errors(&self) -> (res: Vec<&ValidationIssue>)
        ensures
            res@.map_values(|r: &ValidationIssue| *r) == self.issues@.filter(
                |i: ValidationIssue| is_error(i),
            ),
    {
        let res = filter_severity(&self.issues, ValidationSeverity::Error);
        assert(self.issues@.filter(|i: ValidationIssue| i.severity == ValidationSeverity::Error)
            =~= self.issues@.filter(|i: ValidationIssue| is_error(i))) by {
            assert((|i: ValidationIssue| i.severity == ValidationSeverity::Error) =~= (|
                i: ValidationIssue,
            | is_error(i)));
        }
        res
    }

    /// Return only warning-level issues.
    pub fn warnings(&self) -> (res: Vec<&ValidationIssue>)
        ensures
            res@.map_values(|r: &ValidationIssue| *r) == self.issues@.filter(
                |i: ValidationIssue| is_warning(i),
            ),
    {
        let res = filter_severity(&self.issues, ValidationSeverity::Warning);
        assert((|i: ValidationIssue| i.severity == ValidationSeverity::Warning) =~= (|
            i: ValidationIssue,
        | is_warning(i)));
        res
    }

    /// Display the validation result as a formatted report.
    pub fn display(&self) -> (res: String)
        ensures
            res@ == report(self.issues@),
    {
        let mut out = string_from("Configuration Validation\n");
        push_str(&mut out, "========================\n");
        if self.issues.len() == 0 {
            push_str(&mut out, "All checks passed.\n");
            return out;
        }
        let ghost head = out@;
        for k in 0..self.issues.len()
            invariant
                out@ == head + issue_lines(self.issues@.take(k as int)),
        {
            let issue = &self.issues[k];
            let ghost before = out@;
            push_str(&mut out, "[");
            match issue.severity {
                ValidationSeverity::Error => push_str(&mut out, "ERROR"),
                ValidationSeverity::Warning => push_str(&mut out, "WARN "),
            }
            push_str(&mut out, "] ");
            push_str(&mut out, issue.field.as_str());
            push_str(&mut out, ": ");
            push_str(&mut out, issue.message.as_str());
            push_str(&mut out, "\n");
            assert(self.issues@.take(k + 1).drop_last() =~= self.issues@.take(k as int));
            assert(out@ =~= before + issue_line(self.issues@[k as int]));
        }
        assert(self.issues@.take(self.issues.len() as int) =~= self.issues@);
        let errors = count_severity(&self.issues, ValidationSeverity::Error);
        let warnings = count_severity(&self.issues, ValidationSeverity::Warning);
        push_str(&mut out, "\n");
        push_decimal(&mut out, errors as u64);
        push_str(&mut out, " error(s), ");
        push_decimal(&mut out, warnings as u64);
        push_str(&mut out, " warning(s)\n");
        assert((|i: ValidationIssue| i.severity == ValidationSeverity::Error) =~= (|
            i: ValidationIssue,
        | is_error(i)));
        assert((|i: ValidationIssue| i.severity == ValidationSeverity::Warning) =~= (|
            i: ValidationIssue,
        | is_warning(i)));
        out
    }
}

} // verus!

verus! {

/// What the validator reads of a devkit configuration.
#[derive(Debug, Clone)]
pub struct ConfigSnapshot {
    /// The database path, as text.
    pub db_path: String,
    /// The database path's parent directory, as displayed, when the path
    /// has a nonempty parent that does not exist.
    pub db_parent_missing: Option<String>,
    /// Default scenario name.
    pub scenario: String,
    /// Mock server port.
    pub port: u16,
    /// Horizon API base URL.
    pub horizon_url: String,
    /// Polling interval in seconds.
    pub poll_interval_secs: u64,
    /// Maximum number of retry attempts.
    pub retry_attempts: u32,
    /// Base delay in milliseconds between retries.
    pub base_retry_delay_ms: u64,
    /// Number of ledgers to simulate.
    pub simulation_duration: u64,
    /// Base fee floor in stroops for simulation.
    pub simulation_base_fee: u64,
    /// The spike probability, as displayed, when it lies outside `[0.0, 1.0]`.
    pub spike_prob_out_of_range: Option<String>,
    /// Analysis window size in hours.
    pub analysis_window_hours: u32,
}

impl Default for ConfigSnapshot {
    /// What the validator reads of the default devkit configuration.
    fn default() -> (res: Self)
        ensures
            res.db_path@ == "stellar_fees.db"@,
            res.db_parent_missing is None,
            res.scenario@ == "normal"@,
            res.port == 8090,
            res.horizon_url@ == "https://horizon-testnet.stellar.org"@,
            res.poll_interval_secs == 10,
            res.retry_attempts == 3,
            res.base_retry_delay_ms == 1000,
            res.simulation_duration == 1000,
            res.simulation_base_fee == 100,
            res.spike_prob_out_of_range is None,
            res.analysis_window_hours == 24,
    {
        ConfigSnapshot {
            db_path: string_from("stellar_fees.db"),
            db_parent_missing: None,
            scenario: string_from("normal"),
            port: 8090,
            horizon_url: string_from("https://horizon-testnet.stellar.org"),
            poll_interval_secs: 10,
            retry_attempts: 3,
            base_retry_delay_ms: 1000,
            simulation_duration: 1000,
            simulation_base_fee: 100,
            spike_prob_out_of_range: None,
            analysis_window_hours: 24,
        }
    }
}

/// An issue with the given field, message and severity.
pub open spec fn issue(field: Seq<char>, message: Seq<char>, severity: ValidationSeverity) -> Seq<
    IssueView,
> {
    seq![IssueView { field, message, severity }]
}

/// No issue.
pub open spec fn none() -> Seq<IssueView> {
    Seq::empty()
}

pub open spec fn port_issues(c: ConfigSnapshot) -> Seq<IssueView> {
    if c.port == 0 {
        issue("port"@, "Port must be greater than 0"@, ValidationSeverity::Error)
    } else if c.port < 1024 {
        issue(
            "port"@,
            "Port "@ + decimal(c.port as nat)
                + " is in the privileged range (1-1024). Consider using a port >= 1024."@,
            ValidationSeverity::Warning,
        )
    } else {
        none()
    }
}

pub open spec fn db_path_issues(c: ConfigSnapshot) -> Seq<IssueView> {
    (if c.db_path@.len() == 0 {
        issue("db_path"@, "Database path is empty"@, ValidationSeverity::Error)
    } else {
        none()
    }) + match c.db_parent_missing {
        Some(parent) => issue(
            "db_path"@,
            "Parent directory does not exist: "@ + parent@,
            ValidationSeverity::Warning,
        ),
        None => none(),
    }
}

pub open spec fn horizon_url_issues(c: ConfigSnapshot) -> Seq<IssueView> {
    let url = c.horizon_url@;
    if url.len() == 0 {
        issue("horizon_url"@, "Horizon URL is empty"@, ValidationSeverity::Error)
    } else {
        (if !has_prefix(url, "http://"@) && !has_prefix(url, "https://"@) {
            issue(
                "horizon_url"@,
                "Horizon URL '"@ + url + "' does not start with http:// or https://"@,
                ValidationSeverity::Error,
            )
        } else {
            none()
        }) + (if url.contains(' ') {
            issue("horizon_url"@, "Horizon URL contains spaces"@, ValidationSeverity::Error)
        } else {
            none()
        })
    }
}

pub open spec fn poll_interval_issues(c: ConfigSnapshot) -> Seq<IssueView> {
    if c.poll_interval_secs == 0 {
        issue(
            "poll_interval_secs"@,
            "Poll interval must be greater than 0"@,
            ValidationSeverity::Error,
        )
    } else if c.poll_interval_secs < 5 {
        issue(
            "poll_interval_secs"@,
            "Poll interval of "@ + decimal(c.poll_interval_secs as nat)
                + "s is very aggressive. Consider >= 5s to avoid rate limiting."@,
            ValidationSeverity::Warning,
        )
    } else {
        none()
    }
}

pub open spec fn retry_issues(c: ConfigSnapshot) -> Seq<IssueView> {
    (if c.retry_attempts == 0 {
        issue(
            "retry_attempts"@,
            "Retry attempts must be greater than 0"@,
            ValidationSeverity::Error,
        )
    } else if c.retry_attempts > 10 {
        issue(
            "retry_attempts"@,
            "Retry attempts of "@ + decimal(c.retry_attempts as nat)
                + " is very high. Consider <= 10."@,
            ValidationSeverity::Warning,
        )
    } else {
        none()
    }) + (if c.base_retry_delay_ms == 0 {
        issue(
            "base_retry_delay_ms"@,
            "Base retry delay must be greater than 0"@,
            ValidationSeverity::Error,
        )
    } else if c.base_retry_delay_ms > 30_000 {
        issue(
            "base_retry_delay_ms"@,
            "Base retry delay of "@ + decimal(c.base_retry_delay_ms as nat)
                + "ms is very high. Consider <= 30000ms."@,
            ValidationSeverity::Warning,
        )
    } else {
        none()
    })
}

pub open spec fn simulation_issues(c: ConfigSnapshot) -> Seq<IssueView> {
    (if c.simulation_duration == 0 {
        issue(
            "simulation_duration"@,
            "Simulation duration must be greater than 0"@,
            ValidationSeverity::Error,
        )
    } else {
        none()
    }) + (if c.simulation_base_fee == 0 {
        issue(
            "simulation_base_fee"@,
            "Simulation base fee must be greater than 0"@,
            ValidationSeverity::Error,
        )
    } else {
        none()
    }) + match c.spike_prob_out_of_range {
        Some(p) => issue(
            "simulation_spike_prob"@,
            "Spike probability "@ + p@ + " is out of range [0.0, 1.0]"@,
            ValidationSeverity::Error,
        ),
        None => none(),
    }
}

pub open spec fn analysis_issues(c: ConfigSnapshot) -> Seq<IssueView> {
    if c.analysis_window_hours == 0 {
        issue(
            "analysis_window_hours"@,
            "Analysis window must be greater than 0"@,
            ValidationSeverity::Error,
        )
    } else if c.analysis_window_hours > 168 {
        issue(
            "analysis_window_hours"@,
            "Analysis window of "@ + decimal(c.analysis_window_hours as nat)
                + " hours exceeds 7 days (168h). Data freshness may be poor."@,
            ValidationSeverity::Warning,
        )
    } else {
        none()
    }
}

/// The scenarios the devkit knows.
pub open spec fn known_scenario(s: Seq<char>) -> bool {
    s == "normal"@ || s == "congested"@ || s == "spike"@ || s == "calm"@ || s == "stress"@
}

pub open spec fn scenario_issues(c: ConfigSnapshot) -> Seq<IssueView> {
    if !known_scenario(c.scenario@) {
        issue(
            "scenario"@,
            "Unknown scenario '"@ + c.scenario@
                + "'. Valid scenarios: normal, congested, spike, calm, stress"@,
            ValidationSeverity::Warning,
        )
    } else {
        none()
    }
}

/// Every issue the validator reports for `c`, in the order it checks them.
pub open spec fn config_issues(c: ConfigSnapshot) -> Seq<IssueView> {
    port_issues(c) + db_path_issues(c) + horizon_url_issues(c) + poll_interval_issues(c)
        + retry_issues(c) + simulation_issues(c) + analysis_issues(c) + scenario_issues(c)
}

/// Validation law: zero retry attempts make a configuration invalid; the
/// validator reports an error on `retry_attempts`, and so any issue list
/// it describes holds an error.
pub proof fn lemma_zero_retries_invalid(c: ConfigSnapshot)
    requires
        c.retry_attempts == 0,
    ensures
        exists|k: int|
            0 <= k < config_issues(c).len() && (#[trigger] config_issues(c)[k]).field == "retry_attempts"@
                && config_issues(c)[k].severity == ValidationSeverity::Error,
        forall|s: Seq<ValidationIssue>|
            issues_view(s) == config_issues(c) ==> exists|k: int| 0 <= k < s.len() && is_error(#[trigger] s[k]),
{
    let pre = port_issues(c) + db_path_issues(c) + horizon_url_issues(c) + poll_interval_issues(c);
    let with_retry = pre + retry_issues(c);
    let k = pre.len() as int;
    assert(retry_issues(c)[0].field == "retry_attempts"@);
    assert(retry_issues(c)[0].severity == ValidationSeverity::Error);
    assert(with_retry[k] == retry_issues(c)[0]);
    assert(config_issues(c) == with_retry + simulation_issues(c) + analysis_issues(c) + scenario_issues(c));
    assert(config_issues(c)[k] == with_retry[k]);
    assert forall|s: Seq<ValidationIssue>| issues_view(s) == config_issues(c) implies exists|j: int|
        0 <= j < s.len() && is_error(#[trigger] s[j]) by {
        assert(issues_view(s)[k] == issue_view(s[k]));
        assert(is_error(s[k]));
    }
}

/// Whether a list of issue contents holds an error.
pub open spec fn holds_error(s: Seq<IssueView>) -> bool {
    exists|k: int| 0 <= k < s.len() && (#[trigger] s[k]).severity == ValidationSeverity::Error
}

proof fn lemma_holds_error_concat(a: Seq<IssueView>, b: Seq<IssueView>)
    ensures
        holds_error(a + b) == (holds_error(a) || holds_error(b)),
{
    if holds_error(a) {
        let k = choose|k: int| 0 <= k < a.len() && (#[trigger] a[k]).severity == ValidationSeverity::Error;
        assert((a + b)[k] == a[k]);
    }
    if holds_error(b) {
        let k = choose|k: int| 0 <= k < b.len() && (#[trigger] b[k]).severity == ValidationSeverity::Error;
        assert((a + b)[a.len() + k] == b[k]);
    }
    if holds_error(a + b) {
        let k = choose|k: int| 0 <= k < (a + b).len() && (#[trigger] (a + b)[k]).severity == ValidationSeverity::Error;
        if k < a.len() {
            assert(a[k] == (a + b)[k]);
        } else {
            assert(b[k - a.len()] == (a + b)[k]);
        }
    }
}

proof fn lemma_single_issue(f: Seq<char>, m: Seq<char>, sev: ValidationSeverity)
    ensures
        holds_error(issue(f, m, sev)) == (sev == ValidationSeverity::Error),
        !holds_error(none()),
{
    if sev == ValidationSeverity::Error {
        assert(issue(f, m, sev)[0].severity == sev);
    }
}

/// Validation law: a configuration is invalid exactly when the port is 0,
/// the database path is empty, the Horizon URL is empty, lacks an
/// `http://` or `https://` prefix or contains a space, the poll interval,
/// retry attempts, base retry delay, simulation duration, simulation base
/// fee or analysis window is 0, or the spike probability is out of range.
/// Warnings (privileged port, missing database directory, aggressive
/// polling, many retries, long delays, long windows, unknown scenario)
/// never make it invalid.
pub proof fn lemma_invalid_exactly_when(c: ConfigSnapshot)
    ensures
        holds_error(config_issues(c)) <==> {
            ||| c.port == 0
            ||| c.db_path@.len() == 0
            ||| c.horizon_url@.len() == 0
            ||| (!has_prefix(c.horizon_url@, "http://"@) && !has_prefix(c.horizon_url@, "https://"@))
            ||| c.horizon_url@.contains(' ')
            ||| c.poll_interval_secs == 0
            ||| c.retry_attempts == 0
            ||| c.base_retry_delay_ms == 0
            ||| c.simulation_duration == 0
            ||| c.simulation_base_fee == 0
            ||| c.spike_prob_out_of_range is Some
            ||| c.analysis_window_hours == 0
        },
{
    let e = ValidationSeverity::Error;
    let w = ValidationSeverity::Warning;
    lemma_single_issue(seq![], seq![], e);
    lemma_single_issue(seq![], seq![], w);
    assert forall|f: Seq<char>, m: Seq<char>, sev: ValidationSeverity| #![trigger issue(f, m, sev)]
        holds_error(issue(f, m, sev)) == (sev == e) by {
        lemma_single_issue(f, m, sev);
    }
    // port
    assert(holds_error(port_issues(c)) == (c.port == 0));
    // db path
    let db1 = if c.db_path@.len() == 0 { issue("db_path"@, "Database path is empty"@, e) } else { none() };
    let db2 = match c.db_parent_missing {
        Some(parent) => issue("db_path"@, "Parent directory does not exist: "@ + parent@, w),
        None => none(),
    };
    lemma_holds_error_concat(db1, db2);
    assert(holds_error(db_path_issues(c)) == (c.db_path@.len() == 0));
    // horizon url
    let url = c.horizon_url@;
    if url.len() > 0 {
        let u1 = if !has_prefix(url, "http://"@) && !has_prefix(url, "https://"@) {
            issue("horizon_url"@, "Horizon URL '"@ + url + "' does not start with http:// or https://"@, e)
        } else {
            none()
        };
        let u2 = if url.contains(' ') {
            issue("horizon_url"@, "Horizon URL contains spaces"@, e)
        } else {
            none()
        };
        lemma_holds_error_concat(u1, u2);
    }
    // retry
    let r1 = if c.retry_attempts == 0 {
        issue("retry_attempts"@, "Retry attempts must be greater than 0"@, e)
    } else if c.retry_attempts > 10 {
        issue("retry_attempts"@, "Retry attempts of "@ + decimal(c.retry_attempts as nat) + " is very high. Consider <= 10."@, w)
    } else {
        none()
    };
    let r2 = if c.base_retry_delay_ms == 0 {
        issue("base_retry_delay_ms"@, "Base retry delay must be greater than 0"@, e)
    } else if c.base_retry_delay_ms > 30_000 {
        issue("base_retry_delay_ms"@, "Base retry delay of "@ + decimal(c.base_retry_delay_ms as nat) + "ms is very high. Consider <= 30000ms."@, w)
    } else {
        none()
    };
    lemma_holds_error_concat(r1, r2);
    // simulation
    let s1 = if c.simulation_duration == 0 {
        issue("simulation_duration"@, "Simulation duration must be greater than 0"@, e)
    } else {
        none()
    };
    let s2 = if c.simulation_base_fee == 0 {
        issue("simulation_base_fee"@, "Simulation base fee must be greater than 0"@, e)
    } else {
        none()
    };
    let s3 = match c.spike_prob_out_of_range {
        Some(p) => issue("simulation_spike_prob"@, "Spike probability "@ + p@ + " is out of range [0.0, 1.0]"@, e),
        None => none(),
    };
    lemma_holds_error_concat(s1, s2);
    lemma_holds_error_concat(s1 + s2, s3);
    // the whole list
    let a1 = port_issues(c) + db_path_issues(c);
    let a2 = a1 + horizon_url_issues(c);
    let a3 = a2 + poll_interval_issues(c);
    let a4 = a3 + retry_issues(c);
    let a5 = a4 + simulation_issues(c);
    let a6 = a5 + analysis_issues(c);
    lemma_holds_error_concat(port_issues(c), db_path_issues(c));
    lemma_holds_error_concat(a1, horizon_url_issues(c));
    lemma_holds_error_concat(a2, poll_interval_issues(c));
    lemma_holds_error_concat(a3, retry_issues(c));
    lemma_holds_error_concat(a4, simulation_issues(c));
    lemma_holds_error_concat(a5, analysis_issues(c));
    lemma_holds_error_concat(a6, scenario_issues(c));
}

/// Configuration validator.
pub struct ConfigValidator;

fn add_issue(
    issues: &mut Vec<ValidationIssue>,
    field: &str,
    message: String,
    severity: ValidationSeverity,
)
    ensures
        issues_view(final(issues)@) == issues_view(old(issues)@) + issue(field@, message@, severity),
{
    let ghost before = issues@;
    issues.push(ValidationIssue { field: string_from(field), message, severity });
    assert(issues_view(issues@) =~= issues_view(before) + issue(field@, message@, severity));
}

fn message_with_number(before: &str, n: u64, after: &str) -> (res: String)
    ensures
        res@ == before@ + decimal(n as nat) + after@,
{
    let mut m = string_from(before);
    push_decimal(&mut m, n);
    push_str(&mut m, after);
    m
}

fn message_with_text(before: &str, t: &str, after: &str) -> (res: String)
    ensures
        res@ == before@ + t@ + after@,
{
    let mut m = string_from(before);
    push_str(&mut m, t);
    push_str(&mut m, after);
    m
}

impl ConfigValidator {
    /// Validate the given configuration and return all issues found.
    pub fn validate(config: &ConfigSnapshot) -> (res: ValidationResult)
        ensures
            issues_view(res.issues@) == config_issues(*config),
    {
        let mut issues: Vec<ValidationIssue> = Vec::new();
        let ghost c = *config;
        Self::validate_port(config, &mut issues);
        Self::validate_db_path(config, &mut issues);
        Self::validate_horizon_url(config, &mut issues);
        Self::validate_poll_interval(config, &mut issues);
        Self::validate_retry_config(config, &mut issues);
        Self::validate_simulation_config(config, &mut issues);
        Self::validate_analysis_config(config, &mut issues);
        Self::validate_scenario(config, &mut issues);
        assert(issues_view(issues@) =~= config_issues(c)) by {
            assert(issues_view(Seq::<ValidationIssue>::empty()) =~= Seq::<IssueView>::empty());
        }
        ValidationResult { issues }
    }

    fn validate_port(config: &ConfigSnapshot, issues: &mut Vec<ValidationIssue>)
        ensures
            issues_view(final(issues)@) == issues_view(old(issues)@) + port_issues(*config),
    {
        if config.port == 0 {
            add_issue(issues, "port", string_from("Port must be greater than 0"), ValidationSeverity::Error);
        } else if config.port < 1024 {
            let m = message_with_number(
                "Port ",
                config.port as u64,
                " is in the privileged range (1-1024). Consider using a port >= 1024.",
            );
            add_issue(issues, "port", m, ValidationSeverity::Warning);
        } else {
            assert(issues_view(issues@) =~= issues_view(issues@) + none());
        }
    }

    fn validate_db_path(config: &ConfigSnapshot, issues: &mut Vec<ValidationIssue>)
        ensures
            issues_view(final(issues)@) == issues_view(old(issues)@) + db_path_issues(*config),
    {
        let ghost start = issues_view(issues@);
        if config.db_path.as_str().is_empty() {
            add_issue(issues, "db_path", string_from("Database path is empty"), ValidationSeverity::Error);
        }
        let ghost mid = issues_view(issues@);
        assert(mid =~= start + (if config.db_path@.len() == 0 {
            issue("db_path"@, "Database path is empty"@, ValidationSeverity::Error)
        } else {
            none()
        }));
        match &config.db_parent_missing {
            Some(parent) => {
                let mut m = string_from("Parent directory does not exist: ");
                push_str(&mut m, parent.as_str());
                add_issue(issues, "db_path", m, ValidationSeverity::Warning);
            },
            None => {},
        }
        assert(issues_view(issues@) =~= start + db_path_issues(*config));
    }

    fn validate_horizon_url(config: &ConfigSnapshot, issues: &mut Vec<ValidationIssue>)
        ensures
            issues_view(final(issues)@) == issues_view(old(issues)@) + horizon_url_issues(*config),
    {
        let ghost start = issues_view(issues@);
        let url = chars_of(config.horizon_url.as_str());
        if url.len() == 0 {
            add_issue(issues, "horizon_url", string_from("Horizon URL is empty"), ValidationSeverity::Error);
            return;
        }
        let http = chars_of("http://");
        let https = chars_of("https://");
        if !chars_start_with(&url, &http) && !chars_start_with(&url, &https) {
            let m = message_with_text(
                "Horizon URL '",
                config.horizon_url.as_str(),
                "' does not start with http:// or https://",
            );
            add_issue(issues, "horizon_url", m, ValidationSeverity::Error);
        }
        if chars_contain(&url, ' ') {
            add_issue(
                issues,
                "horizon_url",
                string_from("Horizon URL contains spaces"),
                ValidationSeverity::Error,
            );
        }
        assert(issues_view(issues@) =~= start + horizon_url_issues(*config));
    }

    fn validate_poll_interval(config: &ConfigSnapshot, issues: &mut Vec<ValidationIssue>)
        ensures
            issues_view(final(issues)@) == issues_view(old(issues)@) + poll_interval_issues(*config),
    {
        if config.poll_interval_secs == 0 {
            add_issue(
                issues,
                "poll_interval_secs",
                string_from("Poll interval must be greater than 0"),
                ValidationSeverity::Error,
            );
        } else if config.poll_interval_secs < 5 {
            let m = message_with_number(
                "Poll interval of ",
                config.poll_interval_secs,
                "s is very aggressive. Consider >= 5s to avoid rate limiting.",
            );
            add_issue(issues, "poll_interval_secs", m, ValidationSeverity::Warning);
        } else {
            assert(issues_view(issues@) =~= issues_view(issues@) + none());
        }
    }

    fn validate_retry_config(config: &ConfigSnapshot, issues: &mut Vec<ValidationIssue>)
        ensures
            issues_view(final(issues)@) == issues_view(old(issues)@) + retry_issues(*config),
    {
        let ghost start = issues_view(issues@);
        if config.retry_attempts == 0 {
            add_issue(
                issues,
                "retry_attempts",
                string_from("Retry attempts must be greater than 0"),
                ValidationSeverity::Error,
            );
        } else if config.retry_attempts > 10 {
            let m = message_with_number(
                "Retry attempts of ",
                config.retry_attempts as u64,
                " is very high. Consider <= 10.",
            );
            add_issue(issues, "retry_attempts", m, ValidationSeverity::Warning);
        }
        if config.base_retry_delay_ms == 0 {
            add_issue(
                issues,
                "base_retry_delay_ms",
                string_from("Base retry delay must be greater than 0"),
                ValidationSeverity::Error,
            );
        } else if config.base_retry_delay_ms > 30_000 {
            let m = message_with_number(
                "Base retry delay of ",
                config.base_retry_delay_ms,
                "ms is very high. Consider <= 30000ms.",
            );
            add_issue(issues, "base_retry_delay_ms", m, ValidationSeverity::Warning);
        }
        assert(issues_view(issues@) =~= start + retry_issues(*config));
    }

    fn validate_simulation_config(config: &ConfigSnapshot, issues: &mut Vec<ValidationIssue>)
        ensures
            issues_view(final(issues)@) == issues_view(old(issues)@) + simulation_issues(*config),
    {
        let ghost start = issues_view(issues@);
        if config.simulation_duration == 0 {
            add_issue(
                issues,
                "simulation_duration",
                string_from("Simulation duration must be greater than 0"),
                ValidationSeverity::Error,
            );
        }
        if config.simulation_base_fee == 0 {
            add_issue(
                issues,
                "simulation_base_fee",
                string_from("Simulation base fee must be greater than 0"),
                ValidationSeverity::Error,
            );
        }
        match &config.spike_prob_out_of_range {
            Some(p) => {
                let m = message_with_text(
                    "Spike probability ",
                    p.as_str(),
                    " is out of range [0.0, 1.0]",
                );
                add_issue(issues, "simulation_spike_prob", m, ValidationSeverity::Error);
            },
            None => {},
        }
        assert(issues_view(issues@) =~= start + simulation_issues(*config));
    }

    fn validate_analysis_config(config: &ConfigSnapshot, issues: &mut Vec<ValidationIssue>)
        ensures
            issues_view(final(issues)@) == issues_view(old(issues)@) + analysis_issues(*config),
    {
        if config.analysis_window_hours == 0 {
            add_issue(
                issues,
                "analysis_window_hours",
                string_from("Analysis window must be greater than 0"),
                ValidationSeverity::Error,
            );
        } else if config.analysis_window_hours > 168 {
            let m = message_with_number(
                "Analysis window of ",
                config.analysis_window_hours as u64,
                " hours exceeds 7 days (168h). Data freshness may be poor.",
            );
            add_issue(issues, "analysis_window_hours", m, ValidationSeverity::Warning);
        } else {
            assert(issues_view(issues@) =~= issues_view(issues@) + none());
        }
    }

    fn validate_scenario(config: &ConfigSnapshot, issues: &mut Vec<ValidationIssue>)
        ensures
            issues_view(final(issues)@) == issues_view(old(issues)@) + scenario_issues(*config),
    {
        let s = config.scenario.as_str();
        let known = str_is(s, "normal") || str_is(s, "congested") || str_is(s, "spike")
            || str_is(s, "calm") || str_is(s, "stress");
        if !known {
            let m = message_with_text(
                "Unknown scenario '",
                s,
                "'. Valid scenarios: normal, congested, spike, calm, stress",
            );
            add_issue(issues, "scenario", m, ValidationSeverity::Warning);
        } else {
            assert(issues_view(issues@) =~= issues_view(issues@) + none());
        }
    }
}

} // verus!
