//! An audit trail: a bounded log of user actions, counters per action, compliance
//! reports drawn from the log, statistics and CSV export.

use vstd::prelude::*;
use crate::clock::{new_uuid, now_timestamp, MAX_TIMESTAMP};
use crate::error::AppError;
use crate::keyed::{lemma_map_of_empty, lemma_map_of_index, lemma_map_of_push, lemma_map_of_update, has_key, map_of, unique_keys};
use crate::text::{
    concat3, count_occurrences, distinct_strings, int_decimal, nat_decimal, occurrences, push_i64_decimal,
    push_str, push_u64_decimal, str_eq, str_to_string, string_views, tally_entries,
};

verus! {

/// One recorded action. `details` is free-form JSON carried along as it was given.
#[derive(Debug)]
pub struct AuditLog {
    pub id: String,
    pub timestamp: i64,
    pub user_id: String,
    pub action: String,
    pub resource: String,
    pub resource_id: Option<String>,
    pub details: serde_json::Value,
    pub ip_address: Option<String>,
    pub user_agent: Option<String>,
    pub status: String,
    pub severity: String,
}

/// The text of an optional string.
pub open spec fn opt_view(o: Option<String>) -> Option<Seq<char>> {
    match o {
        Some(s) => Some(s@),
        None => None,
    }
}

/// The value of a recorded action.
pub struct AuditLogView {
    pub id: Seq<char>,
    pub timestamp: i64,
    pub user_id: Seq<char>,
    pub action: Seq<char>,
    pub resource: Seq<char>,
    pub resource_id: Option<Seq<char>>,
    pub details: serde_json::Value,
    pub ip_address: Option<Seq<char>>,
    pub user_agent: Option<Seq<char>>,
    pub status: Seq<char>,
    pub severity: Seq<char>,
}

impl View for AuditLog {
    type V = AuditLogView;

    open spec fn view(&self) -> AuditLogView {
        AuditLogView {
            id: self.id@,
            timestamp: self.timestamp,
            user_id: self.user_id@,
            action: self.action@,
            resource: self.resource@,
            resource_id: opt_view(self.resource_id),
            details: self.details,
            ip_address: opt_view(self.ip_address),
            user_agent: opt_view(self.user_agent),
            status: self.status@,
            severity: self.severity@,
        }
    }
}

/// A copy of an optional text.
pub fn clone_opt(o: &Option<String>) -> (r: Option<String>)
    ensures
        opt_view(r) == opt_view(*o),
{
    match o {
        Some(s) => Some(s.clone()),
        None => None,
    }
}

impl Clone for AuditLog {
    fn clone(&self) -> (r: Self)
        ensures
            r@ == self@,
    {
        AuditLog {
            id: self.id.clone(),
            timestamp: self.timestamp,
            user_id: self.user_id.clone(),
            action: self.action.clone(),
            resource: self.resource.clone(),
            resource_id: clone_opt(&self.resource_id),
            details: self.details.clone(),
            ip_address: clone_opt(&self.ip_address),
            user_agent: clone_opt(&self.user_agent),
            status: self.status.clone(),
            severity: self.severity.clone(),
        }
    }
}

/// One finding of a compliance report.
#[derive(Debug)]
pub struct ComplianceFinding {
    pub id: String,
    pub category: String,
    pub severity: String,
    pub description: String,
    pub recommendation: String,
    pub affected_resources: Vec<String>,
}

/// The value of a finding.
pub struct FindingView {
    pub id: Seq<char>,
    pub category: Seq<char>,
    pub severity: Seq<char>,
    pub description: Seq<char>,
    pub recommendation: Seq<char>,
    pub affected_resources: Seq<Seq<char>>,
}

impl View for ComplianceFinding {
    type V = FindingView;

    open spec fn view(&self) -> FindingView {
        FindingView {
            id: self.id@,
            category: self.category@,
            severity: self.severity@,
            description: self.description@,
            recommendation: self.recommendation@,
            affected_resources: string_views(self.affected_resources@),
        }
    }
}

impl Clone for ComplianceFinding {
    fn clone(&self) -> (r: Self)
        ensures
            r@ == self@,
    {
        ComplianceFinding {
            id: self.id.clone(),
            category: self.category.clone(),
            severity: self.severity.clone(),
            description: self.description.clone(),
            recommendation: self.recommendation.clone(),
            affected_resources: crate::text::clone_strings(&self.affected_resources),
        }
    }
}

/// A compliance report over a period of the log.
#[derive(Debug)]
pub struct ComplianceReport {
    pub id: String,
    pub generated_at: i64,
    pub report_type: String,
    pub period_start: i64,
    pub period_end: i64,
    pub findings: Vec<ComplianceFinding>,
    pub summary: String,
}

/// The value of a report.
pub struct ReportView {
    pub id: Seq<char>,
    pub generated_at: i64,
    pub report_type: Seq<char>,
    pub period_start: i64,
    pub period_end: i64,
    pub findings: Seq<FindingView>,
    pub summary: Seq<char>,
}

impl View for ComplianceReport {
    type V = ReportView;

    open spec fn view(&self) -> ReportView {
        ReportView {
            id: self.id@,
            generated_at: self.generated_at,
            report_type: self.report_type@,
            period_start: self.period_start,
            period_end: self.period_end,
            findings: self.findings@.map_values(|f: ComplianceFinding| f@),
            summary: self.summary@,
        }
    }
}

impl Clone for ComplianceReport {
    fn clone(&self) -> (r: Self)
        ensures
            r@ == self@,
    {
        let mut findings: Vec<ComplianceFinding> = Vec::new();
        let mut i: usize = 0;
        while i < self.findings.len()
            invariant
                i <= self.findings@.len(),
                findings@.len() == i,
                forall|j: int| 0 <= j < i ==> #[trigger] findings@[j]@ == self.findings@[j]@,
            decreases self.findings.len() - i,
        {
            findings.push(self.findings[i].clone());
            i = i + 1;
        }
        let r = ComplianceReport {
            id: self.id.clone(),
            generated_at: self.generated_at,
            report_type: self.report_type.clone(),
            period_start: self.period_start,
            period_end: self.period_end,
            findings,
            summary: self.summary.clone(),
        };
        assert(r@.findings =~= self@.findings);
        r
    }
}

/// How the audit trail is kept.
#[derive(Debug)]
pub struct AuditConfig {
    pub max_log_entries: usize,
    pub retention_days: u32,
    pub enable_compliance_reports: bool,
    pub log_level: String,
}

impl Clone for AuditConfig {
    fn clone(&self) -> (r: Self)
        ensures
            r.max_log_entries == self.max_log_entries,
            r.retention_days == self.retention_days,
            r.enable_compliance_reports == self.enable_compliance_reports,
            r.log_level@ == self.log_level@,
    {
        AuditConfig {
            max_log_entries: self.max_log_entries,
            retention_days: self.retention_days,
            enable_compliance_reports: self.enable_compliance_reports,
            log_level: self.log_level.clone(),
        }
    }
}

impl Default for AuditConfig {
    fn default() -> (r: Self)
        ensures
            r.max_log_entries == 100000,
            r.retention_days == 90,
            r.enable_compliance_reports,
            r.log_level@ == "info"@,
    {
        AuditConfig {
            max_log_entries: 100000,
            retention_days: 90,
            enable_compliance_reports: true,
            log_level: str_to_string("info"),
        }
    }
}

/// The log after recording `l`: the oldest entry leaves first when the log is full.
pub open spec fn after_log(logs: Seq<AuditLogView>, max: usize, l: AuditLogView) -> Seq<AuditLogView> {
    if logs.len() >= max {
        logs.drop_first().push(l)
    } else {
        logs.push(l)
    }
}

/// The value given for key `k` by a list of filter pairs: that of its last pair, as a
/// map filled in that order would hold.
pub open spec fn filter_value(pairs: Seq<(Seq<char>, Seq<char>)>, k: Seq<char>) -> Option<Seq<char>>
    decreases pairs.len(),
{
    if pairs.len() == 0 {
        None
    } else if pairs.last().0 == k {
        Some(pairs.last().1)
    } else {
        filter_value(pairs.drop_last(), k)
    }
}

/// A field passes a filter that is absent or equal to it.
pub open spec fn field_passes(f: Option<Seq<char>>, field: Seq<char>) -> bool {
    match f {
        Some(v) => field == v,
        None => true,
    }
}

/// Whether a log passes the `user_id`, `action`, `resource` and `severity` filters.
pub open spec fn log_matches(pairs: Seq<(Seq<char>, Seq<char>)>) -> spec_fn(AuditLogView) -> bool {
    |l: AuditLogView|
        field_passes(filter_value(pairs, "user_id"@), l.user_id)
        && field_passes(filter_value(pairs, "action"@), l.action)
        && field_passes(filter_value(pairs, "resource"@), l.resource)
        && field_passes(filter_value(pairs, "severity"@), l.severity)
}

/// The filter pairs as texts.
pub open spec fn pair_views(v: Seq<(String, String)>) -> Seq<(Seq<char>, Seq<char>)> {
    v.map_values(|e: (String, String)| (e.0@, e.1@))
}

/// The value the filter pairs give for `k`.
pub(crate) fn lookup_filter(pairs: &Vec<(String, String)>, k: &str) -> (r: Option<String>)
    ensures
        opt_view(r) == filter_value(pair_views(pairs@), k@),
{
    let ghost ps = pair_views(pairs@);
    let mut i: usize = pairs.len();
    assert(ps.take(pairs@.len() as int) =~= ps);
    while i > 0
        invariant
            i <= pairs@.len(),
            ps == pair_views(pairs@),
            filter_value(ps, k@) == filter_value(ps.take(i as int), k@),
        decreases i,
    {
        let ghost pre = ps.take(i as int);
        assert(pre.drop_last() =~= ps.take(i - 1));
        assert(pre.last() == (pairs@[i - 1].0@, pairs@[i - 1].1@));
        if str_eq(pairs[i - 1].0.as_str(), k) {
            return Some(pairs[i - 1].1.clone());
        }
        i = i - 1;
    }
    None
}

/// Whether `field` passes the optional filter value.
fn passes(f: &Option<String>, field: &String) -> (r: bool)
    ensures
        r == field_passes(opt_view(*f), field@),
{
    match f {
        Some(v) => str_eq(field.as_str(), v.as_str()),
        None => true,
    }
}

/// The message of a missing log.
pub open spec fn log_not_found(id: Seq<char>) -> Seq<char> {
    "Audit log "@ + id + " not found"@
}

/// The message of a missing report.
pub open spec fn report_not_found(id: Seq<char>) -> Seq<char> {
    "Compliance report "@ + id + " not found"@
}

/// The first position whose log has id `id`.
pub open spec fn first_with_id(logs: Seq<AuditLogView>, id: Seq<char>, i: int) -> bool {
    0 <= i < logs.len() && logs[i].id == id && forall|j: int| 0 <= j < i ==> #[trigger] logs[j].id != id
}

/// Logs other than those with id `id`.
pub open spec fn id_differs(id: Seq<char>) -> spec_fn(AuditLogView) -> bool {
    |l: AuditLogView| l.id != id
}

/// Logs newer than `cutoff`.
pub open spec fn newer_than(cutoff: int) -> spec_fn(AuditLogView) -> bool {
    |l: AuditLogView| l.timestamp > cutoff
}

/// The cutoff of a purge `days` days back from `now`.
pub open spec fn purge_cutoff(now: i64, days: u32) -> int {
    now - days * 86400
}

/// Logs made within the period, both ends included.
pub open spec fn in_period(start: i64, end: i64) -> spec_fn(AuditLogView) -> bool {
    |l: AuditLogView| start <= l.timestamp && l.timestamp <= end
}

/// Logs of the period whose action failed or was denied.
pub open spec fn failed_in(start: i64, end: i64) -> spec_fn(AuditLogView) -> bool {
    |l: AuditLogView| start <= l.timestamp && l.timestamp <= end && (l.status == "failed"@ || l.status == "denied"@)
}

/// Logs of the period of high or critical severity.
pub open spec fn severe_in(start: i64, end: i64) -> spec_fn(AuditLogView) -> bool {
    |l: AuditLogView| start <= l.timestamp && l.timestamp <= end && (l.severity == "high"@ || l.severity == "critical"@)
}

/// The resources of some logs, in order.
pub open spec fn resources_of(logs: Seq<AuditLogView>) -> Seq<Seq<char>> {
    logs.map_values(|l: AuditLogView| l.resource)
}

/// The users of some logs, in order.
pub open spec fn users_of(logs: Seq<AuditLogView>) -> Seq<Seq<char>> {
    logs.map_values(|l: AuditLogView| l.user_id)
}

/// The statuses of some logs, in order.
pub open spec fn statuses_of(logs: Seq<AuditLogView>) -> Seq<Seq<char>> {
    logs.map_values(|l: AuditLogView| l.status)
}

/// The severities of some logs, in order.
pub open spec fn severities_of(logs: Seq<AuditLogView>) -> Seq<Seq<char>> {
    logs.map_values(|l: AuditLogView| l.severity)
}

/// What a finding says, its id aside: category, severity, description, recommendation
/// and the set of affected resources.
pub type ExpectedFinding = (Seq<char>, Seq<char>, Seq<char>, Seq<char>, Set<Seq<char>>);

/// The findings the logs of a period give, in the order they are reported: failed or
/// denied actions, then high-severity events, then more than 50 distinct users.
pub open spec fn expected_findings(logs: Seq<AuditLogView>, start: i64, end: i64) -> Seq<ExpectedFinding> {
    let failed = logs.filter(failed_in(start, end));
    let severe = logs.filter(severe_in(start, end));
    let users = users_of(logs.filter(in_period(start, end))).to_set();
    let a: Seq<ExpectedFinding> = if failed.len() > 0 {
        seq![(
            "access_control"@,
            "high"@,
            nat_decimal(failed.len()) + " failed or denied actions detected"@,
            "Review access control policies and user permissions"@,
            resources_of(failed).to_set(),
        )]
    } else {
        Seq::empty()
    };
    let b: Seq<ExpectedFinding> = if severe.len() > 0 {
        seq![(
            "security"@,
            "critical"@,
            nat_decimal(severe.len()) + " high severity events detected"@,
            "Investigate high severity events and implement additional security measures"@,
            resources_of(severe).to_set(),
        )]
    } else {
        Seq::empty()
    };
    let c: Seq<ExpectedFinding> = if users.len() > 50 {
        seq![(
            "user_activity"@,
            "medium"@,
            "Unusual number of active users: "@ + nat_decimal(users.len()),
            "Review user activity patterns and verify all users are authorized"@,
            users,
        )]
    } else {
        Seq::empty()
    };
    a + b + c
}

/// A finding says what is expected, listing each affected resource once.
pub open spec fn finding_is(f: FindingView, e: ExpectedFinding) -> bool {
    &&& f.category == e.0
    &&& f.severity == e.1
    &&& f.description == e.2
    &&& f.recommendation == e.3
    &&& f.affected_resources.no_duplicates()
    &&& f.affected_resources.to_set() == e.4
}

/// The summary line of a report.
pub open spec fn report_summary(findings: nat, entries: nat) -> Seq<char> {
    "Report generated with "@ + nat_decimal(findings) + " findings from "@ + nat_decimal(entries) + " log entries"@
}

/// A report with id `id` over `logs` for the period from `start` to `end`.
pub open spec fn report_fits(rep: ReportView, id: Seq<char>, report_type: Seq<char>, start: i64, end: i64, logs: Seq<AuditLogView>) -> bool {
    let exp = expected_findings(logs, start, end);
    &&& rep.id == id
    &&& rep.report_type == report_type
    &&& rep.period_start == start
    &&& rep.period_end == end
    &&& 0 <= rep.generated_at < MAX_TIMESTAMP
    &&& rep.findings.len() == exp.len()
    &&& forall|i: int| 0 <= i < exp.len() ==> finding_is(#[trigger] rep.findings[i], exp[i])
    &&& rep.summary == report_summary(exp.len(), logs.filter(in_period(start, end)).len())
}

/// One CSV line of a log.
pub open spec fn csv_line(l: AuditLogView) -> Seq<char> {
    l.id + ","@ + int_decimal(l.timestamp as int) + ","@ + l.user_id + ","@ + l.action + ","@ + l.resource + ","@
        + match l.resource_id {
        Some(r) => r,
        None => Seq::<char>::empty(),
    } + ","@ + l.status + ","@ + l.severity + "\n"@
}

/// The CSV lines of some logs, in order.
pub open spec fn csv_rows(logs: Seq<AuditLogView>) -> Seq<char>
    decreases logs.len(),
{
    if logs.len() == 0 {
        Seq::empty()
    } else {
        csv_rows(logs.drop_last()) + csv_line(logs.last())
    }
}

/// The CSV header line.
pub open spec fn csv_header() -> Seq<char> {
    "id,timestamp,user_id,action,resource,resource_id,status,severity\n"@
}

/// An export of the logs: the logs themselves for JSON, which is rendered outside the
/// library, or the CSV text.
#[derive(Debug)]
pub enum AuditExport {
    Json(Vec<AuditLog>),
    Csv(String),
}

/// Counts over the trail.
#[derive(Debug)]
pub struct AuditStats {
    pub total_logs: usize,
    pub total_reports: usize,
    pub severity_counts: Vec<(String, usize)>,
    pub status_counts: Vec<(String, usize)>,
    pub resource_counts: Vec<(String, usize)>,
    pub action_counts: Vec<(String, usize)>,
    pub retention_days: u32,
    pub max_log_entries: usize,
}

/// Appends the CSV line of a log.
#[verifier::spinoff_prover]
#[verifier::rlimit(40)]
fn push_csv_line(csv: &mut String, l: &AuditLog)
    ensures
        final(csv)@ == old(csv)@ + csv_line(l@),
{
    let ghost s0 = csv@;
    push_str(csv, l.id.as_str());
    push_str(csv, ",");
    push_i64_decimal(csv, l.timestamp);
    push_str(csv, ",");
    let ghost s1 = csv@;
    assert(s1 == s0 + (l.id@ + ","@ + int_decimal(l.timestamp as int) + ","@));
    push_str(csv, l.user_id.as_str());
    push_str(csv, ",");
    push_str(csv, l.action.as_str());
    push_str(csv, ",");
    push_str(csv, l.resource.as_str());
    push_str(csv, ",");
    let ghost s2 = csv@;
    assert(s2 == s1 + (l.user_id@ + ","@ + l.action@ + ","@ + l.resource@ + ","@));
    match &l.resource_id {
        Some(rid) => push_str(csv, rid.as_str()),
        None => {},
    }
    let ghost rid: Seq<char> = match l@.resource_id {
        Some(r) => r,
        None => Seq::<char>::empty(),
    };
    assert(csv@ =~= s2 + rid);
    let ghost s3 = csv@;
    push_str(csv, ",");
    push_str(csv, l.status.as_str());
    push_str(csv, ",");
    push_str(csv, l.severity.as_str());
    push_str(csv, "\n");
    assert(csv@ == s3 + (","@ + l.status@ + ","@ + l.severity@ + "\n"@));
    assert(csv@ =~= s0 + csv_line(l@));
}

/// The audit trail: logs oldest first, reports in the order they were made, and a
/// counter per action.
pub struct AuditSystem {
    logs: Vec<AuditLog>,
    reports: Vec<ComplianceReport>,
    config: AuditConfig,
    counters: Vec<(String, usize)>,
}

impl AuditSystem {
    /// The logs, oldest first.
    pub closed spec fn logs_view(&self) -> Seq<AuditLogView> {
        self.logs@.map_values(|l: AuditLog| l@)
    }

    /// The reports, in the order they were made.
    pub closed spec fn reports_view(&self) -> Seq<ReportView> {
        self.reports@.map_values(|r: ComplianceReport| r@)
    }

    /// How many times each action was logged.
    pub closed spec fn counters_view(&self) -> Map<Seq<char>, nat> {
        map_of(tally_entries(self.counters@))
    }

    /// The limit on the number of logs kept.
    pub closed spec fn max_entries(&self) -> usize {
        self.config.max_log_entries
    }

    /// Whether reports are made.
    pub closed spec fn reports_enabled(&self) -> bool {
        self.config.enable_compliance_reports
    }

    /// The retention period, in days.
    pub closed spec fn retention(&self) -> u32 {
        self.config.retention_days
    }

    /// How many times `action` was logged.
    pub open spec fn action_count(&self, action: Seq<char>) -> nat {
        if self.counters_view().dom().contains(action) {
            self.counters_view()[action]
        } else {
            0
        }
    }

    /// The log stays within its limit and each action has one counter.
    pub closed spec fn wf(&self) -> bool {
        &&& self.logs@.len() <= self.config.max_log_entries
        &&& unique_keys(tally_entries(self.counters@))
    }

    /// An empty trail kept as `config` says.
    pub fn new(config: AuditConfig) -> (r: Self)
        ensures
            r.wf(),
            r.logs_view() == Seq::<AuditLogView>::empty(),
            r.reports_view() == Seq::<ReportView>::empty(),
            r.counters_view() == Map::<Seq<char>, nat>::empty(),
            r.max_entries() == config.max_log_entries,
            r.retention() == config.retention_days,
            r.reports_enabled() == config.enable_compliance_reports,
    {
        let r = AuditSystem { logs: Vec::new(), reports: Vec::new(), config, counters: Vec::new() };
        proof {
            lemma_map_of_empty(tally_entries(r.counters@));
            assert(r.logs_view() =~= Seq::<AuditLogView>::empty());
            assert(r.reports_view() =~= Seq::<ReportView>::empty());
        }
        r
    }

    /// Records an action under a fresh random id and the current time, dropping the
    /// oldest log when the log is full, and counts the action; returns the id.
    pub fn log_action(
        &mut self,
        user_id: String,
        action: String,
        resource: String,
        resource_id: Option<String>,
        details: serde_json::Value,
        ip_address: Option<String>,
        user_agent: Option<String>,
        status: String,
        severity: String,
    ) -> (r: Result<String, AppError>)
        requires
            old(self).wf(),
            old(self).max_entries() > 0,
            old(self).action_count(action@) < usize::MAX,
        ensures
            final(self).wf(),
            final(self).max_entries() == old(self).max_entries(),
            final(self).reports_enabled() == old(self).reports_enabled(),
            final(self).retention() == old(self).retention(),
            final(self).reports_view() == old(self).reports_view(),
            r is Ok,
            match r {
                Ok(id) => {
                    let l = final(self).logs_view().last();
                    &&& 0 <= l.timestamp < MAX_TIMESTAMP
                    &&& l == (AuditLogView {
                        id: id@,
                        timestamp: l.timestamp,
                        user_id: user_id@,
                        action: action@,
                        resource: resource@,
                        resource_id: opt_view(resource_id),
                        details: details,
                        ip_address: opt_view(ip_address),
                        user_agent: opt_view(user_agent),
                        status: status@,
                        severity: severity@,
                    })
                    &&& final(self).logs_view() == after_log(old(self).logs_view(), old(self).max_entries(), l)
                    &&& final(self).counters_view() == old(self).counters_view().insert(action@, old(self).action_count(action@) + 1)
                },
                Err(_) => false,
            },
    {
        let id = new_uuid();
        let ghost action_view = action@;
        let action_key = action.clone();
        let log = AuditLog {
            id: id.clone(),
            timestamp: now_timestamp(),
            user_id,
            action,
            resource,
            resource_id,
            details,
            ip_address,
            user_agent,
            status,
            severity,
        };
        let ghost lv = log@;
        let ghost before = self.logs_view();
        if self.logs.len() >= self.config.max_log_entries {
            self.logs.remove(0);
        }
        self.logs.push(log);
        proof {
            if before.len() >= self.config.max_log_entries {
                assert(self.logs_view() =~= before.drop_first().push(lv));
            } else {
                assert(self.logs_view() =~= before.push(lv));
            }
        }
        self.count_action(action_key);
        Ok(id)
    }

    fn count_action(&mut self, action: String)
        requires
            unique_keys(tally_entries(old(self).counters@)),
            old(self).action_count(action@) < usize::MAX,
        ensures
            unique_keys(tally_entries(final(self).counters@)),
            final(self).counters_view() == old(self).counters_view().insert(action@, old(self).action_count(action@) + 1),
            final(self).logs == old(self).logs,
            final(self).reports == old(self).reports,
            final(self).config == old(self).config,
    {
        let ghost es = tally_entries(self.counters@);
        let mut j: usize = 0;
        while j < self.counters.len()
            invariant
                j <= self.counters@.len(),
                es == tally_entries(self.counters@),
                unique_keys(es),
                self.counters@ == old(self).counters@,
                self.logs == old(self).logs,
                self.reports == old(self).reports,
                self.config == old(self).config,
                old(self).action_count(action@) < usize::MAX,
                forall|a: int| 0 <= a < j ==> #[trigger] self.counters@[a].0@ != action@,
            decreases self.counters.len() - j,
        {
            if str_eq(self.counters[j].0.as_str(), action.as_str()) {
                let c = self.counters[j].1;
                proof {
                    lemma_map_of_index(es, j as int);
                }
                self.counters.set(j, (action, c + 1));
                proof {
                    assert(tally_entries(self.counters@) =~= es.update(j as int, (es[j as int].0, (c + 1) as nat)));
                    lemma_map_of_update(es, j as int, (c + 1) as nat);
                }
                return;
            }
            j = j + 1;
        }
        let ghost key = action@;
        self.counters.push((action, 1));
        proof {
            assert(tally_entries(self.counters@) =~= es.push((key, 1nat)));
            assert(!has_key(es, key)) by {
                if has_key(es, key) {
                    let a = choose|a: int| 0 <= a < es.len() && es[a].0 == key;
                    assert(self.counters@[a].0@ == es[a].0);
                }
            }
            lemma_map_of_push(es, key, 1nat);
        }
    }

    /// The logs that pass the filters (all of them when there are none), oldest first.
    /// The filter keys read are `user_id`, `action`, `resource` and `severity`; a key
    /// given twice counts with its last value.
    pub fn get_logs(&self, filters: Option<Vec<(String, String)>>) -> (r: Vec<AuditLog>)
        ensures
            r@.map_values(|l: AuditLog| l@) == match filters {
                Some(f) => self.logs_view().filter(log_matches(pair_views(f@))),
                None => self.logs_view(),
            },
    {
        let (filtered, f) = match filters {
            Some(f) => (true, f),
            None => (false, Vec::new()),
        };
        let user_id = lookup_filter(&f, "user_id");
        let action = lookup_filter(&f, "action");
        let resource = lookup_filter(&f, "resource");
        let severity = lookup_filter(&f, "severity");
        let ghost p = log_matches(pair_views(f@));
        let ghost all = self.logs_view();
        let mut out: Vec<AuditLog> = Vec::new();
        let mut i: usize = 0;
        proof {
            assert(all.take(0).filter(p) =~= Seq::<AuditLogView>::empty()) by {
                reveal(Seq::filter);
            }
        }
        while i < self.logs.len()
            invariant
                i <= self.logs@.len(),
                all == self.logs_view(),
                p == log_matches(pair_views(f@)),
                opt_view(user_id) == filter_value(pair_views(f@), "user_id"@),
                opt_view(action) == filter_value(pair_views(f@), "action"@),
                opt_view(resource) == filter_value(pair_views(f@), "resource"@),
                opt_view(severity) == filter_value(pair_views(f@), "severity"@),
                out@.map_values(|l: AuditLog| l@) == if filtered { all.take(i as int).filter(p) } else { all.take(i as int) },
            decreases self.logs.len() - i,
        {
            let ghost before = out@;
            let l = &self.logs[i];
            proof {
                assert(all.take(i + 1) =~= all.take(i as int).push(all[i as int]));
                all.take(i as int).lemma_filter_push(all[i as int], p);
                assert(all[i as int] == self.logs@[i as int]@);
            }
            let keep = !filtered || (passes(&user_id, &l.user_id) && passes(&action, &l.action)
                && passes(&resource, &l.resource) && passes(&severity, &l.severity));
            if keep {
                let x = l.clone();
                out.push(x);
                proof {
                    assert(out@.map_values(|l: AuditLog| l@) =~= before.map_values(|l: AuditLog| l@).push(x@));
                }
            }
            i = i + 1;
        }
        proof {
            assert(all.take(all.len() as int) =~= all);
        }
        out
    }

    fn position_of(&self, log_id: &str) -> (r: Option<usize>)
        ensures
            match r {
                Some(i) => first_with_id(self.logs_view(), log_id@, i as int),
                None => forall|j: int| 0 <= j < self.logs_view().len() ==> #[trigger] self.logs_view()[j].id != log_id@,
            },
    {
        let mut i: usize = 0;
        while i < self.logs.len()
            invariant
                i <= self.logs@.len(),
                forall|j: int| 0 <= j < i ==> #[trigger] self.logs_view()[j].id != log_id@,
            decreases self.logs.len() - i,
        {
            assert(self.logs_view()[i as int] == self.logs@[i as int]@);
            if str_eq(self.logs[i].id.as_str(), log_id) {
                return Some(i);
            }
            i = i + 1;
        }
        None
    }

    /// The first log with id `log_id`; `NotFound` when there is none.
    pub fn get_log(&self, log_id: &str) -> (r: Result<AuditLog, AppError>)
        ensures
            r is Ok <==> exists|i: int| 0 <= i < self.logs_view().len() && #[trigger] self.logs_view()[i].id == log_id@,
            match r {
                Ok(l) => exists|i: int| first_with_id(self.logs_view(), log_id@, i) && #[trigger] self.logs_view()[i] == l@,
                Err(e) => e is NotFound && e.message() == log_not_found(log_id@),
            },
    {
        match self.position_of(log_id) {
            Some(i) => {
                let l = self.logs[i].clone();
                assert(self.logs_view()[i as int] == l@);
                Ok(l)
            },
            None => Err(AppError::NotFound(concat3("Audit log ", log_id, " not found"))),
        }
    }

    /// Removes every log with id `log_id`; `NotFound` when there is none.
    pub fn delete_log(&mut self, log_id: &str) -> (r: Result<(), AppError>)
        requires
            old(self).wf(),
        ensures
            final(self).wf(),
            final(self).max_entries() == old(self).max_entries(),
            final(self).reports_enabled() == old(self).reports_enabled(),
            final(self).retention() == old(self).retention(),
            final(self).reports_view() == old(self).reports_view(),
            final(self).counters_view() == old(self).counters_view(),
            final(self).logs_view() == old(self).logs_view().filter(id_differs(log_id@)),
            r is Ok <==> exists|i: int| 0 <= i < old(self).logs_view().len() && #[trigger] old(self).logs_view()[i].id == log_id@,
            r matches Err(e) ==> e is NotFound && e.message() == log_not_found(log_id@),
    {
        let ghost p = id_differs(log_id@);
        let n = self.retain_logs(Ghost(p), log_id, 0, false);
        if n == 0 {
            Err(AppError::NotFound(concat3("Audit log ", log_id, " not found")))
        } else {
            Ok(())
        }
    }

    /// Keeps the logs that `keep` accepts: those whose id is not `log_id` when `by_time`
    /// is false, else those newer than `cutoff`. Returns how many were removed.
    fn retain_logs(&mut self, Ghost(keep): Ghost<spec_fn(AuditLogView) -> bool>, log_id: &str, cutoff: i64, by_time: bool) -> (removed: usize)
        requires
            old(self).wf(),
            by_time ==> keep == newer_than(cutoff as int),
            !by_time ==> keep == id_differs(log_id@),
        ensures
            final(self).wf(),
            final(self).config == old(self).config,
            final(self).reports == old(self).reports,
            final(self).counters == old(self).counters,
            final(self).logs_view() == old(self).logs_view().filter(keep),
            removed == old(self).logs_view().len() - final(self).logs_view().len(),
            (removed == 0) <==> forall|i: int| 0 <= i < old(self).logs_view().len() ==> keep(#[trigger] old(self).logs_view()[i]),
    {
        let ghost all = self.logs_view();
        let mut kept: Vec<AuditLog> = Vec::new();
        let mut i: usize = 0;
        proof {
            assert(all.take(0).filter(keep) =~= Seq::<AuditLogView>::empty()) by {
                reveal(Seq::filter);
            }
        }
        while i < self.logs.len()
            invariant
                i <= self.logs@.len(),
                all == self.logs_view(),
                by_time ==> keep == newer_than(cutoff as int),
                !by_time ==> keep == id_differs(log_id@),
                kept@.map_values(|l: AuditLog| l@) == all.take(i as int).filter(keep),
                kept@.len() <= i,
                (kept@.len() == i) <==> forall|j: int| 0 <= j < i ==> keep(#[trigger] all[j]),
            decreases self.logs.len() - i,
        {
            let ghost before = kept@;
            proof {
                assert(all.take(i + 1) =~= all.take(i as int).push(all[i as int]));
                all.take(i as int).lemma_filter_push(all[i as int], keep);
                assert(all[i as int] == self.logs@[i as int]@);
            }
            let stays = if by_time {
                self.logs[i].timestamp > cutoff
            } else {
                !str_eq(self.logs[i].id.as_str(), log_id)
            };
            if stays {
                let x = self.logs[i].clone();
                kept.push(x);
                proof {
                    assert(kept@.map_values(|l: AuditLog| l@) =~= before.map_values(|l: AuditLog| l@).push(x@));
                }
            }
            i = i + 1;
        }
        proof {
            assert(all.take(all.len() as int) =~= all);
        }
        let removed = self.logs.len() - kept.len();
        self.logs = kept;
        proof {
            assert(self.logs_view() == all.filter(keep));
        }
        removed
    }

    /// Removes the logs that are not newer than `days` days before the clock reading
    /// `now`; returns how many were removed.
    pub fn purge_old_logs_at(&mut self, days: u32, now: i64) -> (r: Result<usize, AppError>)
        requires
            old(self).wf(),
            0 <= now < MAX_TIMESTAMP,
        ensures
            final(self).wf(),
            final(self).max_entries() == old(self).max_entries(),
            final(self).reports_enabled() == old(self).reports_enabled(),
            final(self).retention() == old(self).retention(),
            final(self).reports_view() == old(self).reports_view(),
            final(self).counters_view() == old(self).counters_view(),
            final(self).logs_view() == old(self).logs_view().filter(newer_than(purge_cutoff(now, days))),
            r == Ok::<usize, AppError>((old(self).logs_view().len() - final(self).logs_view().len()) as usize),
    {
        let cutoff: i64 = now - (days as i64) * 86400;
        let n = self.retain_logs(Ghost(newer_than(cutoff as int)), "", cutoff, true);
        Ok(n)
    }

    /// Removes the logs older than `days` days by the clock; returns how many.
    pub fn purge_old_logs(&mut self, days: u32) -> (r: Result<usize, AppError>)
        requires
            old(self).wf(),
        ensures
            final(self).wf(),
            final(self).reports_view() == old(self).reports_view(),
            final(self).counters_view() == old(self).counters_view(),
            exists|now: i64| 0 <= now < MAX_TIMESTAMP
                && #[trigger] final(self).logs_view() == old(self).logs_view().filter(newer_than(purge_cutoff(now, days))),
            r == Ok::<usize, AppError>((old(self).logs_view().len() - final(self).logs_view().len()) as usize),
    {
        let now = now_timestamp();
        self.purge_old_logs_at(days, now)
    }
    /// Makes a compliance report over the logs of the period from `period_start` to
    /// `period_end` and keeps it; returns its random id. `Internal` when reports are
    /// disabled.
    pub fn generate_compliance_report(&mut self, report_type: String, period_start: i64, period_end: i64) -> (r: Result<String, AppError>)
        requires
            old(self).wf(),
        ensures
            final(self).wf(),
            final(self).logs_view() == old(self).logs_view(),
            final(self).counters_view() == old(self).counters_view(),
            final(self).max_entries() == old(self).max_entries(),
            final(self).reports_enabled() == old(self).reports_enabled(),
            final(self).retention() == old(self).retention(),
            r is Ok <==> old(self).reports_enabled(),
            match r {
                Ok(id) => final(self).reports_view().drop_last() == old(self).reports_view()
                    && final(self).reports_view().len() == old(self).reports_view().len() + 1
                    && report_fits(final(self).reports_view().last(), id@, report_type@, period_start, period_end, old(self).logs_view()),
                Err(e) => e is Internal && e.message() == "Compliance reports are disabled"@
                    && final(self).reports_view() == old(self).reports_view(),
            },
    {
        if !self.config.enable_compliance_reports {
            return Err(AppError::Internal(str_to_string("Compliance reports are disabled")));
        }
        let ghost all = self.logs_view();
        let ghost pin = in_period(period_start, period_end);
        let ghost pfail = failed_in(period_start, period_end);
        let ghost psev = severe_in(period_start, period_end);
        let mut period_n: usize = 0;
        let mut users: Vec<String> = Vec::new();
        let mut failed: Vec<String> = Vec::new();
        let mut severe: Vec<String> = Vec::new();
        let mut i: usize = 0;
        proof {
            reveal(Seq::filter);
            assert(all.take(0).filter(pin) =~= Seq::<AuditLogView>::empty());
            assert(all.take(0).filter(pfail) =~= Seq::<AuditLogView>::empty());
            assert(all.take(0).filter(psev) =~= Seq::<AuditLogView>::empty());
            assert(string_views(users@) =~= Seq::<Seq<char>>::empty());
            assert(string_views(failed@) =~= Seq::<Seq<char>>::empty());
            assert(string_views(severe@) =~= Seq::<Seq<char>>::empty());
        }
        while i < self.logs.len()
            invariant
                i <= self.logs@.len(),
                all == self.logs_view(),
                pin == in_period(period_start, period_end),
                pfail == failed_in(period_start, period_end),
                psev == severe_in(period_start, period_end),
                period_n == all.take(i as int).filter(pin).len(),
                period_n <= i,
                string_views(users@) == users_of(all.take(i as int).filter(pin)),
                string_views(failed@) == resources_of(all.take(i as int).filter(pfail)),
                string_views(severe@) == resources_of(all.take(i as int).filter(psev)),
            decreases self.logs.len() - i,
        {
            let ghost pre = all.take(i as int);
            let ghost x = all[i as int];
            let ghost u0 = users@;
            let ghost f0 = failed@;
            let ghost s0 = severe@;
            proof {
                assert(all.take(i + 1) =~= pre.push(x));
                pre.lemma_filter_push(x, pin);
                pre.lemma_filter_push(x, pfail);
                pre.lemma_filter_push(x, psev);
                assert(x == self.logs@[i as int]@);
            }
            let l = &self.logs[i];
            if period_start <= l.timestamp && l.timestamp <= period_end {
                period_n = period_n + 1;
                users.push(l.user_id.clone());
                proof {
                    assert(string_views(users@) =~= string_views(u0).push(x.user_id));
                    assert(users_of(pre.filter(pin).push(x)) =~= users_of(pre.filter(pin)).push(x.user_id));
                }
                let is_failed = str_eq(l.status.as_str(), "failed") || str_eq(l.status.as_str(), "denied");
                if is_failed {
                    failed.push(l.resource.clone());
                    proof {
                        assert(string_views(failed@) =~= string_views(f0).push(x.resource));
                        assert(resources_of(pre.filter(pfail).push(x)) =~= resources_of(pre.filter(pfail)).push(x.resource));
                    }
                }
                let is_severe = str_eq(l.severity.as_str(), "high") || str_eq(l.severity.as_str(), "critical");
                if is_severe {
                    severe.push(l.resource.clone());
                    proof {
                        assert(string_views(severe@) =~= string_views(s0).push(x.resource));
                        assert(resources_of(pre.filter(psev).push(x)) =~= resources_of(pre.filter(psev)).push(x.resource));
                    }
                }
            }
            i = i + 1;
        }
        proof {
            assert(all.take(all.len() as int) =~= all);
        }
        let ghost exp = expected_findings(all, period_start, period_end);
        let ghost fails = all.filter(pfail);
        let ghost sevs = all.filter(psev);
        let ghost uset = users_of(all.filter(pin)).to_set();
        let ghost ea: Seq<ExpectedFinding> = if fails.len() > 0 { seq![exp[0]] } else { Seq::empty() };
        let ghost eb: Seq<ExpectedFinding> = if sevs.len() > 0 { seq![exp[ea.len() as int]] } else { Seq::empty() };
        let ghost ec: Seq<ExpectedFinding> = if uset.len() > 50 { seq![exp[(ea.len() + eb.len()) as int]] } else { Seq::empty() };
        proof {
            assert(failed@.len() == fails.len());
            assert(severe@.len() == sevs.len());
            assert(exp =~= ea + eb + ec);
        }
        let mut findings: Vec<ComplianceFinding> = Vec::new();
        if failed.len() > 0 {
            let mut description = String::new();
            push_u64_decimal(&mut description, failed.len() as u64);
            push_str(&mut description, " failed or denied actions detected");
            findings.push(ComplianceFinding {
                id: new_uuid(),
                category: str_to_string("access_control"),
                severity: str_to_string("high"),
                description,
                recommendation: str_to_string("Review access control policies and user permissions"),
                affected_resources: distinct_strings(&failed),
            });
        }
        proof {
            assert(findings@.len() == ea.len());
            assert(forall|k: int| 0 <= k < ea.len() ==> finding_is(#[trigger] findings@[k]@, ea[k]));
        }
        let ghost fa = findings@;
        if severe.len() > 0 {
            let mut description = String::new();
            push_u64_decimal(&mut description, severe.len() as u64);
            push_str(&mut description, " high severity events detected");
            findings.push(ComplianceFinding {
                id: new_uuid(),
                category: str_to_string("security"),
                severity: str_to_string("critical"),
                description,
                recommendation: str_to_string("Investigate high severity events and implement additional security measures"),
                affected_resources: distinct_strings(&severe),
            });
        }
        proof {
            assert(findings@.len() == (ea + eb).len());
            assert forall|k: int| 0 <= k < (ea + eb).len() implies finding_is(#[trigger] findings@[k]@, (ea + eb)[k]) by {
                if k < ea.len() {
                    assert(findings@[k] == fa[k]);
                }
            }
        }
        let ghost fb = findings@;
        let unique_users = distinct_strings(&users);
        proof {
            string_views(unique_users@).unique_seq_to_set();
            assert(string_views(users@) == users_of(all.filter(pin)));
        }
        if unique_users.len() > 50 {
            let mut description = str_to_string("Unusual number of active users: ");
            push_u64_decimal(&mut description, unique_users.len() as u64);
            findings.push(ComplianceFinding {
                id: new_uuid(),
                category: str_to_string("user_activity"),
                severity: str_to_string("medium"),
                description,
                recommendation: str_to_string("Review user activity patterns and verify all users are authorized"),
                affected_resources: unique_users,
            });
        }
        proof {
            assert(findings@.len() == exp.len());
            assert forall|k: int| 0 <= k < exp.len() implies finding_is(#[trigger] findings@[k]@, exp[k]) by {
                if k < (ea + eb).len() {
                    assert(findings@[k] == fb[k]);
                }
            }
        }
        let mut summary = str_to_string("Report generated with ");
        push_u64_decimal(&mut summary, findings.len() as u64);
        push_str(&mut summary, " findings from ");
        push_u64_decimal(&mut summary, period_n as u64);
        push_str(&mut summary, " log entries");
        let id = new_uuid();
        let report = ComplianceReport {
            id: id.clone(),
            generated_at: now_timestamp(),
            report_type,
            period_start,
            period_end,
            findings,
            summary,
        };
        let ghost rv = report@;
        let ghost before = self.reports_view();
        self.reports.push(report);
        proof {
            assert(self.reports_view() =~= before.push(rv));
            assert(self.reports_view().drop_last() =~= before);
            assert forall|k: int| 0 <= k < exp.len() implies finding_is(#[trigger] rv.findings[k], exp[k]) by {
                assert(rv.findings[k] == findings@[k]@);
            }
        }
        Ok(id)
    }

    /// All reports, in the order they were made.
    pub fn get_reports(&self) -> (r: Vec<ComplianceReport>)
        ensures
            r@.map_values(|x: ComplianceReport| x@) == self.reports_view(),
    {
        let mut out: Vec<ComplianceReport> = Vec::new();
        let mut i: usize = 0;
        while i < self.reports.len()
            invariant
                i <= self.reports@.len(),
                out@.len() == i,
                forall|j: int| 0 <= j < i ==> #[trigger] out@[j]@ == self.reports@[j]@,
            decreases self.reports.len() - i,
        {
            out.push(self.reports[i].clone());
            i = i + 1;
        }
        assert(out@.map_values(|x: ComplianceReport| x@) =~= self.reports_view());
        out
    }

    /// The first report with id `report_id`; `NotFound` when there is none.
    pub fn get_report(&self, report_id: &str) -> (r: Result<ComplianceReport, AppError>)
        ensures
            r is Ok <==> exists|i: int| 0 <= i < self.reports_view().len() && #[trigger] self.reports_view()[i].id == report_id@,
            match r {
                Ok(rep) => exists|i: int| 0 <= i < self.reports_view().len() && #[trigger] self.reports_view()[i] == rep@
                    && rep@.id == report_id@
                    && forall|j: int| 0 <= j < i ==> #[trigger] self.reports_view()[j].id != report_id@,
                Err(e) => e is NotFound && e.message() == report_not_found(report_id@),
            },
    {
        let mut i: usize = 0;
        while i < self.reports.len()
            invariant
                i <= self.reports@.len(),
                forall|j: int| 0 <= j < i ==> #[trigger] self.reports_view()[j].id != report_id@,
            decreases self.reports.len() - i,
        {
            assert(self.reports_view()[i as int] == self.reports@[i as int]@);
            if str_eq(self.reports[i].id.as_str(), report_id) {
                let rep = self.reports[i].clone();
                assert(self.reports_view()[i as int] == rep@);
                assert(self.reports_view()[i as int].id == report_id@);
                return Ok(rep);
            }
            i = i + 1;
        }
        Err(AppError::NotFound(concat3("Compliance report ", report_id, " not found")))
    }

    /// Counts of logs by severity, status and resource, of logged actions, and the
    /// totals and settings of the trail.
    pub fn get_stats(&self) -> (r: AuditStats)
        requires
            self.wf(),
        ensures
            r.total_logs == self.logs_view().len(),
            r.total_reports == self.reports_view().len(),
            unique_keys(tally_entries(r.severity_counts@)),
            map_of(tally_entries(r.severity_counts@)) == occurrences(severities_of(self.logs_view())),
            unique_keys(tally_entries(r.status_counts@)),
            map_of(tally_entries(r.status_counts@)) == occurrences(statuses_of(self.logs_view())),
            unique_keys(tally_entries(r.resource_counts@)),
            map_of(tally_entries(r.resource_counts@)) == occurrences(resources_of(self.logs_view())),
            unique_keys(tally_entries(r.action_counts@)),
            map_of(tally_entries(r.action_counts@)) == self.counters_view(),
            r.retention_days == self.retention(),
            r.max_log_entries == self.max_entries(),
    {
        let mut sev: Vec<String> = Vec::new();
        let mut sta: Vec<String> = Vec::new();
        let mut res: Vec<String> = Vec::new();
        let mut i: usize = 0;
        while i < self.logs.len()
            invariant
                i <= self.logs@.len(),
                string_views(sev@) == severities_of(self.logs_view().take(i as int)),
                string_views(sta@) == statuses_of(self.logs_view().take(i as int)),
                string_views(res@) == resources_of(self.logs_view().take(i as int)),
            decreases self.logs.len() - i,
        {
            let ghost pre = self.logs_view().take(i as int);
            let ghost x = self.logs@[i as int]@;
            let ghost (s0, s1, s2) = (sev@, sta@, res@);
            proof {
                assert(self.logs_view().take(i + 1) =~= pre.push(x));
            }
            sev.push(self.logs[i].severity.clone());
            sta.push(self.logs[i].status.clone());
            res.push(self.logs[i].resource.clone());
            proof {
                assert(string_views(sev@) =~= string_views(s0).push(x.severity));
                assert(string_views(sta@) =~= string_views(s1).push(x.status));
                assert(string_views(res@) =~= string_views(s2).push(x.resource));
                assert(severities_of(pre.push(x)) =~= severities_of(pre).push(x.severity));
                assert(statuses_of(pre.push(x)) =~= statuses_of(pre).push(x.status));
                assert(resources_of(pre.push(x)) =~= resources_of(pre).push(x.resource));
            }
            i = i + 1;
        }
        proof {
            assert(self.logs_view().take(self.logs@.len() as int) =~= self.logs_view());
        }
        let mut actions: Vec<(String, usize)> = Vec::new();
        let mut j: usize = 0;
        while j < self.counters.len()
            invariant
                j <= self.counters@.len(),
                tally_entries(actions@) == tally_entries(self.counters@).take(j as int),
            decreases self.counters.len() - j,
        {
            let ghost before = tally_entries(actions@);
            let e = (self.counters[j].0.clone(), self.counters[j].1);
            actions.push(e);
            proof {
                assert(tally_entries(actions@) =~= before.push((self.counters@[j as int].0@, self.counters@[j as int].1 as nat)));
                assert(tally_entries(self.counters@).take(j + 1) =~= tally_entries(self.counters@).take(j as int).push(tally_entries(self.counters@)[j as int]));
            }
            j = j + 1;
        }
        assert(tally_entries(self.counters@).take(self.counters@.len() as int) =~= tally_entries(self.counters@));
        AuditStats {
            total_logs: self.logs.len(),
            total_reports: self.reports.len(),
            severity_counts: count_occurrences(&sev),
            status_counts: count_occurrences(&sta),
            resource_counts: count_occurrences(&res),
            action_counts: actions,
            retention_days: self.config.retention_days,
            max_log_entries: self.config.max_log_entries,
        }
    }

    /// The logs in `json` (handed over as they are) or `csv` form; `Internal` for any
    /// other format.
    pub fn export_logs(&self, format: &str) -> (r: Result<AuditExport, AppError>)
        ensures
            r is Ok <==> (format@ == "json"@ || format@ == "csv"@),
            match r {
                Ok(AuditExport::Json(logs)) => format@ == "json"@ && logs@.map_values(|l: AuditLog| l@) == self.logs_view(),
                Ok(AuditExport::Csv(text)) => format@ == "csv"@ && text@ == csv_header() + csv_rows(self.logs_view()),
                Err(e) => e is Internal && e.message() == "Unsupported export format: "@ + format@,
            },
    {
        if str_eq(format, "json") {
            let logs = self.get_logs(None);
            return Ok(AuditExport::Json(logs));
        }
        if !str_eq(format, "csv") {
            let mut msg = str_to_string("Unsupported export format: ");
            push_str(&mut msg, format);
            return Err(AppError::Internal(msg));
        }
        let mut csv = str_to_string("id,timestamp,user_id,action,resource,resource_id,status,severity\n");
        let mut i: usize = 0;
        while i < self.logs.len()
            invariant
                i <= self.logs@.len(),
                csv@ == csv_header() + csv_rows(self.logs_view().take(i as int)),
            decreases self.logs.len() - i,
        {
            let l = &self.logs[i];
            let ghost before = csv@;
            push_csv_line(&mut csv, l);
            proof {
                let t = self.logs_view().take(i + 1);
                assert(t.drop_last() =~= self.logs_view().take(i as int));
                assert(t.last() == l@);
                assert(csv@ =~= before + csv_line(l@));
            }
            i = i + 1;
        }
        assert(self.logs_view().take(self.logs@.len() as int) =~= self.logs_view());
        Ok(AuditExport::Csv(csv))
    }
}

/// The log never holds more entries than its limit: recording into a log within a
/// positive limit leaves it within the limit.
pub proof fn law_log_bounded(logs: Seq<AuditLogView>, max: usize, l: AuditLogView)
    requires
        logs.len() <= max,
        max > 0,
    ensures
        after_log(logs, max, l).len() <= max,
{
}

/// A recorded action is the newest log, so a lookup by its id finds a log.
pub proof fn law_logged_is_found(logs: Seq<AuditLogView>, max: usize, l: AuditLogView)
    ensures
        after_log(logs, max, l).last() == l,
        exists|i: int| 0 <= i < after_log(logs, max, l).len() && #[trigger] after_log(logs, max, l)[i].id == l.id,
{
    let a = after_log(logs, max, l);
    assert(a[a.len() - 1] == l);
    assert(after_log(logs, max, l)[a.len() - 1].id == l.id);
}

/// A full log drops exactly its oldest entry when it records one more.
pub proof fn law_oldest_evicted(logs: Seq<AuditLogView>, max: usize, l: AuditLogView)
    requires
        logs.len() == max,
        max > 0,
    ensures
        after_log(logs, max, l) == logs.subrange(1, logs.len() as int).push(l),
{
    assert(logs.drop_first() =~= logs.subrange(1, logs.len() as int));
}

/// After a deletion by id no log with that id is left, and every other log stays.
pub proof fn law_deleted_log_is_gone(logs: Seq<AuditLogView>, id: Seq<char>)
    ensures
        forall|i: int| 0 <= i < logs.filter(id_differs(id)).len() ==> #[trigger] logs.filter(id_differs(id))[i].id != id,
        forall|i: int| 0 <= i < logs.len() && logs[i].id != id ==> logs.filter(id_differs(id)).contains(#[trigger] logs[i]),
{
    broadcast use vstd::seq_lib::group_filter_ensures;
    assert forall|i: int| 0 <= i < logs.len() && logs[i].id != id implies logs.filter(id_differs(id)).contains(#[trigger] logs[i]) by {
        logs.lemma_filter_contains(id_differs(id), i);
    }
}

/// After a purge every log left is newer than the cutoff, and no newer log was removed.
pub proof fn law_purge_keeps_newer(logs: Seq<AuditLogView>, cutoff: int)
    ensures
        forall|i: int| 0 <= i < logs.filter(newer_than(cutoff)).len() ==> #[trigger] logs.filter(newer_than(cutoff))[i].timestamp > cutoff,
        forall|i: int| 0 <= i < logs.len() && logs[i].timestamp > cutoff ==> logs.filter(newer_than(cutoff)).contains(#[trigger] logs[i]),
{
    broadcast use vstd::seq_lib::group_filter_ensures;
    assert forall|i: int| 0 <= i < logs.len() && logs[i].timestamp > cutoff implies logs.filter(newer_than(cutoff)).contains(#[trigger] logs[i]) by {
        logs.lemma_filter_contains(newer_than(cutoff), i);
    }
}

/// How many logs of the period `start`..`end` have status `failed` or `denied`.
pub open spec fn failed_or_denied_count(logs: Seq<AuditLogView>, start: i64, end: i64) -> nat
    decreases logs.len(),
{
    if logs.len() == 0 {
        0
    } else {
        let l = logs.last();
        failed_or_denied_count(logs.drop_last(), start, end)
            + if start <= l.timestamp && l.timestamp <= end && (l.status == "failed"@ || l.status == "denied"@) { 1nat } else { 0nat }
    }
}

proof fn lemma_failed_count(logs: Seq<AuditLogView>, start: i64, end: i64)
    ensures
        logs.filter(failed_in(start, end)).len() == failed_or_denied_count(logs, start, end),
    decreases logs.len(),
{
    reveal(Seq::filter);
    if logs.len() > 0 {
        lemma_failed_count(logs.drop_last(), start, end);
        logs.drop_last().filter(failed_in(start, end)).lemma_filter_len_push(failed_in(start, end), logs.last());
    }
}

/// The `access_control` finding of a report counts the logs of the period whose status
/// is `failed` or `denied`: when there is one, the report's first finding is the
/// `access_control` one, and its description gives their number.
pub proof fn law_failed_or_denied_counted(logs: Seq<AuditLogView>, start: i64, end: i64)
    ensures
        failed_or_denied_count(logs, start, end) > 0 ==> {
            &&& expected_findings(logs, start, end).len() > 0
            &&& expected_findings(logs, start, end)[0].0 == "access_control"@
            &&& expected_findings(logs, start, end)[0].2
                == nat_decimal(failed_or_denied_count(logs, start, end)) + " failed or denied actions detected"@
        },
{
    lemma_failed_count(logs, start, end);
}

/// A log of the report's period whose status is `failed` or `denied` is reported: the
/// report's first finding is the `access_control` one, and it lists the log's resource.
pub proof fn law_failed_or_denied_reported(logs: Seq<AuditLogView>, start: i64, end: i64, i: int)
    requires
        0 <= i < logs.len(),
        start <= logs[i].timestamp <= end,
        logs[i].status == "failed"@ || logs[i].status == "denied"@,
    ensures
        expected_findings(logs, start, end).len() > 0,
        expected_findings(logs, start, end)[0].0 == "access_control"@,
        expected_findings(logs, start, end)[0].4.contains(logs[i].resource),
{
    let failed = logs.filter(failed_in(start, end));
    logs.lemma_filter_contains(failed_in(start, end), i);
    let j = choose|j: int| 0 <= j < failed.len() && failed[j] == logs[i];
    assert(resources_of(failed)[j] == logs[i].resource);
    assert(resources_of(failed).contains(logs[i].resource));
}

/// With no log of the period whose status is `failed` or `denied`, a report has no
/// `access_control` finding.
pub proof fn law_no_failure_no_access_finding(logs: Seq<AuditLogView>, start: i64, end: i64)
    requires
        forall|i: int| 0 <= i < logs.len() && start <= #[trigger] logs[i].timestamp <= end
            ==> logs[i].status != "failed"@ && logs[i].status != "denied"@,
    ensures
        forall|k: int| 0 <= k < expected_findings(logs, start, end).len()
            ==> #[trigger] expected_findings(logs, start, end)[k].0 != "access_control"@,
{
    let failed = logs.filter(failed_in(start, end));
    if failed.len() > 0 {
        assert(failed.contains(failed[0]));
        logs.lemma_filter_contains_rev(failed_in(start, end), failed[0]);
        let i = choose|i: int| 0 <= i < logs.len() && logs[i] == failed[0];
        assert(start <= logs[i].timestamp <= end);
    }
    reveal_strlit("access_control");
    reveal_strlit("security");
    reveal_strlit("user_activity");
    assert("access_control"@.len() != "security"@.len());
    assert("access_control"@.len() != "user_activity"@.len());
}

} // verus!
