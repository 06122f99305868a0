//! Reports to the regulators: which reports are made and how often, how a transaction
//! is judged suspicious, and the record of the reports made, with their counts.

use vstd::prelude::*;
use crate::dashboard::{keep_last, trim_to_last};
use crate::text::{decimal_of, join3, with_number};

verus! {

/// A regulator.
#[derive(Debug, Clone, Copy, PartialEq, Eq, Structural)]
pub enum RegulatoryAgency {
    /// Financial Supervisory Service.
    FSC,
    /// Foreign Account Tax Compliance Act.
    FATCA,
    /// Common Reporting Standard.
    CRS,
    /// Anti-Money Laundering.
    AML,
    /// Know Your Customer.
    KYC,
    /// General Data Protection Regulation.
    GDPR,
}

/// A kind of report.
#[derive(Debug, Clone, Copy, PartialEq, Eq, Structural)]
pub enum ReportType {
    TransactionReport,
    SuspiciousActivity,
    LargeTransaction,
    CustomerReport,
    ComplianceReport,
    AuditReport,
}

/// The name of a kind of report.
pub open spec fn report_type_name(t: ReportType) -> Seq<char> {
    match t {
        ReportType::TransactionReport => "TransactionReport"@,
        ReportType::SuspiciousActivity => "SuspiciousActivity"@,
        ReportType::LargeTransaction => "LargeTransaction"@,
        ReportType::CustomerReport => "CustomerReport"@,
        ReportType::ComplianceReport => "ComplianceReport"@,
        ReportType::AuditReport => "AuditReport"@,
    }
}

impl ReportType {
    /// The kind's name, e.g. "TransactionReport".
    pub fn to_string(&self) -> (r: String)
        ensures
            r@ == report_type_name(*self),
    {
        match self {
            ReportType::TransactionReport => String::from_str("TransactionReport"),
            ReportType::SuspiciousActivity => String::from_str("SuspiciousActivity"),
            ReportType::LargeTransaction => String::from_str("LargeTransaction"),
            ReportType::CustomerReport => String::from_str("CustomerReport"),
            ReportType::ComplianceReport => String::from_str("ComplianceReport"),
            ReportType::AuditReport => String::from_str("AuditReport"),
        }
    }
}

/// Where a report stands.
#[derive(Debug, Clone, Copy, PartialEq, Eq, Structural)]
pub enum ReportStatus {
    Pending,
    Generated,
    Submitted,
    Failed,
    Acknowledged,
}

/// How often each kind of report is made, in milliseconds (0: at once, when the event
/// happens): transactions daily, suspicious activity hourly, large transactions at
/// once, customers weekly, compliance every 30 days, audits yearly.
pub open spec fn default_intervals() -> Seq<(ReportType, u64)> {
    seq![
        (ReportType::TransactionReport, 86_400_000u64),
        (ReportType::SuspiciousActivity, 3_600_000u64),
        (ReportType::LargeTransaction, 0u64),
        (ReportType::CustomerReport, 604_800_000u64),
        (ReportType::ComplianceReport, 2_592_000_000u64),
        (ReportType::AuditReport, 31_536_000_000u64),
    ]
}

/// The default report intervals.
pub fn default_report_intervals() -> (r: Vec<(ReportType, u64)>)
    ensures
        r@ == default_intervals(),
{
    let mut v: Vec<(ReportType, u64)> = Vec::new();
    v.push((ReportType::TransactionReport, 86_400_000));
    v.push((ReportType::SuspiciousActivity, 3_600_000));
    v.push((ReportType::LargeTransaction, 0));
    v.push((ReportType::CustomerReport, 604_800_000));
    v.push((ReportType::ComplianceReport, 2_592_000_000));
    v.push((ReportType::AuditReport, 31_536_000_000));
    proof {
        assert(v@ =~= default_intervals());
    }
    v
}

/// The agencies reported to by default: FSC, FATCA, CRS, AML.
pub fn default_agencies() -> (r: Vec<RegulatoryAgency>)
    ensures
        r@ == seq![RegulatoryAgency::FSC, RegulatoryAgency::FATCA, RegulatoryAgency::CRS, RegulatoryAgency::AML],
{
    let mut v: Vec<RegulatoryAgency> = Vec::new();
    v.push(RegulatoryAgency::FSC);
    v.push(RegulatoryAgency::FATCA);
    v.push(RegulatoryAgency::CRS);
    v.push(RegulatoryAgency::AML);
    proof {
        assert(v@ =~= seq![RegulatoryAgency::FSC, RegulatoryAgency::FATCA, RegulatoryAgency::CRS, RegulatoryAgency::AML]);
    }
    v
}

/// The kinds of report that the periodic round makes: those with a nonzero interval,
/// in order.
pub open spec fn periodic(intervals: Seq<(ReportType, u64)>) -> Seq<ReportType>
    decreases intervals.len(),
{
    if intervals.len() == 0 {
        Seq::empty()
    } else if intervals.last().1 == 0 {
        periodic(intervals.drop_last())
    } else {
        periodic(intervals.drop_last()).push(intervals.last().0)
    }
}

/// The kinds of report made in one periodic round.
pub fn scheduled_report_types(intervals: &Vec<(ReportType, u64)>) -> (r: Vec<ReportType>)
    ensures
        r@ == periodic(intervals@),
{
    let mut out: Vec<ReportType> = Vec::new();
    let mut i: usize = 0;
    while i < intervals.len()
        invariant
            i <= intervals.len(),
            out@ == periodic(intervals@.take(i as int)),
        decreases intervals.len() - i,
    {
        proof {
            assert(intervals@.take(i + 1).drop_last() =~= intervals@.take(i as int));
        }
        if intervals[i].1 != 0 {
            out.push(intervals[i].0);
        }
        i = i + 1;
    }
    proof {
        assert(intervals@.take(intervals.len() as int) =~= intervals@);
    }
    out
}

/// A report.
#[derive(Debug)]
pub struct RegulatoryReport {
    pub report_id: String,
    pub agency: RegulatoryAgency,
    pub report_type: ReportType,
    pub period_start: u64,
    pub period_end: u64,
    pub generated_at: u64,
    pub data: serde_json::Value,
    pub status: ReportStatus,
    pub submission_attempts: u32,
    pub last_submission_attempt: Option<u64>,
    pub submission_error: Option<String>,
}

/// A day in milliseconds, the period of a periodic report.
pub open spec fn day_ms() -> u64 {
    86_400_000
}

/// The periodic report of kind `report_type` made at `now` with contents `data`: it
/// covers the day before `now`, is named "<kind>_<start>_<end>", goes to the FSC, and
/// stands generated with no submission tried.
pub fn generate_report(report_type: ReportType, now: u64, data: serde_json::Value) -> (r: RegulatoryReport)
    requires
        now >= day_ms(),
    ensures
        r.report_id@ == report_type_name(report_type) + "_"@ + decimal_of((now - day_ms()) as nat) + "_"@
            + decimal_of(now as nat),
        r.agency == RegulatoryAgency::FSC,
        r.report_type == report_type,
        r.period_start == now - day_ms(),
        r.period_end == now,
        r.generated_at == now,
        r.data == data,
        r.status == ReportStatus::Generated,
        r.submission_attempts == 0,
        r.last_submission_attempt is None,
        r.submission_error is None,
{
    let period_end = now;
    let period_start = period_end - 86_400_000;
    let name = report_type.to_string();
    let a = with_number("_", period_start);
    let b = with_number("_", period_end);
    let report_id = join3(name.as_str(), a.as_str(), b.as_str());
    RegulatoryReport {
        report_id,
        agency: RegulatoryAgency::FSC,
        report_type,
        period_start,
        period_end,
        generated_at: now,
        data,
        status: ReportStatus::Generated,
        submission_attempts: 0,
        last_submission_attempt: None,
        submission_error: None,
    }
}

/// The report of one large transaction `transaction_id` made at `now` (`at` is the
/// transaction's time): "large_transaction_<id>", to the FSC.
pub fn large_transaction_report(transaction_id: &str, at: u64, now: u64, data: serde_json::Value) -> (r: RegulatoryReport)
    ensures
        r.report_id@ == "large_transaction_"@ + transaction_id@,
        r.agency == RegulatoryAgency::FSC,
        r.report_type == ReportType::LargeTransaction,
        r.period_start == at && r.period_end == at,
        r.generated_at == now,
        r.data == data,
        r.status == ReportStatus::Generated,
        r.submission_attempts == 0,
        r.last_submission_attempt is None,
        r.submission_error is None,
{
    let report_id = join3("large_transaction_", transaction_id, "");
    proof {
        reveal_strlit("");
        assert(report_id@ =~= "large_transaction_"@ + transaction_id@);
    }
    RegulatoryReport {
        report_id,
        agency: RegulatoryAgency::FSC,
        report_type: ReportType::LargeTransaction,
        period_start: at,
        period_end: at,
        generated_at: now,
        data,
        status: ReportStatus::Generated,
        submission_attempts: 0,
        last_submission_attempt: None,
        submission_error: None,
    }
}

/// The report of one suspicious activity `activity_id` made at `now` (`at` is the
/// activity's time): "suspicious_activity_<id>", to anti-money-laundering.
pub fn suspicious_activity_report(activity_id: &str, at: u64, now: u64, data: serde_json::Value) -> (r: RegulatoryReport)
    ensures
        r.report_id@ == "suspicious_activity_"@ + activity_id@,
        r.agency == RegulatoryAgency::AML,
        r.report_type == ReportType::SuspiciousActivity,
        r.period_start == at && r.period_end == at,
        r.generated_at == now,
        r.data == data,
        r.status == ReportStatus::Generated,
        r.submission_attempts == 0,
        r.last_submission_attempt is None,
        r.submission_error is None,
{
    let report_id = join3("suspicious_activity_", activity_id, "");
    proof {
        reveal_strlit("");
        assert(report_id@ =~= "suspicious_activity_"@ + activity_id@);
    }
    RegulatoryReport {
        report_id,
        agency: RegulatoryAgency::AML,
        report_type: ReportType::SuspiciousActivity,
        period_start: at,
        period_end: at,
        generated_at: now,
        data,
        status: ReportStatus::Generated,
        submission_attempts: 0,
        last_submission_attempt: None,
        submission_error: None,
    }
}

/// The report of one transaction `transaction_id` made at `now` (`at` is the
/// transaction's time): "transaction_<id>", to the FSC.
pub fn transaction_report(transaction_id: &str, at: u64, now: u64, data: serde_json::Value) -> (r: RegulatoryReport)
    ensures
        is_transaction_report(r, transaction_id@, at, now, data),
{
    let report_id = join3("transaction_", transaction_id, "");
    proof {
        reveal_strlit("");
        assert(report_id@ =~= "transaction_"@ + transaction_id@);
    }
    RegulatoryReport {
        report_id,
        agency: RegulatoryAgency::FSC,
        report_type: ReportType::TransactionReport,
        period_start: at,
        period_end: at,
        generated_at: now,
        data,
        status: ReportStatus::Generated,
        submission_attempts: 0,
        last_submission_attempt: None,
        submission_error: None,
    }
}

/// The judgement of a transaction: its risk in tenths, the evidence and the severity.
#[derive(Debug)]
pub struct Suspicion {
    /// Risk in tenths: 3 for a large amount, 2 for an unusual pattern, 4 for a
    /// high-risk country.
    pub risk_tenths: u32,
    pub evidence: Vec<String>,
    /// "high" from 8 tenths, else "medium".
    pub severity: String,
}

/// Whether a country is one of the high-risk ones ("XX", "YY", "ZZ").
pub open spec fn high_risk_country(c: Seq<char>) -> bool {
    c == "XX"@ || c == "YY"@ || c == "ZZ"@
}

/// The risk of a transaction, in tenths.
pub open spec fn risk_of(large: bool, unusual: bool, country: Seq<char>) -> u32 {
    ((if large { 3int } else { 0 }) + (if unusual { 2int } else { 0 }) + (if high_risk_country(country) { 4int } else { 0 })) as u32
}

/// The evidence for the risk, in the order it is found.
pub open spec fn evidence_of(large: bool, unusual: bool, country: Seq<char>) -> Seq<Seq<char>> {
    (if large { seq!["Large transaction amount"@] } else { Seq::empty() })
        + (if unusual { seq!["Unusual trading pattern"@] } else { Seq::empty() })
        + (if high_risk_country(country) { seq!["High-risk country"@] } else { Seq::empty() })
}

fn same_text(a: &str, b: &str) -> (r: bool)
    ensures
        r == (a@ == b@),
{
    String::from_str(a) == String::from_str(b)
}

/// Judges a transaction from whether its value reaches the large-transaction threshold
/// (`large`), whether it trades more than 1000 units under 100 (`unusual`) and its
/// country: suspicious from 5 tenths of risk, with the evidence and severity.
pub fn detect_suspicious_activity(large: bool, unusual: bool, country: &str) -> (r: Option<Suspicion>)
    ensures
        ({
            let risk = risk_of(large, unusual, country@);
            &&& (r is Some) == (risk >= 5)
            &&& r matches Some(s) ==> s.risk_tenths == risk
                && s.evidence@.map_values(|e: String| e@) == evidence_of(large, unusual, country@)
                && s.severity@ == if risk >= 8 { "high"@ } else { "medium"@ }
        }),
{
    let mut risk: u32 = 0;
    let mut evidence: Vec<String> = Vec::new();
    let ghost none: Seq<Seq<char>> = Seq::empty();
    if large {
        risk = risk + 3;
        evidence.push(String::from_str("Large transaction amount"));
    }
    if unusual {
        risk = risk + 2;
        evidence.push(String::from_str("Unusual trading pattern"));
    }
    let high = same_text(country, "XX") || same_text(country, "YY") || same_text(country, "ZZ");
    if high {
        risk = risk + 4;
        evidence.push(String::from_str("High-risk country"));
    }
    proof {
        assert(evidence@.map_values(|e: String| e@) =~= evidence_of(large, unusual, country@));
    }
    if risk >= 5 {
        let severity = if risk >= 8 { String::from_str("high") } else { String::from_str("medium") };
        Some(Suspicion { risk_tenths: risk, evidence, severity })
    } else {
        None
    }
}

/// The counts of the reporting.
#[derive(Debug)]
pub struct RegulatoryReportingStats {
    pub total_transactions: usize,
    pub total_suspicious_activities: usize,
    pub total_reports: usize,
    /// For each status that some report has, the number of reports in it.
    pub status_counts: Vec<(ReportStatus, usize)>,
    /// For each agency that some report goes to, the number of reports for it.
    pub agency_counts: Vec<(RegulatoryAgency, usize)>,
    pub is_reporting: bool,
}

/// The number of reports in status `st`.
pub open spec fn count_status(s: Seq<RegulatoryReport>, st: ReportStatus) -> nat
    decreases s.len(),
{
    if s.len() == 0 { 0 } else { count_status(s.drop_last(), st) + if s.last().status == st { 1nat } else { 0nat } }
}

/// The number of reports for agency `a`.
pub open spec fn count_agency(s: Seq<RegulatoryReport>, a: RegulatoryAgency) -> nat
    decreases s.len(),
{
    if s.len() == 0 { 0 } else { count_agency(s.drop_last(), a) + if s.last().agency == a { 1nat } else { 0nat } }
}

proof fn lemma_counts(s: Seq<RegulatoryReport>, st: ReportStatus, a: RegulatoryAgency)
    ensures
        count_status(s, st) <= s.len(),
        count_agency(s, a) <= s.len(),
    decreases s.len(),
{
    if s.len() > 0 {
        lemma_counts(s.drop_last(), st, a);
    }
}

fn count_in_status(s: &Vec<RegulatoryReport>, st: ReportStatus) -> (r: usize)
    ensures
        r == count_status(s@, st),
{
    let mut k: usize = 0;
    let mut i: usize = 0;
    while i < s.len()
        invariant
            i <= s.len(),
            k == count_status(s@.take(i as int), st),
            k <= i,
        decreases s.len() - i,
    {
        proof {
            assert(s@.take(i + 1).drop_last() =~= s@.take(i as int));
            lemma_counts(s@.take(i as int), st, RegulatoryAgency::FSC);
        }
        if s[i].status == st {
            k = k + 1;
        }
        i = i + 1;
    }
    proof {
        assert(s@.take(s.len() as int) =~= s@);
    }
    k
}

fn count_for_agency(s: &Vec<RegulatoryReport>, a: RegulatoryAgency) -> (r: usize)
    ensures
        r == count_agency(s@, a),
{
    let mut k: usize = 0;
    let mut i: usize = 0;
    while i < s.len()
        invariant
            i <= s.len(),
            k == count_agency(s@.take(i as int), a),
            k <= i,
        decreases s.len() - i,
    {
        proof {
            assert(s@.take(i + 1).drop_last() =~= s@.take(i as int));
            lemma_counts(s@.take(i as int), ReportStatus::Pending, a);
        }
        if s[i].agency == a {
            k = k + 1;
        }
        i = i + 1;
    }
    proof {
        assert(s@.take(s.len() as int) =~= s@);
    }
    k
}

/// What a transaction shows the reporting, with the comparisons on its amounts made
/// by the caller: its id, time and the user's country, whether its total value reaches
/// the large-transaction threshold (`large`), and whether it trades more than 1000
/// units at a price under 100 (`unusual`).
#[derive(Debug)]
pub struct TransactionFacts {
    pub transaction_id: String,
    pub timestamp: u64,
    pub large: bool,
    pub unusual: bool,
    pub user_country: String,
}

/// The error of a failed submission.
pub open spec fn submission_error() -> Seq<char> {
    "Submission failed due to network error"@
}

/// The number kept after one more is added, at most `limit`.
pub open spec fn kept_count(n: usize, limit: usize) -> usize {
    if n < limit { (n + 1) as usize } else { limit }
}

/// `r` is the report of the large transaction `id` made at `now` (see
/// `large_transaction_report`).
pub open spec fn is_large_report(r: RegulatoryReport, id: Seq<char>, at: u64, now: u64, data: serde_json::Value) -> bool {
    &&& r.report_id@ == "large_transaction_"@ + id
    &&& r.agency == RegulatoryAgency::FSC
    &&& r.report_type == ReportType::LargeTransaction
    &&& r.period_start == at && r.period_end == at
    &&& r.generated_at == now
    &&& r.data == data
    &&& r.status == ReportStatus::Generated
    &&& r.submission_attempts == 0
    &&& r.last_submission_attempt is None
    &&& r.submission_error is None
}

/// `r` is the report of the transaction `id` made at `now` (see `transaction_report`).
pub open spec fn is_transaction_report(r: RegulatoryReport, id: Seq<char>, at: u64, now: u64, data: serde_json::Value) -> bool {
    &&& r.report_id@ == "transaction_"@ + id
    &&& r.agency == RegulatoryAgency::FSC
    &&& r.report_type == ReportType::TransactionReport
    &&& r.period_start == at && r.period_end == at
    &&& r.generated_at == now
    &&& r.data == data
    &&& r.status == ReportStatus::Generated
    &&& r.submission_attempts == 0
    &&& r.last_submission_attempt is None
    &&& r.submission_error is None
}

/// `r` is the report of the suspicious activity `id` made at `now` (see
/// `suspicious_activity_report`).
pub open spec fn is_activity_report(r: RegulatoryReport, id: Seq<char>, at: u64, now: u64, data: serde_json::Value) -> bool {
    &&& r.report_id@ == "suspicious_activity_"@ + id
    &&& r.agency == RegulatoryAgency::AML
    &&& r.report_type == ReportType::SuspiciousActivity
    &&& r.period_start == at && r.period_end == at
    &&& r.generated_at == now
    &&& r.data == data
    &&& r.status == ReportStatus::Generated
    &&& r.submission_attempts == 0
    &&& r.last_submission_attempt is None
    &&& r.submission_error is None
}

/// The record of the reporting: the reports made (the last 1000 of the periodic
/// ones), the numbers of transactions and activities kept (the last 10 000 and 1000),
/// and whether the periodic round runs.
pub struct RegulatoryReportingManager {
    reports: Vec<RegulatoryReport>,
    transaction_count: usize,
    activity_count: usize,
    is_reporting: bool,
}

impl RegulatoryReportingManager {
    /// The reports kept, oldest first.
    pub closed spec fn reports(&self) -> Seq<RegulatoryReport> {
        self.reports@
    }

    /// The number of transactions kept.
    pub closed spec fn transactions(&self) -> usize {
        self.transaction_count
    }

    /// The number of suspicious activities kept.
    pub closed spec fn activities(&self) -> usize {
        self.activity_count
    }

    /// Whether the periodic round runs.
    pub closed spec fn reporting(&self) -> bool {
        self.is_reporting
    }

    /// Nothing kept, not reporting.
    pub fn new() -> (r: Self)
        ensures
            r.reports().len() == 0,
            r.transactions() == 0,
            r.activities() == 0,
            !r.reporting(),
    {
        RegulatoryReportingManager { reports: Vec::new(), transaction_count: 0, activity_count: 0, is_reporting: false }
    }

    /// Starts the periodic round; false, and nothing changes, when it already runs.
    pub fn start_reporting(&mut self) -> (r: bool)
        ensures
            r == !old(self).reporting(),
            final(self).reporting(),
            final(self).reports() == old(self).reports(),
            final(self).transactions() == old(self).transactions(),
            final(self).activities() == old(self).activities(),
    {
        if self.is_reporting {
            return false;
        }
        self.is_reporting = true;
        true
    }

    /// Asks the periodic round to stop.
    pub fn stop_reporting(&mut self)
        ensures
            !final(self).reporting(),
            final(self).reports() == old(self).reports(),
            final(self).transactions() == old(self).transactions(),
            final(self).activities() == old(self).activities(),
    {
        self.is_reporting = false;
    }

    /// Whether the periodic round runs.
    pub fn is_reporting(&self) -> (r: bool)
        ensures
            r == self.reporting(),
    {
        self.is_reporting
    }

    /// Counts a transaction kept; at most 10 000 are.
    fn record_transaction(&mut self)
        ensures
            final(self).transactions() == kept_count(old(self).transactions(), 10_000),
            final(self).reports() == old(self).reports(),
            final(self).activities() == old(self).activities(),
            final(self).reporting() == old(self).reporting(),
    {
        if self.transaction_count < 10_000 {
            self.transaction_count = self.transaction_count + 1;
        } else {
            self.transaction_count = 10_000;
        }
    }

    /// Counts a suspicious activity kept; at most 1000 are.
    fn record_activity(&mut self)
        ensures
            final(self).activities() == kept_count(old(self).activities(), 1000),
            final(self).reports() == old(self).reports(),
            final(self).transactions() == old(self).transactions(),
            final(self).reporting() == old(self).reporting(),
    {
        if self.activity_count < 1000 {
            self.activity_count = self.activity_count + 1;
        } else {
            self.activity_count = 1000;
        }
    }

    /// Adds a suspicious activity `activity_id` of the given risk (in tenths) seen at
    /// `at`, with `document` its contents, at `now`. From 8 tenths a report is made at
    /// once and submitted; `submitted` is the outcome of that submission (read only
    /// then). A failed submission ends the addition with the submission error: the
    /// report stays, the activity is not kept. Otherwise the activity is kept.
    pub fn add_suspicious_activity(
        &mut self,
        activity_id: &str,
        risk_tenths: u32,
        at: u64,
        document: serde_json::Value,
        submitted: bool,
        now: u64,
    ) -> (r: Result<(), String>)
        ensures
            ({
                let reported = risk_tenths >= 8;
                let failed = reported && !submitted;
                &&& final(self).reports().len() == old(self).reports().len() + if reported { 1int } else { 0int }
                &&& final(self).reports().take(old(self).reports().len() as int) == old(self).reports()
                &&& reported ==> is_activity_report(final(self).reports().last(), activity_id@, at, now, document)
                &&& (r is Err) == failed
                &&& r matches Err(e) ==> e@ == submission_error()
                &&& final(self).activities() == if failed { old(self).activities() } else { kept_count(old(self).activities(), 1000) }
                &&& final(self).transactions() == old(self).transactions()
                &&& final(self).reporting() == old(self).reporting()
            }),
    {
        if risk_tenths >= 8 {
            let report = suspicious_activity_report(activity_id, at, now, document);
            self.add_event_report(report);
            if !submitted {
                return Err(String::from_str("Submission failed due to network error"));
            }
        }
        self.record_activity();
        Ok(())
    }

    /// Adds a transaction at `now`. A large one is reported at once and the report
    /// submitted (`large_submitted` is that outcome); then the transaction is judged
    /// (`detect_suspicious_activity`) and, when suspicious, added as the activity
    /// `activity_id` with contents `activity_document` and submission outcome
    /// `activity_submitted` (`add_suspicious_activity`); then the transaction is kept
    /// and reported (`transaction_report`).
    /// The first failed submission ends the addition with its error, and what follows
    /// it is not done.
    pub fn add_transaction(
        &mut self,
        transaction: &TransactionFacts,
        document: serde_json::Value,
        large_submitted: bool,
        activity_id: &str,
        activity_document: serde_json::Value,
        activity_submitted: bool,
        now: u64,
    ) -> (r: Result<(), String>)
        ensures
            ({
                let t = *transaction;
                let risk = risk_of(t.large, t.unusual, t.user_country@);
                let first_failed = t.large && !large_submitted;
                let suspicious = !first_failed && risk >= 5;
                let activity_reported = suspicious && risk >= 8;
                let second_failed = activity_reported && !activity_submitted;
                let before = old(self).reports().len() as int;
                let after_large = before + if t.large { 1int } else { 0int };
                let after_activity = after_large + if activity_reported { 1int } else { 0int };
                let kept = !(first_failed || second_failed);
                &&& final(self).reports().len() == after_activity + if kept { 1int } else { 0int }
                &&& final(self).reports().take(before) == old(self).reports()
                &&& kept ==> is_transaction_report(final(self).reports()[after_activity], t.transaction_id@, t.timestamp,
                    now, document)
                &&& t.large ==> is_large_report(final(self).reports()[before], t.transaction_id@, t.timestamp, now, document)
                &&& activity_reported ==> is_activity_report(final(self).reports()[after_large], activity_id@, t.timestamp,
                    now, activity_document)
                &&& (r is Err) == (first_failed || second_failed)
                &&& r matches Err(e) ==> e@ == submission_error()
                &&& final(self).activities() == if suspicious && !second_failed {
                    kept_count(old(self).activities(), 1000)
                } else {
                    old(self).activities()
                }
                &&& final(self).transactions() == if first_failed || second_failed {
                    old(self).transactions()
                } else {
                    kept_count(old(self).transactions(), 10_000)
                }
                &&& final(self).reporting() == old(self).reporting()
            }),
    {
        let ghost before = self.reports@;
        if transaction.large {
            let report = large_transaction_report(transaction.transaction_id.as_str(), transaction.timestamp, now,
                document.clone());
            self.add_event_report(report);
            if !large_submitted {
                return Err(String::from_str("Submission failed due to network error"));
            }
        }
        let ghost mid = self.reports@;
        proof {
            assert(mid.take(before.len() as int) =~= before);
        }
        match detect_suspicious_activity(transaction.large, transaction.unusual, transaction.user_country.as_str()) {
            Some(suspicion) => {
                let added = self.add_suspicious_activity(activity_id, suspicion.risk_tenths, transaction.timestamp,
                    activity_document, activity_submitted, now);
                proof {
                    assert(self.reports@.take(mid.len() as int) == mid);
                    assert(self.reports@.take(before.len() as int) =~= mid.take(before.len() as int));
                    if transaction.large {
                        assert(self.reports@[before.len() as int] == mid.take(mid.len() as int)[before.len() as int]);
                    }
                }
                if added.is_err() {
                    return added;
                }
            },
            None => {},
        }
        let ghost kept_before = self.reports@;
        self.record_transaction();
        let report = transaction_report(transaction.transaction_id.as_str(), transaction.timestamp, now, document);
        self.add_event_report(report);
        proof {
            assert(self.reports@.take(kept_before.len() as int) =~= kept_before);
            assert(self.reports@.take(before.len() as int) =~= kept_before.take(before.len() as int));
            if transaction.large {
                assert(self.reports@[before.len() as int] == kept_before[before.len() as int]);
            }
        }
        Ok(())
    }

    /// Keeps a report made for one event (large transaction or suspicious activity).
    pub fn add_event_report(&mut self, report: RegulatoryReport)
        ensures
            final(self).reports() == old(self).reports().push(report),
            final(self).transactions() == old(self).transactions(),
            final(self).activities() == old(self).activities(),
            final(self).reporting() == old(self).reporting(),
    {
        self.reports.push(report);
    }

    /// Keeps a periodic report; only the last 1000 reports are kept.
    pub fn add_periodic_report(&mut self, report: RegulatoryReport)
        ensures
            final(self).reports() == keep_last(old(self).reports().push(report), 1000),
            final(self).transactions() == old(self).transactions(),
            final(self).activities() == old(self).activities(),
            final(self).reporting() == old(self).reporting(),
    {
        self.reports.push(report);
        trim_to_last(&mut self.reports, 1000);
    }

    /// The report at position `i` (positions as `get_reports` gives them).
    pub fn report_at(&self, i: usize) -> (r: &RegulatoryReport)
        requires
            i < self.reports().len(),
        ensures
            *r == self.reports()[i as int],
    {
        &self.reports[i]
    }

    /// The positions of the reports to show: with a limit, the last `limit` newest
    /// first; without, all of them oldest first.
    pub fn get_reports(&self, limit: Option<usize>) -> (r: Vec<usize>)
        ensures
            match limit {
                Some(l) => r.len() == (if l < self.reports().len() { l as int } else { self.reports().len() as int })
                    && forall|i: int| 0 <= i < r.len() ==> r@[i] == self.reports().len() - 1 - i,
                None => r.len() == self.reports().len() && forall|i: int| 0 <= i < r.len() ==> r@[i] == i,
            },
    {
        let n = self.reports.len();
        let mut out: Vec<usize> = Vec::new();
        match limit {
            Some(l) => {
                let m = if l < n { l } else { n };
                let mut i: usize = 0;
                while i < m
                    invariant
                        m <= n,
                        n == self.reports@.len(),
                        i <= m,
                        out.len() == i,
                        forall|j: int| 0 <= j < i ==> out@[j] == n - 1 - j,
                    decreases m - i,
                {
                    out.push(n - 1 - i);
                    i = i + 1;
                }
            },
            None => {
                let mut i: usize = 0;
                while i < n
                    invariant
                        n == self.reports@.len(),
                        i <= n,
                        out.len() == i,
                        forall|j: int| 0 <= j < i ==> out@[j] == j,
                    decreases n - i,
                {
                    out.push(i);
                    i = i + 1;
                }
            },
        }
        out
    }

    /// The positions of the reports in status `status`, oldest first.
    pub fn get_reports_by_status(&self, status: ReportStatus) -> (r: Vec<usize>)
        ensures
            forall|i: int| 0 <= i < r.len() ==> r@[i] < self.reports().len() && self.reports()[r@[i] as int].status == status,
            forall|j: int| 0 <= j < self.reports().len() && self.reports()[j].status == status
                ==> exists|i: int| 0 <= i < r.len() && r@[i] == j,
            forall|a: int, b: int| 0 <= a < b < r.len() ==> r@[a] < r@[b],
    {
        let mut out: Vec<usize> = Vec::new();
        let mut i: usize = 0;
        while i < self.reports.len()
            invariant
                i <= self.reports@.len(),
                forall|x: int| 0 <= x < out.len() ==> out@[x] < i && self.reports@[out@[x] as int].status == status,
                forall|j: int| 0 <= j < i && self.reports@[j].status == status ==> exists|x: int| 0 <= x < out.len() && out@[x] == j,
                forall|a: int, b: int| 0 <= a < b < out.len() ==> out@[a] < out@[b],
            decreases self.reports@.len() - i,
        {
            if self.reports[i].status == status {
                let ghost before = out@;
                out.push(i);
                proof {
                    assert forall|j: int| 0 <= j < i + 1 && self.reports@[j].status == status
                        implies exists|x: int| 0 <= x < out.len() && out@[x] == j by {
                        if j < i {
                            let x = choose|x: int| 0 <= x < before.len() && before[x] == j;
                            assert(out@[x] == j);
                        } else {
                            assert(out@[out.len() - 1] == j);
                        }
                    }
                }
            }
            i = i + 1;
        }
        out
    }

    /// The counts: transactions, activities and reports kept, the reports per status and
    /// per agency that has any, and whether the round runs.
    pub fn get_reporting_stats(&self) -> (r: RegulatoryReportingStats)
        ensures
            r.total_transactions == self.transactions(),
            r.total_suspicious_activities == self.activities(),
            r.total_reports == self.reports().len(),
            r.is_reporting == self.reporting(),
            forall|i: int| 0 <= i < r.status_counts.len() ==> r.status_counts@[i].1 == count_status(self.reports(), r.status_counts@[i].0)
                && r.status_counts@[i].1 > 0,
            forall|st: ReportStatus| count_status(self.reports(), st) > 0 ==> exists|i: int| 0 <= i < r.status_counts.len() && r.status_counts@[i].0 == st,
            forall|i: int| 0 <= i < r.agency_counts.len() ==> r.agency_counts@[i].1 == count_agency(self.reports(), r.agency_counts@[i].0)
                && r.agency_counts@[i].1 > 0,
            forall|a: RegulatoryAgency| count_agency(self.reports(), a) > 0 ==> exists|i: int| 0 <= i < r.agency_counts.len() && r.agency_counts@[i].0 == a,
    {
        let mut status_counts: Vec<(ReportStatus, usize)> = Vec::new();
        let statuses = [ReportStatus::Pending, ReportStatus::Generated, ReportStatus::Submitted, ReportStatus::Failed,
            ReportStatus::Acknowledged];
        let mut i: usize = 0;
        while i < 5
            invariant
                statuses@ == seq![ReportStatus::Pending, ReportStatus::Generated, ReportStatus::Submitted,
                    ReportStatus::Failed, ReportStatus::Acknowledged],
                i <= 5,
                forall|x: int| 0 <= x < status_counts.len() ==> status_counts@[x].1 == count_status(self.reports@, status_counts@[x].0)
                    && status_counts@[x].1 > 0,
                forall|j: int| 0 <= j < i && count_status(self.reports@, statuses@[j]) > 0
                    ==> exists|x: int| 0 <= x < status_counts.len() && status_counts@[x].0 == statuses@[j],
            decreases 5 - i,
        {
            let st = statuses[i];
            let c = count_in_status(&self.reports, st);
            if c > 0 {
                let ghost before = status_counts@;
                status_counts.push((st, c));
                proof {
                    assert forall|j: int| 0 <= j < i + 1 && count_status(self.reports@, statuses@[j]) > 0
                        implies exists|x: int| 0 <= x < status_counts.len() && status_counts@[x].0 == statuses@[j] by {
                        if j < i {
                            let x = choose|x: int| 0 <= x < before.len() && before[x].0 == statuses@[j];
                            assert(status_counts@[x] == before[x]);
                        } else {
                            assert(status_counts@[status_counts.len() - 1].0 == statuses@[j]);
                        }
                    }
                }
            }
            i = i + 1;
        }
        proof {
            assert forall|st: ReportStatus| count_status(self.reports(), st) > 0
                implies exists|x: int| 0 <= x < status_counts.len() && status_counts@[x].0 == st by {
                let j: int = match st {
                    ReportStatus::Pending => 0,
                    ReportStatus::Generated => 1,
                    ReportStatus::Submitted => 2,
                    ReportStatus::Failed => 3,
                    ReportStatus::Acknowledged => 4,
                };
                assert(statuses@[j] == st);
            }
        }
        let mut agency_counts: Vec<(RegulatoryAgency, usize)> = Vec::new();
        let agencies = [RegulatoryAgency::FSC, RegulatoryAgency::FATCA, RegulatoryAgency::CRS, RegulatoryAgency::AML,
            RegulatoryAgency::KYC, RegulatoryAgency::GDPR];
        let mut k: usize = 0;
        while k < 6
            invariant
                agencies@ == seq![RegulatoryAgency::FSC, RegulatoryAgency::FATCA, RegulatoryAgency::CRS,
                    RegulatoryAgency::AML, RegulatoryAgency::KYC, RegulatoryAgency::GDPR],
                k <= 6,
                forall|x: int| 0 <= x < agency_counts.len() ==> agency_counts@[x].1 == count_agency(self.reports@, agency_counts@[x].0)
                    && agency_counts@[x].1 > 0,
                forall|j: int| 0 <= j < k && count_agency(self.reports@, agencies@[j]) > 0
                    ==> exists|x: int| 0 <= x < agency_counts.len() && agency_counts@[x].0 == agencies@[j],
            decreases 6 - k,
        {
            let a = agencies[k];
            let c = count_for_agency(&self.reports, a);
            if c > 0 {
                let ghost before = agency_counts@;
                agency_counts.push((a, c));
                proof {
                    assert forall|j: int| 0 <= j < k + 1 && count_agency(self.reports@, agencies@[j]) > 0
                        implies exists|x: int| 0 <= x < agency_counts.len() && agency_counts@[x].0 == agencies@[j] by {
                        if j < k {
                            let x = choose|x: int| 0 <= x < before.len() && before[x].0 == agencies@[j];
                            assert(agency_counts@[x] == before[x]);
                        } else {
                            assert(agency_counts@[agency_counts.len() - 1].0 == agencies@[j]);
                        }
                    }
                }
            }
            k = k + 1;
        }
        proof {
            assert forall|a: RegulatoryAgency| count_agency(self.reports(), a) > 0
                implies exists|x: int| 0 <= x < agency_counts.len() && agency_counts@[x].0 == a by {
                let j: int = match a {
                    RegulatoryAgency::FSC => 0,
                    RegulatoryAgency::FATCA => 1,
                    RegulatoryAgency::CRS => 2,
                    RegulatoryAgency::AML => 3,
                    RegulatoryAgency::KYC => 4,
                    RegulatoryAgency::GDPR => 5,
                };
                assert(agencies@[j] == a);
            }
        }
        let ghost sc = status_counts@;
        let ghost ac = agency_counts@;
        let r = RegulatoryReportingStats {
            total_transactions: self.transaction_count,
            total_suspicious_activities: self.activity_count,
            total_reports: self.reports.len(),
            status_counts,
            agency_counts,
            is_reporting: self.is_reporting,
        };
        proof {
            assert(r.status_counts@ == sc);
            assert(r.agency_counts@ == ac);
            assert forall|st: ReportStatus| count_status(self.reports(), st) > 0
                implies exists|i: int| 0 <= i < r.status_counts.len() && r.status_counts@[i].0 == st by {
                let x = choose|x: int| 0 <= x < sc.len() && sc[x].0 == st;
                assert(r.status_counts@[x].0 == st);
            }
            assert forall|a: RegulatoryAgency| count_agency(self.reports(), a) > 0
                implies exists|i: int| 0 <= i < r.agency_counts.len() && r.agency_counts@[i].0 == a by {
                let x = choose|x: int| 0 <= x < ac.len() && ac[x].0 == a;
                assert(r.agency_counts@[x].0 == a);
            }
        }
        r
    }
}

} // verus!
