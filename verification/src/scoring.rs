//! The score of a project and the report that carries it.
//!
//! The score is the share of the checks that passed, as a percentage rounded
//! to one decimal place and held in tenths of a percent: 1000 stands for
//! 100.0 %. A half is rounded up. A project on which nothing was checked
//! scores 1000.

use vstd::prelude::*;
use crate::types::finding::{finding_views, Finding, FindingView};

verus! {

/// The report of one analysis.
#[derive(Debug, Clone)]
pub struct AnalysisReport {
    pub project_path: String,
    /// The findings, in the order of the records and of the rules.
    pub findings: Vec<Finding>,
    /// The overall score in tenths of a percent.
    pub score_tenths: u32,
}

/// A report, as mathematical values.
pub struct ReportView {
    pub project_path: Seq<char>,
    pub findings: Seq<FindingView>,
    pub score_tenths: nat,
}

impl View for AnalysisReport {
    type V = ReportView;

    open spec fn view(&self) -> ReportView {
        ReportView {
            project_path: self.project_path@,
            findings: finding_views(self.findings@),
            score_tenths: self.score_tenths as nat,
        }
    }
}

/// The score of `passed` checks out of `total`, in tenths of a percent.
pub open spec fn score_of(passed: nat, total: nat) -> nat {
    if total == 0 {
        1000
    } else {
        (2000 * passed + total) / (2 * total)
    }
}

/// The report on a project with the given findings out of `evaluations`
/// checks.
pub open spec fn report_of(
    project_path: Seq<char>,
    findings: Seq<FindingView>,
    evaluations: nat,
) -> ReportView {
    ReportView {
        project_path,
        findings,
        score_tenths: score_of((evaluations - findings.len()) as nat, evaluations),
    }
}

/// The score is the tenth of a percent nearest to the share of the checks
/// that passed, and lies between 0 and 1000.
pub proof fn lemma_score_is_nearest_tenth(passed: nat, total: nat)
    requires
        passed <= total,
        total > 0,
    ensures
        score_of(passed, total) <= 1000,
        2 * total * score_of(passed, total) <= 2000 * passed + total,
        2000 * passed + total < 2 * total * (score_of(passed, total) + 1),
{
    let n = (2000 * passed + total) as int;
    let d = (2 * total) as int;
    let q = n / d;
    assert(d * q <= n < d * (q + 1)) by (nonlinear_arith)
        requires
            d > 0,
            q == n / d,
    ;
    assert(q <= 1000) by (nonlinear_arith)
        requires
            d * q <= n,
            n <= 1000 * d + d / 2,
            d > 0,
    ;
}

/// A project whose checks all pass scores 1000, and one whose checks all fail
/// scores 0.
pub proof fn lemma_score_bounds(total: nat)
    requires
        total > 0,
    ensures
        score_of(total, total) == 1000,
        score_of(0, total) == 0,
{
    lemma_score_is_nearest_tenth(total, total);
    lemma_score_is_nearest_tenth(0, total);
    let hi = score_of(total, total) as int;
    let lo = score_of(0, total) as int;
    let t = total as int;
    assert(hi >= 1000) by (nonlinear_arith)
        requires
            2000 * t + t < 2 * t * (hi + 1),
            t > 0,
    ;
    assert(lo <= 0) by (nonlinear_arith)
        requires
            2 * t * lo <= t,
            t > 0,
            lo >= 0,
    ;
}

/// The score of `passed` checks out of `total`, in tenths of a percent.
pub fn overall_score(passed: u128, total: u128) -> (score: u32)
    requires
        passed <= total,
        2001 * total <= u128::MAX,
    ensures
        score == score_of(passed as nat, total as nat),
        score <= 1000,
        total == 0 ==> score == 1000,
        total > 0 ==> 2 * total * score <= 2000 * passed + total < 2 * total * (score + 1),
{
    if total == 0 {
        return 1000;
    }
    proof {
        lemma_score_is_nearest_tenth(passed as nat, total as nat);
    }
    let tenths: u128 = (2000 * passed + total) / (2 * total);
    tenths as u32
}

/// The report on a project with the given findings out of `evaluations`
/// checks.
pub fn assemble_report(project_path: &str, findings: Vec<Finding>, evaluations: u128) -> (report:
    AnalysisReport)
    requires
        findings.len() <= evaluations,
        2001 * evaluations <= u128::MAX,
    ensures
        report@ == report_of(project_path@, finding_views(findings@), evaluations as nat),
{
    let failed: u128 = findings.len() as u128;
    let score_tenths = overall_score(evaluations - failed, evaluations);
    AnalysisReport { project_path: project_path.to_owned(), findings, score_tenths }
}

} // verus!
