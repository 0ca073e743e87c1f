//! Deriving issue lists from a report's structured document.
//!
//! An issue list lives in the document as an array of objects. An entry
//! counts only when it carries string `severity` and `description`
//! fields; entries missing either are silently skipped, and the optional
//! fields are kept only when present as strings.
use vstd::prelude::*;

use crate::doc::DocValue;
use crate::doc::spec_get_field;
use crate::doc::spec_get_str;
use crate::error::ApiError;
use crate::report::Report;

verus! {

/// One finding extracted from a report's structured document. Derived,
/// never persisted.
#[derive(Debug)]
pub struct Issue {
    pub severity: String,
    pub description: String,
    pub impact: Option<String>,
    pub recommendation: Option<String>,
    pub phase_id: Option<String>,
}

/// The issue an array entry denotes, present exactly when the entry has
/// string `severity` and `description` fields.
pub open spec fn spec_issue_of(item: DocValue) -> Option<Issue> {
    match (spec_get_str(item, "severity"@), spec_get_str(item, "description"@)) {
        (Some(sev), Some(desc)) => Some(
            Issue {
                severity: sev,
                description: desc,
                impact: spec_get_str(item, "impact"@),
                recommendation: spec_get_str(item, "recommendation"@),
                phase_id: spec_get_str(item, "phase_id"@),
            },
        ),
        _ => None,
    }
}

/// The issues denoted by the first `n` entries, in order.
pub open spec fn issues_upto(items: Seq<DocValue>, n: int) -> Seq<Issue>
    decreases n,
{
    if n <= 0 {
        Seq::empty()
    } else {
        issues_upto(items, n - 1) + (match spec_issue_of(items[n - 1]) {
            Some(iss) => seq![iss],
            None => Seq::<Issue>::empty(),
        })
    }
}

/// The ordered issues under `field`: empty whenever the field is absent
/// or holds anything but an array.
pub open spec fn spec_extract_issues(doc: DocValue, field: Seq<char>) -> Seq<Issue> {
    match spec_get_field(doc, field) {
        Some(DocValue::Arr(items)) => issues_upto(items@, items@.len() as int),
        _ => Seq::empty(),
    }
}

/// The issue an array entry denotes, if any.
fn issue_of(item: &DocValue) -> (r: Option<Issue>)
    ensures
        r == spec_issue_of(*item),
{
    let severity = match item.get_str("severity") {
        Some(s) => s.clone(),
        None => {
            return None;
        },
    };
    let description = match item.get_str("description") {
        Some(s) => s.clone(),
        None => {
            return None;
        },
    };
    let impact = match item.get_str("impact") {
        Some(s) => Some(s.clone()),
        None => None,
    };
    let recommendation = match item.get_str("recommendation") {
        Some(s) => Some(s.clone()),
        None => None,
    };
    let phase_id = match item.get_str("phase_id") {
        Some(s) => Some(s.clone()),
        None => None,
    };
    Some(Issue { severity, description, impact, recommendation, phase_id })
}

/// Scans the array under `field` and returns the issues its entries
/// denote, in order; an absent field or a non-array yields an empty list.
/// Never fails.
#[verifier::loop_isolation(false)]
pub fn extract_issues(doc: &DocValue, field: &str) -> (r: Vec<Issue>)
    ensures
        r@ == spec_extract_issues(*doc, field@),
{
    let arr = match doc.get_field(field) {
        Some(DocValue::Arr(items)) => items,
        _ => {
            return Vec::new();
        },
    };
    let n = arr.len();
    let mut out: Vec<Issue> = Vec::new();
    let mut i: usize = 0;
    while i < n
        invariant
            n == arr.len(),
            0 <= i <= n,
            out@ == issues_upto(arr@, i as int),
        decreases n - i,
    {
        match issue_of(&arr[i]) {
            Some(iss) => {
                out.push(iss);
            },
            None => {},
        }
        proof {
            assert(out@ =~= issues_upto(arr@, i as int + 1));
        }
        i = i + 1;
    }
    out
}

/// The issue lists of one report, as the issues endpoint answers them.
#[derive(Debug)]
pub struct IssuesResponse {
    pub report_id: u128,
    pub server_name: String,
    pub critical_issues: Vec<Issue>,
    pub warnings: Vec<Issue>,
    pub recommendations: Vec<Issue>,
}

/// Builds the issues view of a report from the arrays under the fixed
/// fields `critical_issues`, `warnings` and `recommendations`. A report
/// without structured data is refused with `NotFound`.
pub fn build_issues_view(report: &Report) -> (r: Result<IssuesResponse, ApiError>)
    ensures
        report.report_json is None ==> r == Err::<IssuesResponse, ApiError>(ApiError::NotFound),
        report.report_json matches Some(doc) ==> r matches Ok(resp) && resp.report_id == report.id
            && resp.server_name == report.server_name && resp.critical_issues@
            == spec_extract_issues(doc, "critical_issues"@) && resp.warnings@
            == spec_extract_issues(doc, "warnings"@) && resp.recommendations@
            == spec_extract_issues(doc, "recommendations"@),
{
    let doc = match &report.report_json {
        Some(d) => d,
        None => {
            return Err(ApiError::NotFound);
        },
    };
    Ok(
        IssuesResponse {
            report_id: report.id,
            server_name: report.server_name.clone(),
            critical_issues: extract_issues(doc, "critical_issues"),
            warnings: extract_issues(doc, "warnings"),
            recommendations: extract_issues(doc, "recommendations"),
        },
    )
}

} // verus!
