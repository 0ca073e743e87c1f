//! The report entity and its review status.
use vstd::prelude::*;

use crate::doc::DocValue;
use crate::doc::str_eq;

verus! {

/// The review status of a report. Reports are created `PendingReview`;
/// a review sets `Approved` or `Rejected`.
#[derive(Clone, Copy, Debug, PartialEq, Eq, Structural)]
pub enum Status {
    PendingReview,
    Approved,
    Rejected,
}

/// The exact wire literal for each status.
pub open spec fn status_chars(st: Status) -> Seq<char> {
    match st {
        Status::PendingReview => "pending_review"@,
        Status::Approved => "approved"@,
        Status::Rejected => "rejected"@,
    }
}

/// The status a wire literal denotes, tried in a fixed order.
pub open spec fn spec_parse_status(s: Seq<char>) -> Option<Status> {
    if s == "pending_review"@ {
        Some(Status::PendingReview)
    } else if s == "approved"@ {
        Some(Status::Approved)
    } else if s == "rejected"@ {
        Some(Status::Rejected)
    } else {
        None
    }
}

/// Whether a review may set this literal as the new status: only the
/// exact strings `approved` and `rejected` are accepted.
pub open spec fn valid_new_status(s: Seq<char>) -> bool {
    s == "approved"@ || s == "rejected"@
}

impl Status {
    /// The wire literal for this status.
    pub fn as_str(self) -> (r: &'static str)
        ensures
            r@ == status_chars(self),
    {
        match self {
            Status::PendingReview => "pending_review",
            Status::Approved => "approved",
            Status::Rejected => "rejected",
        }
    }

    /// Parses a wire literal, case-sensitively; any string but the three
    /// exact literals is refused.
    pub fn parse(s: &str) -> (r: Option<Status>)
        ensures
            r == spec_parse_status(s@),
    {
        if str_eq(s, "pending_review") {
            Some(Status::PendingReview)
        } else if str_eq(s, "approved") {
            Some(Status::Approved)
        } else if str_eq(s, "rejected") {
            Some(Status::Rejected)
        } else {
            None
        }
    }
}

/// One persisted compliance report.
#[derive(Debug)]
pub struct Report {
    pub id: u128,
    pub server_name: String,
    pub repository_url: String,
    pub developer_email: String,
    pub report_data: String,
    pub report_json: Option<DocValue>,
    pub status: Status,
    /// Milliseconds since the Unix epoch; set at creation, immutable.
    pub submitted_at: i64,
    /// Milliseconds since the Unix epoch; set at the first successful review.
    pub reviewed_at: Option<i64>,
    pub reviewed_by: Option<String>,
    pub review_notes: Option<String>,
}

impl Report {
    /// The review fields are populated together: a pending report has
    /// none of them, a reviewed report names who reviewed it and when.
    pub open spec fn wf(self) -> bool {
        &&& (self.status is PendingReview <==> self.reviewed_at is None)
        &&& (self.reviewed_at is Some <==> self.reviewed_by is Some)
        &&& (self.status is PendingReview ==> self.review_notes is None)
    }
}

/// A submission: the caller-supplied fields of a new report.
#[derive(Debug)]
pub struct NewReport {
    pub server_name: String,
    pub repository_url: String,
    pub developer_email: String,
    pub report_data: String,
    pub report_json: Option<DocValue>,
}

/// The report that a submission creates: the submitted fields, the fresh
/// id, creation time `now`, status `PendingReview`, and no review yet.
pub open spec fn created_report(req: NewReport, id: u128, now: i64) -> Report {
    Report {
        id,
        server_name: req.server_name,
        repository_url: req.repository_url,
        developer_email: req.developer_email,
        report_data: req.report_data,
        report_json: req.report_json,
        status: Status::PendingReview,
        submitted_at: now,
        reviewed_at: None,
        reviewed_by: None,
        review_notes: None,
    }
}

/// The report as a review leaves it: status, `reviewed_by`, notes and
/// `reviewed_at` replaced, every other field kept.
pub open spec fn reviewed_report(
    r: Report,
    st: Status,
    by: String,
    notes: Option<String>,
    at: i64,
) -> Report {
    Report {
        status: st,
        reviewed_by: Some(by),
        review_notes: notes,
        reviewed_at: Some(at),
        ..r
    }
}

} // verus!
