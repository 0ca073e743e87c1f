//! Aggregate statistics over the stored reports.
//!
//! Groupings over the nested risk classification follow one rule: a
//! report whose document lacks the path contributes to no group, while
//! every report counts towards the total.
use vstd::prelude::*;

use crate::doc::DocValue;
use crate::doc::spec_get_field;
use crate::doc::spec_get_str;
use crate::doc::str_eq;
use crate::report::Report;
use crate::report::Status;
use crate::store::ReportStore;

verus! {

/// The risk classification nested in a report's structured document
/// under `phase1_security.risk_level`, when the report has one.
pub open spec fn spec_risk_level(r: Report) -> Option<String> {
    match r.report_json {
        Some(doc) => match spec_get_field(doc, "phase1_security"@) {
            Some(sec) => spec_get_str(sec, "risk_level"@),
            None => None,
        },
        None => None,
    }
}

/// How many of the first `n` reports have the given status.
pub open spec fn count_status_upto(s: Seq<Report>, st: Status, n: int) -> int
    decreases n,
{
    if n <= 0 {
        0
    } else {
        count_status_upto(s, st, n - 1) + (if s[n - 1].status == st {
            1int
        } else {
            0int
        })
    }
}

/// How many reports have the given status.
pub open spec fn count_status(s: Seq<Report>, st: Status) -> int {
    count_status_upto(s, st, s.len() as int)
}

/// How many of the first `n` reports carry a structured document.
pub open spec fn count_with_json_upto(s: Seq<Report>, n: int) -> int
    decreases n,
{
    if n <= 0 {
        0
    } else {
        count_with_json_upto(s, n - 1) + (if s[n - 1].report_json is Some {
            1int
        } else {
            0int
        })
    }
}

/// How many reports carry a structured document.
pub open spec fn count_with_json(s: Seq<Report>) -> int {
    count_with_json_upto(s, s.len() as int)
}

/// How many of the first `n` reports were submitted within the trailing
/// twenty-four hours before `now`.
pub open spec fn count_recent_upto(s: Seq<Report>, now: i64, n: int) -> int
    decreases n,
{
    if n <= 0 {
        0
    } else {
        count_recent_upto(s, now, n - 1) + (if s[n - 1].submitted_at as int > now as int
            - 86_400_000 {
            1int
        } else {
            0int
        })
    }
}

/// How many reports were submitted within the trailing twenty-four hours
/// before `now`.
pub open spec fn count_recent(s: Seq<Report>, now: i64) -> int {
    count_recent_upto(s, now, s.len() as int)
}

/// How many of the first `n` reports are classified under risk level `k`.
pub open spec fn count_risk_upto(s: Seq<Report>, k: Seq<char>, n: int) -> int
    decreases n,
{
    if n <= 0 {
        0
    } else {
        count_risk_upto(s, k, n - 1) + (if spec_risk_level(s[n - 1]) matches Some(x) && x@ == k {
            1int
        } else {
            0int
        })
    }
}

/// How many reports are classified under risk level `k`.
pub open spec fn count_risk(s: Seq<Report>, k: Seq<char>) -> int {
    count_risk_upto(s, k, s.len() as int)
}

/// A prefix in which no report is classified under `k` contributes no
/// count for `k`.
pub proof fn lemma_count_risk_zero(s: Seq<Report>, k: Seq<char>, n: int)
    requires
        0 <= n <= s.len(),
        forall|j: int|
            0 <= j < n ==> !(#[trigger] spec_risk_level(s[j]) matches Some(x) && x@ == k),
    ensures
        count_risk_upto(s, k, n) == 0,
    decreases n,
{
    if n > 0 {
        lemma_count_risk_zero(s, k, n - 1);
    }
}

/// What a grouped risk count must be: keys pairwise distinct, each key
/// counting exactly its reports and counting at least one, and a key
/// present for every classified report.
pub open spec fn risk_distribution_ok(s: Seq<Report>, v: Seq<(String, usize)>) -> bool {
    &&& (forall|a: int, b: int| 0 <= a < b < v.len() ==> v[a].0@ != v[b].0@)
    &&& (forall|a: int|
        0 <= a < v.len() ==> (#[trigger] v[a].1) == count_risk(s, v[a].0@) && v[a].1 > 0)
    &&& (forall|i: int|
        0 <= i < s.len() && (#[trigger] spec_risk_level(s[i])) is Some ==> exists|a: int|
            0 <= a < v.len() && (#[trigger] v[a].0@) == spec_risk_level(s[i])->Some_0@)
}

/// The counts grouped by status, one field per status.
#[derive(Debug)]
pub struct StatusCounts {
    pub pending_review: usize,
    pub approved: usize,
    pub rejected: usize,
}

/// The analytics summary over the whole store.
#[derive(Debug)]
pub struct AnalyticsSummary {
    pub total_reports: usize,
    pub with_structured_data: usize,
    pub by_status: StatusCounts,
    pub by_risk_level: Vec<(String, usize)>,
    pub recent_submissions_24h: usize,
}

/// The risk classification of a report, when its document has one.
pub fn risk_level(r: &Report) -> (res: Option<&String>)
    ensures
        match res {
            Some(s) => spec_risk_level(*r) == Some(*s),
            None => spec_risk_level(*r) is None,
        },
{
    match &r.report_json {
        Some(doc) => match doc.get_field("phase1_security") {
            Some(sec) => sec.get_str("risk_level"),
            None => None,
        },
        None => None,
    }
}

/// The index of `key` among the accumulated group keys, if present.
fn find_key(v: &Vec<(String, usize)>, key: &String) -> (r: Option<usize>)
    ensures
        r matches Some(a) ==> (a as int) < v@.len() && v@[a as int].0@ == key@,
        r is None ==> forall|a: int| 0 <= a < v@.len() ==> (#[trigger] v@[a].0@) != key@,
{
    let n = v.len();
    let mut a: usize = 0;
    while a < n
        invariant
            n == v@.len(),
            0 <= a <= n,
            forall|b: int| 0 <= b < a ==> (#[trigger] v@[b].0@) != key@,
        decreases n - a,
    {
        if str_eq(v[a].0.as_str(), key.as_str()) {
            return Some(a);
        }
        a = a + 1;
    }
    None
}

/// Groups the reports that carry a risk classification by its value,
/// counting each group. Reports without a document or without the nested
/// path are left out of every group.
#[verifier::loop_isolation(false)]
#[verifier::rlimit(30)]
pub fn risk_distribution(store: &ReportStore) -> (r: Vec<(String, usize)>)
    ensures
        risk_distribution_ok(store@, r@),
{
    let reports = store.reports();
    let n = reports.len();
    let mut out: Vec<(String, usize)> = Vec::new();
    let mut i: usize = 0;
    while i < n
        invariant
            n == store@.len(),
            0 <= i <= n,
            forall|a: int, b: int| 0 <= a < b < out@.len() ==> out@[a].0@ != out@[b].0@,
            forall|a: int|
                0 <= a < out@.len() ==> (#[trigger] out@[a].1) == count_risk_upto(
                    store@,
                    out@[a].0@,
                    i as int,
                ) && out@[a].1 > 0,
            forall|j: int|
                0 <= j < i && (#[trigger] spec_risk_level(store@[j])) is Some ==> exists|a: int|
                    0 <= a < out@.len() && (#[trigger] out@[a].0@) == spec_risk_level(
                        store@[j],
                    )->Some_0@,
            forall|a: int| 0 <= a < out@.len() ==> (#[trigger] out@[a].1) <= i,
        decreases n - i,
    {
        match risk_level(&reports[i]) {
            Some(key) => {
                match find_key(&out, key) {
                    Some(a) => {
                        let ghost out1 = out@;
                        let pair = out.remove(a);
                        let bumped = (pair.0, pair.1 + 1);
                        out.insert(a, bumped);
                        proof {
                            out1.remove_ensures(a as int);
                            out1.remove(a as int).insert_ensures(a as int, bumped);
                            assert(out@ =~= out1.update(a as int, bumped));
                            assert forall|b: int| 0 <= b < out@.len() implies (#[trigger] out@[b].0)
                                == out1[b].0 by {}
                            assert forall|j: int|
                                0 <= j < i + 1 && (#[trigger] spec_risk_level(
                                    store@[j],
                                )) is Some implies exists|a2: int|
                                0 <= a2 < out@.len() && (#[trigger] out@[a2].0@) == spec_risk_level(
                                    store@[j],
                                )->Some_0@ by {
                                if j < i {
                                    let a2 = choose|a2: int|
                                        0 <= a2 < out1.len() && (#[trigger] out1[a2].0@)
                                            == spec_risk_level(store@[j])->Some_0@;
                                    assert(out@[a2].0@ == spec_risk_level(store@[j])->Some_0@);
                                } else {
                                    assert(out@[a as int].0@ == spec_risk_level(
                                        store@[j],
                                    )->Some_0@);
                                }
                            }
                        }
                    },
                    None => {
                        let ghost out1 = out@;
                        proof {
                            assert forall|j: int| 0 <= j < i implies !((
                            #[trigger] spec_risk_level(store@[j])) matches Some(x) && x@
                                == key@) by {
                                if spec_risk_level(store@[j]) is Some {
                                    let a2 = choose|a2: int|
                                        0 <= a2 < out1.len() && (#[trigger] out1[a2].0@)
                                            == spec_risk_level(store@[j])->Some_0@;
                                    assert(out1[a2].0@ != key@);
                                }
                            }
                            lemma_count_risk_zero(store@, key@, i as int);
                        }
                        out.push((key.clone(), 1));
                        proof {
                            assert forall|j: int|
                                0 <= j < i + 1 && (#[trigger] spec_risk_level(
                                    store@[j],
                                )) is Some implies exists|a2: int|
                                0 <= a2 < out@.len() && (#[trigger] out@[a2].0@) == spec_risk_level(
                                    store@[j],
                                )->Some_0@ by {
                                if j < i {
                                    let a2 = choose|a2: int|
                                        0 <= a2 < out1.len() && (#[trigger] out1[a2].0@)
                                            == spec_risk_level(store@[j])->Some_0@;
                                    assert(out@[a2].0@ == spec_risk_level(store@[j])->Some_0@);
                                } else {
                                    assert(out@[out1.len() as int].0@ == spec_risk_level(
                                        store@[j],
                                    )->Some_0@);
                                }
                            }
                        }
                    },
                }
            },
            None => {},
        }
        i = i + 1;
    }
    out
}

/// The analytics summary at time `now`: the total, the count with a
/// structured document, counts grouped by status and by risk level, and
/// the count submitted within the trailing twenty-four hours.
#[verifier::loop_isolation(false)]
pub fn analytics_summary(store: &ReportStore, now: i64) -> (r: AnalyticsSummary)
    ensures
        r.total_reports == store@.len(),
        r.with_structured_data == count_with_json(store@),
        r.by_status.pending_review == count_status(store@, Status::PendingReview),
        r.by_status.approved == count_status(store@, Status::Approved),
        r.by_status.rejected == count_status(store@, Status::Rejected),
        risk_distribution_ok(store@, r.by_risk_level@),
        r.recent_submissions_24h == count_recent(store@, now),
{
    let reports = store.reports();
    let n = reports.len();
    let mut with_json: usize = 0;
    let mut pending: usize = 0;
    let mut approved: usize = 0;
    let mut rejected: usize = 0;
    let mut recent: usize = 0;
    let mut i: usize = 0;
    while i < n
        invariant
            n == store@.len(),
            0 <= i <= n,
            with_json == count_with_json_upto(store@, i as int),
            pending == count_status_upto(store@, Status::PendingReview, i as int),
            approved == count_status_upto(store@, Status::Approved, i as int),
            rejected == count_status_upto(store@, Status::Rejected, i as int),
            recent == count_recent_upto(store@, now, i as int),
            with_json <= i && pending <= i && approved <= i && rejected <= i && recent <= i,
        decreases n - i,
    {
        let rp = &reports[i];
        if rp.report_json.is_some() {
            with_json = with_json + 1;
        }
        match rp.status {
            Status::PendingReview => {
                pending = pending + 1;
            },
            Status::Approved => {
                approved = approved + 1;
            },
            Status::Rejected => {
                rejected = rejected + 1;
            },
        }
        if (rp.submitted_at as i128) > (now as i128) - 86_400_000i128 {
            recent = recent + 1;
        }
        i = i + 1;
    }
    AnalyticsSummary {
        total_reports: n,
        with_structured_data: with_json,
        by_status: StatusCounts { pending_review: pending, approved, rejected },
        by_risk_level: risk_distribution(store),
        recent_submissions_24h: recent,
    }
}

/// The analytics summary at the current wall-clock time.
pub fn analytics_summary_now(store: &ReportStore) -> (r: AnalyticsSummary)
    ensures
        r.total_reports == store@.len(),
        r.with_structured_data == count_with_json(store@),
        r.by_status.pending_review == count_status(store@, Status::PendingReview),
        r.by_status.approved == count_status(store@, Status::Approved),
        r.by_status.rejected == count_status(store@, Status::Rejected),
        risk_distribution_ok(store@, r.by_risk_level@),
        exists|now: i64| r.recent_submissions_24h == count_recent(store@, now),
{
    let now = crate::platform::now_millis();
    let r = analytics_summary(store, now);
    proof {
        assert(r.recent_submissions_24h == count_recent(store@, now));
    }
    r
}

} // verus!
