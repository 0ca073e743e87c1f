//! The report repository: one table of reports, keyed by id, unique per
//! repository URL, kept ordered by submission time, newest first.
//!
//! The store itself upholds the guarantees the service relies on —
//! uniqueness of `repository_url`, atomicity of a status update, and the
//! listing order — as invariants of [`ReportStore::wf`].
use vstd::prelude::*;

use crate::doc::str_eq;
use crate::error::ApiError;
use crate::report::NewReport;
use crate::report::Report;
use crate::report::Status;
use crate::report::created_report;
use crate::report::reviewed_report;
use crate::report::spec_parse_status;
use crate::report::valid_new_status;

verus! {

/// The index of the first report at or after `i` whose id is `id`.
pub open spec fn find_from(s: Seq<Report>, id: u128, i: int) -> Option<int>
    decreases s.len() - i,
{
    if i < 0 || i >= s.len() {
        None
    } else if s[i].id == id {
        Some(i)
    } else {
        find_from(s, id, i + 1)
    }
}

/// The index of the report with id `id`, if any.
pub open spec fn spec_find(s: Seq<Report>, id: u128) -> Option<int> {
    find_from(s, id, 0)
}

/// The report with id `id`, if any.
pub open spec fn spec_get(s: Seq<Report>, id: u128) -> Option<Report> {
    match spec_find(s, id) {
        Some(i) => Some(s[i]),
        None => None,
    }
}

/// Whether some report already claims this repository URL.
pub open spec fn url_taken(s: Seq<Report>, url: Seq<char>) -> bool {
    exists|i: int| 0 <= i < s.len() && s[i].repository_url@ == url
}

/// Whether some report already carries this id.
pub open spec fn id_taken(s: Seq<Report>, id: u128) -> bool {
    exists|i: int| 0 <= i < s.len() && s[i].id == id
}

/// Ordered by submission time, newest first.
pub open spec fn sorted_desc(s: Seq<Report>) -> bool {
    forall|i: int, j: int| 0 <= i <= j < s.len() ==> s[i].submitted_at >= s[j].submitted_at
}

/// The first index at or after `i` whose report was submitted no later
/// than `t`; the length when every report is newer.
pub open spec fn insert_pos_from(s: Seq<Report>, t: i64, i: int) -> int
    decreases s.len() - i,
{
    if i < 0 {
        0
    } else if i >= s.len() {
        s.len() as int
    } else if s[i].submitted_at <= t {
        i
    } else {
        insert_pos_from(s, t, i + 1)
    }
}

/// Where a report submitted at `t` enters a store ordered newest first.
pub open spec fn insert_pos(s: Seq<Report>, t: i64) -> int {
    insert_pos_from(s, t, 0)
}

/// In a store ordered newest first, everything before the insertion
/// point for time `t` is strictly newer than `t`, and everything at or
/// after it is no newer.
pub proof fn lemma_insert_pos_range(s: Seq<Report>, t: i64, i: int)
    requires
        0 <= i <= s.len(),
        sorted_desc(s),
    ensures
        i <= insert_pos_from(s, t, i) <= s.len(),
        forall|j: int| i <= j < insert_pos_from(s, t, i) ==> s[j].submitted_at > t,
        forall|j: int| insert_pos_from(s, t, i) <= j < s.len() ==> s[j].submitted_at <= t,
    decreases s.len() - i,
{
    if i < s.len() && s[i].submitted_at > t {
        lemma_insert_pos_range(s, t, i + 1);
    }
}

/// Whether a report passes an optional status filter.
pub open spec fn matches_filter(r: Report, f: Option<Status>) -> bool {
    match f {
        None => true,
        Some(st) => r.status == st,
    }
}

/// The reports among the first `n` that pass the filter, in store order.
pub open spec fn list_upto(s: Seq<Report>, f: Option<Status>, n: int) -> Seq<Report>
    decreases n,
{
    if n <= 0 {
        Seq::empty()
    } else {
        list_upto(s, f, n - 1) + (if matches_filter(s[n - 1], f) {
            seq![s[n - 1]]
        } else {
            Seq::<Report>::empty()
        })
    }
}

/// The reports that pass the filter, in store order.
pub open spec fn spec_list(s: Seq<Report>, f: Option<Status>) -> Seq<Report> {
    list_upto(s, f, s.len() as int)
}

/// With no filter, listing returns every report unchanged.
pub proof fn lemma_list_none(s: Seq<Report>, n: int)
    requires
        0 <= n <= s.len(),
    ensures
        list_upto(s, None, n) =~= s.subrange(0, n),
    decreases n,
{
    if n >= 1 {
        lemma_list_none(s, n - 1);
    }
}

/// Every listed report passes the filter.
pub proof fn lemma_list_upto_matches(s: Seq<Report>, f: Option<Status>, n: int)
    requires
        0 <= n <= s.len(),
    ensures
        forall|k: int|
            0 <= k < list_upto(s, f, n).len() ==> matches_filter(
                #[trigger] list_upto(s, f, n)[k],
                f,
            ),
    decreases n,
{
    if n >= 1 {
        lemma_list_upto_matches(s, f, n - 1);
        let prev = list_upto(s, f, n - 1);
        let cur = list_upto(s, f, n);
        assert forall|k: int| 0 <= k < cur.len() implies matches_filter(cur[k], f) by {
            if k < prev.len() {
                assert(cur[k] == prev[k]);
            } else {
                assert(cur[k] == s[n - 1]);
            }
        }
    }
}

/// Filtering a store ordered newest first keeps that order.
pub proof fn lemma_list_upto_sorted(s: Seq<Report>, f: Option<Status>, n: int)
    requires
        sorted_desc(s),
        0 <= n <= s.len(),
    ensures
        sorted_desc(list_upto(s, f, n)),
        n >= 1 ==> forall|k: int|
            0 <= k < list_upto(s, f, n).len() ==> #[trigger] list_upto(s, f, n)[k].submitted_at
                >= s[n - 1].submitted_at,
    decreases n,
{
    if n >= 1 {
        lemma_list_upto_sorted(s, f, n - 1);
    }
}

/// What a successful search means: the hit is the first one.
pub proof fn lemma_find_from_props(s: Seq<Report>, id: u128, i: int)
    requires
        0 <= i,
    ensures
        match find_from(s, id, i) {
            Some(k) => i <= k < s.len() && s[k].id == id && (forall|j: int|
                i <= j < k ==> s[j].id != id),
            None => forall|j: int| i <= j < s.len() ==> s[j].id != id,
        },
    decreases s.len() - i,
{
    if i < s.len() && s[i].id != id {
        lemma_find_from_props(s, id, i + 1);
    }
}

/// A first hit characterizes the search result.
pub proof fn lemma_find_from_exact(s: Seq<Report>, id: u128, i: int, k: int)
    requires
        0 <= i <= k < s.len(),
        s[k].id == id,
        forall|j: int| i <= j < k ==> s[j].id != id,
    ensures
        find_from(s, id, i) == Some(k),
    decreases k - i,
{
    if i < k {
        lemma_find_from_exact(s, id, i + 1, k);
    }
}

/// Replacing a report in place, keeping its id, leaves it findable at
/// the same position. A review never removes a report, so a report that
/// was already reviewed can be reviewed again.
pub proof fn lemma_find_update(s: Seq<Report>, k: int, r2: Report)
    requires
        0 <= k < s.len(),
        spec_find(s, r2.id) == Some(k),
    ensures
        spec_find(s.update(k, r2), r2.id) == Some(k),
{
    lemma_find_from_props(s, r2.id, 0);
    lemma_find_from_exact(s.update(k, r2), r2.id, 0, k);
}

/// Reviewing one report keeps every store invariant: the id, URL and
/// submission time are untouched, and the review fields stay consistent.
pub proof fn lemma_update_keeps_wf(s: Seq<Report>, k: int, r2: Report)
    requires
        forall|i: int, j: int| 0 <= i < j < s.len() ==> s[i].id != s[j].id,
        forall|i: int, j: int|
            0 <= i < j < s.len() ==> s[i].repository_url@ != s[j].repository_url@,
        sorted_desc(s),
        forall|i: int| 0 <= i < s.len() ==> s[i].wf(),
        0 <= k < s.len(),
        r2.id == s[k].id,
        r2.repository_url@ == s[k].repository_url@,
        r2.submitted_at == s[k].submitted_at,
        r2.wf(),
    ensures
        ({
            let s2 = s.update(k, r2);
            &&& (forall|i: int, j: int| 0 <= i < j < s2.len() ==> s2[i].id != s2[j].id)
            &&& (forall|i: int, j: int|
                0 <= i < j < s2.len() ==> s2[i].repository_url@ != s2[j].repository_url@)
            &&& sorted_desc(s2)
            &&& (forall|i: int| 0 <= i < s2.len() ==> s2[i].wf())
        }),
{
}

/// A report looked up immediately after its creation is exactly the
/// created value.
pub proof fn lemma_get_after_create(s: Seq<Report>, req: NewReport, id: u128, now: i64)
    requires
        sorted_desc(s),
        !id_taken(s, id),
    ensures
        spec_get(s.insert(insert_pos(s, now), created_report(req, id, now)), id) == Some(
            created_report(req, id, now),
        ),
{
    let p = insert_pos(s, now);
    let rpt = created_report(req, id, now);
    lemma_insert_pos_range(s, now, 0);
    let s2 = s.insert(p, rpt);
    s.insert_ensures(p, rpt);
    assert forall|j: int| 0 <= j < p implies s2[j].id != id by {
        assert(s2[j] == s[j]);
    }
    lemma_find_from_exact(s2, id, 0, p);
}

/// Inserting a fresh report at its ordered position keeps every store
/// invariant: distinct ids, distinct repository URLs, the newest-first
/// order, and per-report consistency.
pub proof fn lemma_insert_fresh_report(s: Seq<Report>, req: NewReport, id: u128, now: i64)
    requires
        forall|i: int, j: int| 0 <= i < j < s.len() ==> s[i].id != s[j].id,
        forall|i: int, j: int|
            0 <= i < j < s.len() ==> s[i].repository_url@ != s[j].repository_url@,
        sorted_desc(s),
        forall|i: int| 0 <= i < s.len() ==> s[i].wf(),
        !url_taken(s, req.repository_url@),
        !id_taken(s, id),
    ensures
        ({
            let s2 = s.insert(insert_pos(s, now), created_report(req, id, now));
            &&& (forall|i: int, j: int| 0 <= i < j < s2.len() ==> s2[i].id != s2[j].id)
            &&& (forall|i: int, j: int|
                0 <= i < j < s2.len() ==> s2[i].repository_url@ != s2[j].repository_url@)
            &&& sorted_desc(s2)
            &&& (forall|i: int| 0 <= i < s2.len() ==> s2[i].wf())
        }),
{
    let rpt = created_report(req, id, now);
    let p = insert_pos(s, now);
    lemma_insert_pos_range(s, now, 0);
    let s2 = s.insert(p, rpt);
    s.insert_ensures(p, rpt);
    assert forall|a: int, b: int| 0 <= a < b < s2.len() implies s2[a].id != s2[b].id by {
        if a < p && b > p {
            assert(s2[a] == s[a] && s2[b] == s[b - 1]);
        }
    }
    assert forall|a: int, b: int| 0 <= a < b < s2.len() implies s2[a].repository_url@
        != s2[b].repository_url@ by {
        if a < p && b > p {
            assert(s2[a] == s[a] && s2[b] == s[b - 1]);
        }
    }
    assert forall|a: int, b: int| 0 <= a <= b < s2.len() implies s2[a].submitted_at
        >= s2[b].submitted_at by {
        if a < p && b > p {
            assert(s2[a] == s[a] && s2[b] == s[b - 1]);
        }
    }
}

/// The repository of reports.
pub struct ReportStore {
    reports: Vec<Report>,
}

impl View for ReportStore {
    type V = Seq<Report>;

    closed spec fn view(&self) -> Seq<Report> {
        self.reports@
    }
}

impl ReportStore {
    /// Every id and every repository URL occurs once, reports are ordered
    /// newest first, and each report's review fields are consistent.
    pub open spec fn wf(self) -> bool {
        &&& (forall|i: int, j: int|
            0 <= i < j < self@.len() ==> self@[i].id != self@[j].id)
        &&& (forall|i: int, j: int|
            0 <= i < j < self@.len() ==> self@[i].repository_url@ != self@[j].repository_url@)
        &&& sorted_desc(self@)
        &&& (forall|i: int| 0 <= i < self@.len() ==> self@[i].wf())
    }

    /// An empty store.
    pub fn new() -> (r: ReportStore)
        ensures
            r@ == Seq::<Report>::empty(),
            r.wf(),
    {
        ReportStore { reports: Vec::new() }
    }

    /// Read access to the stored reports, in store order.
    pub fn reports(&self) -> (r: &Vec<Report>)
        ensures
            r@ == self@,
    {
        &self.reports
    }

    /// How many reports the store holds.
    pub fn len(&self) -> (r: usize)
        ensures
            r == self@.len(),
    {
        self.reports.len()
    }

    /// Inserts a new report submitted at `now` under the fresh id `id`.
    ///
    /// Fails with `Conflict` when the repository URL is already claimed —
    /// whatever the other fields hold — and with `StorageError` when the
    /// id collides; otherwise the created report enters the store at its
    /// position in the newest-first order, pending review.
    #[verifier::loop_isolation(false)]
    #[verifier::rlimit(30)]
    pub fn create(&mut self, req: NewReport, id: u128, now: i64) -> (r: Result<(), ApiError>)
        requires
            old(self).wf(),
        ensures
            final(self).wf(),
            url_taken(old(self)@, req.repository_url@) ==> (r == Err::<(), ApiError>(
                ApiError::Conflict,
            ) && final(self)@ == old(self)@),
            (!url_taken(old(self)@, req.repository_url@) && id_taken(old(self)@, id)) ==> (r
                == Err::<(), ApiError>(ApiError::StorageError) && final(self)@ == old(self)@),
            (!url_taken(old(self)@, req.repository_url@) && !id_taken(old(self)@, id)) ==> (r
                == Ok::<(), ApiError>(()) && final(self)@ == old(self)@.insert(
                insert_pos(old(self)@, now),
                created_report(req, id, now),
            )),
    {
        let n = self.reports.len();
        let mut i: usize = 0;
        while i < n
            invariant
                self@ == old(self)@,
                n == self@.len(),
                0 <= i <= n,
                forall|j: int| 0 <= j < i ==> self@[j].repository_url@ != req.repository_url@,
            decreases n - i,
        {
            if str_eq(self.reports[i].repository_url.as_str(), req.repository_url.as_str()) {
                return Err(ApiError::Conflict);
            }
            i = i + 1;
        }
        let mut i: usize = 0;
        while i < n
            invariant
                self@ == old(self)@,
                n == self@.len(),
                0 <= i <= n,
                forall|j: int| 0 <= j < i ==> self@[j].id != id,
            decreases n - i,
        {
            if self.reports[i].id == id {
                return Err(ApiError::StorageError);
            }
            i = i + 1;
        }
        let mut pos: usize = 0;
        while pos < n && self.reports[pos].submitted_at > now
            invariant
                self@ == old(self)@,
                n == self@.len(),
                0 <= pos <= n,
                insert_pos_from(self@, now, pos as int) == insert_pos(self@, now),
            decreases n - pos,
        {
            pos = pos + 1;
        }
        let rpt = Report {
            id,
            server_name: req.server_name,
            repository_url: req.repository_url,
            developer_email: req.developer_email,
            report_data: req.report_data,
            report_json: req.report_json,
            status: Status::PendingReview,
            submitted_at: now,
            reviewed_at: None,
            reviewed_by: None,
            review_notes: None,
        };
        proof {
            lemma_insert_pos_range(old(self)@, now, 0);
            lemma_insert_fresh_report(old(self)@, req, id, now);
        }
        self.reports.insert(pos, rpt);
        Ok(())
    }

    /// Submits a new report: draws a fresh id and the current time, and
    /// creates the report with them. On success the id it was stored
    /// under is returned and the report is pending review with no review
    /// fields set; a claimed repository URL is refused with `Conflict`
    /// whatever the other fields hold, and an id collision with
    /// `StorageError`.
    pub fn create_report(&mut self, req: NewReport) -> (r: Result<u128, ApiError>)
        requires
            old(self).wf(),
        ensures
            final(self).wf(),
            url_taken(old(self)@, req.repository_url@) ==> r == Err::<u128, ApiError>(
                ApiError::Conflict,
            ),
            r matches Err(e) ==> final(self)@ == old(self)@ && (e is Conflict <==> url_taken(
                old(self)@,
                req.repository_url@,
            )) && (e is Conflict || e is StorageError),
            r matches Ok(id) ==> !url_taken(old(self)@, req.repository_url@) && !id_taken(
                old(self)@,
                id,
            ) && (exists|now: i64|
                final(self)@ == old(self)@.insert(
                    insert_pos(old(self)@, now),
                    created_report(req, id, now),
                )),
            r matches Ok(id) ==> spec_get(final(self)@, id) matches Some(rp) && rp.id == id
                && rp.server_name == req.server_name && rp.repository_url == req.repository_url
                && rp.developer_email == req.developer_email && rp.report_data == req.report_data
                && rp.report_json == req.report_json && rp.status is PendingReview
                && rp.reviewed_at is None && rp.reviewed_by is None && rp.review_notes is None,
    {
        let id = crate::platform::fresh_report_id();
        let now = crate::platform::now_millis();
        match self.create(req, id, now) {
            Ok(()) => {
                proof {
                    lemma_get_after_create(old(self)@, req, id, now);
                    assert(final(self)@ == old(self)@.insert(
                        insert_pos(old(self)@, now),
                        created_report(req, id, now),
                    ));
                }
                Ok(id)
            },
            Err(e) => Err(e),
        }
    }

    /// Reviews a report at the current wall-clock time; see
    /// [`ReportStore::update_status`] for what is accepted and refused.
    pub fn update_status_now(
        &mut self,
        id: u128,
        new_status: &str,
        reviewed_by: String,
        review_notes: Option<String>,
    ) -> (r: Result<(), ApiError>)
        requires
            old(self).wf(),
        ensures
            final(self).wf(),
            !valid_new_status(new_status@) ==> (r == Err::<(), ApiError>(ApiError::InvalidInput)
                && final(self)@ == old(self)@),
            (valid_new_status(new_status@) && spec_find(old(self)@, id) is None) ==> (r == Err::<
                (),
                ApiError,
            >(ApiError::NotFound) && final(self)@ == old(self)@),
            spec_find(old(self)@, id) matches Some(k) ==> valid_new_status(new_status@) ==> (r
                == Ok::<(), ApiError>(()) && spec_find(final(self)@, id) == Some(k) && (exists|
                now: i64,
            |
                final(self)@ == old(self)@.update(
                    k,
                    reviewed_report(
                        old(self)@[k],
                        spec_parse_status(new_status@)->Some_0,
                        reviewed_by,
                        review_notes,
                        now,
                    ),
                ))),
    {
        let now = crate::platform::now_millis();
        let r = self.update_status(id, new_status, reviewed_by, review_notes, now);
        proof {
            let fk = spec_find(old(self)@, id);
            if fk is Some && valid_new_status(new_status@) {
                let k = fk->Some_0;
                assert(final(self)@ == old(self)@.update(
                    k,
                    reviewed_report(
                        old(self)@[k],
                        spec_parse_status(new_status@)->Some_0,
                        reviewed_by,
                        review_notes,
                        now,
                    ),
                ));
            }
        }
        r
    }

    /// The reports passing the optional status filter, in store order:
    /// newest first. With no filter, every report. Never fails.
    #[verifier::loop_isolation(false)]
    pub fn list(&self, status_filter: Option<Status>) -> (r: Vec<&Report>)
        ensures
            r@.map_values(|x: &Report| *x) == spec_list(self@, status_filter),
            forall|k: int| 0 <= k < r@.len() ==> matches_filter(*(#[trigger] r@[k]), status_filter),
            self.wf() ==> sorted_desc(r@.map_values(|x: &Report| *x)),
            status_filter is None ==> r@.map_values(|x: &Report| *x) == self@,
    {
        let n = self.reports.len();
        let mut out: Vec<&Report> = Vec::new();
        let mut i: usize = 0;
        while i < n
            invariant
                0 <= i <= n,
                out@.map_values(|x: &Report| *x) == list_upto(self@, status_filter, i as int),
            decreases n - i,
        {
            let keep = match status_filter {
                None => true,
                Some(st) => self.reports[i].status == st,
            };
            if keep {
                out.push(&self.reports[i]);
            }
            proof {
                assert(out@.map_values(|x: &Report| *x) =~= list_upto(
                    self@,
                    status_filter,
                    i as int + 1,
                ));
            }
            i = i + 1;
        }
        proof {
            lemma_list_upto_matches(self@, status_filter, n as int);
            assert forall|k: int| 0 <= k < out@.len() implies matches_filter(
                *(#[trigger] out@[k]),
                status_filter,
            ) by {
                assert(out@.map_values(|x: &Report| *x)[k] == *out@[k]);
            }
            if self.wf() {
                lemma_list_upto_sorted(self@, status_filter, n as int);
            }
            if status_filter is None {
                lemma_list_none(self@, n as int);
                assert(self@.subrange(0, n as int) =~= self@);
            }
        }
        out
    }

    /// Reviews a report: validates the requested status before touching
    /// the store, then sets status, `reviewed_by`, notes and `reviewed_at`
    /// in one step.
    ///
    /// Exactly the literals `approved` and `rejected` are accepted; any
    /// other request — the initial `pending_review` included — fails with
    /// `InvalidInput` and changes nothing. A valid request on an unknown
    /// id fails with `NotFound`. A report may be reviewed again: the
    /// review fields are overwritten.
    #[verifier::loop_isolation(false)]
    pub fn update_status(
        &mut self,
        id: u128,
        new_status: &str,
        reviewed_by: String,
        review_notes: Option<String>,
        now: i64,
    ) -> (r: Result<(), ApiError>)
        requires
            old(self).wf(),
        ensures
            final(self).wf(),
            !valid_new_status(new_status@) ==> (r == Err::<(), ApiError>(ApiError::InvalidInput)
                && final(self)@ == old(self)@),
            (valid_new_status(new_status@) && spec_find(old(self)@, id) is None) ==> (r == Err::<
                (),
                ApiError,
            >(ApiError::NotFound) && final(self)@ == old(self)@),
            spec_find(old(self)@, id) matches Some(k) ==> valid_new_status(new_status@) ==> (r
                == Ok::<(), ApiError>(()) && final(self)@ == old(self)@.update(
                k,
                reviewed_report(
                    old(self)@[k],
                    spec_parse_status(new_status@)->Some_0,
                    reviewed_by,
                    review_notes,
                    now,
                ),
            ) && spec_find(final(self)@, id) == Some(k)),
    {
        proof {
            reveal_strlit("pending_review");
            reveal_strlit("approved");
            reveal_strlit("rejected");
            // The length facts let the solver tell the literals apart.
            assert("pending_review"@.len() == 14);
            assert("approved"@.len() == 8);
            assert("rejected"@.len() == 8);
        }
        let st = match Status::parse(new_status) {
            Some(Status::Approved) => Status::Approved,
            Some(Status::Rejected) => Status::Rejected,
            _ => {
                return Err(ApiError::InvalidInput);
            },
        };
        let n = self.reports.len();
        let mut k: usize = 0;
        while k < n
            invariant
                self@ == old(self)@,
                n == self@.len(),
                0 <= k <= n,
                find_from(self@, id, k as int) == spec_find(self@, id),
            decreases n - k,
        {
            if self.reports[k].id == id {
                let r_old = self.reports.remove(k);
                let r_new = Report {
                    status: st,
                    reviewed_by: Some(reviewed_by),
                    review_notes,
                    reviewed_at: Some(now),
                    ..r_old
                };
                proof {
                    let s = old(self)@;
                    let upd = reviewed_report(
                        s[k as int],
                        spec_parse_status(new_status@)->Some_0,
                        reviewed_by,
                        review_notes,
                        now,
                    );
                    assert(r_new == upd);
                    s.remove_ensures(k as int);
                    s.remove(k as int).insert_ensures(k as int, upd);
                    assert(s.remove(k as int).insert(k as int, upd) =~= s.update(k as int, upd));
                    lemma_update_keeps_wf(s, k as int, upd);
                    lemma_find_update(s, k as int, upd);
                }
                self.reports.insert(k, r_new);
                return Ok(());
            }
            k = k + 1;
        }
        Err(ApiError::NotFound)
    }

    /// The report with the given id, or `NotFound`.
    pub fn get_by_id(&self, id: u128) -> (r: Result<&Report, ApiError>)
        ensures
            spec_find(self@, id) matches Some(k) ==> (r matches Ok(rp) && *rp == self@[k]),
            spec_find(self@, id) is None ==> r == Err::<&Report, ApiError>(ApiError::NotFound),
            r is Ok <==> spec_get(self@, id) is Some,
    {
        let n = self.reports.len();
        let mut i: usize = 0;
        while i < n
            invariant
                n == self.reports.len(),
                0 <= i <= n,
                find_from(self@, id, i as int) == spec_find(self@, id),
            decreases n - i,
        {
            if self.reports[i].id == id {
                return Ok(&self.reports[i]);
            }
            i = i + 1;
        }
        Err(ApiError::NotFound)
    }
}

} // verus!
