//! The Report entity: records VENs send about events, with the coarser
//! business-versus-VEN access rules.
//!
//! Reads are granted to any authenticated caller.  Creation and update
//! are VEN-side operations and require a VEN role.  Deletion is permitted
//! to any business role regardless of VEN ownership — an intentional
//! broadening at the data layer, not an oversight.

use vstd::pervasive::VecAdditionalExecFns;
use vstd::prelude::*;

use crate::error::{id_exhausted_msg, AppError, DenialKind};
use crate::identity::Identity;
use crate::pagination::{lemma_filter_push, lemma_page_len, lemma_page_push, page};
use crate::permission::forbidden_msg;
use crate::program::ProgramId;
use crate::text::{char_len_in_range, lemma_make_id_injective, make_id, spec_make_id};
use crate::time::{spec_tick, tick, Timestamp};

verus! {

/// URL-safe, server-assigned identifier of a report, unique among reports
/// and immutable after creation.
#[derive(Debug)]
pub struct ReportId(pub String);

impl View for ReportId {
    type V = Seq<char>;

    open spec fn view(&self) -> Seq<char> {
        self.0@
    }
}

impl Clone for ReportId {
    fn clone(&self) -> (r: Self)
        ensures
            r@ == self@,
    {
        ReportId(self.0.clone())
    }
}

impl ReportId {
    /// Whether two identifiers name the same report.
    pub fn same_as(&self, other: &ReportId) -> (r: bool)
        ensures
            r == (self@ == other@),
    {
        self.0.eq(&other.0)
    }
}

/// URL-safe identifier of an event, referenced by reports and their
/// queries.
#[derive(Debug)]
pub struct EventId(pub String);

impl View for EventId {
    type V = Seq<char>;

    open spec fn view(&self) -> Seq<char> {
        self.0@
    }
}

impl Clone for EventId {
    fn clone(&self) -> (r: Self)
        ensures
            r@ == self@,
    {
        EventId(self.0.clone())
    }
}

/// The caller-supplied payload of a report record.
#[derive(Debug)]
pub struct ReportContent {
    /// The program this report belongs to.
    pub program_id: ProgramId,
    /// The event this report responds to.
    pub event_id: EventId,
    /// The client (VEN-side) name the report was produced under.
    pub client_name: String,
    /// Optional human-readable name.
    pub report_name: Option<String>,
}

/// Mathematical image of a report payload.
#[verifier::ext_equal]
pub ghost struct ReportContentV {
    pub program_id: Seq<char>,
    pub event_id: Seq<char>,
    pub client_name: Seq<char>,
    pub report_name: Option<Seq<char>>,
}

impl View for ReportContent {
    type V = ReportContentV;

    open spec fn view(&self) -> ReportContentV {
        ReportContentV {
            program_id: self.program_id@,
            event_id: self.event_id@,
            client_name: self.client_name@,
            report_name: match self.report_name {
                Some(n) => Some(n@),
                None => None,
            },
        }
    }
}

impl Clone for ReportContent {
    fn clone(&self) -> (r: Self)
        ensures
            r@ == self@,
    {
        ReportContent {
            program_id: ProgramId(self.program_id.0.clone()),
            event_id: self.event_id.clone(),
            client_name: self.client_name.clone(),
            report_name: match &self.report_name {
                Some(n) => Some(n.clone()),
                None => None,
            },
        }
    }
}

/// A stored report record.
#[derive(Debug)]
pub struct Report {
    pub id: ReportId,
    pub created_date_time: Timestamp,
    pub modification_date_time: Timestamp,
    pub content: ReportContent,
}

/// Mathematical image of a stored report record.
#[verifier::ext_equal]
pub ghost struct ReportV {
    pub id: Seq<char>,
    pub created: Timestamp,
    pub modified: Timestamp,
    pub content: ReportContentV,
}

impl View for Report {
    type V = ReportV;

    open spec fn view(&self) -> ReportV {
        ReportV {
            id: self.id@,
            created: self.created_date_time,
            modified: self.modification_date_time,
            content: self.content@,
        }
    }
}

impl Clone for Report {
    fn clone(&self) -> (r: Self)
        ensures
            r@ == self@,
    {
        Report {
            id: self.id.clone(),
            created_date_time: self.created_date_time,
            modification_date_time: self.modification_date_time,
            content: self.content.clone(),
        }
    }
}

/// The image of a sequence of stored reports.
pub open spec fn report_seq_view(s: Seq<Report>) -> Seq<ReportV> {
    s.map_values(|r: Report| r@)
}

/// Whether a report with the given id is present.
pub open spec fn has_report(rs: Seq<ReportV>, id: Seq<char>) -> bool {
    exists|i: int| 0 <= i < rs.len() && rs[i].id == id
}

/// No two stored reports share an id.
pub open spec fn unique_report_ids(rs: Seq<ReportV>) -> bool {
    forall|i: int, j: int|
        #![trigger rs[i].id, rs[j].id]
        0 <= i < j < rs.len() ==> rs[i].id != rs[j].id
}

/// The structural constraint on a report payload: the client name holds
/// 1 to 128 characters.
pub open spec fn report_content_valid(c: ReportContentV) -> bool {
    1 <= c.client_name.len() <= 128
}

/// Message carried by a rejected report payload.
pub open spec fn client_name_range_msg() -> Seq<char> {
    "clientName: string length outside of allowed range 1..=128"@
}

/// The id the store will assign to the report created while its counter
/// holds `n`.
pub open spec fn fresh_report_id(n: u64) -> Seq<char> {
    spec_make_id("report-"@, n as nat)
}

/// The record created from payload `c` while the store's counter holds
/// `next` and its clock holds `clock`.
pub open spec fn created_report_view(c: ReportContentV, next: u64, clock: u64) -> ReportV {
    ReportV {
        id: fresh_report_id(next),
        created: Timestamp(spec_tick(clock)),
        modified: Timestamp(spec_tick(clock)),
        content: c,
    }
}

/// Why a report creation is denied, if it is.  Reports are created by
/// VEN-side callers, and that role is established before the payload is
/// even examined, so the role check precedes validation here.  An
/// exhausted id counter — whose next assignment would have to repeat an
/// id — is the uniqueness violation the contract reserves `Conflict`
/// for; the store's invariant proves no other collision can occur.
pub open spec fn report_create_denial(c: ReportContentV, user: Identity, next: u64) -> Option<
    DenialKind,
> {
    if !user.spec_is_ven() {
        Some(DenialKind::Forbidden)
    } else if !report_content_valid(c) {
        Some(DenialKind::ValidationFailed)
    } else if next == u64::MAX {
        Some(DenialKind::Conflict)
    } else {
        None
    }
}

/// Why reading report `id` is denied, if it is: report reads are granted
/// to any authenticated caller, so only absence denies.
pub open spec fn report_get_denial(rs: Seq<ReportV>, id: Seq<char>) -> Option<DenialKind> {
    if !has_report(rs, id) {
        Some(DenialKind::NotFound)
    } else {
        None
    }
}

/// Why updating report `id` is denied, if it is: updates are VEN-side,
/// like creation.
pub open spec fn report_update_denial(
    rs: Seq<ReportV>,
    id: Seq<char>,
    c: ReportContentV,
    user: Identity,
) -> Option<DenialKind> {
    if !user.spec_is_ven() {
        Some(DenialKind::Forbidden)
    } else if !report_content_valid(c) {
        Some(DenialKind::ValidationFailed)
    } else if !has_report(rs, id) {
        Some(DenialKind::NotFound)
    } else {
        None
    }
}

/// Why deleting report `id` is denied, if it is: deletion is permitted to
/// any business role regardless of VEN ownership.
pub open spec fn report_delete_denial(rs: Seq<ReportV>, id: Seq<char>, user: Identity) -> Option<
    DenialKind,
> {
    if !user.spec_is_business() {
        Some(DenialKind::Forbidden)
    } else if !has_report(rs, id) {
        Some(DenialKind::NotFound)
    } else {
        None
    }
}

/// Validated query parameters of the report list operation.
#[derive(Debug)]
pub struct QueryParams {
    /// Keep only reports of this program.
    pub program_id: Option<ProgramId>,
    /// Keep only reports of this event.
    pub event_id: Option<EventId>,
    /// Keep only reports produced under this client name.
    pub client_name: Option<String>,
    /// Number of matching records to omit from the front of the result.
    pub skip: i64,
    /// Maximum number of records to return; 0 returns no records.
    pub limit: i64,
}

/// Mathematical image of the report query parameters.
#[verifier::ext_equal]
pub ghost struct QueryParamsV {
    pub program_id: Option<Seq<char>>,
    pub event_id: Option<Seq<char>>,
    pub client_name: Option<Seq<char>>,
    pub skip: i64,
    pub limit: i64,
}

impl View for QueryParams {
    type V = QueryParamsV;

    open spec fn view(&self) -> QueryParamsV {
        QueryParamsV {
            program_id: match self.program_id {
                Some(p) => Some(p@),
                None => None,
            },
            event_id: match self.event_id {
                Some(e) => Some(e@),
                None => None,
            },
            client_name: match self.client_name {
                Some(c) => Some(c@),
                None => None,
            },
            skip: self.skip,
            limit: self.limit,
        }
    }
}

impl QueryParams {
    /// The structural constraints every validated value satisfies:
    /// `skip` non-negative and `limit` in 0..=50.  A limit of 0 is
    /// accepted and returns no records.
    pub open spec fn spec_valid(&self) -> bool {
        &&& self.skip >= 0
        &&& 0 <= self.limit <= 50
    }

    /// Builds validated report query parameters, applying the default
    /// `skip` of 0 and `limit` of 50 for omitted values.
    pub fn new(
        program_id: Option<ProgramId>,
        event_id: Option<EventId>,
        client_name: Option<String>,
        skip: Option<i64>,
        limit: Option<i64>,
    ) -> (r: Result<QueryParams, AppError>)
        ensures
            r is Ok <==> (skip.unwrap_or(0) >= 0 && 0 <= limit.unwrap_or(50) <= 50),
            r matches Ok(q) ==> {
                &&& q.spec_valid()
                &&& q.skip == skip.unwrap_or(0)
                &&& q.limit == limit.unwrap_or(50)
                &&& (q@.program_id is Some <==> program_id is Some)
                &&& (program_id matches Some(p) ==> q@.program_id == Some(p@))
                &&& (q@.event_id is Some <==> event_id is Some)
                &&& (event_id matches Some(e) ==> q@.event_id == Some(e@))
                &&& (q@.client_name is Some <==> client_name is Some)
                &&& (client_name matches Some(c) ==> q@.client_name == Some(c@))
            },
            r matches Err(e) ==> e is ValidationFailed,
    {
        let skip: i64 = match skip {
            Some(s) => s,
            None => 0,
        };
        let limit: i64 = match limit {
            Some(l) => l,
            None => crate::pagination::get_50(),
        };
        if skip < 0 {
            return Err(AppError::ValidationFailed("skip must be non-negative".to_owned()));
        }
        if limit < 0 || limit > 50 {
            return Err(
                AppError::ValidationFailed("limit outside of allowed range 0..=50".to_owned()),
            );
        }
        Ok(QueryParams { program_id, event_id, client_name, skip, limit })
    }
}

/// Whether a stored report satisfies the query's field filters.
pub open spec fn report_matches_query(r: ReportV, q: QueryParamsV) -> bool {
    &&& (q.program_id matches Some(p) ==> r.content.program_id == p)
    &&& (q.event_id matches Some(e) ==> r.content.event_id == e)
    &&& (q.client_name matches Some(c) ==> r.content.client_name == c)
}

/// The predicate a report list operation filters the store with.
pub open spec fn report_query_pred(q: QueryParamsV) -> spec_fn(ReportV) -> bool {
    |r: ReportV| report_matches_query(r, q)
}

/// The reports a list operation returns: the matching records in
/// insertion order, paged.
pub open spec fn report_list(rs: Seq<ReportV>, q: QueryParamsV) -> Seq<ReportV> {
    page(rs.filter(report_query_pred(q)), q.skip as int, q.limit as int)
}

/// Whether a stored report satisfies the query's field filters.
fn report_matches(r: &Report, query: &QueryParams) -> (b: bool)
    ensures
        b == report_matches_query(r@, query@),
{
    let program_ok = match &query.program_id {
        Some(p) => r.content.program_id.0.eq(&p.0),
        None => true,
    };
    let event_ok = match &query.event_id {
        Some(e) => r.content.event_id.0.eq(&e.0),
        None => true,
    };
    let client_ok = match &query.client_name {
        Some(c) => r.content.client_name.eq(c),
        None => true,
    };
    program_ok && event_ok && client_ok
}

/// Authorization-read consistency for reports: a record that `list`
/// returns is one that `get` would grant — report reads are open to any
/// authenticated caller, so only presence matters.
pub proof fn lemma_report_list_get_consistent(rs: Seq<ReportV>, q: QueryParamsV, j: int)
    requires
        q.skip >= 0,
        q.limit >= 0,
        0 <= j < report_list(rs, q).len(),
    ensures
        report_get_denial(rs, report_list(rs, q)[j].id) is None,
{
    let pred = report_query_pred(q);
    let f = rs.filter(pred);
    let skip = q.skip as int;
    let limit = q.limit as int;
    lemma_page_len(f, skip, limit);
    crate::pagination::lemma_page_elements(f, skip, limit);
    let x = report_list(rs, q)[j];
    assert(x == f[skip + j]);
    assert(f.contains(x));
    crate::pagination::lemma_filter_subset(rs, pred);
    assert(rs.contains(x));
    let i0 = choose|i0: int| 0 <= i0 < rs.len() && rs[i0] == x;
    assert(rs[i0].id == x.id);
    assert(has_report(rs, x.id));
}

/// The storage backend for report records.
#[derive(Debug)]
pub struct ReportStore {
    items: Vec<Report>,
    next_id: u64,
    clock: u64,
}

impl ReportStore {
    /// The stored records, in insertion order.
    pub closed spec fn reports(&self) -> Seq<ReportV> {
        report_seq_view(self.items@)
    }

    /// The counter the next server-assigned id is rendered from.
    pub closed spec fn spec_next_id(&self) -> u64 {
        self.next_id
    }

    /// The store's logical clock.
    pub closed spec fn spec_clock(&self) -> u64 {
        self.clock
    }

    /// The store's invariant: ids are unique for the lifetime of the
    /// store, and every record was created no later than it was modified,
    /// no later than the clock.
    pub open spec fn wf(&self) -> bool {
        &&& unique_report_ids(self.reports())
        &&& forall|i: int|
            0 <= i < self.reports().len() ==> (#[trigger] self.reports()[i]).created.0
                <= self.reports()[i].modified.0 <= self.spec_clock()
        &&& forall|i: int|
            0 <= i < self.reports().len() ==> exists|k: u64|
                k < self.spec_next_id() && (#[trigger] self.reports()[i]).id == fresh_report_id(
                    k,
                )
    }

    /// Server-assigned ids never collide: while the invariant holds, the
    /// id the next creation would assign is unused, because every stored
    /// id was rendered from an earlier counter value and rendering is
    /// injective.
    pub proof fn lemma_fresh_id_unused(self)
        requires
            self.wf(),
        ensures
            !has_report(self.reports(), fresh_report_id(self.spec_next_id())),
    {
        let rs = self.reports();
        let next = self.spec_next_id();
        if has_report(rs, fresh_report_id(next)) {
            let i = choose|i: int| 0 <= i < rs.len() && rs[i].id == fresh_report_id(next);
            let k = choose|k: u64| k < next && rs[i].id == fresh_report_id(k);
            lemma_make_id_injective("report-"@, k as nat, next as nat);
        }
    }

    /// An empty store.
    pub fn new() -> (s: ReportStore)
        ensures
            s.wf(),
            s.reports() == Seq::<ReportV>::empty(),
            s.spec_next_id() == 0,
            s.spec_clock() == 0,
    {
        let s = ReportStore { items: Vec::new(), next_id: 0, clock: 0 };
        proof {
            assert(s.reports() =~= Seq::<ReportV>::empty());
        }
        s
    }

    /// Lists the reports matching the validated query, in insertion
    /// order, paged.  Report reads are granted to any authenticated
    /// caller, so the identity — taken explicitly, like everywhere — does
    /// not narrow the result.
    pub fn retrieve_all(&self, query: &QueryParams, _user: &Identity) -> (r: Result<
        Vec<Report>,
        AppError,
    >)
        requires
            self.wf(),
            query.spec_valid(),
        ensures
            r matches Ok(v) && report_seq_view(v@) == report_list(self.reports(), query@),
    {
        let ghost full = self.reports();
        let ghost pred = report_query_pred(query@);
        let ghost skip = query.skip as int;
        let ghost limit = query.limit as int;
        let mut out: Vec<Report> = Vec::new();
        let mut matched: u64 = 0;
        let mut i: usize = 0;
        while i < self.items.len()
            invariant
                self.wf(),
                query.spec_valid(),
                skip == query.skip as int,
                limit == query.limit as int,
                full == self.reports(),
                pred == report_query_pred(query@),
                i <= self.items.len(),
                matched == full.take(i as int).filter(pred).len(),
                matched <= i,
                report_seq_view(out@) == page(full.take(i as int).filter(pred), skip, limit),
                out@.len() <= limit,
            decreases self.items.len() - i,
        {
            let ghost prefix = full.take(i as int);
            proof {
                assert(full.take(i as int + 1) =~= prefix.push(full[i as int]));
                lemma_filter_push(prefix, full[i as int], pred);
                lemma_page_len(prefix.filter(pred), skip, limit);
                lemma_page_len(full.take(i as int + 1).filter(pred), skip, limit);
            }
            let keep = report_matches(&self.items[i], query);
            if keep {
                assert(pred(full[i as int]));
                if matched >= (query.skip as u64) && out.len() < (query.limit as usize) {
                    out.push(self.items[i].clone());
                    proof {
                        lemma_page_push(prefix.filter(pred), full[i as int], skip, limit);
                        assert(report_seq_view(out@) =~= page(
                            full.take(i as int + 1).filter(pred),
                            skip,
                            limit,
                        ));
                    }
                } else {
                    proof {
                        lemma_page_push(prefix.filter(pred), full[i as int], skip, limit);
                        assert(report_seq_view(out@) =~= page(
                            full.take(i as int + 1).filter(pred),
                            skip,
                            limit,
                        ));
                    }
                }
                matched = matched + 1;
            } else {
                proof {
                    assert(!pred(full[i as int]));
                    assert(report_seq_view(out@) =~= page(
                        full.take(i as int + 1).filter(pred),
                        skip,
                        limit,
                    ));
                }
            }
            i = i + 1;
        }
        proof {
            assert(full.take(self.items.len() as int) =~= full);
        }
        Ok(out)
    }

    /// Looks report `id` up: `NotFound` when no such report exists, the
    /// stored record otherwise.  Reads are granted to any authenticated
    /// caller.
    pub fn retrieve(&self, id: &ReportId, _user: &Identity) -> (r: Result<Report, AppError>)
        requires
            self.wf(),
        ensures
            r is Ok <==> report_get_denial(self.reports(), id@) is None,
            report_get_denial(self.reports(), id@) == Some(DenialKind::NotFound) ==> r matches Err(
                AppError::NotFound,
            ),
            r matches Ok(v) ==> v@.id == id@ && self.reports().contains(v@),
    {
        let mut i: usize = 0;
        while i < self.items.len()
            invariant
                i <= self.items.len(),
                forall|j: int| 0 <= j < i ==> (#[trigger] self.reports()[j]).id != id@,
            decreases self.items.len() - i,
        {
            if self.items[i].id.same_as(id) {
                let v = self.items[i].clone();
                proof {
                    assert(self.reports()[i as int] == v@);
                    assert(has_report(self.reports(), id@));
                }
                return Ok(v);
            }
            i = i + 1;
        }
        Err(AppError::NotFound)
    }

    /// Creates a report: the caller must hold a VEN role — established
    /// before the payload is examined — then the payload is validated,
    /// the id and both timestamps are assigned, and the record persists.
    pub fn create(&mut self, new_report: ReportContent, user: &Identity) -> (r: Result<
        Report,
        AppError,
    >)
        requires
            old(self).wf(),
        ensures
            final(self).wf(),
            r is Ok <==> report_create_denial(new_report@, *user, old(self).spec_next_id())
                is None,
            r is Err ==> *final(self) == *old(self),
            report_create_denial(new_report@, *user, old(self).spec_next_id()) == Some(
                DenialKind::Forbidden,
            ) ==> (r matches Err(AppError::Forbidden(m)) && m@ == forbidden_msg()),
            report_create_denial(new_report@, *user, old(self).spec_next_id()) == Some(
                DenialKind::ValidationFailed,
            ) ==> (r matches Err(AppError::ValidationFailed(m)) && m@
                == client_name_range_msg()),
            report_create_denial(new_report@, *user, old(self).spec_next_id()) == Some(
                DenialKind::Conflict,
            ) ==> (r matches Err(AppError::Conflict(m)) && m@ == id_exhausted_msg()),
            r matches Ok(v) ==> {
                &&& v@ == created_report_view(
                    new_report@,
                    old(self).spec_next_id(),
                    old(self).spec_clock(),
                )
                &&& final(self).reports() == old(self).reports().push(v@)
                &&& final(self).spec_next_id() == spec_tick(old(self).spec_next_id())
                &&& final(self).spec_clock() == spec_tick(old(self).spec_clock())
            },
    {
        if !user.is_ven() {
            return Err(
                AppError::Forbidden("User not authorized to access this resource".to_owned()),
            );
        }
        if !char_len_in_range(new_report.client_name.as_str(), 1, 128) {
            return Err(
                AppError::ValidationFailed(
                    "clientName: string length outside of allowed range 1..=128".to_owned(),
                ),
            );
        }
        if self.next_id == u64::MAX {
            return Err(
                AppError::Conflict("server-assigned object id space exhausted".to_owned()),
            );
        }
        let id = ReportId(make_id("report-", self.next_id));
        let now = tick(self.clock);
        let report = Report {
            id,
            created_date_time: Timestamp(now),
            modification_date_time: Timestamp(now),
            content: new_report,
        };
        let result = report.clone();
        self.items.push(report);
        self.next_id = tick(self.next_id);
        self.clock = now;
        proof {
            let prev = old(self).reports();
            let next0 = old(self).spec_next_id();
            let fresh = fresh_report_id(next0);
            assert(self.reports() =~= prev.push(
                created_report_view(result@.content, next0, old(self).spec_clock()),
            ));
            old(self).lemma_fresh_id_unused();
            let rs = self.reports();
            assert forall|i: int, j: int|
                #![trigger rs[i].id, rs[j].id]
                0 <= i < j < rs.len() implies rs[i].id != rs[j].id by {
                if j < prev.len() {
                    assert(prev[i].id != prev[j].id);
                } else {
                    assert(rs[j].id == fresh);
                    if prev[i].id == fresh {
                        assert(has_report(prev, fresh));
                    }
                }
            }
            assert forall|i: int| 0 <= i < rs.len() implies exists|k: u64|
                k < self.spec_next_id() && (#[trigger] rs[i]).id == fresh_report_id(k) by {
                if i < prev.len() {
                    let k = choose|k: u64| k < next0 && prev[i].id == fresh_report_id(k);
                    assert(rs[i].id == fresh_report_id(k));
                } else {
                    assert(rs[i].id == fresh_report_id(next0));
                }
            }
        }
        Ok(result)
    }

    /// Replaces the content of report `id` wholesale and bumps its
    /// modification time.  Updates are VEN-side, like creation.
    pub fn update(&mut self, id: &ReportId, content: ReportContent, user: &Identity) -> (r: Result<
        Report,
        AppError,
    >)
        requires
            old(self).wf(),
        ensures
            final(self).wf(),
            r is Ok <==> report_update_denial(old(self).reports(), id@, content@, *user) is None,
            r is Err ==> *final(self) == *old(self),
            report_update_denial(old(self).reports(), id@, content@, *user) == Some(
                DenialKind::Forbidden,
            ) ==> (r matches Err(AppError::Forbidden(m)) && m@ == forbidden_msg()),
            report_update_denial(old(self).reports(), id@, content@, *user) == Some(
                DenialKind::ValidationFailed,
            ) ==> (r matches Err(AppError::ValidationFailed(m)) && m@ == client_name_range_msg()),
            report_update_denial(old(self).reports(), id@, content@, *user) == Some(
                DenialKind::NotFound,
            ) ==> r matches Err(AppError::NotFound),
            r matches Ok(v) ==> exists|i: int|
                {
                    &&& 0 <= i < old(self).reports().len()
                    &&& (#[trigger] old(self).reports()[i]).id == id@
                    &&& v@ == ReportV {
                        id: id@,
                        created: old(self).reports()[i].created,
                        modified: Timestamp(spec_tick(old(self).spec_clock())),
                        content: content@,
                    }
                    &&& final(self).reports() == old(self).reports().update(i, v@)
                    &&& final(self).spec_clock() == spec_tick(old(self).spec_clock())
                    &&& final(self).spec_next_id() == old(self).spec_next_id()
                },
    {
        if !user.is_ven() {
            return Err(
                AppError::Forbidden("User not authorized to access this resource".to_owned()),
            );
        }
        if !char_len_in_range(content.client_name.as_str(), 1, 128) {
            return Err(
                AppError::ValidationFailed(
                    "clientName: string length outside of allowed range 1..=128".to_owned(),
                ),
            );
        }
        let mut i: usize = 0;
        while i < self.items.len()
            invariant
                old(self).wf(),
                *self == *old(self),
                report_content_valid(content@),
                user.spec_is_ven(),
                i <= self.items.len(),
                forall|j: int| 0 <= j < i ==> (#[trigger] self.reports()[j]).id != id@,
            decreases self.items.len() - i,
        {
            if self.items[i].id.same_as(id) {
                let now = tick(self.clock);
                let report = Report {
                    id: ReportId(self.items[i].id.0.clone()),
                    created_date_time: self.items[i].created_date_time,
                    modification_date_time: Timestamp(now),
                    content,
                };
                let result = report.clone();
                proof {
                    assert(old(self).reports()[i as int].id == id@);
                    assert(has_report(old(self).reports(), id@));
                }
                self.items.set(i, report);
                self.clock = now;
                proof {
                    assert(self.reports() =~= old(self).reports().update(i as int, result@));
                    let prev = old(self).reports();
                    let rs = self.reports();
                    assert forall|j: int| 0 <= j < rs.len() implies exists|k: u64|
                        k < self.spec_next_id() && (#[trigger] rs[j]).id == fresh_report_id(
                            k,
                        ) by {
                        let k = choose|k: u64|
                            k < old(self).spec_next_id() && prev[j].id == fresh_report_id(k);
                        assert(rs[j].id == fresh_report_id(k));
                    }
                }
                return Ok(result);
            }
            i = i + 1;
        }
        Err(AppError::NotFound)
    }

    /// Deletes report `id` and returns its last state.  Deletion is
    /// permitted to any business role regardless of VEN ownership — an
    /// intentional broadening at the data layer.
    pub fn delete(&mut self, id: &ReportId, user: &Identity) -> (r: Result<Report, AppError>)
        requires
            old(self).wf(),
        ensures
            final(self).wf(),
            r is Ok <==> report_delete_denial(old(self).reports(), id@, *user) is None,
            r is Err ==> *final(self) == *old(self),
            report_delete_denial(old(self).reports(), id@, *user) == Some(DenialKind::Forbidden)
                ==> (r matches Err(AppError::Forbidden(m)) && m@ == forbidden_msg()),
            report_delete_denial(old(self).reports(), id@, *user) == Some(DenialKind::NotFound)
                ==> r matches Err(AppError::NotFound),
            r matches Ok(v) ==> exists|i: int|
                {
                    &&& 0 <= i < old(self).reports().len()
                    &&& (#[trigger] old(self).reports()[i]).id == id@
                    &&& v@ == old(self).reports()[i]
                    &&& final(self).reports() == old(self).reports().remove(i)
                    &&& final(self).spec_clock() == old(self).spec_clock()
                    &&& final(self).spec_next_id() == old(self).spec_next_id()
                },
    {
        if !user.is_business() {
            return Err(
                AppError::Forbidden("User not authorized to access this resource".to_owned()),
            );
        }
        let mut i: usize = 0;
        while i < self.items.len()
            invariant
                old(self).wf(),
                *self == *old(self),
                user.spec_is_business(),
                i <= self.items.len(),
                forall|j: int| 0 <= j < i ==> (#[trigger] self.reports()[j]).id != id@,
            decreases self.items.len() - i,
        {
            if self.items[i].id.same_as(id) {
                proof {
                    assert(old(self).reports()[i as int].id == id@);
                    assert(has_report(old(self).reports(), id@));
                }
                let report = self.items.remove(i);
                proof {
                    assert(self.reports() =~= old(self).reports().remove(i as int));
                    let prev = old(self).reports();
                    let rs = self.reports();
                    assert forall|j: int| 0 <= j < rs.len() implies exists|k: u64|
                        k < self.spec_next_id() && (#[trigger] rs[j]).id == fresh_report_id(
                            k,
                        ) by {
                        let j0: int = if j < i { j } else { j + 1 };
                        assert(rs[j] == prev[j0]);
                        let k = choose|k: u64|
                            k < old(self).spec_next_id() && prev[j0].id == fresh_report_id(k);
                        assert(rs[j].id == fresh_report_id(k));
                    }
                }
                return Ok(report);
            }
            i = i + 1;
        }
        Err(AppError::NotFound)
    }
}

} // verus!
